//! The interpreter: holds a decoded response against the query that it should answer.

use vstd::prelude::*;
use crate::error::ValidationError;
use crate::message::{
    records_view, response_code, Message, MessageView, Question, QuestionView, Record, RecordView,
    questions_view, TYPE_SOA,
};
use crate::name::same_name;
use crate::query::{Query, QueryView};

verus! {

/// What a valid response says.
#[derive(Clone, Debug, PartialEq, Eq)]
pub enum Outcome {
    /// The records of the answer section, in the order of the message.
    Records(Vec<Record>),
    /// No answer, but the authority section holds an SOA record: the name exists
    /// and has no data of the type asked for.
    EmptyAuthoritative,
}

/// An outcome as the contracts see it.
pub enum OutcomeView {
    Records(Seq<RecordView>),
    EmptyAuthoritative,
}

impl View for Outcome {
    type V = OutcomeView;

    open spec fn view(&self) -> OutcomeView {
        match *self {
            Outcome::Records(r) => OutcomeView::Records(records_view(r@)),
            Outcome::EmptyAuthoritative => OutcomeView::EmptyAuthoritative,
        }
    }
}

/// Every entry of the question section repeats the query's name and type.
pub open spec fn echoes(q: QueryView, questions: Seq<QuestionView>) -> bool {
    forall|i: int|
        0 <= i < questions.len() ==> (#[trigger] questions[i]).name == q.name && questions[i].qtype
            == q.rtype
}

/// Some record of the section is an SOA record.
pub open spec fn has_soa(records: Seq<RecordView>) -> bool {
    exists|i: int| 0 <= i < records.len() && (#[trigger] records[i]).rtype == TYPE_SOA
}

/// The verdict on a response: the checks in order are the transaction ID, the echo of
/// the question, and the response code; then the answer section is handed out.
pub open spec fn judge(q: QueryView, m: MessageView) -> Result<OutcomeView, ValidationError> {
    let code = response_code(m.header.flags);
    if m.header.id != q.id {
        Err(ValidationError::Mismatch)
    } else if !echoes(q, m.questions) {
        Err(ValidationError::QuestionMismatch)
    } else if code == 3 {
        Err(ValidationError::NameError)
    } else if code == 2 {
        Err(ValidationError::ServerFailure)
    } else if code != 0 {
        Err(ValidationError::ResponseCode(code as u8))
    } else if m.answers.len() == 0 && has_soa(m.authority) {
        Ok(OutcomeView::EmptyAuthoritative)
    } else {
        Ok(OutcomeView::Records(m.answers))
    }
}

/// Whether a verdict is the one that the rules prescribe.
pub open spec fn verdict_is(
    r: Result<Outcome, ValidationError>,
    want: Result<OutcomeView, ValidationError>,
) -> bool {
    match (r, want) {
        (Ok(v), Ok(w)) => v@ == w,
        (Err(x), Err(y)) => x == y,
        _ => false,
    }
}

/// Whether every question repeats the query's name and type.
pub fn questions_echo(q: &Query, questions: &Vec<Question>) -> (ok: bool)
    ensures
        ok == echoes(q@, questions_view(questions@)),
{
    let mut i: usize = 0;
    while i < questions.len()
        invariant
            i <= questions.len(),
            forall|k: int|
                0 <= k < i ==> (#[trigger] questions_view(questions@)[k]).name == q@.name
                    && questions_view(questions@)[k].qtype == q@.rtype,
        decreases questions.len() - i,
    {
        let entry = &questions[i];
        assert(questions_view(questions@)[i as int] == entry@);
        if entry.qtype != q.rtype || !same_name(&entry.name, &q.name) {
            return false;
        }
        i += 1;
    }
    true
}

/// Whether some record of the section is an SOA record.
pub fn contains_soa(records: &Vec<Record>) -> (found: bool)
    ensures
        found == has_soa(records_view(records@)),
{
    let mut i: usize = 0;
    while i < records.len()
        invariant
            i <= records.len(),
            forall|k: int| 0 <= k < i ==> (#[trigger] records_view(records@)[k]).rtype != TYPE_SOA,
        decreases records.len() - i,
    {
        if records[i].rtype == TYPE_SOA {
            assert(records_view(records@)[i as int].rtype == TYPE_SOA);
            return true;
        }
        assert(records_view(records@)[i as int] == records@[i as int]@);
        i += 1;
    }
    false
}

/// Validates a response against the query. A differing transaction ID gives `Mismatch`;
/// a question section that does not echo the query gives `QuestionMismatch`; response
/// code 3 gives `NameError`, 2 gives `ServerFailure`, any other non-zero code
/// `ResponseCode`. Otherwise the answer records are returned, or `EmptyAuthoritative`
/// where there are none and the authority section holds an SOA record.
pub fn validate(q: &Query, m: Message) -> (r: Result<Outcome, ValidationError>)
    ensures
        verdict_is(r, judge(q@, m@)),
{
    let code: u8 = m.header.rcode();
    if m.header.id != q.id {
        return Err(ValidationError::Mismatch);
    }
    if !questions_echo(q, &m.questions) {
        return Err(ValidationError::QuestionMismatch);
    }
    if code == 3 {
        return Err(ValidationError::NameError);
    }
    if code == 2 {
        return Err(ValidationError::ServerFailure);
    }
    if code != 0 {
        return Err(ValidationError::ResponseCode(code));
    }
    if m.answers.len() == 0 && contains_soa(&m.authority) {
        return Ok(Outcome::EmptyAuthoritative);
    }
    assert(records_view(m.answers@).len() == m.answers@.len());
    Ok(Outcome::Records(m.answers))
}

/// A query and a message have one verdict, however often it is asked for: any two
/// results that `validate` returns for one pair are equal.
pub proof fn validation_is_repeatable(
    q: QueryView,
    m: MessageView,
    first: Result<Outcome, ValidationError>,
    second: Result<Outcome, ValidationError>,
)
    requires
        verdict_is(first, judge(q, m)),
        verdict_is(second, judge(q, m)),
    ensures
        first is Ok <==> second is Ok,
        first is Ok ==> first->Ok_0@ == second->Ok_0@,
        first is Err ==> first->Err_0 == second->Err_0,
{
}

} // verus!
