//! Queries and their wire form.

use vstd::prelude::*;
use crate::error::DecodeError;
use crate::message::{
    be16, parse_header, parse_message, parse_question, parse_questions, parse_records,
    recursion_desired, Header, MessageView, QuestionView, RecordView, CLASS_IN,
};
use crate::name::{encode_name, encoded_name_reads_back, has_valid_labels, labels_ok, write_name, Name};

verus! {

/// One question to put to a server.
#[derive(Clone, Debug, PartialEq, Eq)]
pub struct Query {
    pub id: u16,
    pub name: Name,
    pub rtype: u16,
    pub recursion_desired: bool,
}

/// A query as the contracts see it.
pub struct QueryView {
    pub id: u16,
    pub name: Seq<Seq<u8>>,
    pub rtype: u16,
    pub recursion_desired: bool,
}

impl View for Query {
    type V = QueryView;

    open spec fn view(&self) -> QueryView {
        QueryView {
            id: self.id,
            name: self.name@,
            rtype: self.rtype,
            recursion_desired: self.recursion_desired,
        }
    }
}

/// The flags of a query: only the recursion-desired bit, where it is asked for.
pub open spec fn query_flags(recursion: bool) -> u16 {
    if recursion {
        0x0100
    } else {
        0
    }
}

/// The header of the message that carries `q`: one question, nothing else.
pub open spec fn query_header(q: QueryView) -> Header {
    Header {
        id: q.id,
        flags: query_flags(q.recursion_desired),
        qdcount: 1,
        ancount: 0,
        nscount: 0,
        arcount: 0,
    }
}

/// The question that carries `q`, in class IN.
pub open spec fn query_question(q: QueryView) -> QuestionView {
    QuestionView { name: q.name, qtype: q.rtype, qclass: CLASS_IN }
}

/// The message that carries `q`.
pub open spec fn query_message(q: QueryView) -> MessageView {
    MessageView {
        header: query_header(q),
        questions: seq![query_question(q)],
        answers: Seq::empty(),
        authority: Seq::empty(),
        additional: Seq::empty(),
    }
}

/// The high octet of a 16-bit number.
pub open spec fn hi(v: u16) -> u8 {
    (v / 256) as u8
}

/// The low octet of a 16-bit number.
pub open spec fn lo(v: u16) -> u8 {
    (v % 256) as u8
}

/// The twelve header octets of the message that carries `q`.
pub open spec fn header_bytes(q: QueryView) -> Seq<u8> {
    seq![
        hi(q.id),
        lo(q.id),
        hi(query_flags(q.recursion_desired)),
        0u8,
        0u8,
        1u8,
        0u8,
        0u8,
        0u8,
        0u8,
        0u8,
        0u8,
    ]
}

/// The wire form of the message that carries `q`: header, name, type, class.
pub open spec fn encode_query(q: QueryView) -> Seq<u8> {
    header_bytes(q) + encode_name(q.name) + seq![hi(q.rtype), lo(q.rtype), 0u8, 1u8]
}

impl Query {
    /// Whether the query can be encoded: every label has between 1 and 63 octets.
    pub fn is_well_formed(&self) -> (ok: bool)
        ensures
            ok == labels_ok(self@.name),
    {
        has_valid_labels(&self.name)
    }
}

/// Encodes a query as a wire message: the twelve-octet header with the query's ID, the
/// recursion-desired flag and a question count of one, then the name as length-prefixed
/// labels behind a zero octet, the type and the class IN.
pub fn encode(q: &Query) -> (out: Vec<u8>)
    requires
        labels_ok(q@.name),
    ensures
        out@ == encode_query(q@),
{
    let mut out: Vec<u8> = Vec::new();
    out.push((q.id / 256) as u8);
    out.push((q.id % 256) as u8);
    out.push(if q.recursion_desired { 1u8 } else { 0u8 });
    out.push(0);
    out.push(0);
    out.push(1);
    out.push(0);
    out.push(0);
    out.push(0);
    out.push(0);
    out.push(0);
    out.push(0);
    assert(out@ =~= header_bytes(q@));
    write_name(&q.name, &mut out);
    out.push((q.rtype / 256) as u8);
    out.push((q.rtype % 256) as u8);
    out.push(0);
    out.push(1);
    assert(out@ =~= encode_query(q@));
    out
}

/// Decoding the wire form of a well-formed query gives back its ID, its recursion flag,
/// and one question with its name and type; the other sections are empty.
pub proof fn query_round_trip(q: QueryView)
    requires
        labels_ok(q.name),
    ensures
        parse_message(encode_query(q)) == Ok::<_, DecodeError>(query_message(q)),
        recursion_desired(query_header(q).flags) == q.recursion_desired,
{
    let b = encode_query(q);
    let head = header_bytes(q);
    let enc = encode_name(q.name);
    let end: int = 12 + enc.len() as int;
    assert(head.len() == 12);
    assert(b.len() == end + 4);
    assert forall|i: int| 0 <= i < 12 implies b[i] == head[i] by {}
    assert(parse_header(b) == query_header(q)) by {
        assert(be16(b, 0) == q.id);
        assert(be16(b, 2) == query_flags(q.recursion_desired));
        assert(be16(b, 4) == 1);
        assert(be16(b, 6) == 0);
        assert(be16(b, 8) == 0);
        assert(be16(b, 10) == 0);
    }
    assert(b.subrange(12, end) =~= enc);
    encoded_name_reads_back(b, 12, q.name);
    assert(b[end] == hi(q.rtype));
    assert(b[end + 1] == lo(q.rtype));
    assert(b[end + 2] == 0);
    assert(b[end + 3] == 1);
    assert(be16(b, end) == q.rtype);
    assert(be16(b, end + 2) == CLASS_IN);
    assert(parse_question(b, 12) == Ok::<_, DecodeError>((query_question(q), end + 4)));
    reveal_with_fuel(parse_questions, 2);
    assert(Seq::<QuestionView>::empty().push(query_question(q)) =~= seq![query_question(q)]);
    assert(parse_questions(b, 12, 1, Seq::empty()) == Ok::<_, DecodeError>(
        (seq![query_question(q)], end + 4),
    ));
    assert(parse_records(b, end + 4, 0, Seq::empty()) == Ok::<_, DecodeError>(
        (Seq::<RecordView>::empty(), end + 4),
    ));
}

} // verus!
