//! Messages: header, questions and resource records, and how they are read from wire bytes.

use vstd::prelude::*;
use crate::error::DecodeError;
use crate::name::{
    deep_pointer_chain_is_rejected, labels_view, name_end_in_bounds, parse_name, pointers_followed,
    Name, MAX_POINTER_JUMPS,
};

verus! {

pub const TYPE_A: u16 = 1;
pub const TYPE_NS: u16 = 2;
pub const TYPE_CNAME: u16 = 5;
pub const TYPE_SOA: u16 = 6;
pub const TYPE_PTR: u16 = 12;
pub const TYPE_MX: u16 = 15;
pub const TYPE_TXT: u16 = 16;
pub const TYPE_AAAA: u16 = 28;
pub const CLASS_IN: u16 = 1;

/// The fixed twelve octets at the head of every message.
#[derive(Clone, Copy, Debug, PartialEq, Eq, Structural)]
pub struct Header {
    pub id: u16,
    pub flags: u16,
    pub qdcount: u16,
    pub ancount: u16,
    pub nscount: u16,
    pub arcount: u16,
}

/// The response code: the low four bits of the flags.
pub open spec fn response_code(flags: u16) -> int {
    flags as int % 16
}

/// The recursion-desired bit of the flags.
pub open spec fn recursion_desired(flags: u16) -> bool {
    (flags as int / 256) % 2 == 1
}

/// The truncation bit of the flags.
pub open spec fn truncation_flag(flags: u16) -> bool {
    (flags as int / 512) % 2 == 1
}

impl Header {
    /// The response code.
    pub fn rcode(&self) -> (c: u8)
        ensures
            c as int == response_code(self.flags),
    {
        (self.flags % 16) as u8
    }

    /// Whether the truncation flag is set.
    pub fn is_truncated(&self) -> (t: bool)
        ensures
            t == truncation_flag(self.flags),
    {
        (self.flags / 512) % 2 == 1
    }

    /// Whether the recursion-desired flag is set.
    pub fn wants_recursion(&self) -> (t: bool)
        ensures
            t == recursion_desired(self.flags),
    {
        (self.flags / 256) % 2 == 1
    }
}

/// One entry of the question section.
#[derive(Clone, Debug, PartialEq, Eq)]
pub struct Question {
    pub name: Name,
    pub qtype: u16,
    pub qclass: u16,
}

/// A question as the contracts see it.
pub struct QuestionView {
    pub name: Seq<Seq<u8>>,
    pub qtype: u16,
    pub qclass: u16,
}

impl View for Question {
    type V = QuestionView;

    open spec fn view(&self) -> QuestionView {
        QuestionView { name: self.name@, qtype: self.qtype, qclass: self.qclass }
    }
}

/// A record's payload, by the shape that its type prescribes.
#[derive(Clone, Debug, PartialEq, Eq)]
pub enum RData {
    /// The 4 octets of an A record or the 16 of an AAAA record.
    Address(Vec<u8>),
    /// The name of an NS, CNAME or PTR record.
    NameRef(Name),
    /// The character strings of a TXT record.
    Text(Vec<Vec<u8>>),
    /// The preference and exchange of an MX record.
    Exchange { preference: u16, name: Name },
    /// The seven fields of an SOA record.
    Soa {
        mname: Name,
        rname: Name,
        serial: u32,
        refresh: u32,
        retry: u32,
        expire: u32,
        minimum: u32,
    },
    /// The payload of any other type, kept as it came.
    Raw(Vec<u8>),
}

/// A payload as the contracts see it.
pub enum RDataView {
    Address(Seq<u8>),
    NameRef(Seq<Seq<u8>>),
    Text(Seq<Seq<u8>>),
    Exchange { preference: u16, name: Seq<Seq<u8>> },
    Soa {
        mname: Seq<Seq<u8>>,
        rname: Seq<Seq<u8>>,
        serial: u32,
        refresh: u32,
        retry: u32,
        expire: u32,
        minimum: u32,
    },
    Raw(Seq<u8>),
}

impl View for RData {
    type V = RDataView;

    open spec fn view(&self) -> RDataView {
        match *self {
            RData::Address(a) => RDataView::Address(a@),
            RData::NameRef(n) => RDataView::NameRef(n@),
            RData::Text(t) => RDataView::Text(labels_view(t@)),
            RData::Exchange { preference, name } => RDataView::Exchange { preference, name: name@ },
            RData::Soa { mname, rname, serial, refresh, retry, expire, minimum } => RDataView::Soa {
                mname: mname@,
                rname: rname@,
                serial,
                refresh,
                retry,
                expire,
                minimum,
            },
            RData::Raw(r) => RDataView::Raw(r@),
        }
    }
}

/// Whether a payload has the shape that the record type prescribes.
pub open spec fn payload_fits_type(rtype: u16, data: RDataView) -> bool {
    if rtype == TYPE_A {
        data is Address && data->Address_0.len() == 4
    } else if rtype == TYPE_AAAA {
        data is Address && data->Address_0.len() == 16
    } else if rtype == TYPE_NS || rtype == TYPE_CNAME || rtype == TYPE_PTR {
        data is NameRef
    } else if rtype == TYPE_MX {
        data is Exchange
    } else if rtype == TYPE_TXT {
        data is Text
    } else if rtype == TYPE_SOA {
        data is Soa
    } else {
        data is Raw
    }
}

/// A resource record.
#[derive(Clone, Debug, PartialEq, Eq)]
pub struct Record {
    pub name: Name,
    pub rtype: u16,
    pub class: u16,
    pub ttl: u32,
    pub data: RData,
}

/// A record as the contracts see it.
pub struct RecordView {
    pub name: Seq<Seq<u8>>,
    pub rtype: u16,
    pub class: u16,
    pub ttl: u32,
    pub data: RDataView,
}

impl View for Record {
    type V = RecordView;

    open spec fn view(&self) -> RecordView {
        RecordView {
            name: self.name@,
            rtype: self.rtype,
            class: self.class,
            ttl: self.ttl,
            data: self.data@,
        }
    }
}

/// The questions held by a vector.
pub open spec fn questions_view(v: Seq<Question>) -> Seq<QuestionView> {
    Seq::new(v.len(), |i: int| v[i]@)
}

/// The records held by a vector.
pub open spec fn records_view(v: Seq<Record>) -> Seq<RecordView> {
    Seq::new(v.len(), |i: int| v[i]@)
}

/// A decoded message.
#[derive(Clone, Debug, PartialEq, Eq)]
pub struct Message {
    pub header: Header,
    pub questions: Vec<Question>,
    pub answers: Vec<Record>,
    pub authority: Vec<Record>,
    pub additional: Vec<Record>,
}

/// A message as the contracts see it.
pub struct MessageView {
    pub header: Header,
    pub questions: Seq<QuestionView>,
    pub answers: Seq<RecordView>,
    pub authority: Seq<RecordView>,
    pub additional: Seq<RecordView>,
}

impl View for Message {
    type V = MessageView;

    open spec fn view(&self) -> MessageView {
        MessageView {
            header: self.header,
            questions: questions_view(self.questions@),
            answers: records_view(self.answers@),
            authority: records_view(self.authority@),
            additional: records_view(self.additional@),
        }
    }
}

/// The big-endian 16-bit number at `pos`.
pub open spec fn be16(b: Seq<u8>, pos: int) -> int {
    b[pos] as int * 256 + b[pos + 1] as int
}

/// The big-endian 32-bit number at `pos`.
pub open spec fn be32(b: Seq<u8>, pos: int) -> int {
    be16(b, pos) * 65536 + be16(b, pos + 2)
}

/// Reads the big-endian 16-bit number at `pos`.
pub fn read_u16(b: &[u8], pos: usize) -> (v: u16)
    requires
        pos + 2 <= b@.len(),
    ensures
        v as int == be16(b@, pos as int),
{
    b[pos] as u16 * 256 + b[pos + 1] as u16
}

/// Reads the big-endian 32-bit number at `pos`.
pub fn read_u32(b: &[u8], pos: usize) -> (v: u32)
    requires
        pos + 4 <= b@.len(),
    ensures
        v as int == be32(b@, pos as int),
{
    let total: usize = b.len();
    let hi: u16 = read_u16(b, pos);
    let lo: u16 = read_u16(b, pos + 2);
    hi as u32 * 65536 + lo as u32
}

/// The header that the first twelve octets spell.
pub open spec fn parse_header(b: Seq<u8>) -> Header {
    Header {
        id: be16(b, 0) as u16,
        flags: be16(b, 2) as u16,
        qdcount: be16(b, 4) as u16,
        ancount: be16(b, 6) as u16,
        nscount: be16(b, 8) as u16,
        arcount: be16(b, 10) as u16,
    }
}

/// The question that starts at `pos`, with the offset behind it.
pub open spec fn parse_question(b: Seq<u8>, pos: int) -> Result<(QuestionView, int), DecodeError> {
    match parse_name(b, pos) {
        Err(e) => Err(e),
        Ok((name, end)) => if end + 4 > b.len() {
            Err(DecodeError::Truncated)
        } else {
            Ok(
                (
                    QuestionView {
                        name,
                        qtype: be16(b, end) as u16,
                        qclass: be16(b, end + 2) as u16,
                    },
                    end + 4,
                ),
            )
        },
    }
}

/// The character strings that fill `pos..end` exactly, behind those already in `acc`.
pub open spec fn parse_text(b: Seq<u8>, pos: int, end: int, acc: Seq<Seq<u8>>) -> Result<
    Seq<Seq<u8>>,
    DecodeError,
>
    decreases end - pos,
{
    if pos >= end {
        Ok(acc)
    } else if pos + 1 + b[pos] as int > end {
        Err(DecodeError::LengthMismatch)
    } else {
        parse_text(
            b,
            pos + 1 + b[pos] as int,
            end,
            acc.push(b.subrange(pos + 1, pos + 1 + b[pos] as int)),
        )
    }
}

/// A name that must end exactly at `end`.
pub open spec fn parse_name_until(b: Seq<u8>, pos: int, end: int) -> Result<
    Seq<Seq<u8>>,
    DecodeError,
> {
    match parse_name(b, pos) {
        Err(e) => Err(e),
        Ok((name, stop)) => if stop == end {
            Ok(name)
        } else {
            Err(DecodeError::LengthMismatch)
        },
    }
}

/// A payload that is one name.
pub open spec fn parse_name_ref(b: Seq<u8>, start: int, end: int) -> Result<RDataView, DecodeError> {
    match parse_name_until(b, start, end) {
        Err(e) => Err(e),
        Ok(name) => Ok(RDataView::NameRef(name)),
    }
}

/// A payload that is a 16-bit preference and a name.
pub open spec fn parse_exchange(b: Seq<u8>, start: int, end: int) -> Result<RDataView, DecodeError> {
    if end - start < 2 {
        Err(DecodeError::LengthMismatch)
    } else {
        match parse_name_until(b, start + 2, end) {
            Err(e) => Err(e),
            Ok(name) => Ok(RDataView::Exchange { preference: be16(b, start) as u16, name }),
        }
    }
}

/// A payload that is a run of character strings.
pub open spec fn parse_text_data(b: Seq<u8>, start: int, end: int) -> Result<RDataView, DecodeError> {
    match parse_text(b, start, end, Seq::empty()) {
        Err(e) => Err(e),
        Ok(parts) => Ok(RDataView::Text(parts)),
    }
}

/// The two names and five numbers of an SOA payload that fills `start..end` exactly.
pub open spec fn parse_soa(b: Seq<u8>, start: int, end: int) -> Result<RDataView, DecodeError> {
    match parse_name(b, start) {
        Err(e) => Err(e),
        Ok((mname, mid)) => match parse_name(b, mid) {
            Err(e) => Err(e),
            Ok((rname, stop)) => if stop + 20 != end {
                Err(DecodeError::LengthMismatch)
            } else {
                Ok(
                    RDataView::Soa {
                        mname,
                        rname,
                        serial: be32(b, stop) as u32,
                        refresh: be32(b, stop + 4) as u32,
                        retry: be32(b, stop + 8) as u32,
                        expire: be32(b, stop + 12) as u32,
                        minimum: be32(b, stop + 16) as u32,
                    },
                )
            },
        },
    }
}

/// The payload in `start..end`, read as the record type prescribes.
/// A payload whose layout does not fill the span exactly is a length mismatch.
pub open spec fn parse_rdata(b: Seq<u8>, rtype: u16, start: int, end: int) -> Result<
    RDataView,
    DecodeError,
> {
    if rtype == TYPE_A || rtype == TYPE_AAAA {
        if end - start == (if rtype == TYPE_A { 4int } else { 16int }) {
            Ok(RDataView::Address(b.subrange(start, end)))
        } else {
            Err(DecodeError::LengthMismatch)
        }
    } else if rtype == TYPE_NS || rtype == TYPE_CNAME || rtype == TYPE_PTR {
        parse_name_ref(b, start, end)
    } else if rtype == TYPE_MX {
        parse_exchange(b, start, end)
    } else if rtype == TYPE_TXT {
        parse_text_data(b, start, end)
    } else if rtype == TYPE_SOA {
        parse_soa(b, start, end)
    } else {
        Ok(RDataView::Raw(b.subrange(start, end)))
    }
}

/// The record that starts at `pos`, with the offset behind it.
pub open spec fn parse_record(b: Seq<u8>, pos: int) -> Result<(RecordView, int), DecodeError> {
    match parse_name(b, pos) {
        Err(e) => Err(e),
        Ok((name, at)) => if at + 10 > b.len() {
            Err(DecodeError::Truncated)
        } else if at + 10 + be16(b, at + 8) > b.len() {
            Err(DecodeError::LengthMismatch)
        } else {
            match parse_rdata(b, be16(b, at) as u16, at + 10, at + 10 + be16(b, at + 8)) {
                Err(e) => Err(e),
                Ok(data) => Ok(
                    (
                        RecordView {
                            name,
                            rtype: be16(b, at) as u16,
                            class: be16(b, at + 2) as u16,
                            ttl: be32(b, at + 4) as u32,
                            data,
                        },
                        at + 10 + be16(b, at + 8),
                    ),
                ),
            }
        },
    }
}

/// `count` questions from `pos` on, behind those already in `acc`.
pub open spec fn parse_questions(b: Seq<u8>, pos: int, count: nat, acc: Seq<QuestionView>) -> Result<
    (Seq<QuestionView>, int),
    DecodeError,
>
    decreases count,
{
    if count == 0 {
        Ok((acc, pos))
    } else {
        match parse_question(b, pos) {
            Err(e) => Err(e),
            Ok((q, next)) => parse_questions(b, next, (count - 1) as nat, acc.push(q)),
        }
    }
}

/// `count` records from `pos` on, behind those already in `acc`.
pub open spec fn parse_records(b: Seq<u8>, pos: int, count: nat, acc: Seq<RecordView>) -> Result<
    (Seq<RecordView>, int),
    DecodeError,
>
    decreases count,
{
    if count == 0 {
        Ok((acc, pos))
    } else {
        match parse_record(b, pos) {
            Err(e) => Err(e),
            Ok((r, next)) => parse_records(b, next, (count - 1) as nat, acc.push(r)),
        }
    }
}

/// The message that the bytes spell: the header, then as many questions and records
/// as its four counts declare. Octets behind the last record are ignored.
pub open spec fn parse_message(b: Seq<u8>) -> Result<MessageView, DecodeError> {
    if b.len() < 12 {
        Err(DecodeError::Truncated)
    } else {
        let header = parse_header(b);
        match parse_questions(b, 12, header.qdcount as nat, Seq::empty()) {
            Err(e) => Err(e),
            Ok((questions, p1)) => match parse_records(b, p1, header.ancount as nat, Seq::empty()) {
                Err(e) => Err(e),
                Ok((answers, p2)) => match parse_records(
                    b,
                    p2,
                    header.nscount as nat,
                    Seq::empty(),
                ) {
                    Err(e) => Err(e),
                    Ok((authority, p3)) => match parse_records(
                        b,
                        p3,
                        header.arcount as nat,
                        Seq::empty(),
                    ) {
                        Err(e) => Err(e),
                        Ok((additional, p4)) => Ok(
                            MessageView { header, questions, answers, authority, additional },
                        ),
                    },
                },
            },
        }
    }
}

/// Whether a reader's result is the one that the layout prescribes.
pub open spec fn agrees<T: View>(r: Result<T, DecodeError>, want: Result<T::V, DecodeError>) -> bool {
    match (r, want) {
        (Ok(v), Ok(w)) => v@ == w,
        (Err(x), Err(y)) => x == y,
        _ => false,
    }
}

/// As `agrees`, for a reader that also returns the offset behind what it read.
pub open spec fn agrees_at<T: View>(
    r: Result<(T, usize), DecodeError>,
    want: Result<(T::V, int), DecodeError>,
) -> bool {
    match (r, want) {
        (Ok((v, e)), Ok((w, end))) => v@ == w && e as int == end,
        (Err(x), Err(y)) => x == y,
        _ => false,
    }
}

/// As `agrees_at`, for a section of questions.
pub open spec fn questions_agree(
    r: Result<(Vec<Question>, usize), DecodeError>,
    want: Result<(Seq<QuestionView>, int), DecodeError>,
) -> bool {
    match (r, want) {
        (Ok((v, e)), Ok((w, end))) => questions_view(v@) == w && e as int == end,
        (Err(x), Err(y)) => x == y,
        _ => false,
    }
}

/// As `agrees_at`, for a section of records.
pub open spec fn records_agree(
    r: Result<(Vec<Record>, usize), DecodeError>,
    want: Result<(Seq<RecordView>, int), DecodeError>,
) -> bool {
    match (r, want) {
        (Ok((v, e)), Ok((w, end))) => records_view(v@) == w && e as int == end,
        (Err(x), Err(y)) => x == y,
        _ => false,
    }
}

/// A record whose declared payload length runs past the end of the buffer is a length mismatch.
pub proof fn overlong_payload_is_rejected(b: Seq<u8>, pos: int)
    requires
        parse_name(b, pos) is Ok,
        parse_name(b, pos)->Ok_0.1 + 10 <= b.len(),
        be16(b, parse_name(b, pos)->Ok_0.1 + 8) > b.len() - (parse_name(b, pos)->Ok_0.1 + 10),
    ensures
        parse_record(b, pos) == Err::<(RecordView, int), _>(DecodeError::LengthMismatch),
{
}

/// A message without questions whose first answer declares a payload that runs past the
/// end of the buffer is rejected as a length mismatch.
pub proof fn overlong_payload_fails_message(b: Seq<u8>)
    requires
        b.len() >= 12,
        parse_header(b).qdcount == 0,
        parse_header(b).ancount >= 1,
        parse_name(b, 12) is Ok,
        parse_name(b, 12)->Ok_0.1 + 10 <= b.len(),
        be16(b, parse_name(b, 12)->Ok_0.1 + 8) > b.len() - (parse_name(b, 12)->Ok_0.1 + 10),
    ensures
        parse_message(b) == Err::<MessageView, _>(DecodeError::LengthMismatch),
{
    overlong_payload_is_rejected(b, 12);
}

/// A message whose first question has a name with a pointer chain deeper than the limit
/// is rejected as a pointer loop.
pub proof fn deep_chain_fails_message(b: Seq<u8>, steps: nat)
    requires
        b.len() >= 12,
        parse_header(b).qdcount >= 1,
        pointers_followed(b, 12, steps) > MAX_POINTER_JUMPS,
    ensures
        parse_message(b) == Err::<MessageView, _>(DecodeError::PointerLoop),
{
    deep_pointer_chain_is_rejected(b, 12, steps);
}

/// Every record that is read carries a payload of the shape that its type prescribes.
pub proof fn decoded_payload_fits_type(b: Seq<u8>, pos: int)
    requires
        parse_record(b, pos) is Ok,
    ensures
        payload_fits_type(parse_record(b, pos)->Ok_0.0.rtype, parse_record(b, pos)->Ok_0.0.data),
{
    name_end_in_bounds(b, pos);
    let at = parse_name(b, pos)->Ok_0.1;
    let rtype = be16(b, at) as u16;
    let start = at + 10;
    let end = start + be16(b, at + 8);
    let data = parse_rdata(b, rtype, start, end);
    assert(data is Ok);
    assert(parse_record(b, pos)->Ok_0.0.data == data->Ok_0);
    if rtype == TYPE_A || rtype == TYPE_AAAA {
        assert(b.subrange(start, end).len() == end - start);
    }
}

/// Every record of the section carries a payload of the shape that its type prescribes.
pub open spec fn all_fit(records: Seq<RecordView>) -> bool {
    forall|i: int|
        0 <= i < records.len() ==> payload_fits_type((#[trigger] records[i]).rtype, records[i].data)
}

proof fn lemma_records_fit(b: Seq<u8>, pos: int, count: nat, acc: Seq<RecordView>)
    requires
        all_fit(acc),
        parse_records(b, pos, count, acc) is Ok,
    ensures
        all_fit(parse_records(b, pos, count, acc)->Ok_0.0),
    decreases count,
{
    if count > 0 {
        let (record, next) = parse_record(b, pos)->Ok_0;
        decoded_payload_fits_type(b, pos);
        assert(all_fit(acc.push(record))) by {
            assert forall|i: int| 0 <= i < acc.push(record).len() implies payload_fits_type(
                (#[trigger] acc.push(record)[i]).rtype,
                acc.push(record)[i].data,
            ) by {
                if i < acc.len() {
                    assert(acc.push(record)[i] == acc[i]);
                }
            }
        }
        lemma_records_fit(b, next, (count - 1) as nat, acc.push(record));
    }
}

/// In a decoded message, every record of every section carries a payload of the shape
/// that its type prescribes.
pub proof fn decoded_message_fits_types(b: Seq<u8>)
    requires
        parse_message(b) is Ok,
    ensures
        all_fit(parse_message(b)->Ok_0.answers),
        all_fit(parse_message(b)->Ok_0.authority),
        all_fit(parse_message(b)->Ok_0.additional),
{
    let header = parse_header(b);
    let (questions, p1) = parse_questions(b, 12, header.qdcount as nat, Seq::empty())->Ok_0;
    let (answers, p2) = parse_records(b, p1, header.ancount as nat, Seq::empty())->Ok_0;
    let (authority, p3) = parse_records(b, p2, header.nscount as nat, Seq::empty())->Ok_0;
    lemma_records_fit(b, p1, header.ancount as nat, Seq::empty());
    lemma_records_fit(b, p2, header.nscount as nat, Seq::empty());
    lemma_records_fit(b, p3, header.arcount as nat, Seq::empty());
}

} // verus!
