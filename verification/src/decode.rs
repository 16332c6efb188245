//! The decoder: from wire bytes to a message.

use vstd::prelude::*;
use crate::error::DecodeError;
use crate::message::{
    agrees, agrees_at, parse_exchange, parse_message, parse_name_ref, parse_question, parse_questions,
    parse_rdata, parse_record, parse_records, parse_soa, parse_text, parse_text_data, questions_agree,
    questions_view, read_u16, read_u32, records_agree, records_view, Header, Message, Question, RData,
    Record, TYPE_A, TYPE_AAAA, TYPE_CNAME, TYPE_MX, TYPE_NS, TYPE_PTR, TYPE_SOA, TYPE_TXT,
};
use crate::name::{copy_range, labels_view, read_name};

verus! {

/// Reads the question that starts at `pos`.
pub fn read_question(b: &[u8], pos: usize) -> (r: Result<(Question, usize), DecodeError>)
    ensures
        agrees_at(r, parse_question(b@, pos as int)),
        r is Ok ==> r->Ok_0.1 <= b@.len(),
{
    match read_name(b, pos) {
        Err(e) => Err(e),
        Ok((name, end)) => {
            if b.len() - end < 4 {
                return Err(DecodeError::Truncated);
            }
            let qtype: u16 = read_u16(b, end);
            let qclass: u16 = read_u16(b, end + 2);
            Ok((Question { name, qtype, qclass }, end + 4))
        },
    }
}

/// Reads a payload that is one name and fills `start..end`.
pub fn read_name_ref(b: &[u8], start: usize, end: usize) -> (r: Result<RData, DecodeError>)
    ensures
        agrees(r, parse_name_ref(b@, start as int, end as int)),
{
    match read_name(b, start) {
        Err(e) => Err(e),
        Ok((name, stop)) => {
            if stop == end {
                Ok(RData::NameRef(name))
            } else {
                Err(DecodeError::LengthMismatch)
            }
        },
    }
}

/// Reads a payload that is a preference and a name and fills `start..end`.
pub fn read_exchange(b: &[u8], start: usize, end: usize) -> (r: Result<RData, DecodeError>)
    requires
        start <= end <= b@.len(),
    ensures
        agrees(r, parse_exchange(b@, start as int, end as int)),
{
    if end - start < 2 {
        return Err(DecodeError::LengthMismatch);
    }
    let preference: u16 = read_u16(b, start);
    match read_name(b, start + 2) {
        Err(e) => Err(e),
        Ok((name, stop)) => {
            if stop == end {
                Ok(RData::Exchange { preference, name })
            } else {
                Err(DecodeError::LengthMismatch)
            }
        },
    }
}

/// Reads a payload that is a run of character strings and fills `start..end`.
pub fn read_text(b: &[u8], start: usize, end: usize) -> (r: Result<RData, DecodeError>)
    requires
        start <= end <= b@.len(),
    ensures
        agrees(r, parse_text_data(b@, start as int, end as int)),
{
    let mut parts: Vec<Vec<u8>> = Vec::new();
    let mut pos: usize = start;
    assert(labels_view(parts@) =~= Seq::<Seq<u8>>::empty());
    while pos < end
        invariant
            start <= pos <= end <= b@.len(),
            parse_text(b@, start as int, end as int, Seq::empty()) == parse_text(
                b@,
                pos as int,
                end as int,
                labels_view(parts@),
            ),
        decreases end - pos,
    {
        let len: usize = b[pos] as usize;
        if len > end - pos - 1 {
            return Err(DecodeError::LengthMismatch);
        }
        let part = copy_range(b, pos + 1, pos + 1 + len);
        proof {
            assert(labels_view(parts@.push(part)) =~= labels_view(parts@).push(part@));
        }
        parts.push(part);
        pos = pos + 1 + len;
    }
    Ok(RData::Text(parts))
}

/// Reads an SOA payload that fills `start..end`.
pub fn read_soa(b: &[u8], start: usize, end: usize) -> (r: Result<RData, DecodeError>)
    requires
        start <= end <= b@.len(),
    ensures
        agrees(r, parse_soa(b@, start as int, end as int)),
{
    match read_name(b, start) {
        Err(e) => Err(e),
        Ok((mname, mid)) => match read_name(b, mid) {
            Err(e) => Err(e),
            Ok((rname, stop)) => {
                if stop > end || end - stop != 20 {
                    return Err(DecodeError::LengthMismatch);
                }
                let serial: u32 = read_u32(b, stop);
                let refresh: u32 = read_u32(b, stop + 4);
                let retry: u32 = read_u32(b, stop + 8);
                let expire: u32 = read_u32(b, stop + 12);
                let minimum: u32 = read_u32(b, stop + 16);
                Ok(RData::Soa { mname, rname, serial, refresh, retry, expire, minimum })
            },
        },
    }
}

/// Reads the payload in `start..end` as the record type prescribes.
pub fn read_rdata(b: &[u8], rtype: u16, start: usize, end: usize) -> (r: Result<
    RData,
    DecodeError,
>)
    requires
        start <= end <= b@.len(),
    ensures
        agrees(r, parse_rdata(b@, rtype, start as int, end as int)),
{
    if rtype == TYPE_A || rtype == TYPE_AAAA {
        let want: usize = if rtype == TYPE_A {
            4
        } else {
            16
        };
        if end - start == want {
            Ok(RData::Address(copy_range(b, start, end)))
        } else {
            Err(DecodeError::LengthMismatch)
        }
    } else if rtype == TYPE_NS || rtype == TYPE_CNAME || rtype == TYPE_PTR {
        read_name_ref(b, start, end)
    } else if rtype == TYPE_MX {
        read_exchange(b, start, end)
    } else if rtype == TYPE_TXT {
        read_text(b, start, end)
    } else if rtype == TYPE_SOA {
        read_soa(b, start, end)
    } else {
        Ok(RData::Raw(copy_range(b, start, end)))
    }
}

/// Reads the record that starts at `pos`. A declared payload length that runs past the
/// buffer is a length mismatch; nothing outside the buffer is read.
pub fn read_record(b: &[u8], pos: usize) -> (r: Result<(Record, usize), DecodeError>)
    ensures
        agrees_at(r, parse_record(b@, pos as int)),
        r is Ok ==> r->Ok_0.1 <= b@.len(),
{
    match read_name(b, pos) {
        Err(e) => Err(e),
        Ok((name, at)) => {
            if b.len() - at < 10 {
                return Err(DecodeError::Truncated);
            }
            let rtype: u16 = read_u16(b, at);
            let class: u16 = read_u16(b, at + 2);
            let ttl: u32 = read_u32(b, at + 4);
            let rdlength: usize = read_u16(b, at + 8) as usize;
            if rdlength > b.len() - at - 10 {
                return Err(DecodeError::LengthMismatch);
            }
            let start: usize = at + 10;
            let end: usize = start + rdlength;
            match read_rdata(b, rtype, start, end) {
                Err(e) => Err(e),
                Ok(data) => Ok((Record { name, rtype, class, ttl, data }, end)),
            }
        },
    }
}

/// Reads `count` questions from `pos` on.
pub fn read_questions(b: &[u8], pos: usize, count: u16) -> (r: Result<
    (Vec<Question>, usize),
    DecodeError,
>)
    ensures
        questions_agree(r, parse_questions(b@, pos as int, count as nat, Seq::empty())),
{
    let mut out: Vec<Question> = Vec::new();
    let mut at: usize = pos;
    let mut i: u16 = 0;
    assert(questions_view(out@) =~= Seq::empty());
    while i < count
        invariant
            i <= count,
            parse_questions(b@, pos as int, count as nat, Seq::empty()) == parse_questions(
                b@,
                at as int,
                (count - i) as nat,
                questions_view(out@),
            ),
        decreases count - i,
    {
        match read_question(b, at) {
            Err(e) => {
                return Err(e);
            },
            Ok((q, next)) => {
                proof {
                    assert(questions_view(out@.push(q)) =~= questions_view(out@).push(q@));
                }
                out.push(q);
                at = next;
            },
        }
        i += 1;
    }
    Ok((out, at))
}

/// Reads `count` records from `pos` on.
pub fn read_records(b: &[u8], pos: usize, count: u16) -> (r: Result<
    (Vec<Record>, usize),
    DecodeError,
>)
    ensures
        records_agree(r, parse_records(b@, pos as int, count as nat, Seq::empty())),
{
    let mut out: Vec<Record> = Vec::new();
    let mut at: usize = pos;
    let mut i: u16 = 0;
    assert(records_view(out@) =~= Seq::empty());
    while i < count
        invariant
            i <= count,
            parse_records(b@, pos as int, count as nat, Seq::empty()) == parse_records(
                b@,
                at as int,
                (count - i) as nat,
                records_view(out@),
            ),
        decreases count - i,
    {
        match read_record(b, at) {
            Err(e) => {
                return Err(e);
            },
            Ok((rec, next)) => {
                proof {
                    assert(records_view(out@.push(rec)) =~= records_view(out@).push(rec@));
                }
                out.push(rec);
                at = next;
            },
        }
        i += 1;
    }
    Ok((out, at))
}

/// Reads the header from a buffer of at least twelve octets.
pub fn read_header(b: &[u8]) -> (h: Header)
    requires
        b@.len() >= 12,
    ensures
        h == crate::message::parse_header(b@),
{
    Header {
        id: read_u16(b, 0),
        flags: read_u16(b, 2),
        qdcount: read_u16(b, 4),
        ancount: read_u16(b, 6),
        nscount: read_u16(b, 8),
        arcount: read_u16(b, 10),
    }
}

/// Decodes a message: the header, then the four sections with as many entries as the
/// header declares. Fails with `Truncated` where the stream ends before a field,
/// `InvalidLabel` on a label longer than 63 octets, `PointerLoop` on a name that follows
/// more than `MAX_POINTER_JUMPS` pointers, and `LengthMismatch` where a record's declared
/// payload length does not fit.
pub fn decode(b: &[u8]) -> (r: Result<Message, DecodeError>)
    ensures
        agrees(r, parse_message(b@)),
{
    if b.len() < 12 {
        return Err(DecodeError::Truncated);
    }
    let header = read_header(b);
    let (questions, p1) = match read_questions(b, 12, header.qdcount) {
        Err(e) => {
            return Err(e);
        },
        Ok(v) => v,
    };
    let (answers, p2) = match read_records(b, p1, header.ancount) {
        Err(e) => {
            return Err(e);
        },
        Ok(v) => v,
    };
    let (authority, p3) = match read_records(b, p2, header.nscount) {
        Err(e) => {
            return Err(e);
        },
        Ok(v) => v,
    };
    let (additional, _p4) = match read_records(b, p3, header.arcount) {
        Err(e) => {
            return Err(e);
        },
        Ok(v) => v,
    };
    Ok(Message { header, questions, answers, authority, additional })
}

} // verus!
