//! Record-type tokens as given on a command line.

use std::str::FromStr;
use trust_dns_resolver::proto::rr::RecordType;
use vstd::prelude::*;
use vstd::string::*;
use crate::error::ArgumentError;

verus! {

/// The type code that `trust_dns_proto`'s `RecordType::from_str` assigns to a token,
/// through `u16::from`; `None` where it knows no such token.
pub uninterp spec fn record_type_code(token: Seq<char>) -> Option<u16>;

/// No character of the token is an ASCII lowercase letter.
pub open spec fn no_lowercase(token: Seq<char>) -> bool {
    forall|i: int| 0 <= i < token.len() ==> !('a' <= #[trigger] token[i] && token[i] <= 'z')
}

/// Calls `RecordType::from_str` of `trust_dns_proto` and turns the type into its
/// 16-bit code with `u16::from`. The contract only names the result. Tokens with an
/// ASCII lowercase letter are left out: on those the outside function may panic.
#[verifier::external_body]
fn lookup_record_type(token: &str) -> (found: Option<u16>)
    requires
        no_lowercase(token@),
    ensures
        found == record_type_code(token@),
{
    match RecordType::from_str(token) {
        Ok(rtype) => Some(u16::from(rtype)),
        Err(_) => None,
    }
}

/// Whether no character of the token is an ASCII lowercase letter.
pub fn has_no_lowercase(token: &str) -> (ok: bool)
    ensures
        ok == no_lowercase(token@),
{
    let n: usize = token.unicode_len();
    let mut i: usize = 0;
    while i < n
        invariant
            n == token@.len(),
            i <= n,
            forall|k: int| 0 <= k < i ==> !('a' <= #[trigger] token@[k] && token@[k] <= 'z'),
        decreases n - i,
    {
        let c: char = token.get_char(i);
        if 'a' <= c && c <= 'z' {
            return false;
        }
        i += 1;
    }
    true
}

/// The record type for what a lookup of the token found.
pub open spec fn type_from_lookup(found: Option<u16>) -> Result<u16, ArgumentError> {
    match found {
        Some(code) => Ok(code),
        None => Err(ArgumentError::UnknownRecordType),
    }
}

/// Turns what a lookup found into a record type or the argument error.
pub fn record_type_from_lookup(found: Option<u16>) -> (r: Result<u16, ArgumentError>)
    ensures
        r == type_from_lookup(found),
{
    match found {
        Some(code) => Ok(code),
        None => Err(ArgumentError::UnknownRecordType),
    }
}

/// The record type that a token stands for. A token with a lowercase letter stands for none.
pub open spec fn parsed_record_type(token: Seq<char>) -> Result<u16, ArgumentError> {
    if no_lowercase(token) {
        type_from_lookup(record_type_code(token))
    } else {
        Err(ArgumentError::UnknownRecordType)
    }
}

/// Parses a record-type token such as `A`, `AAAA` or `MX` into its type code.
/// An unrecognized token is an argument error; nothing else is attempted for it.
pub fn parse_record_type(token: &str) -> (r: Result<u16, ArgumentError>)
    ensures
        r == parsed_record_type(token@),
{
    if !has_no_lowercase(token) {
        return Err(ArgumentError::UnknownRecordType);
    }
    record_type_from_lookup(lookup_record_type(token))
}

} // verus!
