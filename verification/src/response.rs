//! Classification of a received datagram into a status and a body.
//!
//! Every input classifies; there is no error outcome. The trimmed text is
//! inspected: if it contains "error" anywhere the status is `Failure`, with
//! priority over the success test; if it ends with "ok" the status is
//! `Success`; anything else is `Unknown`. The body is the trimmed text with
//! everything from its last newline on removed.

use vstd::prelude::*;
use vstd::string::StrSliceExecFns;

use crate::text::{
    chars_of, contains_seq, ends_with_seq, last_index_of, range_contains, range_ends_with,
    range_last_index_of, trim_bounds, trimmed,
};

verus! {

/// The classified status of a received line.
#[derive(Clone, Copy, Debug, PartialEq, Eq, Structural)]
pub enum ResponseStatus {
    /// The trimmed text ends with "ok" and nowhere contains "error".
    Success,
    /// The trimmed text contains "error" somewhere.
    Failure,
    /// Anything else.
    Unknown,
}

/// The characters of "error".
pub open spec fn error_pat() -> Seq<char> {
    seq!['e', 'r', 'r', 'o', 'r']
}

/// The characters of "ok".
pub open spec fn ok_pat() -> Seq<char> {
    seq!['o', 'k']
}

/// The status a text classifies as: "error" anywhere in the trimmed text
/// means failure, with priority; else a trailing "ok" means success.
pub open spec fn status_of(data: Seq<char>) -> ResponseStatus {
    let t = trimmed(data);
    if contains_seq(t, error_pat()) {
        ResponseStatus::Failure
    } else if ends_with_seq(t, ok_pat()) {
        ResponseStatus::Success
    } else {
        ResponseStatus::Unknown
    }
}

/// The body a text yields: the trimmed text up to its last newline, or all
/// of it when no newline remains.
pub open spec fn body_of(data: Seq<char>) -> Seq<char> {
    let t = trimmed(data);
    let k = last_index_of(t, '\n');
    if k >= 0 {
        t.subrange(0, k)
    } else {
        t
    }
}

/// One received datagram, classified.
pub struct Response {
    /// The origin address of the datagram, as text.
    pub address: String,
    /// The trimmed received text, with everything from its last newline on
    /// removed.
    pub body: String,
    /// The classified status of the received text.
    pub status: ResponseStatus,
}

impl Response {
    /// Classifies received text. Every input yields a response; a body that
    /// contains "error" classifies as `Failure` even when it also ends with
    /// "ok".
    pub fn from_data(address: String, data: &str) -> (r: Response)
        ensures
            r.address == address,
            r.status == status_of(data@),
            r.body@ == body_of(data@),
            contains_seq(trimmed(data@), error_pat()) ==> r.status == ResponseStatus::Failure,
    {
        let v = chars_of(data);
        let bounds = trim_bounds(&v);
        let lo = bounds.0;
        let hi = bounds.1;
        let epat: Vec<char> = vec!['e', 'r', 'r', 'o', 'r'];
        let okpat: Vec<char> = vec!['o', 'k'];
        proof {
            assert(epat@ =~= error_pat());
            assert(okpat@ =~= ok_pat());
        }
        let status = if range_contains(&v, lo, hi, &epat) {
            ResponseStatus::Failure
        } else if range_ends_with(&v, lo, hi, &okpat) {
            ResponseStatus::Success
        } else {
            ResponseStatus::Unknown
        };
        let body_end = match range_last_index_of(&v, lo, hi, '\n') {
            Some(k) => k,
            None => hi,
        };
        proof {
            assert(body_of(data@) =~= data@.subrange(lo as int, body_end as int));
        }
        let body = data.substring_char(lo, body_end).to_owned();
        Response { address, body, status }
    }
}

} // verus!
