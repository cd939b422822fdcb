//! Classification of a device line into a chunk signal.
//!
//! A body containing "File transfer completed" is a completion signal, with
//! priority; then "File transfer error"; then a chunk request, the leftmost
//! occurrence of a literal `N`, a space and a decimal digit run; anything
//! else is unparseable. A digit run whose value does not fit in 64 bits is
//! unparseable too, with the parse failure described.

use vstd::prelude::*;
use vstd::string::StringExecFns;

use crate::text::{chars_of, contains_seq, range_contains};

verus! {

/// What a device line says: a requested chunk index, a terminal signal, or
/// nothing that parses.
#[derive(Debug, PartialEq, Eq)]
pub enum ChunkParseResult {
    /// The device requests the chunk with this zero-based index.
    Chunk(u64),
    /// The device reports the whole transfer as completed.
    FileTransferCompleted,
    /// The device reports the transfer as failed.
    FileTransferError,
    /// The line carries none of the above; the text says why it did not
    /// parse.
    Error(String),
}

/// The characters of "File transfer completed".
pub open spec fn completed_pat() -> Seq<char> {
    seq![
        'F', 'i', 'l', 'e', ' ', 't', 'r', 'a', 'n', 's', 'f', 'e', 'r', ' ', 'c', 'o', 'm',
        'p', 'l', 'e', 't', 'e', 'd',
    ]
}

/// The characters of "File transfer error".
pub open spec fn transfer_error_pat() -> Seq<char> {
    seq![
        'F', 'i', 'l', 'e', ' ', 't', 'r', 'a', 'n', 's', 'f', 'e', 'r', ' ', 'e', 'r', 'r',
        'o', 'r',
    ]
}

/// A decimal digit.
pub open spec fn is_digit(c: char) -> bool {
    '0' <= c && c <= '9'
}

/// The value of a decimal digit.
pub open spec fn digit_val(c: char) -> int {
    c as u32 - '0' as u32
}

/// The value of a decimal digit run, most significant digit first.
pub open spec fn dec_value(ds: Seq<char>) -> int
    decreases ds.len(),
{
    if ds.len() == 0 {
        0
    } else {
        dec_value(ds.drop_last()) * 10 + digit_val(ds.last())
    }
}

/// A chunk request pattern starts at `i`: the letter `N`, a space, and at
/// least one decimal digit.
pub open spec fn chunk_match_at(s: Seq<char>, i: int) -> bool {
    &&& 0 <= i
    &&& i + 3 <= s.len()
    &&& s[i] == 'N'
    &&& s[i + 1] == ' '
    &&& is_digit(s[i + 2])
}

/// The chunk request pattern occurs somewhere in `s`.
pub open spec fn has_chunk_match(s: Seq<char>) -> bool {
    exists|i: int| chunk_match_at(s, i)
}

/// The least index at or after `i` where the chunk request pattern starts,
/// or -1 where it never does.
pub open spec fn first_chunk_match(s: Seq<char>, i: int) -> int
    decreases s.len() - i,
    when 0 <= i <= s.len()
{
    if i + 3 > s.len() {
        -1
    } else if chunk_match_at(s, i) {
        i
    } else {
        first_chunk_match(s, i + 1)
    }
}

/// The first index at or after `j` holding no digit, or the end of `s`.
pub open spec fn digits_end(s: Seq<char>, j: int) -> int
    decreases s.len() - j,
    when 0 <= j <= s.len()
{
    if j == s.len() || !is_digit(s[j]) {
        j
    } else {
        digits_end(s, j + 1)
    }
}

/// The maximal digit run following the leftmost chunk request pattern.
pub open spec fn chunk_digits(s: Seq<char>) -> Seq<char> {
    let m = first_chunk_match(s, 0);
    s.subrange(m + 2, digits_end(s, m + 2))
}

/// The requested chunk index: the decimal value of the digit run following
/// the leftmost chunk request pattern.
pub open spec fn chunk_value(s: Seq<char>) -> int {
    dec_value(chunk_digits(s))
}

proof fn lemma_first_match(s: Seq<char>, m: int, j: int)
    requires
        0 <= j <= m,
        chunk_match_at(s, m),
        forall|k: int| j <= k < m ==> !chunk_match_at(s, k),
    ensures
        first_chunk_match(s, j) == m,
    decreases m - j,
{
    if j < m {
        lemma_first_match(s, m, j + 1);
    }
}

proof fn lemma_digits_end(s: Seq<char>, j: int, e: int)
    requires
        0 <= j <= e <= s.len(),
        forall|k: int| j <= k < e ==> is_digit(s[k]),
        e == s.len() || !is_digit(s[e]),
    ensures
        digits_end(s, j) == e,
    decreases e - j,
{
    if j < e {
        lemma_digits_end(s, j + 1, e);
    }
}

proof fn lemma_dec_value_nonneg(ds: Seq<char>)
    requires
        forall|k: int| 0 <= k < ds.len() ==> is_digit(ds[k]),
    ensures
        dec_value(ds) >= 0,
    decreases ds.len(),
{
    if ds.len() > 0 {
        lemma_dec_value_nonneg(ds.drop_last());
    }
}

/// Appending digits to a digit run never shrinks its value.
proof fn lemma_dec_value_mono(ds: Seq<char>, k: int)
    requires
        0 <= k <= ds.len(),
        forall|j: int| 0 <= j < ds.len() ==> is_digit(ds[j]),
    ensures
        dec_value(ds) >= dec_value(ds.take(k)),
    decreases ds.len() - k,
{
    if k == ds.len() {
        assert(ds.take(k) =~= ds);
    } else {
        assert(ds.take(k + 1).drop_last() =~= ds.take(k));
        assert(forall|j: int| 0 <= j < k ==> is_digit(ds.take(k)[j]));
        lemma_dec_value_nonneg(ds.take(k));
        lemma_dec_value_mono(ds, k + 1);
    }
}

proof fn lemma_first_match_none(s: Seq<char>, i: int)
    requires
        0 <= i <= s.len(),
        first_chunk_match(s, i) == -1,
    ensures
        forall|k: int| i <= k ==> !chunk_match_at(s, k),
    decreases s.len() - i,
{
    if i + 3 > s.len() {
    } else {
        lemma_first_match_none(s, i + 1);
    }
}

proof fn lemma_first_match_props(s: Seq<char>, i: int)
    requires
        0 <= i <= s.len(),
        first_chunk_match(s, i) != -1,
    ensures
        i <= first_chunk_match(s, i),
        chunk_match_at(s, first_chunk_match(s, i)),
    decreases s.len() - i,
{
    if i + 3 > s.len() {
    } else if chunk_match_at(s, i) {
    } else {
        lemma_first_match_props(s, i + 1);
    }
}

proof fn lemma_digits_end_props(s: Seq<char>, j: int)
    requires
        0 <= j <= s.len(),
    ensures
        j <= digits_end(s, j) <= s.len(),
        forall|k: int| j <= k < digits_end(s, j) ==> is_digit(s[k]),
    decreases s.len() - j,
{
    if j == s.len() || !is_digit(s[j]) {
    } else {
        lemma_digits_end_props(s, j + 1);
    }
}

/// A requested chunk index is never negative: it is the value of a decimal
/// digit run.
pub proof fn lemma_chunk_value_nonneg(s: Seq<char>)
    requires
        has_chunk_match(s),
    ensures
        chunk_value(s) >= 0,
{
    let m = first_chunk_match(s, 0);
    if m == -1 {
        lemma_first_match_none(s, 0);
        assert(forall|k: int| !chunk_match_at(s, k));
        assert(false);
    }
    lemma_first_match_props(s, 0);
    lemma_digits_end_props(s, m + 2);
    let ds = chunk_digits(s);
    assert(forall|k: int| 0 <= k < ds.len() ==> is_digit(ds[k]));
    lemma_dec_value_nonneg(ds);
}

/// A decimal digit.
pub fn is_digit_char(c: char) -> (b: bool)
    ensures
        b == is_digit(c),
{
    '0' <= c && c <= '9'
}

/// Classifies one device line. The terminal signals take priority, the
/// completion text over the error text; then the leftmost `N <digits>`
/// pattern names the requested chunk; a line with none of these, or with a
/// digit run too large for 64 bits, is unparseable.
#[verifier::loop_isolation(false)]
#[verifier::rlimit(50)]
pub fn parse_chunk_number(data: &str) -> (r: ChunkParseResult)
    ensures
        contains_seq(data@, completed_pat()) ==> r == ChunkParseResult::FileTransferCompleted,
        !contains_seq(data@, completed_pat()) && contains_seq(data@, transfer_error_pat())
            ==> r == ChunkParseResult::FileTransferError,
        (!contains_seq(data@, completed_pat()) && !contains_seq(data@, transfer_error_pat())
            && has_chunk_match(data@) && chunk_value(data@) <= u64::MAX) ==> r
            == ChunkParseResult::Chunk(chunk_value(data@) as u64),
        (!contains_seq(data@, completed_pat()) && !contains_seq(data@, transfer_error_pat())
            && has_chunk_match(data@) && chunk_value(data@) > u64::MAX) ==> (r matches
        ChunkParseResult::Error(m) && m@ == "number too large to fit in target type"@),
        (!contains_seq(data@, completed_pat()) && !contains_seq(data@, transfer_error_pat())
            && !has_chunk_match(data@)) ==> (r matches ChunkParseResult::Error(m) && m@
            == "Failed to parse chunk"@),
{
    let v = chars_of(data);
    let n = v.len();
    proof {
        assert(v@.subrange(0, n as int) =~= data@);
    }
    let cpat: Vec<char> = vec![
        'F', 'i', 'l', 'e', ' ', 't', 'r', 'a', 'n', 's', 'f', 'e', 'r', ' ', 'c', 'o', 'm',
        'p', 'l', 'e', 't', 'e', 'd',
    ];
    proof {
        assert(cpat@ =~= completed_pat());
    }
    if range_contains(&v, 0, n, &cpat) {
        return ChunkParseResult::FileTransferCompleted;
    }
    let tpat: Vec<char> = vec![
        'F', 'i', 'l', 'e', ' ', 't', 'r', 'a', 'n', 's', 'f', 'e', 'r', ' ', 'e', 'r', 'r',
        'o', 'r',
    ];
    proof {
        assert(tpat@ =~= transfer_error_pat());
    }
    if range_contains(&v, 0, n, &tpat) {
        return ChunkParseResult::FileTransferError;
    }
    // leftmost occurrence of the pattern: 'N', a space, a digit
    if n >= 3 {
        let stop: usize = n - 3;
        let mut i: usize = 0;
        while i <= stop
            invariant
                0 <= i <= stop + 1,
                forall|k: int| 0 <= k < i ==> !chunk_match_at(v@, k),
            decreases stop + 1 - i,
        {
            if v[i] == 'N' && v[i + 1] == ' ' && is_digit_char(v[i + 2]) {
                proof {
                    lemma_first_match(v@, i as int, 0);
                    assert(chunk_match_at(data@, i as int));
                    assert(has_chunk_match(data@));
                }
                // the maximal digit run from i + 2 on
                let d0: usize = i + 2;
                let mut dend: usize = d0;
                while dend < n && is_digit_char(v[dend])
                    invariant
                        d0 <= dend <= n,
                        forall|k: int| d0 <= k < dend ==> is_digit(v@[k]),
                    decreases n - dend,
                {
                    dend = dend + 1;
                }
                proof {
                    lemma_digits_end(v@, d0 as int, dend as int);
                }
                let ghost ds = v@.subrange(d0 as int, dend as int);
                proof {
                    assert(ds =~= chunk_digits(data@));
                    assert(forall|k: int| 0 <= k < ds.len() ==> is_digit(ds[k]));
                }
                // the value of the digit run, watching for 64-bit overflow
                let mut acc: u64 = 0;
                let mut j: usize = d0;
                proof {
                    assert(v@.subrange(d0 as int, d0 as int) =~= Seq::<char>::empty());
                }
                while j < dend
                    invariant
                        d0 <= j <= dend,
                        acc == dec_value(v@.subrange(d0 as int, j as int)),
                    decreases dend - j,
                {
                    let c = v[j];
                    let d = (c as u32 - '0' as u32) as u64;
                    proof {
                        assert(d == digit_val(v@[j as int]));
                        assert(v@.subrange(d0 as int, j + 1).drop_last() =~= v@.subrange(
                            d0 as int,
                            j as int,
                        ));
                    }
                    let step = match acc.checked_mul(10) {
                        Some(x) => x.checked_add(d),
                        None => None,
                    };
                    match step {
                        Some(x) => {
                            acc = x;
                            j = j + 1;
                        },
                        None => {
                            proof {
                                assert(dec_value(v@.subrange(d0 as int, j + 1)) > u64::MAX);
                                assert(ds.take(j + 1 - d0) =~= v@.subrange(d0 as int, j + 1));
                                lemma_dec_value_mono(ds, j + 1 - d0);
                            }
                            return ChunkParseResult::Error(
                                String::from_str("number too large to fit in target type"),
                            );
                        },
                    }
                }
                return ChunkParseResult::Chunk(acc);
            }
            i = i + 1;
        }
    }
    proof {
        assert(forall|k: int| chunk_match_at(data@, k) ==> 0 <= k && k + 3 <= n);
        assert(!has_chunk_match(data@));
    }
    ChunkParseResult::Error(String::from_str("Failed to parse chunk"))
}

} // verus!
