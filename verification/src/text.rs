//! Character-level scanning used to classify device text.
//!
//! Device lines are handled as sequences of characters: trimming, substring
//! search, suffix tests and locating the last newline. Everything here is
//! defined over `Seq<char>` and executed over `Vec<char>`.

use vstd::prelude::*;
use vstd::string::StrSliceExecFns;

verus! {

/// The whitespace stripped from both ends of a received line.
pub open spec fn is_blank(c: char) -> bool {
    c == ' ' || c == '\t' || c == '\n' || c == '\r' || c == '\x0b' || c == '\x0c'
}

/// `s` without its leading whitespace.
pub open spec fn trim_front(s: Seq<char>) -> Seq<char>
    decreases s.len(),
{
    if s.len() > 0 && is_blank(s[0]) {
        trim_front(s.drop_first())
    } else {
        s
    }
}

/// `s` without its trailing whitespace.
pub open spec fn trim_back(s: Seq<char>) -> Seq<char>
    decreases s.len(),
{
    if s.len() > 0 && is_blank(s.last()) {
        trim_back(s.drop_last())
    } else {
        s
    }
}

/// `s` without leading and trailing whitespace.
pub open spec fn trimmed(s: Seq<char>) -> Seq<char> {
    trim_back(trim_front(s))
}

/// The pattern `p` occurs in `s` starting at index `i`.
pub open spec fn matches_at(s: Seq<char>, p: Seq<char>, i: int) -> bool {
    &&& 0 <= i
    &&& i + p.len() <= s.len()
    &&& forall|j: int| 0 <= j < p.len() ==> s[i + j] == p[j]
}

/// The pattern `p` occurs somewhere in `s`.
pub open spec fn contains_seq(s: Seq<char>, p: Seq<char>) -> bool {
    exists|i: int| matches_at(s, p, i)
}

/// `s` ends with the pattern `p`.
pub open spec fn ends_with_seq(s: Seq<char>, p: Seq<char>) -> bool {
    p.len() <= s.len() && matches_at(s, p, s.len() - p.len())
}

/// The greatest index at which `c` stands in `s`, or -1 if it does not.
pub open spec fn last_index_of(s: Seq<char>, c: char) -> int
    decreases s.len(),
{
    if s.len() == 0 {
        -1
    } else if s.last() == c {
        s.len() - 1
    } else {
        last_index_of(s.drop_last(), c)
    }
}

/// The characters of `s`, in order, as a vector.
pub fn chars_of(s: &str) -> (v: Vec<char>)
    ensures
        v@ == s@,
{
    let n = s.unicode_len();
    let mut v: Vec<char> = Vec::new();
    let mut i: usize = 0;
    while i < n
        invariant
            n == s@.len(),
            0 <= i <= n,
            v@ == s@.take(i as int),
        decreases n - i,
    {
        v.push(s.get_char(i));
        proof {
            assert(s@.take(i + 1) =~= s@.take(i as int).push(s@[i as int]));
        }
        i = i + 1;
    }
    proof {
        assert(s@.take(n as int) =~= s@);
    }
    v
}

proof fn lemma_trim_front_range(s: Seq<char>, lo: int)
    requires
        0 <= lo <= s.len(),
        forall|j: int| 0 <= j < lo ==> is_blank(s[j]),
        lo == s.len() || !is_blank(s[lo]),
    ensures
        trim_front(s) =~= s.subrange(lo, s.len() as int),
    decreases lo,
{
    if lo == 0 {
        assert(trim_front(s) =~= s.subrange(0, s.len() as int));
    } else {
        lemma_trim_front_range(s.drop_first(), lo - 1);
    }
}

proof fn lemma_trim_back_range(s: Seq<char>, hi: int)
    requires
        0 <= hi <= s.len(),
        forall|j: int| hi <= j < s.len() ==> is_blank(s[j]),
        hi == 0 || !is_blank(s[hi - 1]),
    ensures
        trim_back(s) =~= s.subrange(0, hi),
    decreases s.len(),
{
    if hi == s.len() {
        assert(trim_back(s) =~= s.subrange(0, hi));
    } else {
        lemma_trim_back_range(s.drop_last(), hi);
    }
}

/// The bounds of the trimmed middle of `v`: everything before `r.0` and from
/// `r.1` on is whitespace, and the range between them is `trimmed(v@)`.
pub fn trim_bounds(v: &Vec<char>) -> (r: (usize, usize))
    ensures
        0 <= r.0 <= r.1 <= v@.len(),
        trimmed(v@) =~= v@.subrange(r.0 as int, r.1 as int),
{
    let n = v.len();
    let mut lo: usize = 0;
    while lo < n && is_blank_char(v[lo])
        invariant
            0 <= lo <= n,
            n == v@.len(),
            forall|j: int| 0 <= j < lo ==> is_blank(v@[j]),
        decreases n - lo,
    {
        lo = lo + 1;
    }
    let mut hi: usize = n;
    while hi > lo && is_blank_char(v[hi - 1])
        invariant
            lo <= hi <= n,
            n == v@.len(),
            forall|j: int| hi <= j < n ==> is_blank(v@[j]),
        decreases hi,
    {
        hi = hi - 1;
    }
    proof {
        lemma_trim_front_range(v@, lo as int);
        let t = v@.subrange(lo as int, n as int);
        if hi == lo {
            // everything from lo on is blank, so the back trim removes it all
            lemma_trim_back_range(t, 0);
        } else {
            lemma_trim_back_range(t, hi - lo);
        }
        assert(t.subrange(0, hi - lo) =~= v@.subrange(lo as int, hi as int));
    }
    (lo, hi)
}

/// Whether `c` is one of the whitespace characters that trimming strips.
pub fn is_blank_char(c: char) -> (b: bool)
    ensures
        b == is_blank(c),
{
    c == ' ' || c == '\t' || c == '\n' || c == '\r' || c == '\x0b' || c == '\x0c'
}

/// Whether `pat` occurs in `v` at exactly the index `i`.
pub fn matches_pat_at(v: &Vec<char>, i: usize, pat: &Vec<char>) -> (b: bool)
    requires
        i + pat@.len() <= v@.len(),
    ensures
        b == matches_at(v@, pat@, i as int),
{
    let n = v.len();
    let mut j: usize = 0;
    while j < pat.len()
        invariant
            0 <= j <= pat@.len(),
            i + pat@.len() <= v@.len(),
            n == v@.len(),
            forall|k: int| 0 <= k < j ==> v@[i + k] == pat@[k],
        decreases pat@.len() - j,
    {
        if v[i + j] != pat[j] {
            return false;
        }
        j = j + 1;
    }
    true
}

/// Whether `pat` occurs anywhere in `v@.subrange(lo, hi)`.
pub fn range_contains(v: &Vec<char>, lo: usize, hi: usize, pat: &Vec<char>) -> (b: bool)
    requires
        lo <= hi <= v@.len(),
        pat@.len() >= 1,
    ensures
        b == contains_seq(v@.subrange(lo as int, hi as int), pat@),
{
    let ghost t = v@.subrange(lo as int, hi as int);
    if hi - lo < pat.len() {
        proof {
            assert(forall|k: int| !matches_at(t, pat@, k));
        }
        return false;
    }
    let stop = hi - pat.len();
    let mut i: usize = lo;
    while i <= stop
        invariant
            lo <= i <= stop + 1,
            stop == hi - pat@.len(),
            lo <= hi <= v@.len(),
            pat@.len() >= 1,
            t == v@.subrange(lo as int, hi as int),
            forall|k: int| 0 <= k < i - lo ==> !matches_at(t, pat@, k),
        decreases stop + 1 - i,
    {
        if matches_pat_at(v, i, pat) {
            proof {
                assert(matches_at(t, pat@, i - lo)) by {
                    assert(forall|j: int|
                        0 <= j < pat@.len() ==> t[i - lo + j] == v@[i + j] && v@[i + j]
                            == pat@[j]);
                }
            }
            return true;
        }
        proof {
            if matches_at(t, pat@, i - lo) {
                assert(forall|j: int| 0 <= j < pat@.len() ==> v@[i + j] == #[trigger] t[i - lo
                    + j]);
                assert(matches_at(v@, pat@, i as int));
            }
        }
        i = i + 1;
    }
    proof {
        assert(forall|k: int| k > stop - lo ==> !matches_at(t, pat@, k));
    }
    false
}

/// Whether `v@.subrange(lo, hi)` ends with `pat`.
pub fn range_ends_with(v: &Vec<char>, lo: usize, hi: usize, pat: &Vec<char>) -> (b: bool)
    requires
        lo <= hi <= v@.len(),
    ensures
        b == ends_with_seq(v@.subrange(lo as int, hi as int), pat@),
{
    let ghost t = v@.subrange(lo as int, hi as int);
    if hi - lo < pat.len() {
        return false;
    }
    let start = hi - pat.len();
    let b = matches_pat_at(v, start, pat);
    proof {
        assert(forall|j: int|
            0 <= j < pat@.len() ==> #[trigger] t[t.len() - pat@.len() + j] == v@[start + j]);
        if b {
            assert(matches_at(t, pat@, t.len() - pat@.len()));
        } else {
            if matches_at(t, pat@, t.len() - pat@.len()) {
                assert(matches_at(v@, pat@, start as int));
            }
        }
    }
    b
}

proof fn lemma_last_index_found(s: Seq<char>, c: char, k: int)
    requires
        0 <= k < s.len(),
        s[k] == c,
        forall|j: int| k < j < s.len() ==> s[j] != c,
    ensures
        last_index_of(s, c) == k,
    decreases s.len(),
{
    if k == s.len() - 1 {
    } else {
        lemma_last_index_found(s.drop_last(), c, k);
    }
}

proof fn lemma_last_index_none(s: Seq<char>, c: char)
    requires
        forall|j: int| 0 <= j < s.len() ==> s[j] != c,
    ensures
        last_index_of(s, c) == -1,
    decreases s.len(),
{
    if s.len() > 0 {
        lemma_last_index_none(s.drop_last(), c);
    }
}

/// The greatest index of `c` within `v@.subrange(lo, hi)`, if `c` occurs
/// there at all, as an index into `v` itself.
pub fn range_last_index_of(v: &Vec<char>, lo: usize, hi: usize, c: char) -> (r: Option<usize>)
    requires
        lo <= hi <= v@.len(),
    ensures
        ({
            let t = v@.subrange(lo as int, hi as int);
            match r {
                Some(k) => lo <= k < hi && last_index_of(t, c) == k - lo,
                None => last_index_of(t, c) == -1,
            }
        }),
{
    let ghost t = v@.subrange(lo as int, hi as int);
    let mut i: usize = hi;
    while i > lo
        invariant
            lo <= i <= hi <= v@.len(),
            t == v@.subrange(lo as int, hi as int),
            forall|j: int| i <= j < hi ==> v@[j] != c,
        decreases i,
    {
        i = i - 1;
        if v[i] == c {
            proof {
                assert(t[i - lo] == c);
                assert(forall|j: int| i - lo < j < t.len() ==> t[j] != c);
                lemma_last_index_found(t, c, i - lo);
            }
            return Some(i);
        }
    }
    proof {
        assert(forall|j: int| 0 <= j < t.len() ==> t[j] != c);
        lemma_last_index_none(t, c);
    }
    None
}

} // verus!
