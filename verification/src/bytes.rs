//! Byte classes and small byte-sequence helpers the scanner relies on:
//! ASCII whitespace trimming, sequence comparison, and a count of open
//! brackets used to bound the array-literal depth.

use vstd::prelude::*;

verus! {

/// The escape byte `\`.
pub const BACKSLASH: u8 = 92;

/// The single-quote byte `'`.
pub const SINGLE_QUOTE: u8 = 39;

/// The double-quote byte `"`.
pub const DOUBLE_QUOTE: u8 = 34;

/// The redirection byte `<`; two in a row introduce a heredoc.
pub const LESS_THAN: u8 = 60;

/// The array-literal opener `[`.
pub const OPEN_BRACKET: u8 = 91;

/// The array-literal closer `]`.
pub const CLOSE_BRACKET: u8 = 93;

/// The comment marker `#`.
pub const HASH: u8 = 35;

/// The byte `&`; a trailing `&&` continues the statement.
pub const AMPERSAND: u8 = 38;

/// The byte `|`; a trailing `||` continues the statement.
pub const PIPE: u8 = 124;

/// The space byte, also the joiner inside an open array literal.
pub const SPACE: u8 = 32;

/// The newline byte, the joiner between accumulated lines.
pub const NEWLINE: u8 = 10;

/// The horizontal tab byte.
pub const TAB: u8 = 9;

/// The carriage-return byte.
pub const CARRIAGE_RETURN: u8 = 13;

/// ASCII whitespace, as trimming understands it.
pub open spec fn is_space(b: u8) -> bool {
    b == SPACE || b == TAB || b == NEWLINE || b == CARRIAGE_RETURN
}

/// `s` without its leading whitespace.
pub open spec fn trim_start_spec(s: Seq<u8>) -> Seq<u8>
    decreases s.len(),
{
    if s.len() > 0 && is_space(s[0]) {
        trim_start_spec(s.drop_first())
    } else {
        s
    }
}

/// `s` without its trailing whitespace.
pub open spec fn trim_end_spec(s: Seq<u8>) -> Seq<u8>
    decreases s.len(),
{
    if s.len() > 0 && is_space(s[s.len() - 1]) {
        trim_end_spec(s.drop_last())
    } else {
        s
    }
}

/// `s` without leading and trailing whitespace.
pub open spec fn trim_spec(s: Seq<u8>) -> Seq<u8> {
    trim_end_spec(trim_start_spec(s))
}

/// How many `[` bytes `s` holds; an upper bound on any bracket depth
/// reached while scanning `s`.
pub open spec fn count_opens(s: Seq<u8>) -> int
    decreases s.len(),
{
    if s.len() == 0 {
        0
    } else {
        count_opens(s.drop_last()) + if s[s.len() - 1] == OPEN_BRACKET {
            1int
        } else {
            0int
        }
    }
}

pub proof fn lemma_count_opens_bounds(s: Seq<u8>)
    ensures
        0 <= count_opens(s) <= s.len(),
    decreases s.len(),
{
    if s.len() > 0 {
        lemma_count_opens_bounds(s.drop_last());
    }
}

pub proof fn lemma_count_opens_step(s: Seq<u8>, i: int)
    requires
        0 <= i < s.len(),
    ensures
        count_opens(s.take(i + 1)) == count_opens(s.take(i)) + if s[i] == OPEN_BRACKET {
            1int
        } else {
            0int
        },
{
    assert(s.take(i + 1).drop_last() =~= s.take(i));
    assert(s.take(i + 1)[i] == s[i]);
}

proof fn lemma_trim_start_skip(s: Seq<u8>, lo: int)
    requires
        0 <= lo <= s.len(),
        forall|j: int| 0 <= j < lo ==> is_space(s[j]),
        lo == s.len() || !is_space(s[lo]),
    ensures
        trim_start_spec(s) == s.subrange(lo, s.len() as int),
    decreases lo,
{
    if lo == 0 {
        assert(s.subrange(0, s.len() as int) =~= s);
    } else {
        let s1 = s.drop_first();
        assert(s1 =~= s.subrange(1, s.len() as int));
        lemma_trim_start_skip(s1, lo - 1);
        assert(s1.subrange(lo - 1, s1.len() as int) =~= s.subrange(lo, s.len() as int));
    }
}

proof fn lemma_trim_end_skip(s: Seq<u8>, hi: int)
    requires
        0 <= hi <= s.len(),
        forall|j: int| hi <= j < s.len() ==> is_space(s[j]),
        hi == 0 || !is_space(s[hi - 1]),
    ensures
        trim_end_spec(s) == s.subrange(0, hi),
    decreases s.len(),
{
    if hi == s.len() {
        assert(s.subrange(0, hi) =~= s);
    } else {
        let s1 = s.drop_last();
        assert(s1 =~= s.subrange(0, s.len() - 1));
        lemma_trim_end_skip(s1, hi);
        assert(s1.subrange(0, hi) =~= s.subrange(0, hi));
    }
}

/// Whether `b` counts as whitespace for trimming.
pub fn is_space_byte(b: u8) -> (r: bool)
    ensures
        r == is_space(b),
{
    b == SPACE || b == TAB || b == NEWLINE || b == CARRIAGE_RETURN
}

/// `v` with leading and trailing whitespace removed.
pub fn trim_bytes(v: &[u8]) -> (r: Vec<u8>)
    ensures
        r@ == trim_spec(v@),
{
    let n = v.len();
    let mut lo: usize = 0;
    while lo < n && is_space_byte(v[lo])
        invariant
            n == v@.len(),
            lo <= n,
            forall|j: int| 0 <= j < lo ==> is_space(v@[j]),
        decreases n - lo,
    {
        lo = lo + 1;
    }
    let mut hi: usize = n;
    while hi > lo && is_space_byte(v[hi - 1])
        invariant
            n == v@.len(),
            lo <= hi <= n,
            forall|j: int| hi <= j < n ==> is_space(v@[j]),
        decreases hi,
    {
        hi = hi - 1;
    }
    proof {
        lemma_trim_start_skip(v@, lo as int);
        let s1 = v@.subrange(lo as int, n as int);
        lemma_trim_end_skip(s1, hi - lo as int);
        assert(s1.subrange(0, hi - lo as int) =~= v@.subrange(lo as int, hi as int));
    }
    let mut r: Vec<u8> = Vec::new();
    let mut i: usize = lo;
    while i < hi
        invariant
            n == v@.len(),
            lo <= i <= hi <= n,
            r@ == v@.subrange(lo as int, i as int),
        decreases hi - i,
    {
        r.push(v[i]);
        proof {
            assert(v@.subrange(lo as int, i + 1) =~= v@.subrange(lo as int, i as int).push(
                v@[i as int],
            ));
        }
        i = i + 1;
    }
    r
}

/// Whether two byte slices hold the same bytes.
pub fn bytes_eq(a: &[u8], b: &[u8]) -> (r: bool)
    ensures
        r == (a@ == b@),
{
    if a.len() != b.len() {
        return false;
    }
    let mut i: usize = 0;
    while i < a.len()
        invariant
            a@.len() == b@.len(),
            i <= a@.len(),
            forall|j: int| 0 <= j < i ==> a@[j] == b@[j],
        decreases a@.len() - i,
    {
        if a[i] != b[i] {
            return false;
        }
        i = i + 1;
    }
    proof {
        assert(a@ =~= b@);
    }
    true
}

/// Appends every byte of `src` onto `dst`.
pub fn push_all(dst: &mut Vec<u8>, src: &[u8])
    ensures
        final(dst)@ == old(dst)@ + src@,
{
    let mut i: usize = 0;
    while i < src.len()
        invariant
            i <= src@.len(),
            dst@ == old(dst)@ + src@.take(i as int),
        decreases src@.len() - i,
    {
        dst.push(src[i]);
        proof {
            assert(src@.take(i + 1) =~= src@.take(i as int).push(src@[i as int]));
            assert(old(dst)@ + src@.take(i + 1) =~= (old(dst)@ + src@.take(i as int)).push(
                src@[i as int],
            ));
        }
        i = i + 1;
    }
    proof {
        assert(src@.take(src@.len() as int) =~= src@);
    }
}

} // verus!
