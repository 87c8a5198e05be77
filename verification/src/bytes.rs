//! Small verified helpers on byte strings.
//!
//! The library represents all text as UTF-8 bytes (`Vec<u8>` / `&[u8]`),
//! so equality tests and concatenation on bytes are the basic moves of
//! every other module.

use vstd::prelude::*;

verus! {

/// The bytes of an ASCII string literal, as a sequence.
///
/// This is how contracts talk about fixed words such as condition
/// phrases: `bs("clear sky"@)` is the byte string a caller hands in when
/// the description is exactly `clear sky`.
pub open spec fn bs(s: Seq<char>) -> Seq<u8> {
    Seq::new(s.len(), |i: int| s[i] as u8)
}

/// True of the ASCII uppercase letters, `A` (65) through `Z` (90).
pub open spec fn is_upper(b: u8) -> bool {
    65 <= b && b <= 90
}

/// ASCII lowercasing of one byte.
pub open spec fn lower_byte(b: u8) -> u8 {
    if is_upper(b) {
        (b + 32) as u8
    } else {
        b
    }
}

/// ASCII lowercasing of a byte string.
pub open spec fn lower_bytes(s: Seq<u8>) -> Seq<u8> {
    s.map_values(|b: u8| lower_byte(b))
}

/// ASCII whitespace: space, tab, line feed, carriage return.
pub open spec fn is_ws(b: u8) -> bool {
    b == 32 || b == 9 || b == 10 || b == 13
}

/// The first position at or after `i` holding no ASCII whitespace.
pub open spec fn skip_ws(s: Seq<u8>, i: int) -> int
    decreases s.len() - i,
    when 0 <= i <= s.len()
{
    if i < s.len() && is_ws(s[i]) {
        skip_ws(s, i + 1)
    } else {
        i
    }
}

pub proof fn lemma_skip_ws(s: Seq<u8>, i: int)
    requires
        0 <= i <= s.len(),
    ensures
        i <= skip_ws(s, i) <= s.len(),
        forall|k: int| i <= k < skip_ws(s, i) ==> is_ws(#[trigger] s[k]),
        skip_ws(s, i) == s.len() || !is_ws(s[skip_ws(s, i)]),
    decreases s.len() - i,
{
    if i < s.len() && is_ws(s[i]) {
        lemma_skip_ws(s, i + 1);
    }
}

/// Scanning down from `j`: the position after the last byte below `j`
/// that is no whitespace.
pub open spec fn ws_suffix_start(s: Seq<u8>, j: int) -> int
    decreases j,
    when 0 <= j <= s.len()
{
    if j > 0 && is_ws(s[j - 1]) {
        ws_suffix_start(s, j - 1)
    } else {
        j
    }
}

pub proof fn lemma_ws_suffix(s: Seq<u8>, j: int)
    requires
        0 <= j <= s.len(),
    ensures
        0 <= ws_suffix_start(s, j) <= j,
        forall|k: int| ws_suffix_start(s, j) <= k < j ==> is_ws(#[trigger] s[k]),
        ws_suffix_start(s, j) == 0 || !is_ws(s[ws_suffix_start(s, j) - 1]),
    decreases j,
{
    if j > 0 && is_ws(s[j - 1]) {
        lemma_ws_suffix(s, j - 1);
    }
}

/// `s` with surrounding ASCII whitespace removed.
pub open spec fn trim_bytes(s: Seq<u8>) -> Seq<u8> {
    let a = skip_ws(s, 0);
    if a == s.len() {
        Seq::empty()
    } else {
        s.subrange(a, ws_suffix_start(s, s.len() as int))
    }
}

/// The bytes of an ASCII string literal. Callers reveal the literal
/// first, so that both its ASCII-ness and its contents are visible.
pub fn lit_bytes(s: &str) -> (r: &[u8])
    requires
        vstd::string::is_ascii(s),
    ensures
        r@ == bs(s@),
        r@.len() == s@.len(),
{
    let b = s.as_bytes();
    proof {
        vstd::string::is_ascii_spec_bytes(s);
        assert(b@ =~= bs(s@));
    }
    b
}

/// Byte-for-byte equality of two byte strings.
pub fn bytes_eq(a: &[u8], b: &[u8]) -> (r: bool)
    ensures
        r == (a@ == b@),
{
    if a.len() != b.len() {
        proof {
            assert(a@.len() != b@.len());
        }
        return false;
    }
    let n: usize = a.len();
    let mut i: usize = 0;
    while i < n
        invariant
            n == a@.len() == b@.len(),
            0 <= i <= n,
            forall|j: int| 0 <= j < i ==> a@[j] == b@[j],
        decreases n - i,
    {
        if a[i] != b[i] {
            return false;
        }
        i = i + 1;
    }
    proof {
        assert(a@ =~= b@);
    }
    true
}

/// Append all of `add` to the end of `out`.
pub fn append_bytes(out: &mut Vec<u8>, add: &[u8])
    ensures
        final(out)@ == old(out)@ + add@,
{
    let n: usize = add.len();
    let mut i: usize = 0;
    while i < n
        invariant
            n == add@.len(),
            0 <= i <= n,
            out@ == old(out)@ + add@.take(i as int),
        decreases n - i,
    {
        out.push(add[i]);
        proof {
            assert(out@ =~= old(out)@ + add@.take(i + 1));
        }
        i = i + 1;
    }
    proof {
        assert(out@ =~= old(out)@ + add@);
    }
}

} // verus!
