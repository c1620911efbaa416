//! Text helpers shared by the parser and the simulator.

use vstd::prelude::*;
use vstd::utf8::*;

verus! {

/// The characters `String::from_utf8_lossy` makes of `bytes`.
pub uninterp spec fn utf8_lossy(bytes: Seq<u8>) -> Seq<char>;

/// The characters a line of bytes decodes to: its UTF-8 decoding when it is
/// valid UTF-8, otherwise what the lossy decoder makes of it.
pub open spec fn line_text(bytes: Seq<u8>) -> Seq<char> {
    if valid_utf8(bytes) {
        decode_utf8(bytes)
    } else {
        utf8_lossy(bytes)
    }
}

/// Decodes `bytes` with `String::from_utf8_lossy`, which replaces every invalid
/// UTF-8 sequence with U+FFFD and decodes valid UTF-8 unchanged.
///
/// Trusted: the result is the named `utf8_lossy` of the bytes, and for valid
/// UTF-8 it is the plain decoding; how invalid sequences are replaced is left
/// to the name.
#[verifier::external_body]
pub(crate) fn decode_lossy(bytes: &[u8]) -> (text: String)
    ensures
        text@ == utf8_lossy(bytes@),
        valid_utf8(bytes@) ==> text@ == decode_utf8(bytes@),
{
    String::from_utf8_lossy(bytes).into_owned()
}

/// Character-wise equality of two string slices.
pub fn str_eq(a: &str, b: &str) -> (equal: bool)
    ensures
        equal == (a@ == b@),
{
    let n = a.unicode_len();
    if n != b.unicode_len() {
        return false;
    }
    let mut i: usize = 0;
    while i < n
        invariant
            n == a@.len(),
            n == b@.len(),
            i <= n,
            forall|j: int| 0 <= j < i ==> a@[j] == b@[j],
        decreases n - i,
    {
        if a.get_char(i) != b.get_char(i) {
            return false;
        }
        i = i + 1;
    }
    assert(a@ =~= b@);
    true
}

/// Index of the first `c` in `s`, if any.
pub fn find_char(s: &str, c: char) -> (found: Option<usize>)
    ensures
        match found {
            Some(i) => i < s@.len() && s@[i as int] == c && forall|j: int| 0 <= j < i ==> s@[j] != c,
            None => forall|j: int| 0 <= j < s@.len() ==> s@[j] != c,
        },
{
    let n = s.unicode_len();
    let mut i: usize = 0;
    for ch in it: s.chars()
        invariant
            n == s@.len(),
            i == it.index(),
            i <= s@.len(),
            it.seq() == s@,
            forall|j: int| 0 <= j < i ==> s@[j] != c,
    {
        if ch == c {
            return Some(i);
        }
        i = i + 1;
    }
    None
}

} // verus!
