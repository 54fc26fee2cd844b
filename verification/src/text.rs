//! ASCII text as bytes: the link between string literals and the wire.

use vstd::prelude::*;
use vstd::string::*;

verus! {

/// The byte `|`, which separates the records of an event batch.
pub const SEPARATOR: u8 = 124;

/// The byte `,`.
pub const COMMA: u8 = 44;

/// The byte `-`.
pub const MINUS: u8 = 45;

/// The byte `0`; the other digits follow it.
pub const ZERO: u8 = 48;

/// The bytes of a text whose characters are all ASCII, one byte per character.
pub open spec fn ascii(t: Seq<char>) -> Seq<u8> {
    Seq::new(t.len(), |i: int| t[i] as u8)
}

/// Appends the bytes of an ASCII text to `out`.
pub(crate) fn put_text(out: &mut Vec<u8>, s: &str)
    requires
        is_ascii(s),
    ensures
        final(out)@ == old(out)@ + ascii(s@),
{
    broadcast use is_ascii_spec_bytes;

    let b = s.as_bytes();
    assert(b@ =~= ascii(s@));
    out.extend_from_slice(b);
}

/// Whether `bytes`, read from `at`, continues with `pat`.
pub open spec fn matches_at(bytes: Seq<u8>, at: int, pat: Seq<u8>) -> bool {
    &&& 0 <= at
    &&& at + pat.len() <= bytes.len()
    &&& bytes.subrange(at, at + pat.len()) == pat
}

/// Tests whether `bytes`, read from `at`, continues with the ASCII text `s`.
pub(crate) fn text_at(bytes: &[u8], at: usize, s: &str) -> (r: bool)
    requires
        is_ascii(s),
    ensures
        r == matches_at(bytes@, at as int, ascii(s@)),
{
    broadcast use is_ascii_spec_bytes;

    let pat = s.as_bytes();
    assert(pat@ =~= ascii(s@));
    let n = pat.len();
    if at > bytes.len() || n > bytes.len() - at {
        return false;
    }
    let mut i: usize = 0;
    while i < n
        invariant
            i <= n,
            n == pat@.len(),
            pat@ == ascii(s@),
            at + n <= bytes.len(),
            forall|j: int| 0 <= j < i ==> bytes@[at + j] == pat@[j],
        decreases n - i,
    {
        if bytes[at + i] != pat[i] {
            assert(bytes@.subrange(at as int, at + n)[i as int] == bytes@[at + i]);
            return false;
        }
        i += 1;
    }
    assert(bytes@.subrange(at as int, at + n) =~= pat@);
    true
}

/// Tests two byte strings for equality.
pub fn same_bytes(a: &[u8], b: &[u8]) -> (r: bool)
    ensures
        r == (a@ == b@),
{
    if a.len() != b.len() {
        return false;
    }
    let mut i: usize = 0;
    while i < a.len()
        invariant
            i <= a@.len(),
            a@.len() == b@.len(),
            forall|j: int| 0 <= j < i ==> a@[j] == b@[j],
        decreases a@.len() - i,
    {
        if a[i] != b[i] {
            return false;
        }
        i += 1;
    }
    assert(a@ =~= b@);
    true
}

} // verus!
