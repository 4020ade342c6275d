//! Helpers on string slices: the characters of a slice, and equality of two
//! slices, each stated over the slice's view as a sequence of characters.

use vstd::prelude::*;
use vstd::string::StringSliceAdditionalSpecFns;
use vstd::utf8::encode_utf8_decode_utf8;

verus! {

/// Two character sequences with the same UTF-8 encoding are the same.
pub proof fn lemma_utf8_encoding_is_injective(a: Seq<char>, b: Seq<char>)
    requires
        vstd::utf8::encode_utf8(a) == vstd::utf8::encode_utf8(b),
    ensures
        a == b,
{
    encode_utf8_decode_utf8(a);
    encode_utf8_decode_utf8(b);
}

/// Whether two string slices hold the same characters.
pub fn str_eq(a: &str, b: &str) -> (same: bool)
    ensures
        same == (a@ == b@),
{
    let x = a.as_bytes();
    let y = b.as_bytes();
    if x.len() != y.len() {
        return false;
    }
    let n: usize = x.len();
    let mut i: usize = 0;
    while i < n
        invariant
            i <= n,
            n == x@.len(),
            n == y@.len(),
            x@ == a.spec_bytes(),
            y@ == b.spec_bytes(),
            forall|j: int| 0 <= j < i ==> x@[j] == y@[j],
        decreases n - i,
    {
        if x[i] != y[i] {
            return false;
        }
        i += 1;
    }
    proof {
        assert(x@ =~= y@);
        lemma_utf8_encoding_is_injective(a@, b@);
    }
    true
}

/// The characters of a string slice, in order.
pub fn chars_of(s: &str) -> (chars: Vec<char>)
    ensures
        chars@ == s@,
{
    let mut chars: Vec<char> = Vec::new();
    for c in it: s.chars()
        invariant
            it.seq() == s@,
            chars@ == s@.take(it.index()),
    {
        chars.push(c);
    }
    chars
}

/// Whether `text` begins with the characters of `prefix`.
pub fn starts_with(text: &[char], prefix: &str) -> (begins: bool)
    ensures
        begins == prefix@.is_prefix_of(text@),
{
    let wanted = chars_of(prefix);
    let n: usize = wanted.len();
    if text.len() < n {
        return false;
    }
    let mut i: usize = 0;
    while i < n
        invariant
            i <= n,
            n == wanted@.len(),
            n <= text@.len(),
            wanted@ == prefix@,
            forall|j: int| 0 <= j < i ==> text@[j] == wanted@[j],
        decreases n - i,
    {
        if text[i] != wanted[i] {
            assert(text@.subrange(0, n as int)[i as int] != wanted@[i as int]);
            return false;
        }
        i += 1;
    }
    assert(wanted@ =~= text@.subrange(0, n as int));
    true
}

} // verus!
