use vstd::prelude::*;

verus! {

broadcast use vstd::string::group_string_axioms;

/// The bytes of a string made of ASCII characters.
pub open spec fn ascii(s: Seq<char>) -> Seq<u8> {
    Seq::new(s.len(), |i: int| s[i] as u8)
}

/// Whether two byte strings are equal.
pub fn bytes_eq(a: &[u8], b: &[u8]) -> (r: bool)
    ensures
        r == (a@ == b@),
{
    if a.len() != b.len() {
        return false;
    }
    let mut i: usize = 0;
    while i < a.len()
        invariant
            a@.len() == b@.len(),
            i <= a@.len(),
            forall|j: int| 0 <= j < i ==> a@[j] == b@[j],
        decreases a@.len() - i,
    {
        if a[i] != b[i] {
            return false;
        }
        i += 1;
    }
    assert(a@ =~= b@);
    true
}

/// Whether `t` spells the ASCII word `word`.
pub fn is_word(t: &[u8], word: &str) -> (r: bool)
    requires
        vstd::string::is_ascii(word),
    ensures
        r == (t@ == ascii(word@)),
{
    proof {
        vstd::string::is_ascii_spec_bytes(word);
    }
    let w = word.as_bytes();
    assert(w@ =~= ascii(word@));
    bytes_eq(t, w)
}

/// The bytes of an ASCII word.
pub fn word_bytes(word: &str) -> (r: Vec<u8>)
    requires
        vstd::string::is_ascii(word),
    ensures
        r@ == ascii(word@),
{
    proof {
        vstd::string::is_ascii_spec_bytes(word);
    }
    let w = word.as_bytes();
    assert(w@ =~= ascii(word@));
    vstd::slice::slice_to_vec(w)
}

} // verus!

verus! {

/// Relies on `String::from_utf8`: it succeeds exactly on valid UTF-8, and the
/// string then holds the characters that the bytes encode.
#[verifier::external_body]
pub(crate) fn utf8_string(b: &[u8]) -> (r: Option<String>)
    ensures
        r is Some <==> vstd::utf8::valid_utf8(b@),
        r matches Some(s) ==> s@ == vstd::utf8::decode_utf8(b@),
{
    String::from_utf8(b.to_vec()).ok()
}

} // verus!
