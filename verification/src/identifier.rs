use vstd::prelude::*;

verus! {

/// A character allowed in a layer identifier: an ASCII letter or digit,
/// `-` or `_`.
pub open spec fn is_identifier_char(c: char) -> bool {
    ('a' <= c && c <= 'z') || ('A' <= c && c <= 'Z') || ('0' <= c && c <= '9') || c == '-'
        || c == '_'
}

/// A layer identifier is a non-empty string of identifier characters.
pub open spec fn spec_is_valid_identifier(s: Seq<char>) -> bool {
    s.len() > 0 && forall|i: int| 0 <= i < s.len() ==> is_identifier_char(#[trigger] s[i])
}

/// Executable test of one identifier character.
pub fn is_identifier_char_exec(c: char) -> (r: bool)
    ensures
        r == is_identifier_char(c),
{
    ('a' <= c && c <= 'z') || ('A' <= c && c <= 'Z') || ('0' <= c && c <= '9') || c == '-'
        || c == '_'
}

/// Whether `s` is a valid layer identifier.
pub fn is_valid_identifier(s: &str) -> (r: bool)
    ensures
        r == spec_is_valid_identifier(s@),
{
    let n = s.unicode_len();
    if n == 0 {
        return false;
    }
    let mut i: usize = 0;
    while i < n
        invariant
            n == s@.len(),
            0 <= i <= n,
            forall|j: int| 0 <= j < i ==> is_identifier_char(#[trigger] s@[j]),
        decreases n - i,
    {
        let c = s.get_char(i);
        if !is_identifier_char_exec(c) {
            return false;
        }
        i = i + 1;
    }
    true
}

} // verus!

verus! {

/// The identifier characters are exactly the ASCII letters `a`..`z` and
/// `A`..`Z`, the digits `0`..`9`, `-` and `_`: every one of them is allowed,
/// and nothing else is.
pub proof fn lemma_identifier_chars(c: char)
    ensures
        ('a' <= c <= 'z' || 'A' <= c <= 'Z' || '0' <= c <= '9' || c == '-' || c == '_')
            <==> is_identifier_char(c),
{
}

/// A string is a valid identifier exactly when it is non-empty and each of
/// its characters is an ASCII letter or digit, `-` or `_`.
pub proof fn lemma_valid_identifier_chars(s: Seq<char>)
    ensures
        spec_is_valid_identifier(s) <==> (s.len() > 0 && forall|i: int|
            0 <= i < s.len() ==> {
                let c = #[trigger] s[i];
                'a' <= c <= 'z' || 'A' <= c <= 'Z' || '0' <= c <= '9' || c == '-' || c == '_'
            }),
{
    assert forall|i: int| 0 <= i < s.len() implies (is_identifier_char(#[trigger] s[i]) <==> {
        let c = s[i];
        'a' <= c <= 'z' || 'A' <= c <= 'Z' || '0' <= c <= '9' || c == '-' || c == '_'
    }) by {
        lemma_identifier_chars(s[i]);
    }
}

} // verus!
