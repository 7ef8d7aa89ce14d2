use vstd::prelude::*;
use iri_string::types::{UriAbsoluteStr, UriReferenceStr};
use crate::error::ResourceError;

verus! {

/// Whether the text is an absolute URI (RFC 3986 `absolute-URI`), as the URI
/// validator decides it.
pub uninterp spec fn is_absolute_uri(s: Seq<char>) -> bool;

/// Whether the text is a URI reference (RFC 3986 `URI-reference`), as the
/// URI validator decides it.
pub uninterp spec fn is_uri_reference(s: Seq<char>) -> bool;

/// Whether an absolute URI is already in normal form, as the URI library
/// decides it.
pub uninterp spec fn uri_is_normalized(s: Seq<char>) -> bool;

/// Index of the first character of `s`, from `i` on, that is one of
/// `stops`, or the length of `s` when there is none.
pub open spec fn find_first_from(s: Seq<char>, stops: Seq<char>, i: int) -> int
    decreases s.len() - i,
{
    if i < 0 || i >= s.len() {
        s.len() as int
    } else if stops.contains(s[i]) {
        i
    } else {
        find_first_from(s, stops, i + 1)
    }
}

/// The scheme of an absolute URI: its text before the first `:`.
pub open spec fn uri_scheme(s: Seq<char>) -> Seq<char> {
    s.take(find_first_from(s, seq![':'], 0))
}

/// The hierarchical part and query of an absolute URI: its text after the
/// first `:`.
pub open spec fn uri_after_scheme(s: Seq<char>) -> Seq<char> {
    s.skip(find_first_from(s, seq![':'], 0) + 1)
}

/// Whether the text after the scheme starts with `//`, which opens an
/// authority.
pub open spec fn uri_has_authority(s: Seq<char>) -> bool {
    let h = uri_after_scheme(s);
    h.len() >= 2 && h[0] == '/' && h[1] == '/'
}

/// The authority of an absolute URI: when the text after `scheme:` starts
/// with `//`, the text after that up to the first `/`, `?` or `#`, or to the
/// end.
pub open spec fn uri_authority(s: Seq<char>) -> Option<Seq<char>> {
    if uri_has_authority(s) {
        let a = uri_after_scheme(s).skip(2);
        Some(a.take(find_first_from(a, seq!['/', '?', '#'], 0)))
    } else {
        None
    }
}

/// The path of an absolute URI: what follows the scheme and the authority,
/// up to the first `?` or `#`, or to the end.
pub open spec fn uri_path(s: Seq<char>) -> Seq<char> {
    let h = uri_after_scheme(s);
    let p = if uri_has_authority(s) {
        let a = h.skip(2);
        a.skip(find_first_from(a, seq!['/', '?', '#'], 0))
    } else {
        h
    };
    p.take(find_first_from(p, seq!['?', '#'], 0))
}

/// The text of a URI reference resolved against an absolute base URI, as
/// the URI library's resolver writes it.
pub uninterp spec fn uri_resolve(reference: Seq<char>, base: Seq<char>) -> Seq<char>;

/// Calls `UriAbsoluteStr::new`; claims that it accepts exactly the texts
/// that `is_absolute_uri` names. Which validation error comes back is not
/// stated.
#[verifier::external_body]
fn validate_absolute_uri(s: &str) -> (r: Result<(), iri_string::validate::Error>)
    ensures
        r is Ok <==> is_absolute_uri(s@),
{
    match UriAbsoluteStr::new(s) {
        Ok(_) => Ok(()),
        Err(e) => Err(e),
    }
}

/// Calls `UriReferenceStr::new`; claims that it accepts exactly the texts
/// that `is_uri_reference` names. Which validation error comes back is not
/// stated.
#[verifier::external_body]
fn validate_uri_reference(s: &str) -> (r: Result<(), iri_string::validate::Error>)
    ensures
        r is Ok <==> is_uri_reference(s@),
{
    match UriReferenceStr::new(s) {
        Ok(_) => Ok(()),
        Err(e) => Err(e),
    }
}

/// Calls `UriAbsoluteStr::is_normalized` on an absolute URI; claims that the
/// answer is `uri_is_normalized` of the text.
#[verifier::external_body]
fn absolute_uri_is_normalized(s: &str) -> (r: bool)
    requires
        is_absolute_uri(s@),
    ensures
        r == uri_is_normalized(s@),
{
    match UriAbsoluteStr::new(s) {
        Ok(u) => u.is_normalized(),
        Err(_) => false,
    }
}

/// Calls `UriAbsoluteStr::scheme_str`; claims that the result is the text
/// before the first colon (`uri_scheme`), as the library's parser splits it,
/// and that the text has such a colon.
#[verifier::external_body]
fn absolute_uri_scheme(s: &str) -> (r: String)
    requires
        is_absolute_uri(s@),
    ensures
        r@ == uri_scheme(s@),
        r@.len() < s@.len(),
        s@[r@.len() as int] == ':',
        s@.take(r@.len() as int) == r@,
        forall|i: int| 0 <= i < r@.len() ==> r@[i] != ':',
{
    match UriAbsoluteStr::new(s) {
        Ok(u) => u.scheme_str().to_string(),
        Err(_) => String::new(),
    }
}

/// Calls `UriAbsoluteStr::authority_str`; claims that the result is the
/// authority as `uri_authority` states it, as the library's parser splits it.
#[verifier::external_body]
fn absolute_uri_authority(s: &str) -> (r: Option<String>)
    requires
        is_absolute_uri(s@),
    ensures
        match r {
            Some(a) => uri_authority(s@) == Some(a@),
            None => uri_authority(s@) is None,
        },
{
    match UriAbsoluteStr::new(s) {
        Ok(u) => match u.authority_str() {
            Some(a) => Some(a.to_string()),
            None => None,
        },
        Err(_) => None,
    }
}

/// Calls `UriAbsoluteStr::path_str`; claims that the result is the path as
/// `uri_path` states it, as the library's parser splits it.
#[verifier::external_body]
fn absolute_uri_path(s: &str) -> (r: String)
    requires
        is_absolute_uri(s@),
    ensures
        r@ == uri_path(s@),
{
    match UriAbsoluteStr::new(s) {
        Ok(u) => u.path_str().to_string(),
        Err(_) => String::new(),
    }
}

/// Calls `UriReferenceStr::resolve_against` and writes the result out;
/// claims that the text is `uri_resolve` of the reference and the base.
/// Resolution always yields a result and writing it out only writes, so this
/// never panics; for a base without authority and with an empty path the
/// library notes that the result may differ in meaning from RFC 3986, which
/// `uri_resolve` leaves as the library computes it.
#[verifier::external_body]
fn resolve_uri_reference(reference: &str, base: &str) -> (r: String)
    requires
        is_uri_reference(reference@),
        is_absolute_uri(base@),
    ensures
        r@ == uri_resolve(reference@, base@),
{
    match (UriReferenceStr::new(reference), UriAbsoluteStr::new(base)) {
        (Ok(rf), Ok(b)) => rf.resolve_against(b).to_string(),
        _ => String::new(),
    }
}

/// An absolute URI: text that the URI validator accepts as `absolute-URI`.
pub struct AbsoluteUri {
    text: String,
}

impl View for AbsoluteUri {
    type V = Seq<char>;

    closed spec fn view(&self) -> Seq<char> {
        self.text@
    }
}

impl AbsoluteUri {
    #[verifier::type_invariant]
    spec fn well_formed(self) -> bool {
        is_absolute_uri(self.text@)
    }

    /// Validates `s` as an absolute URI.
    pub fn new(s: &str) -> (r: Result<AbsoluteUri, ResourceError>)
        ensures
            r is Ok <==> is_absolute_uri(s@),
            r matches Ok(u) ==> u@ == s@,
            r matches Err(e) ==> e is InvalidUri,
    {
        match validate_absolute_uri(s) {
            Ok(()) => Ok(AbsoluteUri { text: String::from_str(s) }),
            Err(e) => Err(ResourceError::InvalidUri(e)),
        }
    }

    /// A second value holding the same URI.
    pub fn duplicate(&self) -> (r: AbsoluteUri)
        ensures
            r@ == self@,
    {
        proof {
            use_type_invariant(self);
        }
        AbsoluteUri { text: self.text.clone() }
    }

    /// The URI's text.
    pub fn as_str(&self) -> (r: &str)
        ensures
            r@ == self@,
            is_absolute_uri(self@),
    {
        proof {
            use_type_invariant(self);
        }
        self.text.as_str()
    }

    /// Whether the URI is already in normal form.
    pub fn is_normalized(&self) -> (r: bool)
        ensures
            r == uri_is_normalized(self@),
    {
        proof {
            use_type_invariant(self);
        }
        absolute_uri_is_normalized(self.text.as_str())
    }

    /// The URI's scheme: its text up to the first `:`.
    pub fn scheme_str(&self) -> (r: String)
        ensures
            r@ == uri_scheme(self@),
            r@.len() < self@.len(),
            self@[r@.len() as int] == ':',
            self@.take(r@.len() as int) == r@,
    {
        proof {
            use_type_invariant(self);
        }
        absolute_uri_scheme(self.text.as_str())
    }

    /// The URI's authority, if it has one.
    pub fn authority_str(&self) -> (r: Option<String>)
        ensures
            match r {
                Some(a) => uri_authority(self@) == Some(a@),
                None => uri_authority(self@) is None,
            },
    {
        proof {
            use_type_invariant(self);
        }
        absolute_uri_authority(self.text.as_str())
    }

    /// The URI's path.
    pub fn path_str(&self) -> (r: String)
        ensures
            r@ == uri_path(self@),
    {
        proof {
            use_type_invariant(self);
        }
        absolute_uri_path(self.text.as_str())
    }
}

/// Resolves the URI reference `reference` against `base`, giving the text of
/// the resolved URI; fails when `reference` is not a URI reference.
pub fn resolve_against(reference: &str, base: &AbsoluteUri) -> (r: Result<String, ResourceError>)
    ensures
        r is Ok <==> is_uri_reference(reference@),
        r matches Ok(t) ==> t@ == uri_resolve(reference@, base@),
        r matches Err(e) ==> e is InvalidUri,
{
    proof {
        use_type_invariant(base);
    }
    match validate_uri_reference(reference) {
        Ok(()) => Ok(resolve_uri_reference(reference, base.as_str())),
        Err(e) => Err(ResourceError::InvalidUri(e)),
    }
}

} // verus!
