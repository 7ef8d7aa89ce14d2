use vstd::prelude::*;
use crate::error::ResourceError;
use crate::uri::{AbsoluteUri, is_absolute_uri, is_uri_reference, resolve_against, uri_resolve};
use crate::identifier::{is_valid_identifier, spec_is_valid_identifier};
use crate::text::{ends_with, str_ends_with};
use crate::archive_path::{default_inner_path, ends_with_3tz, lemma_archive_root_is_its_tileset, spec_split_archive_parts};

verus! {

/// HTTP statuses that the tile service answers failed requests with.
#[derive(Clone, Copy, Debug, PartialEq, Eq, Structural)]
pub enum HttpStatus {
    BadRequest,
    NotFound,
    InternalServerError,
}

impl HttpStatus {
    /// The numeric status code.
    pub fn code(&self) -> (r: u16)
        ensures
            r == match *self {
                HttpStatus::BadRequest => 400u16,
                HttpStatus::NotFound => 404u16,
                HttpStatus::InternalServerError => 500u16,
            },
    {
        match self {
            HttpStatus::BadRequest => 400,
            HttpStatus::NotFound => 404,
            HttpStatus::InternalServerError => 500,
        }
    }
}

/// The `.3tz` archive extension.
pub open spec fn ext_3tz() -> Seq<char> {
    ".3tz"@
}

/// The root of a content tileset: a `.3tz` archive stands for its
/// `tileset.json`; any other URI is kept.
pub open spec fn spec_content_root(u: Seq<char>) -> Seq<char> {
    if ends_with(u, ext_3tz()) {
        u + "/tileset.json"@
    } else {
        u
    }
}

/// The root of a content tileset, from the resolved content URI template.
pub fn content_root(resolved_template: String) -> (r: String)
    ensures
        r@ == spec_content_root(resolved_template@),
{
    let mut root = resolved_template;
    if str_ends_with(root.as_str(), ".3tz") {
        root.append("/tileset.json");
    }
    root
}

/// The URI of the tileset at the top of a content tree: the content root,
/// which must be an absolute URI (else the server is at fault).
pub fn content_toplevel_uri(resolved_template: String) -> (r: Result<AbsoluteUri, HttpStatus>)
    ensures
        r is Ok <==> is_absolute_uri(spec_content_root(resolved_template@)),
        r matches Ok(u) ==> u@ == spec_content_root(resolved_template@),
        r matches Err(s) ==> s == HttpStatus::InternalServerError,
{
    let root = content_root(resolved_template);
    match AbsoluteUri::new(root.as_str()) {
        Ok(u) => Ok(u),
        Err(_) => Err(HttpStatus::InternalServerError),
    }
}

/// The outcome of locating a content payload: `rest` resolved against the
/// content root of the template.
pub open spec fn content_payload_outcome(template: Seq<char>, rest: Seq<char>, r: Result<AbsoluteUri, HttpStatus>) -> bool {
    let root = spec_content_root(template);
    if !is_absolute_uri(root) {
        r == Err::<AbsoluteUri, HttpStatus>(HttpStatus::InternalServerError)
    } else if !is_uri_reference(rest) {
        r == Err::<AbsoluteUri, HttpStatus>(HttpStatus::BadRequest)
    } else if !is_absolute_uri(uri_resolve(rest, root)) {
        r == Err::<AbsoluteUri, HttpStatus>(HttpStatus::BadRequest)
    } else {
        r matches Ok(u) && u@ == uri_resolve(rest, root)
    }
}

/// The URI of a content payload: the request's `rest` resolved against the
/// content root. A content root that is no absolute URI is the server's
/// fault; a `rest` that is no URI reference, or that resolves to no
/// absolute URI, is the client's.
pub fn content_payload_uri(resolved_template: String, rest: &str) -> (r: Result<AbsoluteUri, HttpStatus>)
    ensures
        content_payload_outcome(resolved_template@, rest@, r),
{
    let root_text = content_root(resolved_template);
    let root = match AbsoluteUri::new(root_text.as_str()) {
        Ok(u) => u,
        Err(_) => return Err(HttpStatus::InternalServerError),
    };
    let resolved = match resolve_against(rest, &root) {
        Ok(t) => t,
        Err(_) => return Err(HttpStatus::BadRequest),
    };
    match AbsoluteUri::new(resolved.as_str()) {
        Ok(u) => Ok(u),
        Err(_) => Err(HttpStatus::BadRequest),
    }
}

/// The URI of a base-globe terrain payload: `rest` under the layer's base
/// globe terrain URI, joined with `/`. A layer without one has no such
/// payloads; a joined text that is no absolute URI is the client's fault.
pub fn base_globe_terrain_uri(base: Option<&str>, rest: &str) -> (r: Result<AbsoluteUri, HttpStatus>)
    ensures
        base is None ==> r == Err::<AbsoluteUri, HttpStatus>(HttpStatus::NotFound),
        base matches Some(b) ==> {
            let joined = b@ + "/"@ + rest@;
            &&& (r is Ok <==> is_absolute_uri(joined))
            &&& r matches Ok(u) ==> u@ == joined
            &&& r matches Err(s) ==> s == HttpStatus::BadRequest
        },
{
    match base {
        None => Err(HttpStatus::NotFound),
        Some(b) => {
            let joined = String::from_str(b).concat("/").concat(rest);
            match AbsoluteUri::new(joined.as_str()) {
                Ok(u) => Ok(u),
                Err(_) => Err(HttpStatus::BadRequest),
            }
        },
    }
}

/// Which cross-origin requests the service allows.
#[derive(Debug)]
pub enum CorsPolicy {
    /// No cross-origin headers are added.
    Disabled,
    /// Requests from any origin are allowed.
    AnyOrigin,
    /// Requests from this one origin are allowed.
    Origin(String),
}

/// The cross-origin policy for the configured origin: none when no origin
/// is configured, any origin for `*`, else that origin.
pub fn cors_policy(origin: Option<&str>) -> (r: CorsPolicy)
    ensures
        origin is None ==> r is Disabled,
        origin matches Some(o) ==> (o@ == "*"@ ==> r is AnyOrigin),
        origin matches Some(o) ==> (o@ != "*"@ ==> (r matches CorsPolicy::Origin(x) && x@ == o@)),
{
    match origin {
        None => CorsPolicy::Disabled,
        Some(o) => {
            if crate::text::same_text(o, "*") {
                CorsPolicy::AnyOrigin
            } else {
                CorsPolicy::Origin(String::from_str(o))
            }
        },
    }
}

/// Why the URI of a layer definition could not be formed.
#[derive(Debug)]
pub enum LayerUriError {
    /// The layer id is not an identifier; holds the message saying so.
    InvalidId(String),
    /// The configured root, the file name or the resolved text is no valid URI.
    InvalidUri(ResourceError),
}

/// Message of the error for a layer id that is not an identifier.
pub open spec fn invalid_id_message() -> Seq<char> {
    "Invalid id, must be a valid identifier"@
}

/// The file name of a layer's definition: its id with `.json` appended.
pub open spec fn definition_file_name(id: Seq<char>) -> Seq<char> {
    id + ".json"@
}

/// The outcome of locating the definition of layer `id` under the
/// configured root URI `root`.
pub open spec fn layer_definition_uri_outcome(root: Seq<char>, id: Seq<char>, r: Result<AbsoluteUri, LayerUriError>) -> bool {
    if !spec_is_valid_identifier(id) {
        r matches Err(LayerUriError::InvalidId(m)) && m@ == invalid_id_message()
    } else if !is_absolute_uri(root) || !is_uri_reference(definition_file_name(id))
        || !is_absolute_uri(uri_resolve(definition_file_name(id), root)) {
        r matches Err(LayerUriError::InvalidUri(ResourceError::InvalidUri(_)))
    } else {
        r matches Ok(u) && u@ == uri_resolve(definition_file_name(id), root)
    }
}

/// The URI of the definition of layer `id`: `<id>.json` resolved against the
/// configured root URI. Ids that are not identifiers are refused first.
pub fn layer_definition_uri(layer_config_uri: &str, id: &str) -> (r: Result<AbsoluteUri, LayerUriError>)
    ensures
        layer_definition_uri_outcome(layer_config_uri@, id@, r),
{
    if !is_valid_identifier(id) {
        return Err(LayerUriError::InvalidId(String::from_str("Invalid id, must be a valid identifier")));
    }
    let root = match AbsoluteUri::new(layer_config_uri) {
        Ok(u) => u,
        Err(e) => return Err(LayerUriError::InvalidUri(e)),
    };
    let file_name = String::from_str(id).concat(".json");
    let resolved = match resolve_against(file_name.as_str(), &root) {
        Ok(t) => t,
        Err(e) => return Err(LayerUriError::InvalidUri(e)),
    };
    match AbsoluteUri::new(resolved.as_str()) {
        Ok(u) => Ok(u),
        Err(e) => Err(LayerUriError::InvalidUri(e)),
    }
}

} // verus!

verus! {

/// The content root of a single-line `.3tz` archive URI names the same
/// archive entry as the archive URI itself: the archive's `tileset.json`.
pub proof fn lemma_content_root_is_archive_tileset(u: Seq<char>)
    requires
        u.len() >= 5,
        ends_with(u, ext_3tz()),
        forall|j: int| 0 <= j < u.len() ==> u[j] != '\n',
    ensures
        spec_split_archive_parts(spec_content_root(u)) == spec_split_archive_parts(u),
        spec_split_archive_parts(u) == Some((u, default_inner_path())),
{
    reveal_strlit(".3tz");
    reveal_strlit("/tileset.json");
    assert(u.skip(u.len() - 4) == ext_3tz());
    assert(u.skip(u.len() - 4)[0] == u[u.len() - 4]);
    assert(u.skip(u.len() - 4)[1] == u[u.len() - 3]);
    assert(u.skip(u.len() - 4)[2] == u[u.len() - 2]);
    assert(u.skip(u.len() - 4)[3] == u[u.len() - 1]);
    assert(ends_with_3tz(u));
    assert("/tileset.json"@ =~= seq!['/'] + default_inner_path());
    assert(spec_content_root(u) =~= u + seq!['/'] + default_inner_path());
    lemma_archive_root_is_its_tileset(u);
}

} // verus!
