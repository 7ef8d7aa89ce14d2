use vstd::prelude::*;
use vstd::string::StringSliceAdditionalSpecFns;
use crate::error::ResourceError;
use crate::uri::{AbsoluteUri, is_absolute_uri, uri_authority, uri_is_normalized, uri_path, uri_scheme};
use crate::archive_path::{spec_split_archive_parts, split_archive_parts};
use crate::archive_index::{hash_path, md5_digest};
use crate::text::{chars_of, same_text};

verus! {

/// How a resource is to be read: whole from its own reader, or as an entry
/// of an archive that is read through the archive's reader.
pub enum ReadPlan {
    Whole { uri: String },
    Archive { archive_uri: String, content_path: String },
}

/// Message of the error for a URI that is not in normal form.
pub open spec fn not_normalized_message() -> Seq<char> {
    "uri is not normalized"@
}

/// Message of the error for a `file` URI with a relative path.
pub open spec fn relative_file_message() -> Seq<char> {
    "File uri must be absolute"@
}

/// Message of the error for a URI scheme that no reader serves.
pub open spec fn unsupported_scheme_message() -> Seq<char> {
    "Unsupported uri scheme"@
}

/// The `file` scheme.
pub open spec fn file_scheme() -> Seq<char> {
    "file"@
}

/// The `s3` scheme.
pub open spec fn s3_scheme() -> Seq<char> {
    "s3"@
}

/// The `http` and `https` schemes, which no reader serves yet.
pub open spec fn is_http_scheme(s: Seq<char>) -> bool {
    s == "http"@ || s == "https"@
}

/// The path starts with `/`.
pub open spec fn is_rooted(p: Seq<char>) -> bool {
    p.len() > 0 && p[0] == '/'
}

/// The outcome of planning the read of URI `u`.
pub open spec fn plan_read_outcome(u: Seq<char>, r: Result<ReadPlan, ResourceError>) -> bool {
    if !uri_is_normalized(u) {
        r matches Err(ResourceError::BadUri(m)) && m@ == not_normalized_message()
    } else if uri_scheme(u) == file_scheme() && !is_rooted(uri_path(u)) {
        r matches Err(ResourceError::BadUri(m)) && m@ == relative_file_message()
    } else {
        match spec_split_archive_parts(u) {
            Some((a, c)) => r matches Ok(ReadPlan::Archive { archive_uri, content_path })
                && archive_uri@ == a && content_path@ == c,
            None => r matches Ok(ReadPlan::Whole { uri: w }) && w@ == u,
        }
    }
}

/// Decides how `uri` is read: a URI that is not normalized, or a `file`
/// URI whose path is not rooted, is refused; a path into a `.zip` or `.3tz`
/// archive is read from the archive; anything else is read whole.
pub fn plan_read(uri: &AbsoluteUri) -> (r: Result<ReadPlan, ResourceError>)
    ensures
        plan_read_outcome(uri@, r),
{
    if !uri.is_normalized() {
        return Err(ResourceError::BadUri(String::from_str("uri is not normalized")));
    }
    let scheme = uri.scheme_str();
    let file = "file";
    proof {
        reveal_strlit("file");
    }
    if same_text(scheme.as_str(), file) {
        let path = uri.path_str();
        let pc = chars_of(path.as_str());
        if pc.len() == 0 || pc[0] != '/' {
            return Err(ResourceError::BadUri(String::from_str("File uri must be absolute")));
        }
    }
    match split_archive_parts(uri.as_str()) {
        Some((archive_uri, content_path)) => Ok(ReadPlan::Archive { archive_uri, content_path }),
        None => Ok(ReadPlan::Whole { uri: String::from_str(uri.as_str()) }),
    }
}

/// Block size of the cache in front of object-store readers.
pub const S3_BLOCK_SIZE: u64 = 1 << 20;

/// The reader that serves a URI: a local file, or an object in an S3 bucket
/// read in cached blocks, keyed by the digest of the URI.
pub enum ReaderSource {
    File { path: String },
    S3 { bucket: String, key: String, block_size: u64, cache_id: [u8; 16] },
}

/// `p` without its leading `/` characters.
pub open spec fn trim_leading_slashes(p: Seq<char>) -> Seq<char>
    decreases p.len(),
{
    if p.len() > 0 && p[0] == '/' {
        trim_leading_slashes(p.drop_first())
    } else {
        p
    }
}

/// The URI is one whose reader can be named: not an `http`/`https` URI,
/// and an `s3` URI only with an authority (the bucket).
pub open spec fn reader_can_be_named(u: Seq<char>) -> bool {
    is_absolute_uri(u) ==> {
        &&& !is_http_scheme(uri_scheme(u))
        &&& uri_scheme(u) == s3_scheme() ==> uri_authority(u) is Some
    }
}

fn trim_slashes(p: &str) -> (r: String)
    ensures
        r@ == trim_leading_slashes(p@),
{
    let c = chars_of(p);
    let mut i: usize = 0;
    assert(p@.skip(0) =~= p@);
    while i < c.len() && c[i] == '/'
        invariant
            c@ == p@,
            0 <= i <= c@.len(),
            trim_leading_slashes(p@) == trim_leading_slashes(p@.skip(i as int)),
        decreases c@.len() - i,
    {
        assert(p@.skip(i as int).drop_first() =~= p@.skip(i + 1));
        i = i + 1;
    }
    assert(p@.subrange(i as int, p@.len() as int) =~= p@.skip(i as int));
    String::from_str(p.substring_char(i, c.len()))
}

/// The outcome of naming the reader of URI text `u` with UTF-8 bytes `b`.
pub open spec fn reader_source_outcome(u: Seq<char>, b: Seq<u8>, r: Result<ReaderSource, ResourceError>) -> bool {
    if !is_absolute_uri(u) {
        r matches Err(ResourceError::InvalidUri(_))
    } else if uri_scheme(u) == file_scheme() {
        r matches Ok(ReaderSource::File { path }) && path@ == uri_path(u)
    } else if uri_scheme(u) == s3_scheme() {
        r matches Ok(ReaderSource::S3 { bucket, key, block_size, cache_id }) && uri_authority(u) == Some(bucket@)
            && key@ == trim_leading_slashes(uri_path(u)) && block_size == S3_BLOCK_SIZE
            && cache_id@ == md5_digest(b)
    } else {
        r matches Err(ResourceError::BadUri(m)) && m@ == unsupported_scheme_message()
    }
}

/// Names the reader that serves `uri`: a file reader for a `file` URI (its
/// path), an S3 reader for an `s3` URI (its authority as bucket, its path
/// without leading `/` as key, 1 MiB blocks, the URI's digest as cache
/// key); any other scheme is refused, and text that is not an absolute URI
/// is refused by the validator.
pub fn reader_source(uri: &str) -> (r: Result<ReaderSource, ResourceError>)
    requires
        reader_can_be_named(uri@),
    ensures
        reader_source_outcome(uri@, uri.spec_bytes(), r),
{
    let parsed = match AbsoluteUri::new(uri) {
        Ok(u) => u,
        Err(e) => return Err(e),
    };
    let scheme = parsed.scheme_str();
    proof {
        reveal_strlit("file");
        reveal_strlit("s3");
    }
    if same_text(scheme.as_str(), "file") {
        Ok(ReaderSource::File { path: parsed.path_str() })
    } else if same_text(scheme.as_str(), "s3") {
        let bucket = match parsed.authority_str() {
            Some(a) => a,
            None => {
                assert(false);
                String::new()
            },
        };
        let path = parsed.path_str();
        let key = trim_slashes(path.as_str());
        Ok(ReaderSource::S3 { bucket, key, block_size: S3_BLOCK_SIZE, cache_id: hash_path(uri) })
    } else {
        Err(ResourceError::BadUri(String::from_str("Unsupported uri scheme")))
    }
}

/// Names the reader that serves `uri` where one can be named, as
/// `reader_source` does; `None` for an `http`/`https` URI and for an `s3`
/// URI without a bucket, for which no reader exists.
pub fn checked_reader_source(uri: &str) -> (r: Option<Result<ReaderSource, ResourceError>>)
    ensures
        r is None <==> !reader_can_be_named(uri@),
        r matches Some(x) ==> reader_source_outcome(uri@, uri.spec_bytes(), x),
{
    match AbsoluteUri::new(uri) {
        Err(_) => Some(reader_source(uri)),
        Ok(parsed) => {
            let scheme = parsed.scheme_str();
            proof {
                reveal_strlit("http");
                reveal_strlit("https");
                reveal_strlit("s3");
            }
            if same_text(scheme.as_str(), "http") || same_text(scheme.as_str(), "https") {
                return None;
            }
            if same_text(scheme.as_str(), "s3") && parsed.authority_str().is_none() {
                return None;
            }
            Some(reader_source(uri))
        },
    }
}

} // verus!
