//! Serving a request from the root directory: which file a request names,
//! whether it stays inside the root, and what to answer.
use vstd::prelude::*;

use crate::config::{default_file_of, Config};
use crate::request::{HttpRequest, RequestType};
use crate::response::{content_type_of, response_of, IoFailure, Response};

verus! {

/// What `String::from_utf8_lossy` makes of a byte string (invalid UTF-8
/// sequences become U+FFFD).
pub uninterp spec fn utf8_lossy(bytes: Seq<u8>) -> Seq<char>;

/// What `std::path::Path::join` makes of a base path and a path pushed onto it.
pub uninterp spec fn path_join(base: Seq<char>, path: Seq<char>) -> Seq<char>;

/// What `std::path::Path::starts_with` says of a path and a base: whether
/// the base's components are the first components of the path.
pub uninterp spec fn path_starts_with(path: Seq<char>, base: Seq<char>) -> bool;

/// What `std::path::Path::extension` gives for a path: the extension of its
/// file name, if it has one.
pub uninterp spec fn path_extension(path: Seq<char>) -> Option<Seq<char>>;

/// `String::from_utf8_lossy`: the text of a byte string, read as UTF-8.
/// Its result depends on the bytes alone and is named `utf8_lossy`; as std
/// documents, valid UTF-8 comes back as the text it encodes.
#[verifier::external_body]
fn lossy_text(bytes: &[u8]) -> (r: String)
    ensures
        r@ == utf8_lossy(bytes@),
        vstd::utf8::valid_utf8(bytes@) ==> r@ == vstd::utf8::decode_utf8(bytes@),
{
    String::from_utf8_lossy(bytes).into_owned()
}

/// `std::path::Path::join` of two paths, back as text (both are text, so
/// nothing is lost). Its result is named `path_join`.
#[verifier::external_body]
fn join_paths(base: &str, path: &str) -> (r: String)
    ensures
        r@ == path_join(base@, path@),
{
    std::path::Path::new(base).join(path).to_string_lossy().into_owned()
}

/// `std::path::Path::starts_with` of two paths. Its result is named `path_starts_with`.
#[verifier::external_body]
fn path_has_prefix(path: &str, base: &str) -> (r: bool)
    ensures
        r == path_starts_with(path@, base@),
{
    std::path::Path::new(path).starts_with(base)
}

/// `std::path::Path::extension` of a path, as text. Its result is named `path_extension`.
#[verifier::external_body]
fn extension_of(path: &str) -> (r: Option<String>)
    ensures
        match path_extension(path@) {
            Some(e) => r matches Some(s) && s@ == e,
            None => r is None,
        },
{
    std::path::Path::new(path).extension().map(|e| e.to_string_lossy().into_owned())
}

/// The text of a byte string read as UTF-8 (see `utf8_lossy`).
pub(crate) fn text_of(bytes: &[u8]) -> (r: String)
    ensures
        r@ == utf8_lossy(bytes@),
        vstd::utf8::valid_utf8(bytes@) ==> r@ == vstd::utf8::decode_utf8(bytes@),
{
    lossy_text(bytes)
}

/// A request URI without its leading `/`, if it has one.
pub open spec fn relative_of(uri: Seq<u8>) -> Seq<u8> {
    if uri.len() > 0 && uri[0] == 47u8 {
        uri.skip(1)
    } else {
        uri
    }
}

/// The path a request URI names: the root directory joined with the URI
/// read as text, without its leading `/`.
pub open spec fn root_path_of(root_dir: Seq<char>, uri: Seq<u8>) -> Seq<char> {
    path_join(root_dir, utf8_lossy(relative_of(uri)))
}

/// The path a request URI names under the root directory (see `root_path_of`).
pub fn root_path(conf: &Config, uri: &[u8]) -> (r: String)
    ensures
        r@ == root_path_of(conf.root_dir@, uri@),
{
    let rel: &[u8] = if uri.len() > 0 && uri[0] == 47 {
        vstd::slice::slice_subrange(uri, 1, uri.len())
    } else {
        uri
    };
    let text = lossy_text(rel);
    join_paths(conf.root_dir.as_str(), text.as_str())
}

/// The file to serve for `path`: the configured default file inside it when
/// it is a directory (`is_dir`, as the file system says), else `path` itself.
pub fn resolve_path(conf: &Config, path: String, is_dir: bool) -> (r: String)
    ensures
        r@ == if is_dir {
            path_join(path@, default_file_of(*conf))
        } else {
            path@
        },
{
    if is_dir {
        join_paths(path.as_str(), conf.get_default_file())
    } else {
        path
    }
}

/// Whether a resolved path, made canonical, lies outside the root directory:
/// a path traversal.
pub fn is_path_traversal(canonical: &str, conf: &Config) -> (r: bool)
    ensures
        r == !path_starts_with(canonical@, conf.root_dir@),
{
    !path_has_prefix(canonical, conf.root_dir.as_str())
}

/// The extension the content type of a served file is chosen by: the path's
/// extension, or `txt` when it has none.
pub fn extension_or_txt(path: &str) -> (r: String)
    ensures
        r@ == match path_extension(path@) {
            Some(e) => e,
            None => "txt"@,
        },
{
    match extension_of(path) {
        Some(e) => e,
        None => String::from_str("txt"),
    }
}

/// What handling a request needs next.
#[derive(Debug)]
pub enum Handling {
    /// Answer with this response.
    Respond(Response),
    /// Read the resolved file, and answer with `Response::from_io_result` of
    /// the outcome and `extension_or_txt` of the path.
    ReadFile,
}

/// The decision on a request once its resolved path was made canonical:
/// `traversal` is whether the path lies outside the root, or how making it
/// canonical failed. Outside the root: 403. A failure: the response to that
/// failure (404, 403 or 500). Inside: a GET reads the file. The content type
/// of the error responses is chosen by the whole resolved path, as the
/// server does. (A request whose method is not GET is left out by `requires`:
/// the server does not handle DELETE, PUT and HEAD, nor requests without a
/// method.)
pub fn handle_request<T: HttpRequest>(req: &T, resolved_path: &str, traversal: Result<bool, IoFailure>) -> (r: Handling)
    requires
        traversal == Ok::<bool, IoFailure>(false) ==> req.request_type() == Some(RequestType::Get),
    ensures
        match traversal {
            Ok(true) => r matches Handling::Respond(resp) && exists|date: Seq<u8>|
                resp@ == response_of(Err(IoFailure::PermissionDenied), content_type_of(resolved_path@), date),
            Err(e) => r matches Handling::Respond(resp) && exists|date: Seq<u8>|
                resp@ == response_of(Err(e), content_type_of(resolved_path@), date),
            Ok(false) => r is ReadFile,
        },
{
    match traversal {
        Ok(true) => {
            let resp = Response::from_io_result(Err(IoFailure::PermissionDenied), resolved_path);
            Handling::Respond(resp)
        },
        Err(e) => {
            let resp = Response::from_io_result(Err(e), resolved_path);
            Handling::Respond(resp)
        },
        Ok(false) => Handling::ReadFile,
    }
}

} // verus!
