//! The rules of the routes that serve linked documents and resources.

use vstd::prelude::*;

use crate::links::{extension, extension_of, is_markdown_file, is_markdown_path, same_text};

verus! {

/// Why a request for a linked document or resource is turned down.
#[derive(Clone, Copy, Debug, PartialEq, Eq, Structural)]
pub enum RouteError {
    /// The path could leave the root directory: answered with 400.
    BadRequest,
    /// The path names nothing that this route serves: answered with 404.
    NotFound,
}

/// The value of the `Cache-Control` header sent with every resource.
pub const CACHE_CONTROL_VALUE: &'static str = "public, max-age=3600";

/// A `..` segment starts at position `i` of the path.
pub open spec fn parent_segment_at(p: Seq<char>, i: int) -> bool {
    0 <= i && i + 2 <= p.len() && p[i] == '.' && p[i + 1] == '.' && (i == 0 || p[i - 1] == '/')
        && (i + 2 == p.len() || p[i + 2] == '/')
}

/// Two separators in a row start at position `i` of the path.
pub open spec fn double_separator_at(p: Seq<char>, i: int) -> bool {
    0 <= i && i + 1 < p.len() && p[i] == '/' && p[i + 1] == '/'
}

/// The path holds a `..` segment.
pub open spec fn has_parent_segment(p: Seq<char>) -> bool {
    exists|i: int| parent_segment_at(p, i)
}

/// The path holds two separators in a row.
pub open spec fn has_double_separator(p: Seq<char>) -> bool {
    exists|i: int| double_separator_at(p, i)
}

/// A requested path that could resolve outside the root directory: one with
/// a `..` segment, a doubled separator, or a leading separator.
pub open spec fn is_unsafe_request(p: Seq<char>) -> bool {
    has_parent_segment(p) || has_double_separator(p) || (p.len() > 0 && p[0] == '/')
}

/// `path` resolved under the directory `root`.
pub open spec fn join_path(root: Seq<char>, path: Seq<char>) -> Seq<char> {
    if root.len() == 0 {
        path
    } else if root.last() == '/' {
        root + path
    } else {
        root + seq!['/'] + path
    }
}

/// What the linked-document route answers for `path` under `root`.
pub open spec fn linked_markdown_outcome(root: Seq<char>, path: Seq<char>) -> Result<Seq<char>, RouteError> {
    if is_unsafe_request(path) {
        Err(RouteError::BadRequest)
    } else if !is_markdown_path(path) {
        Err(RouteError::NotFound)
    } else {
        Ok(join_path(root, path))
    }
}

/// What the resource route answers for `path` under `root`.
pub open spec fn file_outcome(root: Seq<char>, path: Seq<char>) -> Result<Seq<char>, RouteError> {
    if is_unsafe_request(path) {
        Err(RouteError::BadRequest)
    } else {
        Ok(join_path(root, path))
    }
}

/// Turns down a requested path that could leave the root directory.
pub fn check_request_path(path: &str) -> (r: Result<(), RouteError>)
    ensures
        r is Ok <==> !is_unsafe_request(path@),
        r is Err ==> r == Err::<(), RouteError>(RouteError::BadRequest),
{
    let n = path.unicode_len();
    if n > 0 && path.get_char(0) == '/' {
        return Err(RouteError::BadRequest);
    }
    let mut i: usize = 0;
    while i < n
        invariant
            n == path@.len(),
            i <= n,
            n > 0 ==> path@[0] != '/',
            forall|j: int| 0 <= j < i ==> !#[trigger] double_separator_at(path@, j),
            forall|j: int| 0 <= j < i ==> !#[trigger] parent_segment_at(path@, j),
        decreases n - i,
    {
        let c = path.get_char(i);
        if i + 1 < n {
            let d = path.get_char(i + 1);
            if c == '/' && d == '/' {
                assert(double_separator_at(path@, i as int));
                return Err(RouteError::BadRequest);
            }
            if c == '.' && d == '.' && (i == 0 || path.get_char(i - 1) == '/') && (i + 2 == n
                || path.get_char(i + 2) == '/') {
                assert(parent_segment_at(path@, i as int));
                return Err(RouteError::BadRequest);
            }
        }
        i = i + 1;
    }
    assert forall|j: int| !double_separator_at(path@, j) && !parent_segment_at(path@, j) by {
        if 0 <= j < n {
        }
    }
    Ok(())
}

/// `path` resolved under the directory `root`.
pub fn join_root(root: &str, path: &str) -> (r: String)
    ensures
        r@ == join_path(root@, path@),
{
    let n = root.unicode_len();
    let mut r = String::from_str(root);
    if n > 0 && root.get_char(n - 1) != '/' {
        proof {
            reveal_strlit("/");
        }
        r.append("/");
    }
    r.append(path);
    assert(r@ =~= join_path(root@, path@));
    r
}

/// The file that the linked-document route reads for `path`, relative to
/// the root directory `root_dir`: turned down with `BadRequest` when the path
/// could leave the root directory, with `NotFound` when it does not name a
/// Markdown document.
pub fn resolve_linked_markdown(root_dir: &str, path: &str) -> (r: Result<String, RouteError>)
    ensures
        match r {
            Ok(p) => linked_markdown_outcome(root_dir@, path@) == Ok::<Seq<char>, RouteError>(p@),
            Err(e) => linked_markdown_outcome(root_dir@, path@) == Err::<Seq<char>, RouteError>(e),
        },
{
    match check_request_path(path) {
        Err(e) => Err(e),
        Ok(()) => {
            if !is_markdown_file(path) {
                Err(RouteError::NotFound)
            } else {
                Ok(join_root(root_dir, path))
            }
        },
    }
}

/// The file that the resource route reads for `path`, relative to the root
/// directory `root_dir`: turned down with `BadRequest` when the path could
/// leave the root directory.
pub fn resolve_file(root_dir: &str, path: &str) -> (r: Result<String, RouteError>)
    ensures
        match r {
            Ok(p) => file_outcome(root_dir@, path@) == Ok::<Seq<char>, RouteError>(p@),
            Err(e) => file_outcome(root_dir@, path@) == Err::<Seq<char>, RouteError>(e),
        },
{
    match check_request_path(path) {
        Err(e) => Err(e),
        Ok(()) => Ok(join_root(root_dir, path)),
    }
}

/// The MIME type served for a file with the extension `ext`.
pub open spec fn mime_for(ext: Option<Seq<char>>) -> Seq<char> {
    match ext {
        Some(e) => {
            if e == "png"@ {
                "image/png"@
            } else if e == "jpg"@ || e == "jpeg"@ {
                "image/jpeg"@
            } else if e == "gif"@ {
                "image/gif"@
            } else if e == "svg"@ {
                "image/svg+xml"@
            } else if e == "webp"@ {
                "image/webp"@
            } else if e == "ico"@ {
                "image/x-icon"@
            } else if e == "pdf"@ {
                "application/pdf"@
            } else if e == "txt"@ {
                "text/plain"@
            } else if e == "css"@ {
                "text/css"@
            } else if e == "js"@ {
                "application/javascript"@
            } else if e == "json"@ {
                "application/json"@
            } else if e == "xml"@ {
                "application/xml"@
            } else if e == "mp4"@ {
                "video/mp4"@
            } else if e == "webm"@ {
                "video/webm"@
            } else if e == "mp3"@ {
                "audio/mpeg"@
            } else if e == "wav"@ {
                "audio/wav"@
            } else {
                "application/octet-stream"@
            }
        },
        None => "application/octet-stream"@,
    }
}

/// The MIME type of a file, chosen by its extension; files with an
/// unknown extension or none are served as `application/octet-stream`.
pub fn get_mime_type(file_path: &str) -> (r: &'static str)
    ensures
        r@ == mime_for(extension(file_path@)),
{
    match extension_of(file_path) {
        Some(e) => {
            if same_text(e, "png") {
                "image/png"
            } else if same_text(e, "jpg") || same_text(e, "jpeg") {
                "image/jpeg"
            } else if same_text(e, "gif") {
                "image/gif"
            } else if same_text(e, "svg") {
                "image/svg+xml"
            } else if same_text(e, "webp") {
                "image/webp"
            } else if same_text(e, "ico") {
                "image/x-icon"
            } else if same_text(e, "pdf") {
                "application/pdf"
            } else if same_text(e, "txt") {
                "text/plain"
            } else if same_text(e, "css") {
                "text/css"
            } else if same_text(e, "js") {
                "application/javascript"
            } else if same_text(e, "json") {
                "application/json"
            } else if same_text(e, "xml") {
                "application/xml"
            } else if same_text(e, "mp4") {
                "video/mp4"
            } else if same_text(e, "webm") {
                "video/webm"
            } else if same_text(e, "mp3") {
                "audio/mpeg"
            } else if same_text(e, "wav") {
                "audio/wav"
            } else {
                "application/octet-stream"
            }
        },
        None => "application/octet-stream",
    }
}

/// A requested path with a `..` segment or a doubled separator is turned
/// down as a bad request by both the linked-document and the resource
/// route, before any file is named.
pub proof fn lemma_traversal_refused(root: Seq<char>, path: Seq<char>)
    requires
        has_parent_segment(path) || has_double_separator(path),
    ensures
        linked_markdown_outcome(root, path) == Err::<Seq<char>, RouteError>(RouteError::BadRequest),
        file_outcome(root, path) == Err::<Seq<char>, RouteError>(RouteError::BadRequest),
{
}

} // verus!
