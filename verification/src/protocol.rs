//! The plugin asset protocol's request handling decisions.
//!
//! Requests name a plugin and a file inside that plugin's `dist/`
//! directory.  The decisions made here — rejecting traversal attempts,
//! defaulting to `index.html`, picking the content type — are pure; the
//! caller performs the filesystem reads and builds the response around the
//! plan.

use vstd::prelude::*;
use vstd::string::StringExecFns;

use crate::strutil::{
    spec_after_last, spec_split, spec_str_eq_ci, split_char, str_eq, str_eq_ignore_ascii_case,
    substring,
};

verus! {

/// The custom protocol scheme plugin assets are served under.
pub const PLUGIN_PROTOCOL: &'static str = "yaof-plugin";

/// Whether a path component is safe: non-empty and neither of the two
/// traversal components.
pub open spec fn spec_safe_component(c: Seq<char>) -> bool {
    c.len() > 0 && c != "."@ && c != ".."@
}

/// Checks one path component for traversal safety.
pub fn is_safe_path_component(component: &str) -> (r: bool)
    ensures
        r == spec_safe_component(component@),
{
    proof {
        reveal_strlit(".");
        reveal_strlit("..");
    }
    component.unicode_len() > 0 && !str_eq(component, ".") && !str_eq(component, "..")
}

/// The extension segment content types are decided on: everything after
/// the last `.`, or the whole path when there is none.
pub open spec fn spec_ext_segment(path: Seq<char>) -> Seq<char> {
    if spec_after_last(path, '.') == 0 {
        path
    } else {
        path.subrange(spec_after_last(path, '.'), path.len() as int)
    }
}

/// Whether an extension segment names one of the given spellings,
/// comparing ASCII letters case-insensitively.
pub open spec fn spec_ext_is(seg: Seq<char>, name: Seq<char>) -> bool {
    spec_str_eq_ci(seg, name)
}

/// The content type served for a path: decided by the first spelling its
/// extension segment matches, anything unrecognised served as raw bytes.
pub open spec fn spec_mime_type(path: Seq<char>) -> Seq<char> {
    let seg = spec_ext_segment(path);
    if spec_ext_is(seg, "html"@) || spec_ext_is(seg, "htm"@) {
        "text/html"@
    } else if spec_ext_is(seg, "js"@) || spec_ext_is(seg, "mjs"@) {
        "application/javascript"@
    } else if spec_ext_is(seg, "css"@) {
        "text/css"@
    } else if spec_ext_is(seg, "json"@) || spec_ext_is(seg, "map"@) {
        "application/json"@
    } else if spec_ext_is(seg, "png"@) {
        "image/png"@
    } else if spec_ext_is(seg, "jpg"@) || spec_ext_is(seg, "jpeg"@) {
        "image/jpeg"@
    } else if spec_ext_is(seg, "gif"@) {
        "image/gif"@
    } else if spec_ext_is(seg, "svg"@) {
        "image/svg+xml"@
    } else if spec_ext_is(seg, "ico"@) {
        "image/x-icon"@
    } else if spec_ext_is(seg, "woff"@) {
        "font/woff"@
    } else if spec_ext_is(seg, "woff2"@) {
        "font/woff2"@
    } else if spec_ext_is(seg, "ttf"@) {
        "font/ttf"@
    } else if spec_ext_is(seg, "eot"@) {
        "application/vnd.ms-fontobject"@
    } else if spec_ext_is(seg, "wasm"@) {
        "application/wasm"@
    } else {
        "application/octet-stream"@
    }
}

/// The content type served for a path.
pub fn get_mime_type(path: &str) -> (r: &'static str)
    ensures
        r@ == spec_mime_type(path@),
{
    let len = path.unicode_len();
    let d = crate::strutil::find_after_last(path, '.');
    let seg = if d == 0 {
        String::from_str(path)
    } else {
        substring(path, d, len)
    };
    let s = seg.as_str();
    proof {
        assert(seg@ == spec_ext_segment(path@));
    }
    if str_eq_ignore_ascii_case(s, "html") || str_eq_ignore_ascii_case(s, "htm") {
        return "text/html";
    }
    if str_eq_ignore_ascii_case(s, "js") || str_eq_ignore_ascii_case(s, "mjs") {
        return "application/javascript";
    }
    if str_eq_ignore_ascii_case(s, "css") {
        return "text/css";
    }
    if str_eq_ignore_ascii_case(s, "json") || str_eq_ignore_ascii_case(s, "map") {
        return "application/json";
    }
    if str_eq_ignore_ascii_case(s, "png") {
        return "image/png";
    }
    if str_eq_ignore_ascii_case(s, "jpg") || str_eq_ignore_ascii_case(s, "jpeg") {
        return "image/jpeg";
    }
    if str_eq_ignore_ascii_case(s, "gif") {
        return "image/gif";
    }
    if str_eq_ignore_ascii_case(s, "svg") {
        return "image/svg+xml";
    }
    if str_eq_ignore_ascii_case(s, "ico") {
        return "image/x-icon";
    }
    if str_eq_ignore_ascii_case(s, "woff") {
        return "font/woff";
    }
    if str_eq_ignore_ascii_case(s, "woff2") {
        return "font/woff2";
    }
    if str_eq_ignore_ascii_case(s, "ttf") {
        return "font/ttf";
    }
    if str_eq_ignore_ascii_case(s, "eot") {
        return "application/vnd.ms-fontobject";
    }
    if str_eq_ignore_ascii_case(s, "wasm") {
        return "application/wasm";
    }
    "application/octet-stream"
}

/// The file a request's path resolves to: the path without its leading
/// slash, or `index.html` when that leaves nothing.
pub open spec fn spec_effective_file(path: Seq<char>) -> Seq<char> {
    let stripped = if path.len() > 0 && path[0] == '/' {
        path.skip(1)
    } else {
        path
    };
    if stripped.len() == 0 {
        "index.html"@
    } else {
        stripped
    }
}

/// Whether every non-empty `/`-separated component of a file path is safe.
pub open spec fn spec_file_path_safe(p: Seq<char>) -> bool {
    forall|i: int|
        0 <= i < spec_split(p, '/').len() ==> ((#[trigger] spec_split(p, '/')[i]).len() == 0
            || spec_safe_component(spec_split(p, '/')[i]))
}

/// How a plugin asset request is to be answered.
pub enum RequestPlan {
    /// The plugin id carries a traversal attempt: refuse.
    InvalidPluginId,
    /// The file path carries a traversal attempt: refuse.
    InvalidFilePath,
    /// Serve the named file, relative to the plugin's `dist/` directory,
    /// under the given content type.
    Serve { file_path: String, mime_type: &'static str },
}

/// Decides a plugin asset request from its plugin id (the request's host)
/// and its path.  An unsafe plugin id or file path component is refused;
/// otherwise the file to serve is the path without its leading slash,
/// defaulting to `index.html`, and the content type follows its extension.
/// Whether the file exists is for the caller to find out.
pub fn plan_plugin_request(host: &str, path: &str) -> (r: RequestPlan)
    ensures
        !spec_safe_component(host@) <==> r is InvalidPluginId,
        spec_safe_component(host@) && !spec_file_path_safe(spec_effective_file(path@)) <==> r
            is InvalidFilePath,
        r matches RequestPlan::Serve { file_path, mime_type } ==> file_path@
            == spec_effective_file(path@) && mime_type@ == spec_mime_type(
            spec_effective_file(path@),
        ),
{
    if !is_safe_path_component(host) {
        return RequestPlan::InvalidPluginId;
    }
    let len = path.unicode_len();
    let stripped = if len > 0 && path.get_char(0) == '/' {
        substring(path, 1, len)
    } else {
        String::from_str(path)
    };
    proof {
        assert(path@.skip(1) =~= path@.subrange(1, path@.len() as int));
    }
    let file_path = if stripped.as_str().unicode_len() == 0 {
        proof {
            reveal_strlit("index.html");
        }
        String::from_str("index.html")
    } else {
        stripped
    };
    let components = split_char(file_path.as_str(), '/');
    let mut i: usize = 0;
    while i < components.len()
        invariant
            spec_safe_component(host@),
            i <= components@.len(),
            components.deep_view() =~= spec_split(file_path@, '/'),
            file_path@ == spec_effective_file(path@),
            forall|j: int|
                0 <= j < i ==> ((#[trigger] components.deep_view()[j]).len() == 0
                    || spec_safe_component(components.deep_view()[j])),
        decreases components@.len() - i,
    {
        proof {
            assert(components.deep_view()[i as int] == components@[i as int]@);
        }
        if components[i].as_str().unicode_len() > 0 && !is_safe_path_component(
            components[i].as_str(),
        ) {
            return RequestPlan::InvalidFilePath;
        }
        i += 1;
    }
    let mime_type = get_mime_type(file_path.as_str());
    RequestPlan::Serve { file_path, mime_type }
}

} // verus!
