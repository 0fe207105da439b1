//! Path helpers: turning a configured base path into safe sub-path
//! segments, and mapping a file's extension to its content type for the
//! preview server.

use vstd::prelude::*;

use crate::icons::{after_last_dot, ext_after_dot};
use crate::strutil::{
    lower_seq, split_spec, split_str, str_eq, to_ascii_lower, trim_spec, trim_str,
};

verus! {

/// A trimmed path segment is kept when it is neither empty nor `.` nor `..`.
pub open spec fn segment_kept(seg: Seq<char>) -> bool {
    let t = trim_spec(seg);
    t.len() > 0 && t != "."@ && t != ".."@
}

/// The kept, trimmed segments of a slash-separated path.
pub open spec fn safe_segments(parts: Seq<Seq<char>>) -> Seq<Seq<char>>
    decreases parts.len(),
{
    if parts.len() == 0 {
        Seq::<Seq<char>>::empty()
    } else {
        let p = safe_segments(parts.drop_last());
        if segment_kept(parts.last()) {
            p.push(trim_spec(parts.last()))
        } else {
            p
        }
    }
}

/// What `safe_subpath` keeps of a path text.
pub open spec fn safe_subpath_spec(s: Seq<char>) -> Seq<Seq<char>> {
    safe_segments(split_spec(s, '/'))
}

/// Splits a path on `/` and keeps the trimmed segments that are neither
/// empty nor `.` nor `..`; nothing is returned when no segment is left.
pub fn safe_subpath(s: &str) -> (r: Option<Vec<String>>)
    ensures
        match r {
            Some(v) => v.deep_view() == safe_subpath_spec(s@) && v@.len() > 0,
            None => safe_subpath_spec(s@).len() == 0,
        },
{
    let parts = split_str(s, '/');
    let mut out: Vec<String> = Vec::new();
    let mut i: usize = 0;
    proof {
        assert(parts.deep_view().subrange(0, 0) =~= Seq::<Seq<char>>::empty());
    }
    while i < parts.len()
        invariant
            i <= parts@.len(),
            parts.deep_view() == split_spec(s@, '/'),
            out.deep_view() == safe_segments(parts.deep_view().subrange(0, i as int)),
        decreases parts@.len() - i,
    {
        proof {
            let pv = parts.deep_view();
            assert(pv.subrange(0, i + 1).drop_last() =~= pv.subrange(0, i as int));
            assert(pv.subrange(0, i + 1).last() == pv[i as int]);
            assert(pv[i as int] == parts@[i as int]@);
        }
        let t = trim_str(parts[i].as_str());
        let ghost before = out.deep_view();
        if t.as_str().unicode_len() > 0 && !str_eq(t.as_str(), ".") && !str_eq(t.as_str(), "..") {
            assert(segment_kept(parts.deep_view()[i as int]));
            out.push(t);
            assert(out.deep_view() =~= before.push(trim_spec(parts.deep_view()[i as int])));
        } else {
            assert(!segment_kept(parts.deep_view()[i as int]));
        }
        i = i + 1;
    }
    proof {
        assert(parts.deep_view().subrange(0, parts@.len() as int) =~= parts.deep_view());
    }
    if out.len() == 0 {
        None
    } else {
        Some(out)
    }
}

/// The content type served for a file, by the lower-cased extension of
/// its last path segment; unknown extensions are served as raw bytes.
pub open spec fn content_type_spec(p: Seq<char>) -> Seq<char> {
    let parts = split_spec(p, '/');
    let e = match after_last_dot(parts.last()) {
        Some(x) => lower_seq(x),
        None => Seq::<char>::empty(),
    };
    if e == "html"@ {
        "text/html; charset=utf-8"@
    } else if e == "css"@ {
        "text/css; charset=utf-8"@
    } else if e == "js"@ || e == "mjs"@ {
        "application/javascript; charset=utf-8"@
    } else if e == "map"@ || e == "json"@ {
        "application/json; charset=utf-8"@
    } else if e == "txt"@ {
        "text/plain; charset=utf-8"@
    } else if e == "svg"@ {
        "image/svg+xml"@
    } else if e == "png"@ {
        "image/png"@
    } else if e == "jpg"@ || e == "jpeg"@ {
        "image/jpeg"@
    } else if e == "gif"@ {
        "image/gif"@
    } else if e == "webp"@ {
        "image/webp"@
    } else if e == "avif"@ {
        "image/avif"@
    } else if e == "ico"@ {
        "image/x-icon"@
    } else if e == "woff"@ {
        "font/woff"@
    } else if e == "woff2"@ {
        "font/woff2"@
    } else if e == "ttf"@ {
        "font/ttf"@
    } else if e == "otf"@ {
        "font/otf"@
    } else if e == "eot"@ {
        "application/vnd.ms-fontobject"@
    } else if e == "wasm"@ {
        "application/wasm"@
    } else {
        "application/octet-stream"@
    }
}

/// Maps a file path to the content type the preview server sends.
pub fn content_type_for_path(p: &str) -> (r: String)
    ensures
        r@ == content_type_spec(p@),
{
    let parts = split_str(p, '/');
    proof {
        crate::strutil::lemma_split_nonempty(p@, '/');
        assert(parts.deep_view().last() == parts@[parts@.len() - 1]@);
    }
    let fname = &parts[parts.len() - 1];
    let e: String = match ext_after_dot(fname.as_str()) {
        Some(x) => to_ascii_lower(x.as_str()),
        None => String::new(),
    };
    let es = e.as_str();
    if str_eq(es, "html") {
        "text/html; charset=utf-8".to_owned()
    } else if str_eq(es, "css") {
        "text/css; charset=utf-8".to_owned()
    } else if str_eq(es, "js") || str_eq(es, "mjs") {
        "application/javascript; charset=utf-8".to_owned()
    } else if str_eq(es, "map") || str_eq(es, "json") {
        "application/json; charset=utf-8".to_owned()
    } else if str_eq(es, "txt") {
        "text/plain; charset=utf-8".to_owned()
    } else if str_eq(es, "svg") {
        "image/svg+xml".to_owned()
    } else if str_eq(es, "png") {
        "image/png".to_owned()
    } else if str_eq(es, "jpg") || str_eq(es, "jpeg") {
        "image/jpeg".to_owned()
    } else if str_eq(es, "gif") {
        "image/gif".to_owned()
    } else if str_eq(es, "webp") {
        "image/webp".to_owned()
    } else if str_eq(es, "avif") {
        "image/avif".to_owned()
    } else if str_eq(es, "ico") {
        "image/x-icon".to_owned()
    } else if str_eq(es, "woff") {
        "font/woff".to_owned()
    } else if str_eq(es, "woff2") {
        "font/woff2".to_owned()
    } else if str_eq(es, "ttf") {
        "font/ttf".to_owned()
    } else if str_eq(es, "otf") {
        "font/otf".to_owned()
    } else if str_eq(es, "eot") {
        "application/vnd.ms-fontobject".to_owned()
    } else if str_eq(es, "wasm") {
        "application/wasm".to_owned()
    } else {
        "application/octet-stream".to_owned()
    }
}

} // verus!
