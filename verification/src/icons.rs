//! Icon handling: recognizing remote icon references, deriving a file
//! extension from the Content-Type header or the URL, naming cached
//! files by a hash of the fetch URL, collecting the deduplicated
//! download targets of a configuration, and folding fetch outcomes into
//! the reference-to-local-path map.

use vstd::prelude::*;

use crate::model::{Config, Group, Link, SearchEngine, Site};
use crate::strutil::{
    lower_seq, split_spec, split_str, starts_with, starts_with_spec, str_eq, to_ascii_lower,
    trim_char_spec, trim_char, trim_spec, trim_str, u64_to_hex16, hex16_spec,
};
use crate::urlutil::{last_path_segment, last_path_segment_of};

verus! {

// ---------------------------------------------------------------------------
// Remote icon recognition
// ---------------------------------------------------------------------------

/// What `normalize_remote_icon` recognizes: for `http://`, `https://`
/// and protocol-relative `//` references (checked on the ASCII-lowered,
/// trimmed text) the pair of the trimmed original and the URL to fetch;
/// nothing for anything else.
pub open spec fn normalize_remote_icon_spec(s: Seq<char>) -> Option<(Seq<char>, Seq<char>)> {
    let t = trim_spec(s);
    let l = lower_seq(t);
    if t.len() == 0 {
        None
    } else if starts_with_spec(l, "http://"@) || starts_with_spec(l, "https://"@) {
        Some((t, t))
    } else if starts_with_spec(l, "//"@) {
        Some((t, "https:"@ + t))
    } else {
        None
    }
}

/// Classifies an icon reference: a remote reference yields the original
/// (trimmed) text and the URL to fetch, with `//` rewritten to `https:`.
pub fn normalize_remote_icon(s: &str) -> (r: Option<(String, String)>)
    ensures
        match r {
            Some(p) => normalize_remote_icon_spec(s@) == Some((p.0@, p.1@)),
            None => normalize_remote_icon_spec(s@) is None,
        },
{
    let t = trim_str(s);
    if t.as_str().unicode_len() == 0 {
        return None;
    }
    let l = to_ascii_lower(t.as_str());
    if starts_with(l.as_str(), "http://") || starts_with(l.as_str(), "https://") {
        let orig = t.clone();
        Some((orig, t))
    } else if starts_with(l.as_str(), "//") {
        let mut fetch = "https:".to_owned();
        fetch.append(t.as_str());
        Some((t, fetch))
    } else {
        None
    }
}

// ---------------------------------------------------------------------------
// FNV-1a hashing and cache file names
// ---------------------------------------------------------------------------

pub const FNV_OFFSET: u64 = 0xcbf29ce484222325;

pub const FNV_PRIME: u64 = 0x00000100000001b3;

/// The 64-bit FNV-1a hash of a byte sequence.
pub open spec fn fnv1a64_spec(data: Seq<u8>) -> u64
    decreases data.len(),
{
    if data.len() == 0 {
        FNV_OFFSET
    } else {
        vstd::wrapping::u64_specs::wrapping_mul(
            fnv1a64_spec(data.drop_last()) ^ (data.last() as u64),
            FNV_PRIME,
        )
    }
}

/// Computes the 64-bit FNV-1a hash of the given bytes.
pub fn fnv1a64(data: &[u8]) -> (h: u64)
    ensures
        h == fnv1a64_spec(data@),
{
    let mut hash: u64 = FNV_OFFSET;
    let n = data.len();
    let mut i: usize = 0;
    assert(data@.subrange(0, 0) =~= Seq::<u8>::empty());
    while i < n
        invariant
            n == data@.len(),
            i <= n,
            hash == fnv1a64_spec(data@.subrange(0, i as int)),
        decreases n - i,
    {
        let b = data[i];
        hash = (hash ^ (b as u64)).wrapping_mul(FNV_PRIME);
        i = i + 1;
        proof {
            assert(data@.subrange(0, i as int).drop_last() =~= data@.subrange(0, i - 1));
            assert(data@.subrange(0, i as int).last() == data@[i - 1]);
        }
    }
    assert(data@.subrange(0, n as int) =~= data@);
    hash
}

/// The cached file's name for a fetch URL: `i_`, sixteen hex digits of
/// the FNV-1a hash of the URL's UTF-8 bytes, a dot, and the extension.
pub open spec fn cache_file_name_spec(fetch: Seq<char>, ext: Seq<char>) -> Seq<char> {
    "i_"@ + hex16_spec(fnv1a64_spec(vstd::utf8::encode_utf8(fetch))) + "."@ + ext
}

/// Names the cached file for a fetch URL and an extension.
pub fn cache_file_name(fetch: &str, ext: &str) -> (r: String)
    ensures
        r@ == cache_file_name_spec(fetch@, ext@),
{
    let h = fnv1a64(fetch.as_bytes());
    let mut out = "i_".to_owned();
    let hx = u64_to_hex16(h);
    out.append(hx.as_str());
    out.append(".");
    out.append(ext);
    out
}

/// The cache path relative to the site root: the relative directory
/// without surrounding slashes, a `/`, and the file name; just the file
/// name when the directory trims to nothing.
pub open spec fn icon_rel_path_spec(rel_dir: Seq<char>, fname: Seq<char>) -> Seq<char> {
    let rel = trim_char_spec(rel_dir, '/');
    if rel.len() == 0 {
        fname
    } else {
        rel + "/"@ + fname
    }
}

/// Joins the icon directory (relative to the site root) and a cached
/// file name.
pub fn icon_rel_path(rel_dir: &str, fname: &str) -> (r: String)
    ensures
        r@ == icon_rel_path_spec(rel_dir@, fname@),
{
    let rel = trim_char(rel_dir, '/');
    if rel.as_str().unicode_len() == 0 {
        fname.to_owned()
    } else {
        let mut out = rel;
        out.append("/");
        out.append(fname);
        out
    }
}

// ---------------------------------------------------------------------------
// Extension inference
// ---------------------------------------------------------------------------

/// The characters after the last `.`, or nothing when there is no `.`.
pub open spec fn after_last_dot(s: Seq<char>) -> Option<Seq<char>>
    decreases s.len(),
{
    if s.len() == 0 {
        None
    } else if s.last() == '.' {
        Some(Seq::<char>::empty())
    } else {
        match after_last_dot(s.drop_last()) {
            Some(t) => Some(t.push(s.last())),
            None => None,
        }
    }
}

/// The recognized image extensions, on an already-lowered candidate;
/// everything else is `bin`.
pub open spec fn ext_of_segment(e: Seq<char>) -> Seq<char> {
    if e == "svg"@ {
        "svg"@
    } else if e == "png"@ {
        "png"@
    } else if e == "ico"@ {
        "ico"@
    } else if e == "jpg"@ || e == "jpeg"@ {
        "jpg"@
    } else if e == "gif"@ {
        "gif"@
    } else if e == "webp"@ {
        "webp"@
    } else if e == "avif"@ {
        "avif"@
    } else {
        "bin"@
    }
}

/// What extension a fetch gets: from the Content-Type header's first
/// `;`-piece (trimmed, ASCII-lowered) when it names a known image type,
/// else from the extension of the URL's last path segment, else `bin`.
pub open spec fn ext_spec(content_type: Seq<char>, url: Seq<char>) -> Seq<char> {
    let ct = lower_seq(trim_spec(split_spec(content_type, ';')[0]));
    if ct == "image/svg+xml"@ {
        "svg"@
    } else if ct == "image/png"@ {
        "png"@
    } else if ct == "image/x-icon"@ || ct == "image/vnd.microsoft.icon"@ {
        "ico"@
    } else if ct == "image/jpeg"@ || ct == "image/jpg"@ {
        "jpg"@
    } else if ct == "image/gif"@ {
        "gif"@
    } else if ct == "image/webp"@ {
        "webp"@
    } else if ct == "image/avif"@ {
        "avif"@
    } else {
        match last_path_segment_of(url) {
            Some(seg) => match after_last_dot(seg) {
                Some(e) => ext_of_segment(lower_seq(e)),
                None => "bin"@,
            },
            None => "bin"@,
        }
    }
}

/// The extension after the last dot of a string, if it has a dot.
pub(crate) fn ext_after_dot(seg: &str) -> (r: Option<String>)
    ensures
        match r {
            Some(e) => after_last_dot(seg@) == Some(e@),
            None => after_last_dot(seg@) is None,
        },
{
    let n = seg.unicode_len();
    let mut b: usize = n;
    proof {
        assert(seg@.subrange(b as int, n as int) =~= Seq::<char>::empty());
        assert(seg@.subrange(0, n as int) =~= seg@);
        match after_last_dot(seg@) {
            Some(t) => {
                assert(t + seg@.subrange(n as int, n as int) =~= t);
            },
            None => {},
        }
    }
    while b > 0 && seg.get_char(b - 1) != '.'
        invariant
            n == seg@.len(),
            b <= n,
            match after_last_dot(seg@) {
                Some(t) => after_last_dot(seg@.subrange(0, b as int)) matches Some(t0) && t == t0
                    + seg@.subrange(b as int, n as int),
                None => after_last_dot(seg@.subrange(0, b as int)) is None,
            },
        decreases b,
    {
        proof {
            let p = prefix_of(seg@, b);
            assert(p.drop_last() =~= seg@.subrange(0, b - 1));
            assert(p.last() == seg@[b - 1]);
            match after_last_dot(seg@.subrange(0, b - 1)) {
                Some(t0) => {
                    assert(t0.push(seg@[b - 1]) + seg@.subrange(b as int, n as int) =~= t0
                        + seg@.subrange(b - 1, n as int));
                },
                None => {},
            }
        }
        b = b - 1;
    }
    if b == 0 {
        assert(after_last_dot(seg@.subrange(0, 0)) is None) by {
            assert(seg@.subrange(0, 0) =~= Seq::<char>::empty());
        };
        None
    } else {
        proof {
            let p = prefix_of(seg@, b);
            assert(p.last() == seg@[b - 1]);
            assert(after_last_dot(seg@.subrange(0, b as int)) == Some(Seq::<char>::empty()));
            match after_last_dot(seg@) {
                Some(t) => {
                    assert(t =~= Seq::<char>::empty() + seg@.subrange(b as int, n as int));
                    assert(t =~= seg@.subrange(b as int, n as int));
                },
                None => {},
            }
        }
        let sub = seg.substring_char(b, n);
        Some(sub.to_owned())
    }
}

spec fn prefix_of(s: Seq<char>, b: usize) -> Seq<char> {
    s.subrange(0, b as int)
}

fn ext_of_segment_exec(e: &str) -> (r: String)
    ensures
        r@ == ext_of_segment(e@),
{
    if str_eq(e, "svg") {
        "svg".to_owned()
    } else if str_eq(e, "png") {
        "png".to_owned()
    } else if str_eq(e, "ico") {
        "ico".to_owned()
    } else if str_eq(e, "jpg") || str_eq(e, "jpeg") {
        "jpg".to_owned()
    } else if str_eq(e, "gif") {
        "gif".to_owned()
    } else if str_eq(e, "webp") {
        "webp".to_owned()
    } else if str_eq(e, "avif") {
        "avif".to_owned()
    } else {
        "bin".to_owned()
    }
}

/// Derives the cached file's extension from the Content-Type header,
/// falling back to the URL's last path segment, falling back to `bin`.
pub fn ext_from_headers_or_url(content_type: &str, url: &str) -> (r: String)
    ensures
        r@ == ext_spec(content_type@, url@),
{
    let pieces = split_str(content_type, ';');
    proof {
        crate::strutil::lemma_split_nonempty(content_type@, ';');
        assert(pieces.deep_view()[0] == pieces@[0]@);
    }
    let trimmed = trim_str(pieces[0].as_str());
    let ct = to_ascii_lower(trimmed.as_str());
    if str_eq(ct.as_str(), "image/svg+xml") {
        "svg".to_owned()
    } else if str_eq(ct.as_str(), "image/png") {
        "png".to_owned()
    } else if str_eq(ct.as_str(), "image/x-icon") || str_eq(ct.as_str(), "image/vnd.microsoft.icon") {
        "ico".to_owned()
    } else if str_eq(ct.as_str(), "image/jpeg") || str_eq(ct.as_str(), "image/jpg") {
        "jpg".to_owned()
    } else if str_eq(ct.as_str(), "image/gif") {
        "gif".to_owned()
    } else if str_eq(ct.as_str(), "image/webp") {
        "webp".to_owned()
    } else if str_eq(ct.as_str(), "image/avif") {
        "avif".to_owned()
    } else {
        match last_path_segment(url) {
            Some(seg) => match ext_after_dot(seg.as_str()) {
                Some(e) => {
                    let le = to_ascii_lower(e.as_str());
                    ext_of_segment_exec(le.as_str())
                },
                None => "bin".to_owned(),
            },
            None => "bin".to_owned(),
        }
    }
}

// ---------------------------------------------------------------------------
// Collecting download targets
// ---------------------------------------------------------------------------

/// The icon references of the search engines, in order.
pub open spec fn engine_icons(engines: Seq<SearchEngine>) -> Seq<Option<String>> {
    engines.map_values(|e: SearchEngine| e.icon)
}

/// The icon references of every group's links, groups in order.
pub open spec fn group_icons(gs: Seq<Group>) -> Seq<Option<String>>
    decreases gs.len(),
{
    if gs.len() == 0 {
        Seq::<Option<String>>::empty()
    } else {
        group_icons(gs.drop_last()) + gs.last().links@.map_values(|l: Link| l.icon)
    }
}

/// All icon references of a configuration: search engines first, then
/// every group's links.
pub open spec fn icon_refs(cfg: Config) -> Seq<Option<String>> {
    (match cfg.site.search_engines {
        Some(v) => engine_icons(v@),
        None => Seq::<Option<String>>::empty(),
    }) + group_icons(cfg.groups@)
}

/// Whether a collected list already holds this original reference.
pub open spec fn contains_orig(p: Seq<(Seq<char>, Seq<char>)>, o: Seq<char>) -> bool {
    exists|i: int| 0 <= i < p.len() && p[i].0 == o
}

/// The deduplicated remote targets of a reference list: each remote
/// reference's (original, fetch URL) pair, first occurrence only.
pub open spec fn collect_rec(refs: Seq<Option<String>>) -> Seq<(Seq<char>, Seq<char>)>
    decreases refs.len(),
{
    if refs.len() == 0 {
        Seq::<(Seq<char>, Seq<char>)>::empty()
    } else {
        let p = collect_rec(refs.drop_last());
        match refs.last() {
            Some(ic) => match normalize_remote_icon_spec(ic@) {
                Some(of) => if contains_orig(p, of.0) {
                    p
                } else {
                    p.push(of)
                },
                None => p,
            },
            None => p,
        }
    }
}

/// The download targets of a configuration.
pub open spec fn icon_targets_spec(cfg: Config) -> Seq<(Seq<char>, Seq<char>)> {
    collect_rec(icon_refs(cfg))
}

/// Collected targets never repeat an original reference.
pub proof fn lemma_collect_distinct(refs: Seq<Option<String>>)
    ensures
        forall|i: int, j: int|
            0 <= i < j < collect_rec(refs).len() ==> #[trigger] collect_rec(refs)[i].0
                != #[trigger] collect_rec(refs)[j].0,
    decreases refs.len(),
{
    if refs.len() > 0 {
        lemma_collect_distinct(refs.drop_last());
        let p = collect_rec(refs.drop_last());
        let c = collect_rec(refs);
        match refs.last() {
            Some(ic) => match normalize_remote_icon_spec(ic@) {
                Some(of) => {
                    if !contains_orig(p, of.0) {
                        assert(c == p.push(of));
                        assert forall|i: int, j: int| 0 <= i < j < c.len() implies c[i].0
                            != c[j].0 by {
                            if j < p.len() {
                                assert(c[i] == p[i] && c[j] == p[j]);
                            } else {
                                assert(c[j] == of);
                                assert(c[i] == p[i]);
                                assert(!contains_orig(p, of.0));
                                assert(p[i].0 != of.0);
                            }
                        };
                    }
                },
                None => {},
            },
            None => {},
        }
    }
}

fn contains_first(v: &Vec<(String, String)>, o: &String) -> (r: bool)
    ensures
        r == contains_orig(v.deep_view(), o@),
{
    let mut i: usize = 0;
    while i < v.len()
        invariant
            i <= v@.len(),
            forall|j: int| 0 <= j < i ==> v.deep_view()[j].0 != o@,
        decreases v@.len() - i,
    {
        assert(v.deep_view()[i as int].0 == v@[i as int].0@);
        if str_eq(v[i].0.as_str(), o.as_str()) {
            return true;
        }
        i = i + 1;
    }
    false
}

/// Scans the search engines' and every link's icon reference and
/// returns the remote ones as (original, fetch URL) pairs, deduplicated
/// by original reference: each original occurs at most once, so each
/// remote icon is fetched at most once per build.
pub fn collect_icon_targets(cfg: &Config) -> (targets: Vec<(String, String)>)
    ensures
        targets.deep_view() == icon_targets_spec(*cfg),
        forall|i: int, j: int|
            0 <= i < j < targets.deep_view().len() ==> #[trigger] targets.deep_view()[i].0
                != #[trigger] targets.deep_view()[j].0,
{
    let ghost engine_part: Seq<Option<String>> = match &cfg.site.search_engines {
        Some(v) => engine_icons(v@),
        None => Seq::<Option<String>>::empty(),
    };
    let mut refs: Vec<Option<String>> = Vec::new();
    match &cfg.site.search_engines {
        Some(engines) => {
            let mut i: usize = 0;
            while i < engines.len()
                invariant
                    cfg.site.search_engines matches Some(es) && es == engines,
                    i <= engines@.len(),
                    engine_part == engine_icons(engines@),
                    refs@ == engine_icons(engines@.subrange(0, i as int)),
                decreases engines@.len() - i,
            {
                refs.push(crate::model::clone_opt_string(&engines[i].icon));
                i = i + 1;
                assert(refs@ =~= engine_icons(engines@.subrange(0, i as int))) by {
                    assert(engines@.subrange(0, i as int) =~= engines@.subrange(0, i - 1).push(
                        engines@[i - 1],
                    ));
                };
            }
            assert(engines@.subrange(0, engines@.len() as int) =~= engines@);
        },
        None => {},
    }
    assert(refs@ == engine_part);
    let gs = &cfg.groups;
    let mut gi: usize = 0;
    assert(group_icons(gs@.subrange(0, 0)) =~= Seq::<Option<String>>::empty());
    assert(refs@ =~= engine_part + group_icons(gs@.subrange(0, 0)));
    while gi < gs.len()
        invariant
            gs == cfg.groups,
            engine_part == (match cfg.site.search_engines {
                Some(v) => engine_icons(v@),
                None => Seq::<Option<String>>::empty(),
            }),
            gi <= gs@.len(),
            refs@ == engine_part + group_icons(gs@.subrange(0, gi as int)),
        decreases gs@.len() - gi,
    {
        let links = &gs[gi].links;
        let mut li: usize = 0;
        while li < links.len()
            invariant
                gs == cfg.groups,
                gi < gs@.len(),
                links == gs@[gi as int].links,
                engine_part == (match cfg.site.search_engines {
                    Some(v) => engine_icons(v@),
                    None => Seq::<Option<String>>::empty(),
                }),
                li <= links@.len(),
                refs@ == engine_part + group_icons(gs@.subrange(0, gi as int)) + links@.subrange(
                    0,
                    li as int,
                ).map_values(|l: Link| l.icon),
            decreases links@.len() - li,
        {
            refs.push(crate::model::clone_opt_string(&links[li].icon));
            li = li + 1;
            assert(refs@ =~= engine_part + group_icons(gs@.subrange(0, gi as int))
                + links@.subrange(0, li as int).map_values(|l: Link| l.icon)) by {
                assert(links@.subrange(0, li as int) =~= links@.subrange(0, li - 1).push(
                    links@[li - 1],
                ));
            };
        }
        gi = gi + 1;
        assert(refs@ =~= engine_part + group_icons(gs@.subrange(0, gi as int))) by {
            let p = gs@.subrange(0, gi as int);
            assert(p.drop_last() =~= gs@.subrange(0, gi - 1));
            assert(p.last() == gs@[gi - 1]);
            assert(links@.subrange(0, links@.len() as int) =~= links@);
        };
    }
    assert(gs@.subrange(0, gs@.len() as int) =~= gs@);
    assert(refs@ == icon_refs(*cfg));
    let mut targets: Vec<(String, String)> = Vec::new();
    let mut i: usize = 0;
    assert(refs@.subrange(0, 0) =~= Seq::<Option<String>>::empty());
    while i < refs.len()
        invariant
            i <= refs@.len(),
            targets.deep_view() == collect_rec(refs@.subrange(0, i as int)),
        decreases refs@.len() - i,
    {
        proof {
            assert(refs@.subrange(0, i + 1).drop_last() =~= refs@.subrange(0, i as int));
            assert(refs@.subrange(0, i + 1).last() == refs@[i as int]);
        }
        let ghost before = targets.deep_view();
        match &refs[i] {
            Some(ic) => {
                match normalize_remote_icon(ic.as_str()) {
                    Some((o, f)) => {
                        if !contains_first(&targets, &o) {
                            targets.push((o, f));
                            assert(targets.deep_view() =~= before.push(
                                (targets@.last().0@, targets@.last().1@),
                            ));
                        }
                    },
                    None => {},
                }
            },
            None => {},
        }
        i = i + 1;
        assert(targets.deep_view() =~= collect_rec(refs@.subrange(0, i as int)));
    }
    assert(refs@.subrange(0, refs@.len() as int) =~= refs@);
    proof {
        lemma_collect_distinct(refs@);
    }
    targets
}

// ---------------------------------------------------------------------------
// Folding fetch outcomes into the icon map
// ---------------------------------------------------------------------------

/// The reference-to-local-path map that a list of per-target outcomes
/// yields: an entry for exactly the targets whose fetch succeeded,
/// mapping the original reference to the cached file's relative path.
pub open spec fn download_map_rec(
    targets: Seq<(Seq<char>, Seq<char>)>,
    rel: Seq<char>,
    outcomes: Seq<Option<Seq<char>>>,
) -> Seq<(Seq<char>, Seq<char>)>
    decreases targets.len(),
{
    if targets.len() == 0 {
        Seq::<(Seq<char>, Seq<char>)>::empty()
    } else {
        let p = download_map_rec(targets.drop_last(), rel, outcomes.drop_last());
        match outcomes.last() {
            Some(ct) => p.push(
                (
                    targets.last().0,
                    icon_rel_path_spec(
                        rel,
                        cache_file_name_spec(targets.last().1, ext_spec(ct, targets.last().1)),
                    ),
                ),
            ),
            None => p,
        }
    }
}

/// Folds per-target fetch outcomes into the icon map. The fetches
/// themselves run concurrently in the driver, which records for each
/// target the Content-Type header of a successful download, or nothing
/// on any failure; a failed target simply gets no entry, so its
/// reference stays remote downstream. The map's paths are fully
/// determined by the fetch URL and the Content-Type, so the same inputs
/// always reuse the same cached file name.
pub fn download_icons_concurrent(
    targets: &Vec<(String, String)>,
    rel_dir: &str,
    outcomes: &Vec<Option<String>>,
) -> (map: Vec<(String, String)>)
    requires
        outcomes@.len() == targets@.len(),
    ensures
        map.deep_view() == download_map_rec(targets.deep_view(), rel_dir@, outcomes.deep_view()),
{
    let mut map: Vec<(String, String)> = Vec::new();
    let mut i: usize = 0;
    proof {
        assert(targets.deep_view().subrange(0, 0) =~= Seq::<(Seq<char>, Seq<char>)>::empty());
        assert(outcomes.deep_view().subrange(0, 0) =~= Seq::<Option<Seq<char>>>::empty());
    }
    while i < targets.len()
        invariant
            outcomes@.len() == targets@.len(),
            i <= targets@.len(),
            map.deep_view() == download_map_rec(
                targets.deep_view().subrange(0, i as int),
                rel_dir@,
                outcomes.deep_view().subrange(0, i as int),
            ),
        decreases targets@.len() - i,
    {
        proof {
            let tv = targets.deep_view();
            let ov = outcomes.deep_view();
            assert(tv.subrange(0, i + 1).drop_last() =~= tv.subrange(0, i as int));
            assert(ov.subrange(0, i + 1).drop_last() =~= ov.subrange(0, i as int));
            assert(tv.subrange(0, i + 1).last() == tv[i as int]);
            assert(ov.subrange(0, i + 1).last() == ov[i as int]);
            assert(tv[i as int] == (targets@[i as int].0@, targets@[i as int].1@));
            assert(ov[i as int] == outcomes@[i as int].deep_view());
        }
        let ghost before = map.deep_view();
        match &outcomes[i] {
            Some(ct) => {
                let ext = ext_from_headers_or_url(ct.as_str(), targets[i].1.as_str());
                let fname = cache_file_name(targets[i].1.as_str(), ext.as_str());
                let path = icon_rel_path(rel_dir, fname.as_str());
                let orig = targets[i].0.clone();
                map.push((orig, path));
                assert(map.deep_view() =~= before.push((map@.last().0@, map@.last().1@)));
            },
            None => {},
        }
        i = i + 1;
        assert(map.deep_view() =~= download_map_rec(
            targets.deep_view().subrange(0, i as int),
            rel_dir@,
            outcomes.deep_view().subrange(0, i as int),
        ));
    }
    proof {
        assert(targets.deep_view().subrange(0, targets@.len() as int) =~= targets.deep_view());
        assert(outcomes.deep_view().subrange(0, outcomes@.len() as int) =~= outcomes.deep_view());
    }
    map
}

// ---------------------------------------------------------------------------
// Rewriting the configuration's icon fields
// ---------------------------------------------------------------------------

/// The icon value after the rewrite pass: the map's entry when the
/// reference is one of its keys, else the reference unchanged.
pub open spec fn rewritten_icon(icon: Option<String>, map: Seq<(String, String)>) -> Option<
    Seq<char>,
> {
    match icon {
        None => None,
        Some(ic) => match crate::model::assoc_lookup(map, ic@) {
            Some(v) => Some(v),
            None => Some(ic@),
        },
    }
}

/// The new link equals the old except that its icon went through the map.
pub open spec fn link_rewritten(old: Link, new: Link, map: Seq<(String, String)>) -> bool {
    &&& new.name == old.name
    &&& new.url == old.url
    &&& new.intro == old.intro
    &&& new.details == old.details
    &&& new.slug == old.slug
    &&& new.intranet == old.intranet
    &&& new.risk == old.risk
    &&& new.utm == old.utm
    &&& new.lastmod == old.lastmod
    &&& new.changefreq == old.changefreq
    &&& new.priority == old.priority
    &&& match rewritten_icon(old.icon, map) {
        None => new.icon is None,
        Some(v) => new.icon matches Some(ni) && ni@ == v,
    }
}

/// The new search engine equals the old except for its icon.
pub open spec fn engine_rewritten(
    old: SearchEngine,
    new: SearchEngine,
    map: Seq<(String, String)>,
) -> bool {
    &&& new.name == old.name
    &&& new.template == old.template
    &&& match rewritten_icon(old.icon, map) {
        None => new.icon is None,
        Some(v) => new.icon matches Some(ni) && ni@ == v,
    }
}

/// The new group equals the old except for its links' icons.
pub open spec fn group_rewritten(old: Group, new: Group, map: Seq<(String, String)>) -> bool {
    &&& new.name == old.name
    &&& new.category == old.category
    &&& new.display == old.display
    &&& new.links@.len() == old.links@.len()
    &&& forall|l: int|
        0 <= l < old.links@.len() ==> link_rewritten(old.links@[l], #[trigger] new.links@[l], map)
}

/// The new site equals the old except for its search engines' icons.
pub open spec fn site_rewritten(old: Site, new: Site, map: Seq<(String, String)>) -> bool {
    &&& new.title == old.title
    &&& new.description == old.description
    &&& new.color_scheme == old.color_scheme
    &&& new.theme_dir == old.theme_dir
    &&& new.base_path == old.base_path
    &&& new.redirect == old.redirect
    &&& new.base_url == old.base_url
    &&& new.og_image == old.og_image
    &&& new.sitemap == old.sitemap
    &&& new.default_engine == old.default_engine
    &&& new.layout == old.layout
    &&& new.baidu_tongji_id == old.baidu_tongji_id
    &&& new.google_analytics_id == old.google_analytics_id
    &&& new.default_category_display == old.default_category_display
    &&& match (old.category_display, new.category_display) {
        (None, None) => true,
        (Some(a), Some(b)) => a@ == b@,
        _ => false,
    }
    &&& match (old.search_engines, new.search_engines) {
        (None, None) => true,
        (Some(a), Some(b)) => a@.len() == b@.len() && forall|i: int|
            0 <= i < a@.len() ==> engine_rewritten(a@[i], #[trigger] b@[i], map),
        _ => false,
    }
}

fn rewrite_icon(icon: &Option<String>, map: &Vec<(String, String)>) -> (r: Option<String>)
    ensures
        match rewritten_icon(*icon, map@) {
            None => r is None,
            Some(v) => r matches Some(ni) && ni@ == v,
        },
{
    match icon {
        Some(ic) => match crate::model::assoc_get(map, ic.as_str()) {
            Some(v) => Some(v),
            None => Some(ic.clone()),
        },
        None => None,
    }
}

/// Replaces every icon reference that the map resolves by its local
/// relative path; every other icon field keeps its prior value, so a
/// failed download leaves the remote reference in place.
pub fn apply_icon_map(cfg: &Config, map: &Vec<(String, String)>) -> (r: Config)
    ensures
        site_rewritten(cfg.site, r.site, map@),
        r.groups@.len() == cfg.groups@.len(),
        forall|g: int|
            0 <= g < cfg.groups@.len() ==> group_rewritten(
                cfg.groups@[g],
                #[trigger] r.groups@[g],
                map@,
            ),
{
    let new_engines: Option<Vec<SearchEngine>> = match &cfg.site.search_engines {
        Some(engines) => {
            let mut out: Vec<SearchEngine> = Vec::new();
            let mut i: usize = 0;
            while i < engines.len()
                invariant
                    i <= engines@.len(),
                    out@.len() == i,
                    forall|j: int|
                        0 <= j < i ==> engine_rewritten(engines@[j], #[trigger] out@[j], map@),
                decreases engines@.len() - i,
            {
                let e = SearchEngine {
                    name: engines[i].name.clone(),
                    template: engines[i].template.clone(),
                    icon: rewrite_icon(&engines[i].icon, map),
                };
                out.push(e);
                i = i + 1;
            }
            Some(out)
        },
        None => None,
    };
    let site = Site {
        title: cfg.site.title.clone(),
        description: cfg.site.description.clone(),
        color_scheme: cfg.site.color_scheme,
        theme_dir: crate::model::clone_opt_string(&cfg.site.theme_dir),
        base_path: crate::model::clone_opt_string(&cfg.site.base_path),
        redirect: crate::model::clone_opt_redirect(&cfg.site.redirect),
        base_url: crate::model::clone_opt_string(&cfg.site.base_url),
        og_image: crate::model::clone_opt_string(&cfg.site.og_image),
        sitemap: crate::model::clone_opt_sitemap(&cfg.site.sitemap),
        search_engines: new_engines,
        default_engine: crate::model::clone_opt_string(&cfg.site.default_engine),
        layout: cfg.site.layout,
        baidu_tongji_id: crate::model::clone_opt_string(&cfg.site.baidu_tongji_id),
        google_analytics_id: crate::model::clone_opt_string(&cfg.site.google_analytics_id),
        category_display: crate::model::clone_opt_pairs(&cfg.site.category_display),
        default_category_display: crate::model::clone_opt_string(
            &cfg.site.default_category_display,
        ),
    };
    let mut groups: Vec<Group> = Vec::new();
    let gs = &cfg.groups;
    let mut gi: usize = 0;
    while gi < gs.len()
        invariant
            gs == cfg.groups,
            gi <= gs@.len(),
            groups@.len() == gi,
            forall|g: int|
                0 <= g < gi ==> group_rewritten(gs@[g], #[trigger] groups@[g], map@),
        decreases gs@.len() - gi,
    {
        let links = &gs[gi].links;
        let mut new_links: Vec<Link> = Vec::new();
        let mut li: usize = 0;
        while li < links.len()
            invariant
                gi < gs@.len(),
                links == gs@[gi as int].links,
                li <= links@.len(),
                new_links@.len() == li,
                forall|l: int|
                    0 <= l < li ==> link_rewritten(links@[l], #[trigger] new_links@[l], map@),
            decreases links@.len() - li,
        {
            let l = &links[li];
            let nl = Link {
                name: l.name.clone(),
                url: crate::model::clone_opt_string(&l.url),
                intro: l.intro.clone(),
                details: crate::model::clone_opt_string(&l.details),
                slug: crate::model::clone_opt_string(&l.slug),
                icon: rewrite_icon(&l.icon, map),
                intranet: crate::model::clone_opt_string(&l.intranet),
                risk: l.risk,
                utm: crate::model::clone_opt_utm(&l.utm),
                lastmod: crate::model::clone_opt_string(&l.lastmod),
                changefreq: l.changefreq,
                priority: l.priority,
            };
            new_links.push(nl);
            li = li + 1;
        }
        let g = Group {
            name: gs[gi].name.clone(),
            links: new_links,
            category: crate::model::clone_opt_string(&gs[gi].category),
            display: crate::model::clone_opt_string(&gs[gi].display),
        };
        groups.push(g);
        gi = gi + 1;
    }
    Config { site, groups }
}

/// The icon map holds at most one entry per original reference: with
/// deduplicated targets, every reference resolves to one cached path.
pub proof fn lemma_download_map_distinct(
    targets: Seq<(Seq<char>, Seq<char>)>,
    rel: Seq<char>,
    outcomes: Seq<Option<Seq<char>>>,
)
    requires
        forall|i: int, j: int|
            0 <= i < j < targets.len() ==> #[trigger] targets[i].0 != #[trigger] targets[j].0,
    ensures
        forall|k1: int, k2: int|
            0 <= k1 < k2 < download_map_rec(targets, rel, outcomes).len()
                ==> #[trigger] download_map_rec(targets, rel, outcomes)[k1].0
                != #[trigger] download_map_rec(targets, rel, outcomes)[k2].0,
    decreases targets.len(),
{
    if targets.len() > 0 {
        let tp = targets.drop_last();
        let op = outcomes.drop_last();
        assert(forall|i: int, j: int|
            0 <= i < j < tp.len() ==> #[trigger] tp[i].0 != #[trigger] tp[j].0);
        lemma_download_map_distinct(tp, rel, op);
        lemma_download_map_origs(tp, rel, op);
        let p = download_map_rec(tp, rel, op);
        let c = download_map_rec(targets, rel, outcomes);
        match outcomes.last() {
            Some(_) => {
                assert forall|k1: int, k2: int|
                    0 <= k1 < k2 < c.len() implies #[trigger] c[k1].0 != #[trigger] c[k2].0 by {
                    if k2 < p.len() {
                        assert(c[k1] == p[k1] && c[k2] == p[k2]);
                    } else {
                        assert(c[k2].0 == targets.last().0);
                        assert(c[k1] == p[k1]);
                        let w = choose|w: int| 0 <= w < tp.len() && p[k1].0 == #[trigger] tp[w].0;
                        assert(targets[w].0 != targets[targets.len() - 1].0);
                    }
                };
            },
            None => {},
        }
    }
}

/// Every map entry's original reference comes from a target.
proof fn lemma_download_map_origs(
    targets: Seq<(Seq<char>, Seq<char>)>,
    rel: Seq<char>,
    outcomes: Seq<Option<Seq<char>>>,
)
    ensures
        forall|k: int|
            0 <= k < download_map_rec(targets, rel, outcomes).len() ==> exists|w: int|
                0 <= w < targets.len() && #[trigger] download_map_rec(targets, rel, outcomes)[k].0
                    == #[trigger] targets[w].0,
    decreases targets.len(),
{
    if targets.len() > 0 {
        let tp = targets.drop_last();
        let op = outcomes.drop_last();
        lemma_download_map_origs(tp, rel, op);
        let p = download_map_rec(tp, rel, op);
        let c = download_map_rec(targets, rel, outcomes);
        assert forall|k: int|
            0 <= k < c.len() implies exists|w: int|
            0 <= w < targets.len() && #[trigger] c[k].0 == #[trigger] targets[w].0 by {
            if k < p.len() {
                assert(c[k] == p[k]);
                let w = choose|w: int| 0 <= w < tp.len() && p[k].0 == #[trigger] tp[w].0;
                assert(c[k].0 == targets[w].0);
            } else {
                assert(c[k].0 == targets[targets.len() - 1].0);
            }
        };
    }
}

} // verus!
