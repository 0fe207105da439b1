//! URL helpers: host extraction and UTM query injection go through the
//! `url` crate behind trusted wrappers; the remaining helpers are plain
//! string work on URL text.

use vstd::prelude::*;

use crate::model::UtmParams;
use crate::strutil::{ends_with, starts_with, starts_with_spec, trim_spec, trim_str};

verus! {

// ---------------------------------------------------------------------------
// Trusted wrappers around the url crate
// ---------------------------------------------------------------------------

/// The host part of a URL, a function of the URL text alone; nothing
/// when the text does not parse as an absolute URL or has no host.
pub uninterp spec fn host_of(url: Seq<char>) -> Option<Seq<char>>;

/// Relies on url::Url::parse and url::Url::host_str: the host of an
/// absolute URL, or nothing on a parse failure or a host-less URL.
#[verifier::external_body]
pub(crate) fn hostname_from_url(u: &str) -> (r: Option<String>)
    ensures
        r is Some <==> host_of(u@) is Some,
        r matches Some(h) ==> host_of(u@) == Some(h@),
{
    match url::Url::parse(u) {
        Ok(p) => p.host_str().map(|s| s.to_string()),
        Err(_) => None,
    }
}

/// Whether the text parses as an absolute URL, a function of the text alone.
pub uninterp spec fn url_parse_ok(url: Seq<char>) -> bool;

/// The URL re-serialized with the given pairs appended to its query,
/// a function of the URL text and the pairs alone.
pub uninterp spec fn with_query_pairs(
    url: Seq<char>,
    pairs: Seq<(Seq<char>, Seq<char>)>,
) -> Seq<char>;

/// Relies on url::Url::parse, url::Url::query_pairs_mut with
/// form_urlencoded's append_pair, and url::Url::to_string: parses the
/// URL, appends each pair to its query in order, and re-serializes;
/// fails exactly when parsing does.
#[verifier::external_body]
fn append_query_pairs(u: &str, pairs: &Vec<(String, String)>) -> (r: Option<String>)
    ensures
        r is Some <==> url_parse_ok(u@),
        r matches Some(s) ==> s@ == with_query_pairs(u@, pairs.deep_view()),
{
    let mut parsed = match url::Url::parse(u) {
        Ok(p) => p,
        Err(_) => return None,
    };
    {
        let mut qp = parsed.query_pairs_mut();
        for (k, v) in pairs.iter() {
            qp.append_pair(k, v);
        }
    }
    Some(parsed.to_string())
}

/// The last segment of a URL's path, a function of the URL text alone;
/// nothing when the text does not parse or the URL cannot be a base.
pub uninterp spec fn last_path_segment_of(url: Seq<char>) -> Option<Seq<char>>;

/// Relies on url::Url::parse and url::Url::path_segments: the last
/// path segment, or nothing on a parse failure or a cannot-be-a-base URL.
#[verifier::external_body]
pub(crate) fn last_path_segment(u: &str) -> (r: Option<String>)
    ensures
        r is Some <==> last_path_segment_of(u@) is Some,
        r matches Some(s) ==> last_path_segment_of(u@) == Some(s@),
{
    match url::Url::parse(u) {
        Ok(p) => p.path_segments().and_then(|it| it.last()).map(|s| s.to_string()),
        Err(_) => None,
    }
}

/// The Unicode lower-casing of a string, a function of its characters alone.
pub uninterp spec fn lower_of(s: Seq<char>) -> Seq<char>;

/// Relies on str::to_lowercase: the result depends on the characters alone.
#[verifier::external_body]
pub(crate) fn lowercase(s: &str) -> (r: String)
    ensures
        r@ == lower_of(s@),
{
    s.to_lowercase()
}

// ---------------------------------------------------------------------------
// Plain URL text helpers
// ---------------------------------------------------------------------------

/// The trimmed text begins with `http://` or `https://`.
pub open spec fn is_url_like_spec(s: Seq<char>) -> bool {
    starts_with_spec(trim_spec(s), "http://"@) || starts_with_spec(trim_spec(s), "https://"@)
}

/// Whether the trimmed text looks like an absolute HTTP or HTTPS URL.
pub fn is_url_like(s: &str) -> (r: bool)
    ensures
        r == is_url_like_spec(s@),
{
    let t = trim_str(s);
    starts_with(t.as_str(), "http://") || starts_with(t.as_str(), "https://")
}

pub open spec fn value_dir_rec(s: Seq<char>, whole: Seq<char>) -> Seq<char>
    decreases s.len(),
{
    if s.len() == 0 {
        whole
    } else if s.last() == '/' {
        s
    } else {
        value_dir_rec(s.drop_last(), whole)
    }
}

/// The URL up to and including its last `/`, or the whole URL when it
/// has no `/` at all.
pub open spec fn value_dir_spec(s: Seq<char>) -> Seq<char> {
    value_dir_rec(s, s)
}

/// The directory part of a URL: everything up to and including the last
/// slash, or the URL itself when it holds none.
pub fn value_dir_of_url(url: &str) -> (r: String)
    ensures
        r@ == value_dir_spec(url@),
{
    let n = url.unicode_len();
    let mut b: usize = n;
    assert(url@.subrange(0, n as int) =~= url@);
    while b > 0 && url.get_char(b - 1) != '/'
        invariant
            n == url@.len(),
            b <= n,
            value_dir_rec(url@, url@) == value_dir_rec(url@.subrange(0, b as int), url@),
        decreases b,
    {
        proof {
            let p = url@.subrange(0, b as int);
            assert(p.drop_last() =~= url@.subrange(0, b - 1));
        }
        b = b - 1;
    }
    if b == 0 {
        proof {
            assert(url@.subrange(0, 0) =~= Seq::<char>::empty());
        }
        url.to_owned()
    } else {
        proof {
            let p = url@.subrange(0, b as int);
            assert(p.last() == url@[b - 1]);
        }
        let sub = url.substring_char(0, b);
        sub.to_owned()
    }
}

/// What joining a relative reference onto a base URL yields: the
/// reference itself when it is already absolute, else the base and the
/// reference with exactly one `/` between them.
pub open spec fn join_url_spec(base: Seq<char>, rel: Seq<char>) -> Seq<char> {
    if is_url_like_spec(rel) {
        rel
    } else if base.len() > 0 && base.last() == '/' {
        base + rel
    } else {
        base + "/"@ + rel
    }
}

/// Joins a relative reference onto a base URL.
pub fn join_url(base: &str, rel: &str) -> (r: String)
    ensures
        r@ == join_url_spec(base@, rel@),
{
    if is_url_like(rel) {
        return rel.to_owned();
    }
    let mut out = base.to_owned();
    if !ends_with(base, "/") {
        proof {
            reveal_strlit("/");
            if base@.len() > 0 && base@.last() == '/' {
                assert(base@.subrange(base@.len() - 1, base@.len() as int) =~= "/"@);
            }
        }
        out.append("/");
    } else {
        proof {
            reveal_strlit("/");
            assert(base@.subrange(base@.len() - 1, base@.len() as int)[0] == base@.last());
        }
    }
    out.append(rel);
    out
}

// ---------------------------------------------------------------------------
// UTM injection
// ---------------------------------------------------------------------------

/// The query pairs a UTM setting contributes, in the fixed key order.
pub open spec fn utm_pairs(utm: UtmParams) -> Seq<(Seq<char>, Seq<char>)> {
    let s: Seq<(Seq<char>, Seq<char>)> = Seq::empty();
    let s = match utm.source {
        Some(v) => s.push(("utm_source"@, v@)),
        None => s,
    };
    let s = match utm.medium {
        Some(v) => s.push(("utm_medium"@, v@)),
        None => s,
    };
    let s = match utm.campaign {
        Some(v) => s.push(("utm_campaign"@, v@)),
        None => s,
    };
    let s = match utm.term {
        Some(v) => s.push(("utm_term"@, v@)),
        None => s,
    };
    match utm.content {
        Some(v) => s.push(("utm_content"@, v@)),
        None => s,
    }
}

/// A UTM setting with no field set contributes nothing.
pub open spec fn utm_all_absent(utm: UtmParams) -> bool {
    utm.source is None && utm.medium is None && utm.campaign is None && utm.term is None
        && utm.content is None
}

/// What `apply_utm` returns: the URL unchanged when there is nothing to
/// add or when it does not parse, else the URL with the UTM pairs
/// appended to its query.
pub open spec fn apply_utm_spec(url: Seq<char>, utm: Option<UtmParams>) -> Seq<char> {
    match utm {
        None => url,
        Some(u) => if utm_all_absent(u) {
            url
        } else if url_parse_ok(url) {
            with_query_pairs(url, utm_pairs(u))
        } else {
            url
        },
    }
}

/// Appends the configured `utm_*` keys to the URL's query; the URL is
/// returned unchanged when no UTM field is set or when it cannot be
/// parsed as an absolute URL.
pub fn apply_utm(url: &str, utm: Option<&UtmParams>) -> (r: String)
    ensures
        r@ == apply_utm_spec(url@, match utm {
            Some(u) => Some(*u),
            None => None,
        }),
{
    let u = match utm {
        Some(u) => u,
        None => {
            return url.to_owned();
        },
    };
    let mut pairs: Vec<(String, String)> = Vec::new();
    if let Some(v) = &u.source {
        pairs.push(("utm_source".to_owned(), v.clone()));
    }
    if let Some(v) = &u.medium {
        pairs.push(("utm_medium".to_owned(), v.clone()));
    }
    if let Some(v) = &u.campaign {
        pairs.push(("utm_campaign".to_owned(), v.clone()));
    }
    if let Some(v) = &u.term {
        pairs.push(("utm_term".to_owned(), v.clone()));
    }
    if let Some(v) = &u.content {
        pairs.push(("utm_content".to_owned(), v.clone()));
    }
    assert(pairs.deep_view() =~= utm_pairs(*u));
    if pairs.len() == 0 {
        assert(utm_all_absent(*u));
        return url.to_owned();
    }
    assert(!utm_all_absent(*u));
    match append_query_pairs(url, &pairs) {
        Some(s) => s,
        None => url.to_owned(),
    }
}

} // verus!
