//! The sitemap and robots emitter: joins base URL, base path and page
//! sub-paths without doubled or missing slashes, applies the per-link
//! and site-level fallbacks for lastmod, change frequency and priority,
//! clamps priorities to the unit interval, and assembles the final XML
//! and robots text.

use vstd::prelude::*;

use crate::model::{ChangeFreq, Site};
use crate::project::LinkDetail;
use crate::strutil::{digit_char, trim_char, trim_char_end, trim_char_end_spec, trim_char_spec};

verus! {

// ---------------------------------------------------------------------------
// URL joining
// ---------------------------------------------------------------------------

/// A sitemap entry's location: base URL (slash-trimmed at the joints),
/// then base path, then the sub-path; without a base URL the location
/// is relative.
pub open spec fn url_join_spec(
    base_url: Option<Seq<char>>,
    base_path: Option<Seq<char>>,
    sub: Seq<char>,
) -> Seq<char> {
    match base_url {
        Some(b) => trim_char_end_spec(b, '/') + (match base_path {
            Some(bp) => "/"@ + trim_char_spec(bp, '/'),
            None => Seq::<char>::empty(),
        }) + "/"@ + trim_char_spec(sub, '/'),
        None => (match base_path {
            Some(bp) => trim_char_spec(bp, '/') + "/"@,
            None => Seq::<char>::empty(),
        }) + trim_char_spec(sub, '/'),
    }
}

/// Joins a base URL, a base path and a page sub-path into a location.
pub fn url_join(base_url: Option<&String>, base_path: Option<&String>, sub: &str) -> (r: String)
    ensures
        r@ == url_join_spec(
            match base_url {
                Some(b) => Some(b@),
                None => None,
            },
            match base_path {
                Some(bp) => Some(bp@),
                None => None,
            },
            sub@,
        ),
{
    match base_url {
        Some(b) => {
            let mut out = trim_char_end(b.as_str(), '/');
            match base_path {
                Some(bp) => {
                    out.append("/");
                    let t = trim_char(bp.as_str(), '/');
                    out.append(t.as_str());
                },
                None => {},
            }
            out.append("/");
            let t = trim_char(sub, '/');
            out.append(t.as_str());
            out
        },
        None => {
            let mut out = String::new();
            match base_path {
                Some(bp) => {
                    let t = trim_char(bp.as_str(), '/');
                    out.append(t.as_str());
                    out.append("/");
                },
                None => {},
            }
            let t = trim_char(sub, '/');
            out.append(t.as_str());
            assert(out@ =~= url_join_spec(
                None,
                match base_path {
                    Some(bp) => Some(bp@),
                    None => None,
                },
                sub@,
            ));
            out
        },
    }
}

/// A page's canonical URL: the joined absolute location when a base URL
/// is set, else the page path unchanged.
pub open spec fn build_page_url_spec(
    base_url: Option<Seq<char>>,
    base_path: Option<Seq<char>>,
    page: Seq<char>,
) -> Seq<char> {
    match base_url {
        Some(b) => trim_char_end_spec(b, '/') + (match base_path {
            Some(bp) => "/"@ + trim_char_spec(bp, '/'),
            None => Seq::<char>::empty(),
        }) + "/"@ + trim_char_spec(page, '/'),
        None => page,
    }
}

/// Builds a page's canonical URL from the site's base URL and path.
pub fn build_page_url(base_url: Option<&String>, base_path: Option<&String>, page: &str) -> (r:
    String)
    ensures
        r@ == build_page_url_spec(
            match base_url {
                Some(b) => Some(b@),
                None => None,
            },
            match base_path {
                Some(bp) => Some(bp@),
                None => None,
            },
            page@,
        ),
{
    match base_url {
        Some(_) => url_join(base_url, base_path, page),
        None => page.to_owned(),
    }
}

// ---------------------------------------------------------------------------
// Change frequency and priority
// ---------------------------------------------------------------------------

/// The sitemap word for a change frequency.
pub open spec fn changefreq_str_spec(cf: ChangeFreq) -> Seq<char> {
    match cf {
        ChangeFreq::Always => "always"@,
        ChangeFreq::Hourly => "hourly"@,
        ChangeFreq::Daily => "daily"@,
        ChangeFreq::Weekly => "weekly"@,
        ChangeFreq::Monthly => "monthly"@,
        ChangeFreq::Yearly => "yearly"@,
        ChangeFreq::Never => "never"@,
    }
}

/// Renders a change frequency as its sitemap word.
pub fn changefreq_str(cf: ChangeFreq) -> (r: String)
    ensures
        r@ == changefreq_str_spec(cf),
{
    match cf {
        ChangeFreq::Always => "always".to_owned(),
        ChangeFreq::Hourly => "hourly".to_owned(),
        ChangeFreq::Daily => "daily".to_owned(),
        ChangeFreq::Weekly => "weekly".to_owned(),
        ChangeFreq::Monthly => "monthly".to_owned(),
        ChangeFreq::Yearly => "yearly".to_owned(),
        ChangeFreq::Never => "never".to_owned(),
    }
}

/// Clamps a priority, given in thousandths of the unit interval, to
/// [0, 1000] and rounds it to the nearest tenth, half away from zero.
/// The result counts tenths: 0 stands for 0.0, 10 for 1.0.
pub fn sanitize_priority(millis: i64) -> (tenths: u8)
    ensures
        tenths == sanitize_priority_spec(millis),
{
    let clamped: i64 = if millis < 0 {
        0
    } else if millis > 1000 {
        1000
    } else {
        millis
    };
    ((clamped + 50) / 100) as u8
}

/// The clamped, tenth-rounded value of a priority in thousandths.
pub open spec fn sanitize_priority_spec(millis: i64) -> u8 {
    if millis <= 0 {
        0
    } else if millis >= 1000 {
        10
    } else {
        ((millis + 50) / 100) as u8
    }
}

/// A sanitized priority never leaves the unit interval.
pub proof fn lemma_priority_clamped(millis: i64)
    ensures
        0 <= sanitize_priority_spec(millis) <= 10,
{
}

/// The one-decimal text of a sanitized priority: `1.0` for ten tenths,
/// else `0.` and the digit.
pub open spec fn priority_str_spec(millis: i64) -> Seq<char> {
    let t = sanitize_priority_spec(millis);
    if t == 10 {
        "1.0"@
    } else {
        "0."@ + seq![digit_char(t as nat)]
    }
}

/// Renders a priority in thousandths as clamped one-decimal text.
pub fn priority_str(millis: i64) -> (r: String)
    ensures
        r@ == priority_str_spec(millis),
{
    let t = sanitize_priority(millis);
    if t == 10 {
        "1.0".to_owned()
    } else {
        let mut out = "0.".to_owned();
        let d: u8 = t + 48;
        crate::strutil::push_char(&mut out, d as char);
        assert(out@ =~= "0."@ + seq![digit_char(t as nat)]);
        out
    }
}

// ---------------------------------------------------------------------------
// The sitemap XML
// ---------------------------------------------------------------------------

/// The site's default change frequency for sitemap entries.
pub open spec fn site_default_cf(site: Site) -> Option<ChangeFreq> {
    match site.sitemap {
        Some(sm) => sm.default_changefreq,
        None => None,
    }
}

/// The site's default priority, in thousandths, for sitemap entries.
pub open spec fn site_default_pr(site: Site) -> Option<i64> {
    match site.sitemap {
        Some(sm) => sm.default_priority,
        None => None,
    }
}

/// An entry's lastmod: its own, else the site's, else the build time.
pub open spec fn lastmod_text(lm: Option<String>, site: Site, bt: Seq<char>) -> Seq<char> {
    match lm {
        Some(t) => t@,
        None => match site.sitemap {
            Some(sm) => match sm.lastmod {
                Some(t) => t@,
                None => bt,
            },
            None => bt,
        },
    }
}

/// One `<url>` element: location, lastmod, then the optional change
/// frequency and the optional clamped priority.
pub open spec fn entry_xml_spec(
    loc: Seq<char>,
    ts: Seq<char>,
    cf: Option<ChangeFreq>,
    pr: Option<i64>,
) -> Seq<char> {
    "  <url>\n    <loc>"@ + loc + "</loc>\n"@ + "    <lastmod>"@ + ts + "</lastmod>\n"@ + (match cf {
        Some(c) => "    <changefreq>"@ + changefreq_str_spec(c) + "</changefreq>\n"@,
        None => Seq::<char>::empty(),
    }) + (match pr {
        Some(p) => "    <priority>"@ + priority_str_spec(p) + "</priority>\n"@,
        None => Seq::<char>::empty(),
    }) + "  </url>\n"@
}

/// The sub-path of a detail page.
pub open spec fn detail_sub_spec(slug: Seq<char>) -> Seq<char> {
    "go/"@ + slug + "/index.html"@
}

/// The `<url>` element of one detail page, with the link's sitemap
/// fields falling back to the site-level defaults.
pub open spec fn detail_entry_xml_spec(
    site: Site,
    base_path: Option<Seq<char>>,
    d: LinkDetail,
    bt: Seq<char>,
) -> Seq<char> {
    let loc = url_join_spec(
        match site.base_url {
            Some(b) => Some(b@),
            None => None,
        },
        base_path,
        detail_sub_spec(d.slug@),
    );
    let cf = if d.s_changefreq is Some {
        d.s_changefreq
    } else {
        site_default_cf(site)
    };
    let pr = if d.s_priority is Some {
        d.s_priority
    } else {
        site_default_pr(site)
    };
    entry_xml_spec(loc, lastmod_text(d.s_lastmod, site, bt), cf, pr)
}

/// The detail entries of the first `i` detail records, concatenated.
pub open spec fn detail_entries_xml_spec(
    site: Site,
    base_path: Option<Seq<char>>,
    ds: Seq<LinkDetail>,
    i: int,
    bt: Seq<char>,
) -> Seq<char>
    decreases i,
{
    if i <= 0 {
        Seq::<char>::empty()
    } else {
        detail_entries_xml_spec(site, base_path, ds, i - 1, bt) + detail_entry_xml_spec(
            site,
            base_path,
            ds[i - 1],
            bt,
        )
    }
}

/// The `<url>` element of an index page (external or intranet): no own
/// lastmod, the site-level change frequency and priority defaults.
pub open spec fn index_entry_xml_spec(
    site: Site,
    base_path: Option<Seq<char>>,
    sub: Seq<char>,
    bt: Seq<char>,
) -> Seq<char> {
    let loc = url_join_spec(
        match site.base_url {
            Some(b) => Some(b@),
            None => None,
        },
        base_path,
        sub,
    );
    entry_xml_spec(loc, lastmod_text(None, site, bt), site_default_cf(site), site_default_pr(site))
}

/// The whole sitemap: header, the external and intranet index entries,
/// one entry per detail record, and the closing tag.
pub open spec fn sitemap_xml_spec(
    site: Site,
    base_path: Option<Seq<char>>,
    ds: Seq<LinkDetail>,
    bt: Seq<char>,
) -> Seq<char> {
    "<?xml version=\"1.0\" encoding=\"UTF-8\"?>\n"@
        + "<urlset xmlns=\"http://www.sitemaps.org/schemas/sitemap/0.9\">\n"@
        + index_entry_xml_spec(site, base_path, "index.html"@, bt) + index_entry_xml_spec(
        site,
        base_path,
        "intranet/index.html"@,
        bt,
    ) + detail_entries_xml_spec(site, base_path, ds, ds.len() as int, bt) + "</urlset>\n"@
}

fn append_entry(
    xml: &mut String,
    loc: &String,
    ts: &String,
    cf: Option<ChangeFreq>,
    pr: Option<i64>,
)
    ensures
        final(xml)@ == old(xml)@ + entry_xml_spec(loc@, ts@, cf, pr),
{
    xml.append("  <url>\n    <loc>");
    xml.append(loc.as_str());
    xml.append("</loc>\n");
    xml.append("    <lastmod>");
    xml.append(ts.as_str());
    xml.append("</lastmod>\n");
    match cf {
        Some(c) => {
            xml.append("    <changefreq>");
            let w = changefreq_str(c);
            xml.append(w.as_str());
            xml.append("</changefreq>\n");
        },
        None => {},
    }
    match pr {
        Some(p) => {
            xml.append("    <priority>");
            let w = priority_str(p);
            xml.append(w.as_str());
            xml.append("</priority>\n");
        },
        None => {},
    }
    xml.append("  </url>\n");
    assert(xml@ =~= old(xml)@ + entry_xml_spec(loc@, ts@, cf, pr));
}

fn lastmod_of(lm: &Option<String>, site: &Site, bt: &str) -> (r: String)
    ensures
        r@ == lastmod_text(*lm, *site, bt@),
{
    match lm {
        Some(t) => t.clone(),
        None => match &site.sitemap {
            Some(sm) => match &sm.lastmod {
                Some(t) => t.clone(),
                None => bt.to_owned(),
            },
            None => bt.to_owned(),
        },
    }
}

/// Builds the sitemap XML from the site settings, the effective base
/// path, the external detail records and the build time.
pub fn sitemap_xml(
    site: &Site,
    base_path: Option<&String>,
    details: &Vec<LinkDetail>,
    build_time: &str,
) -> (xml: String)
    ensures
        xml@ == sitemap_xml_spec(
            *site,
            match base_path {
                Some(bp) => Some(bp@),
                None => None,
            },
            details@,
            build_time@,
        ),
{
    let ghost bp: Option<Seq<char>> = match base_path {
        Some(bp) => Some(bp@),
        None => None,
    };
    let mut xml = "<?xml version=\"1.0\" encoding=\"UTF-8\"?>\n".to_owned();
    xml.append("<urlset xmlns=\"http://www.sitemaps.org/schemas/sitemap/0.9\">\n");
    let default_cf: Option<ChangeFreq> = match &site.sitemap {
        Some(sm) => sm.default_changefreq,
        None => None,
    };
    let default_pr: Option<i64> = match &site.sitemap {
        Some(sm) => sm.default_priority,
        None => None,
    };
    let base_url_ref = site.base_url.as_ref();
    let ghost bu: Option<Seq<char>> = match base_url_ref {
        Some(b) => Some(b@),
        None => None,
    };
    proof {
        assert(bu == (match site.base_url {
            Some(b) => Some(b@),
            None => None,
        }));
    }
    let loc = url_join(base_url_ref, base_path, "index.html");
    let ts = lastmod_of(&None, site, build_time);
    append_entry(&mut xml, &loc, &ts, default_cf, default_pr);
    let loc2 = url_join(base_url_ref, base_path, "intranet/index.html");
    append_entry(&mut xml, &loc2, &ts, default_cf, default_pr);
    let ghost head = xml@;
    let mut i: usize = 0;
    while i < details.len()
        invariant
            bu == (match site.base_url {
                Some(b) => Some(b@),
                None => None,
            }),
            bu == (match base_url_ref {
                Some(b) => Some(b@),
                None => None,
            }),
            bp == (match base_path {
                Some(b) => Some(b@),
                None => None,
            }),
            head == "<?xml version=\"1.0\" encoding=\"UTF-8\"?>\n"@
                + "<urlset xmlns=\"http://www.sitemaps.org/schemas/sitemap/0.9\">\n"@
                + index_entry_xml_spec(*site, bp, "index.html"@, build_time@)
                + index_entry_xml_spec(*site, bp, "intranet/index.html"@, build_time@),
            default_cf == site_default_cf(*site),
            default_pr == site_default_pr(*site),
            i <= details@.len(),
            xml@ == head + detail_entries_xml_spec(*site, bp, details@, i as int, build_time@),
        decreases details@.len() - i,
    {
        let d = &details[i];
        let mut sub = "go/".to_owned();
        sub.append(d.slug.as_str());
        sub.append("/index.html");
        assert(sub@ == detail_sub_spec(details@[i as int].slug@));
        let loc_d = url_join(base_url_ref, base_path, sub.as_str());
        let ts_d = lastmod_of(&d.s_lastmod, site, build_time);
        let cf: Option<ChangeFreq> = match d.s_changefreq {
            Some(c) => Some(c),
            None => default_cf,
        };
        let pr: Option<i64> = match d.s_priority {
            Some(p) => Some(p),
            None => default_pr,
        };
        proof {
            assert(loc_d@ == url_join_spec(bu, bp, sub@));
        }
        append_entry(&mut xml, &loc_d, &ts_d, cf, pr);
        proof {
            assert(entry_xml_spec(loc_d@, ts_d@, cf, pr) == detail_entry_xml_spec(
                *site,
                bp,
                details@[i as int],
                build_time@,
            ));
        }
        i = i + 1;
        assert(xml@ =~= head + detail_entries_xml_spec(*site, bp, details@, i as int, build_time@));
    }
    xml.append("</urlset>\n");
    assert(xml@ =~= sitemap_xml_spec(*site, bp, details@, build_time@));
    xml
}

/// The robots file: allow everything.
pub fn robots_txt() -> (r: String)
    ensures
        r@ == "User-agent: *\nAllow: /\n"@,
{
    "User-agent: *\nAllow: /\n".to_owned()
}

} // verus!
