//! The configuration model: site settings, groups of links, and the
//! small enumerations they carry. Sitemap priorities are held in
//! thousandths of the unit interval, so that the whole model stays in
//! integer arithmetic.

use vstd::prelude::*;

use crate::strutil::{lower_seq, str_eq, to_ascii_lower};

verus! {

#[derive(Clone, Copy, Debug, PartialEq, Eq, Structural)]
pub enum ColorScheme {
    Auto,
    Light,
    Dark,
}

#[derive(Clone, Copy, Debug, PartialEq, Eq, Structural)]
pub enum Layout {
    Default,
    Ntp,
}

#[derive(Clone, Copy, Debug, PartialEq, Eq, Structural)]
pub enum RiskLevel {
    Low,
    Medium,
    High,
}

#[derive(Clone, Copy, Debug, PartialEq, Eq, Structural)]
pub enum ChangeFreq {
    Always,
    Hourly,
    Daily,
    Weekly,
    Monthly,
    Yearly,
    Never,
}

#[derive(Clone)]
pub struct UtmParams {
    pub source: Option<String>,
    pub medium: Option<String>,
    pub campaign: Option<String>,
    pub term: Option<String>,
    pub content: Option<String>,
}

#[derive(Clone)]
pub struct RedirectSettings {
    pub delay_seconds: Option<u32>,
    pub default_risk: Option<RiskLevel>,
    pub utm: Option<UtmParams>,
}

#[derive(Clone)]
pub struct SitemapSettings {
    pub default_changefreq: Option<ChangeFreq>,
    /// Default priority in thousandths: 500 stands for 0.5.
    pub default_priority: Option<i64>,
    pub lastmod: Option<String>,
}

#[derive(Clone)]
pub struct SearchEngine {
    pub name: String,
    pub template: String,
    pub icon: Option<String>,
}

#[derive(Clone)]
pub struct Site {
    pub title: String,
    pub description: String,
    pub color_scheme: ColorScheme,
    pub theme_dir: Option<String>,
    pub base_path: Option<String>,
    pub redirect: Option<RedirectSettings>,
    pub base_url: Option<String>,
    pub og_image: Option<String>,
    pub sitemap: Option<SitemapSettings>,
    pub search_engines: Option<Vec<SearchEngine>>,
    pub default_engine: Option<String>,
    pub layout: Layout,
    pub baidu_tongji_id: Option<String>,
    pub google_analytics_id: Option<String>,
    /// Category name to display mode, looked up by first match.
    pub category_display: Option<Vec<(String, String)>>,
    pub default_category_display: Option<String>,
}

#[derive(Clone)]
pub struct Link {
    pub name: String,
    pub url: Option<String>,
    pub intro: String,
    pub details: Option<String>,
    pub slug: Option<String>,
    pub icon: Option<String>,
    pub intranet: Option<String>,
    pub risk: Option<RiskLevel>,
    pub utm: Option<UtmParams>,
    pub lastmod: Option<String>,
    pub changefreq: Option<ChangeFreq>,
    /// Priority in thousandths: 500 stands for 0.5.
    pub priority: Option<i64>,
}

#[derive(Clone)]
pub struct Group {
    pub name: String,
    pub links: Vec<Link>,
    pub category: Option<String>,
    pub display: Option<String>,
}

#[derive(Clone)]
pub struct Config {
    pub site: Site,
    pub groups: Vec<Group>,
}

/// Where a configuration was loaded from, for reporting.
#[derive(Clone)]
pub enum ConfigSource {
    LocalExplicit(String),
    LocalAuto(String),
    Url(String),
    Gist { id: String, file: Option<String>, raw_url: String },
}

/// A loaded configuration text together with its source.
#[derive(Clone)]
pub struct LoadedConfig {
    pub text: String,
    pub source: ConfigSource,
}

pub fn default_color_scheme() -> (r: ColorScheme)
    ensures
        r == ColorScheme::Auto,
{
    ColorScheme::Auto
}

pub fn default_layout() -> (r: Layout)
    ensures
        r == Layout::Default,
{
    Layout::Default
}

/// What `parse_color_scheme` returns on a given string, after ASCII
/// lower-casing: one of the three schemes, or nothing.
pub open spec fn color_scheme_of(s: Seq<char>) -> Option<ColorScheme> {
    let t = lower_seq(s);
    if t == "auto"@ {
        Some(ColorScheme::Auto)
    } else if t == "light"@ {
        Some(ColorScheme::Light)
    } else if t == "dark"@ {
        Some(ColorScheme::Dark)
    } else {
        None
    }
}

/// Parses `auto`, `light` or `dark`, ignoring ASCII case.
pub fn parse_color_scheme(s: String) -> (r: Option<ColorScheme>)
    ensures
        r == color_scheme_of(s@),
{
    let t = to_ascii_lower(s.as_str());
    if str_eq(t.as_str(), "auto") {
        Some(ColorScheme::Auto)
    } else if str_eq(t.as_str(), "light") {
        Some(ColorScheme::Light)
    } else if str_eq(t.as_str(), "dark") {
        Some(ColorScheme::Dark)
    } else {
        None
    }
}

/// The human-readable description of a configuration source.
pub open spec fn describe_source_spec(src: ConfigSource) -> Seq<char> {
    match src {
        ConfigSource::LocalExplicit(p) => "local file: "@ + p@,
        ConfigSource::LocalAuto(p) => "local file (discovered): "@ + p@,
        ConfigSource::Url(u) => "remote URL: "@ + u@,
        ConfigSource::Gist { id, file, raw_url } => match file {
            Some(f) => "Gist "@ + id@ + " / "@ + f@ + " (raw: "@ + raw_url@ + ")"@,
            None => "Gist "@ + id@ + " (raw: "@ + raw_url@ + ")"@,
        },
    }
}

/// Describes a configuration source for logging.
pub fn describe_source(src: &ConfigSource) -> (r: String)
    ensures
        r@ == describe_source_spec(*src),
{
    match src {
        ConfigSource::LocalExplicit(p) => {
            let mut s = "local file: ".to_owned();
            s.append(p.as_str());
            s
        },
        ConfigSource::LocalAuto(p) => {
            let mut s = "local file (discovered): ".to_owned();
            s.append(p.as_str());
            s
        },
        ConfigSource::Url(u) => {
            let mut s = "remote URL: ".to_owned();
            s.append(u.as_str());
            s
        },
        ConfigSource::Gist { id, file, raw_url } => {
            let mut s = "Gist ".to_owned();
            s.append(id.as_str());
            match file {
                Some(f) => {
                    s.append(" / ");
                    s.append(f.as_str());
                },
                None => {},
            }
            s.append(" (raw: ");
            s.append(raw_url.as_str());
            s.append(")");
            s
        },
    }
}

/// Clones an optional string, preserving its value.
pub fn clone_opt_string(o: &Option<String>) -> (r: Option<String>)
    ensures
        r == *o,
{
    match o {
        Some(v) => Some(v.clone()),
        None => None,
    }
}

/// Clones an optional UTM setting, preserving its value.
pub fn clone_opt_utm(o: &Option<UtmParams>) -> (r: Option<UtmParams>)
    ensures
        r == *o,
{
    match o {
        Some(u) => {
            let c = UtmParams {
                source: clone_opt_string(&u.source),
                medium: clone_opt_string(&u.medium),
                campaign: clone_opt_string(&u.campaign),
                term: clone_opt_string(&u.term),
                content: clone_opt_string(&u.content),
            };
            Some(c)
        },
        None => None,
    }
}

/// Clones an optional redirect setting, preserving its value.
pub fn clone_opt_redirect(o: &Option<RedirectSettings>) -> (r: Option<RedirectSettings>)
    ensures
        r == *o,
{
    match o {
        Some(v) => Some(
            RedirectSettings {
                delay_seconds: v.delay_seconds,
                default_risk: v.default_risk,
                utm: clone_opt_utm(&v.utm),
            },
        ),
        None => None,
    }
}

/// Clones an optional sitemap setting, preserving its value.
pub fn clone_opt_sitemap(o: &Option<SitemapSettings>) -> (r: Option<SitemapSettings>)
    ensures
        r == *o,
{
    match o {
        Some(v) => Some(
            SitemapSettings {
                default_changefreq: v.default_changefreq,
                default_priority: v.default_priority,
                lastmod: clone_opt_string(&v.lastmod),
            },
        ),
        None => None,
    }
}

/// Clones an optional association list, preserving its entries.
pub fn clone_opt_pairs(o: &Option<Vec<(String, String)>>) -> (r: Option<Vec<(String, String)>>)
    ensures
        r is Some <==> *o is Some,
        r matches Some(v) ==> (o matches Some(ov) && v@ == ov@),
{
    match o {
        Some(ov) => {
            let mut v: Vec<(String, String)> = Vec::new();
            let mut i: usize = 0;
            while i < ov.len()
                invariant
                    i <= ov@.len(),
                    v@ == ov@.subrange(0, i as int),
                decreases ov@.len() - i,
            {
                v.push((ov[i].0.clone(), ov[i].1.clone()));
                i = i + 1;
                assert(v@ =~= ov@.subrange(0, i as int)) by {
                    assert(ov@[i - 1] == (ov@[i - 1].0, ov@[i - 1].1));
                };
            }
            assert(ov@.subrange(0, ov@.len() as int) =~= ov@);
            Some(v)
        },
        None => None,
    }
}

/// First-match lookup in an association list.
pub open spec fn assoc_lookup(m: Seq<(String, String)>, key: Seq<char>) -> Option<Seq<char>>
    decreases m.len(),
{
    if m.len() == 0 {
        None
    } else if m[0].0@ == key {
        Some(m[0].1@)
    } else {
        assoc_lookup(m.drop_first(), key)
    }
}

/// Looks a key up in an association list, returning the first value.
pub fn assoc_get(m: &Vec<(String, String)>, key: &str) -> (r: Option<String>)
    ensures
        match r {
            Some(v) => assoc_lookup(m@, key@) == Some(v@),
            None => assoc_lookup(m@, key@) is None,
        },
{
    let mut i: usize = 0;
    assert(m@.subrange(0, m@.len() as int) =~= m@);
    while i < m.len()
        invariant
            i <= m@.len(),
            assoc_lookup(m@, key@) == assoc_lookup(m@.subrange(i as int, m@.len() as int), key@),
        decreases m@.len() - i,
    {
        proof {
            let suf = m@.subrange(i as int, m@.len() as int);
            assert(suf[0] == m@[i as int]);
            assert(suf.drop_first() =~= m@.subrange(i + 1, m@.len() as int));
        }
        if str_eq(m[i].0.as_str(), key) {
            let v = m[i].1.clone();
            return Some(v);
        }
        i = i + 1;
    }
    assert(m@.subrange(m@.len() as int, m@.len() as int) =~= Seq::<(String, String)>::empty());
    None
}

} // verus!
