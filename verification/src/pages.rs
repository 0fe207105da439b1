//! Page context assembly: everything the index pages and the per-link
//! detail pages hand to the template renderer, resolved from the site
//! settings, the build options and the detail records.

use vstd::prelude::*;

use crate::model::{clone_opt_string, ColorScheme, Config, Layout, SearchEngine, Site};
use crate::project::{risk_meta, risk_meta_spec, resolve_icon_for_detail, resolve_icon_for_detail_spec, LinkDetail};
use crate::sitemap::{build_page_url, build_page_url_spec, detail_sub_spec};
use crate::strutil::{trim_char_end, trim_char_end_spec, trim_spec, trim_str};
use crate::urlutil::{apply_utm, apply_utm_spec};

verus! {

/// The two network views a build renders.
#[derive(Clone, Copy, Debug, PartialEq, Eq, Structural)]
pub enum NetMode {
    External,
    Intranet,
}

/// The word a page context carries for a color scheme.
pub open spec fn scheme_str_spec(cs: ColorScheme) -> Seq<char> {
    match cs {
        ColorScheme::Auto => "auto"@,
        ColorScheme::Light => "light"@,
        ColorScheme::Dark => "dark"@,
    }
}

/// Renders a color scheme as its context word.
pub fn scheme_str(cs: ColorScheme) -> (r: String)
    ensures
        r@ == scheme_str_spec(cs),
{
    match cs {
        ColorScheme::Auto => "auto".to_owned(),
        ColorScheme::Light => "light".to_owned(),
        ColorScheme::Dark => "dark".to_owned(),
    }
}

/// The word a page context carries for a layout.
pub open spec fn layout_str_spec(l: Layout) -> Seq<char> {
    match l {
        Layout::Default => "default"@,
        Layout::Ntp => "ntp"@,
    }
}

/// Renders a layout as its context word.
pub fn layout_str(l: Layout) -> (r: String)
    ensures
        r@ == layout_str_spec(l),
{
    match l {
        Layout::Default => "default".to_owned(),
        Layout::Ntp => "ntp".to_owned(),
    }
}

/// The effective color scheme: the override when given, else the site's.
pub open spec fn effective_scheme(site: Site, over: Option<ColorScheme>) -> ColorScheme {
    match over {
        Some(c) => c,
        None => site.color_scheme,
    }
}

/// The default search engine's name: the configured one when not blank,
/// else the first engine's name, else empty.
pub open spec fn default_engine_spec(site: Site) -> Seq<char> {
    let configured: Seq<char> = match site.default_engine {
        Some(e) => e@,
        None => Seq::<char>::empty(),
    };
    if configured.len() == 0 {
        match site.search_engines {
            Some(es) => if es@.len() > 0 {
                es@[0].name@
            } else {
                Seq::<char>::empty()
            },
            None => Seq::<char>::empty(),
        }
    } else {
        configured
    }
}

/// An analytics identifier enters the context only when it is not blank.
pub open spec fn nonblank_id(id: Option<String>) -> Option<Seq<char>> {
    match id {
        Some(v) => if trim_spec(v@).len() > 0 {
            Some(v@)
        } else {
            None
        },
        None => None,
    }
}

fn keep_nonblank(id: &Option<String>) -> (r: Option<String>)
    ensures
        match nonblank_id(*id) {
            Some(v) => r matches Some(x) && x@ == v,
            None => r is None,
        },
{
    match id {
        Some(v) => {
            let t = trim_str(v.as_str());
            if t.as_str().unicode_len() > 0 {
                Some(v.clone())
            } else {
                None
            }
        },
        None => None,
    }
}

/// The social-share image: the configured one, else the site favicon.
pub open spec fn og_image_spec(site: Site) -> Seq<char> {
    match site.og_image {
        Some(s) => s@,
        None => "assets/favicon.svg"@,
    }
}

fn og_image_of(site: &Site) -> (r: String)
    ensures
        r@ == og_image_spec(*site),
{
    match &site.og_image {
        Some(s) => s.clone(),
        None => "assets/favicon.svg".to_owned(),
    }
}

/// What an index page hands to the template renderer, besides its
/// groups and categories.
pub struct PageContext {
    pub site_title: String,
    pub site_desc: String,
    pub color_scheme: String,
    pub has_intranet: bool,
    pub generate_intermediate_page: bool,
    pub asset_prefix: String,
    pub root_prefix: String,
    pub service_worker_path: String,
    pub network_switch_href: String,
    pub mode_other_label: String,
    pub search_engines: Vec<SearchEngine>,
    pub engine_default: String,
    pub layout: String,
    pub baidu_tongji_id: Option<String>,
    pub google_analytics_id: Option<String>,
    pub canonical_url: Option<String>,
    pub og_image: Option<String>,
}

/// Assembles the context of one index page: the title and description
/// with their overrides, the resolved color scheme, the mode-dependent
/// prefixes, switch link and label, the search engines with the default
/// engine, the layout word, the non-blank analytics identifiers, and,
/// on the external page only, the canonical URL (when a base URL is
/// configured) and the share image.
pub fn page_context(
    cfg: &Config,
    mode: NetMode,
    has_intranet: bool,
    generate_intermediate_page: bool,
    color_scheme_override: Option<ColorScheme>,
    title_override: Option<&String>,
    desc_override: Option<&String>,
) -> (ctx: PageContext)
    ensures
        ctx.site_title@ == (match title_override {
            Some(t) => t@,
            None => cfg.site.title@,
        }),
        ctx.site_desc@ == (match desc_override {
            Some(d) => d@,
            None => cfg.site.description@,
        }),
        ctx.color_scheme@ == scheme_str_spec(effective_scheme(cfg.site, color_scheme_override)),
        ctx.has_intranet == has_intranet,
        ctx.generate_intermediate_page == generate_intermediate_page,
        ctx.asset_prefix@ == (if mode is External {
            Seq::<char>::empty()
        } else {
            "../"@
        }),
        ctx.root_prefix@ == ctx.asset_prefix@,
        ctx.service_worker_path@ == ctx.root_prefix@ + "sw.js"@,
        ctx.network_switch_href@ == (if mode is External {
            "intranet/"@
        } else {
            "../"@
        }),
        ctx.mode_other_label@ == (if mode is External {
            "内网"@
        } else {
            "外网"@
        }),
        ctx.search_engines@.len() == (match cfg.site.search_engines {
            Some(es) => es@.len(),
            None => 0,
        }),
        forall|i: int|
            0 <= i < ctx.search_engines@.len() ==> (cfg.site.search_engines matches Some(es)
                && #[trigger] ctx.search_engines@[i] == es@[i]),
        ctx.engine_default@ == default_engine_spec(cfg.site),
        (match nonblank_id(cfg.site.baidu_tongji_id) {
            Some(v) => ctx.baidu_tongji_id matches Some(x) && x@ == v,
            None => ctx.baidu_tongji_id is None,
        }),
        (match nonblank_id(cfg.site.google_analytics_id) {
            Some(v) => ctx.google_analytics_id matches Some(x) && x@ == v,
            None => ctx.google_analytics_id is None,
        }),
        (match (mode, cfg.site.base_url) {
            (NetMode::External, Some(b)) => ctx.canonical_url matches Some(c) && c@
                == build_page_url_spec(
                Some(b@),
                match cfg.site.base_path {
                    Some(bp) => Some(bp@),
                    None => None,
                },
                "index.html"@,
            ),
            _ => ctx.canonical_url is None,
        }),
        (if mode is External {
            ctx.og_image matches Some(o) && o@ == og_image_spec(cfg.site)
        } else {
            ctx.og_image is None
        }),
{
    let site_title: String = match title_override {
        Some(t) => t.clone(),
        None => cfg.site.title.clone(),
    };
    let site_desc: String = match desc_override {
        Some(d) => d.clone(),
        None => cfg.site.description.clone(),
    };
    let scheme = scheme_str(
        match color_scheme_override {
            Some(c) => c,
            None => cfg.site.color_scheme,
        },
    );
    let asset_prefix: String = match mode {
        NetMode::External => String::new(),
        NetMode::Intranet => "../".to_owned(),
    };
    let root_prefix = asset_prefix.clone();
    let mut service_worker_path = root_prefix.clone();
    service_worker_path.append("sw.js");
    let network_switch_href: String = match mode {
        NetMode::External => "intranet/".to_owned(),
        NetMode::Intranet => "../".to_owned(),
    };
    let mode_other_label: String = match mode {
        NetMode::External => "内网".to_owned(),
        NetMode::Intranet => "外网".to_owned(),
    };
    let engines: Vec<SearchEngine> = match &cfg.site.search_engines {
        Some(es) => {
            let mut out: Vec<SearchEngine> = Vec::new();
            let mut i: usize = 0;
            while i < es.len()
                invariant
                    i <= es@.len(),
                    out@.len() == i,
                    forall|j: int| 0 <= j < i ==> #[trigger] out@[j] == es@[j],
                decreases es@.len() - i,
            {
                let e = SearchEngine {
                    name: es[i].name.clone(),
                    template: es[i].template.clone(),
                    icon: clone_opt_string(&es[i].icon),
                };
                assert(e == es@[i as int]);
                out.push(e);
                i = i + 1;
            }
            out
        },
        None => Vec::new(),
    };
    let mut engine_default: String = match &cfg.site.default_engine {
        Some(e) => e.clone(),
        None => String::new(),
    };
    if engine_default.as_str().unicode_len() == 0 && engines.len() > 0 {
        engine_default = engines[0].name.clone();
    }
    let layout = layout_str(cfg.site.layout);
    let baidu = keep_nonblank(&cfg.site.baidu_tongji_id);
    let google = keep_nonblank(&cfg.site.google_analytics_id);
    let canonical_url: Option<String> = match mode {
        NetMode::External => match cfg.site.base_url.as_ref() {
            Some(b) => Some(
                build_page_url(Some(b), cfg.site.base_path.as_ref(), "index.html"),
            ),
            None => None,
        },
        NetMode::Intranet => None,
    };
    let og_image: Option<String> = match mode {
        NetMode::External => Some(og_image_of(&cfg.site)),
        NetMode::Intranet => None,
    };
    proof {
        reveal_strlit("");
        assert(""@ =~= Seq::<char>::empty());
    }
    PageContext {
        site_title,
        site_desc,
        color_scheme: scheme,
        has_intranet,
        generate_intermediate_page,
        asset_prefix,
        root_prefix,
        service_worker_path,
        network_switch_href,
        mode_other_label,
        search_engines: engines,
        engine_default,
        layout,
        baidu_tongji_id: baidu,
        google_analytics_id: google,
        canonical_url,
        og_image,
    }
}

/// What a detail page hands to the template renderer.
pub struct DetailContext {
    pub site_title: String,
    pub site_desc: String,
    pub color_scheme: String,
    pub base_url: Option<String>,
    pub site_url: Option<String>,
    pub og_image: String,
    pub link_name: String,
    pub link_intro: String,
    pub link_details_html: Option<String>,
    pub link_icon: Option<String>,
    pub link_host: String,
    pub link_url: String,
    pub risk_class: String,
    pub risk_label: String,
    pub delay_seconds: u32,
    pub has_delay: bool,
    pub baidu_tongji_id: Option<String>,
    pub google_analytics_id: Option<String>,
}

/// Assembles the context of one detail page: the page's absolute URL
/// when a base URL is configured, the icon resolved two levels up, the
/// final URL with its UTM parameters applied, the risk class and label,
/// and the delay with its flag.
pub fn detail_context(
    cfg: &Config,
    d: &LinkDetail,
    color_scheme_override: Option<ColorScheme>,
    title_override: Option<&String>,
    desc_override: Option<&String>,
) -> (ctx: DetailContext)
    ensures
        ctx.site_title@ == (match title_override {
            Some(t) => t@,
            None => cfg.site.title@,
        }),
        ctx.site_desc@ == (match desc_override {
            Some(de) => de@,
            None => cfg.site.description@,
        }),
        ctx.color_scheme@ == scheme_str_spec(effective_scheme(cfg.site, color_scheme_override)),
        (match cfg.site.base_url {
            Some(b) => ctx.base_url matches Some(x) && x@ == b@ && (ctx.site_url matches Some(u)
                && u@ == trim_char_end_spec(b@, '/') + "/go/"@ + d.slug@ + "/"@),
            None => ctx.base_url is None && ctx.site_url is None,
        }),
        ctx.og_image@ == og_image_spec(cfg.site),
        ctx.link_name == d.name,
        ctx.link_intro == d.intro,
        ctx.link_details_html == d.details,
        (match d.icon {
            Some(ic) => ctx.link_icon matches Some(r) && r@ == resolve_icon_for_detail_spec(ic@),
            None => ctx.link_icon is None,
        }),
        ctx.link_host == d.host,
        ctx.link_url@ == apply_utm_spec(d.final_url@, d.utm),
        ctx.risk_class@ == risk_meta_spec(d.risk).0,
        ctx.risk_label@ == risk_meta_spec(d.risk).1,
        ctx.delay_seconds == d.delay_seconds,
        ctx.has_delay == (d.delay_seconds > 0),
        (match nonblank_id(cfg.site.baidu_tongji_id) {
            Some(v) => ctx.baidu_tongji_id matches Some(x) && x@ == v,
            None => ctx.baidu_tongji_id is None,
        }),
        (match nonblank_id(cfg.site.google_analytics_id) {
            Some(v) => ctx.google_analytics_id matches Some(x) && x@ == v,
            None => ctx.google_analytics_id is None,
        }),
{
    let site_title: String = match title_override {
        Some(t) => t.clone(),
        None => cfg.site.title.clone(),
    };
    let site_desc: String = match desc_override {
        Some(de) => de.clone(),
        None => cfg.site.description.clone(),
    };
    let scheme = scheme_str(
        match color_scheme_override {
            Some(c) => c,
            None => cfg.site.color_scheme,
        },
    );
    let mut base_url: Option<String> = None;
    let mut site_url: Option<String> = None;
    match &cfg.site.base_url {
        Some(b) => {
            base_url = Some(b.clone());
            let mut u = trim_char_end(b.as_str(), '/');
            u.append("/go/");
            u.append(d.slug.as_str());
            u.append("/");
            site_url = Some(u);
        },
        None => {},
    }
    let og_image = og_image_of(&cfg.site);
    let link_icon: Option<String> = match &d.icon {
        Some(ic) => Some(resolve_icon_for_detail(ic.as_str())),
        None => None,
    };
    let utm_ref: Option<&crate::model::UtmParams> = d.utm.as_ref();
    let link_url = apply_utm(d.final_url.as_str(), utm_ref);
    proof {
        assert((match utm_ref {
            Some(u) => Some(*u),
            None => None::<crate::model::UtmParams>,
        }) == d.utm);
    }
    let (risk_class, risk_label) = risk_meta(d.risk);
    DetailContext {
        site_title,
        site_desc,
        color_scheme: scheme,
        base_url,
        site_url,
        og_image,
        link_name: d.name.clone(),
        link_intro: d.intro.clone(),
        link_details_html: clone_opt_string(&d.details),
        link_icon,
        link_host: d.host.clone(),
        link_url,
        risk_class,
        risk_label,
        delay_seconds: d.delay_seconds,
        has_delay: d.delay_seconds > 0,
        baidu_tongji_id: keep_nonblank(&cfg.site.baidu_tongji_id),
        google_analytics_id: keep_nonblank(&cfg.site.google_analytics_id),
    }
}

/// The output path of a detail page, relative to the site root.
pub fn detail_page_path(slug: &str) -> (r: String)
    ensures
        r@ == detail_sub_spec(slug@),
{
    let mut out = "go/".to_owned();
    out.append(slug);
    out.append("/index.html");
    out
}

} // verus!
