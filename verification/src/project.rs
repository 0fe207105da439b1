//! The link projector: turns the configuration's group tree into
//! render-ready groups, categories and, for the external mode, one
//! LinkDetail per link with a non-empty external URL, with slugs unique
//! across the whole build.

use vstd::prelude::*;

use crate::model::{assoc_lookup, ChangeFreq, Config, Group, Link, RiskLevel, Site, UtmParams};
use crate::slug::{slug_spec, slugify, unique_slug, unique_slug_spec};
use crate::strutil::{
    lower_seq, starts_with, starts_with_spec, str_eq, to_ascii_lower, trim_char_start,
    trim_char_start_spec, trim_spec, trim_str,
};
use crate::urlutil::{host_of, hostname_from_url, lower_of, lowercase};

verus! {

// ---------------------------------------------------------------------------
// Render-ready structures
// ---------------------------------------------------------------------------

/// A link as a page renders it.
pub struct RLink {
    pub name: String,
    pub href: String,
    pub display_url: String,
    pub desc: String,
    pub icon: Option<String>,
    pub host: String,
}

/// A group as a page renders it.
pub struct RGroup {
    pub name: String,
    pub category: String,
    pub display: String,
    pub links: Vec<RLink>,
}

/// Everything a detail page and the sitemap need of one external link.
pub struct LinkDetail {
    pub slug: String,
    pub name: String,
    pub intro: String,
    pub details: Option<String>,
    pub icon: Option<String>,
    pub host: String,
    pub final_url: String,
    pub risk: Option<RiskLevel>,
    pub delay_seconds: u32,
    pub utm: Option<UtmParams>,
    pub s_lastmod: Option<String>,
    pub s_changefreq: Option<ChangeFreq>,
    /// Priority in thousandths: 500 stands for 0.5.
    pub s_priority: Option<i64>,
}

// ---------------------------------------------------------------------------
// Risk labels
// ---------------------------------------------------------------------------

/// The CSS class and label of a risk level; an unset level counts as low.
pub open spec fn risk_meta_spec(r: Option<RiskLevel>) -> (Seq<char>, Seq<char>) {
    match r {
        Some(RiskLevel::Medium) => ("medium"@, "中风险"@),
        Some(RiskLevel::High) => ("high"@, "高风险"@),
        _ => ("low"@, "低风险"@),
    }
}

/// Maps a risk level to its CSS class and its label.
pub fn risk_meta(r: Option<RiskLevel>) -> (out: (String, String))
    ensures
        out.0@ == risk_meta_spec(r).0,
        out.1@ == risk_meta_spec(r).1,
{
    match r {
        Some(RiskLevel::Medium) => ("medium".to_owned(), "中风险".to_owned()),
        Some(RiskLevel::High) => ("high".to_owned(), "高风险".to_owned()),
        _ => ("low".to_owned(), "低风险".to_owned()),
    }
}

// ---------------------------------------------------------------------------
// Display mode resolution
// ---------------------------------------------------------------------------

/// Normalizes a display-mode word (English or its alias) to one of
/// `standard`, `compact`, `list`, `text`; anything else is `standard`.
pub open spec fn norm_display(s: Seq<char>) -> Seq<char> {
    let t = lower_seq(trim_spec(s));
    if t == "standard"@ || t == "标准"@ {
        "standard"@
    } else if t == "compact"@ || t == "简洁"@ {
        "compact"@
    } else if t == "list"@ || t == "列表"@ {
        "list"@
    } else if t == "text"@ || t == "文本"@ {
        "text"@
    } else {
        "standard"@
    }
}

fn norm_display_exec(s: &str) -> (r: String)
    ensures
        r@ == norm_display(s@),
{
    let trimmed = trim_str(s);
    let t = to_ascii_lower(trimmed.as_str());
    if str_eq(t.as_str(), "standard") || str_eq(t.as_str(), "标准") {
        "standard".to_owned()
    } else if str_eq(t.as_str(), "compact") || str_eq(t.as_str(), "简洁") {
        "compact".to_owned()
    } else if str_eq(t.as_str(), "list") || str_eq(t.as_str(), "列表") {
        "list".to_owned()
    } else if str_eq(t.as_str(), "text") || str_eq(t.as_str(), "文本") {
        "text".to_owned()
    } else {
        "standard".to_owned()
    }
}

/// The display mode of a group: its own setting first, then the site's
/// per-category map, then the site default, then `standard`.
pub open spec fn resolve_display_spec(
    group_display: Option<Seq<char>>,
    site: Site,
    category: Seq<char>,
) -> Seq<char> {
    match group_display {
        Some(d) => norm_display(d),
        None => {
            let from_map = match site.category_display {
                Some(m) => assoc_lookup(m@, category),
                None => None,
            };
            match from_map {
                Some(v) => norm_display(v),
                None => match site.default_category_display {
                    Some(def) => norm_display(def@),
                    None => "standard"@,
                },
            }
        },
    }
}

/// Resolves a group's display mode against the site settings.
pub fn resolve_display(group_display: Option<&String>, site: &Site, category: &str) -> (r: String)
    ensures
        r@ == resolve_display_spec(
            match group_display {
                Some(d) => Some(d@),
                None => None,
            },
            *site,
            category@,
        ),
{
    match group_display {
        Some(d) => norm_display_exec(d.as_str()),
        None => {
            let from_map: Option<String> = match &site.category_display {
                Some(m) => crate::model::assoc_get(m, category),
                None => None,
            };
            match from_map {
                Some(v) => norm_display_exec(v.as_str()),
                None => match &site.default_category_display {
                    Some(def) => norm_display_exec(def.as_str()),
                    None => "standard".to_owned(),
                },
            }
        },
    }
}

// ---------------------------------------------------------------------------
// Page-relative icon resolution
// ---------------------------------------------------------------------------

/// Whether a trimmed icon reference passes through unresolved: absolute
/// and protocol-relative URLs and data URIs, checked case-insensitively.
pub open spec fn icon_passthrough(l: Seq<char>) -> bool {
    starts_with_spec(l, "http://"@) || starts_with_spec(l, "https://"@) || starts_with_spec(
        l,
        "//"@,
    ) || starts_with_spec(l, "data:"@)
}

/// An icon reference as an index page links it: remote references pass
/// through; site-root-relative ones get the page's asset prefix; paths
/// already written relative stay; others get the prefix too.
pub open spec fn resolve_icon_for_page_spec(icon: Seq<char>, prefix: Seq<char>) -> Seq<char> {
    let s = trim_spec(icon);
    if icon_passthrough(lower_seq(s)) {
        s
    } else if s.len() > 0 && s[0] == '/' {
        let t = trim_char_start_spec(s, '/');
        if prefix.len() == 0 {
            t
        } else {
            prefix + t
        }
    } else if starts_with_spec(s, "../"@) || starts_with_spec(s, "./"@) {
        s
    } else if prefix.len() == 0 {
        s
    } else {
        prefix + s
    }
}

/// Resolves an icon reference relative to an index page.
pub fn resolve_icon_for_page(icon: &str, asset_prefix: &str) -> (r: String)
    ensures
        r@ == resolve_icon_for_page_spec(icon@, asset_prefix@),
{
    let s = trim_str(icon);
    let l = to_ascii_lower(s.as_str());
    if starts_with(l.as_str(), "http://") || starts_with(l.as_str(), "https://") || starts_with(
        l.as_str(),
        "//",
    ) || starts_with(l.as_str(), "data:") {
        s
    } else if s.as_str().unicode_len() > 0 && s.as_str().get_char(0) == '/' {
        let t = trim_char_start(s.as_str(), '/');
        if asset_prefix.unicode_len() == 0 {
            t
        } else {
            let mut out = asset_prefix.to_owned();
            out.append(t.as_str());
            out
        }
    } else if starts_with(s.as_str(), "../") || starts_with(s.as_str(), "./") {
        s
    } else if asset_prefix.unicode_len() == 0 {
        s
    } else {
        let mut out = asset_prefix.to_owned();
        out.append(s.as_str());
        out
    }
}

/// An icon reference as a detail page links it: remote references pass
/// through; everything else is reached two directory levels up, since
/// detail pages live two levels below the site root.
pub open spec fn resolve_icon_for_detail_spec(icon: Seq<char>) -> Seq<char> {
    let s = trim_spec(icon);
    if icon_passthrough(lower_seq(s)) {
        s
    } else if s.len() > 0 && s[0] == '/' {
        "../../"@ + trim_char_start_spec(s, '/')
    } else {
        "../../"@ + s
    }
}

/// Resolves an icon reference relative to a detail page.
pub fn resolve_icon_for_detail(icon: &str) -> (r: String)
    ensures
        r@ == resolve_icon_for_detail_spec(icon@),
{
    let s = trim_str(icon);
    let l = to_ascii_lower(s.as_str());
    if starts_with(l.as_str(), "http://") || starts_with(l.as_str(), "https://") || starts_with(
        l.as_str(),
        "//",
    ) || starts_with(l.as_str(), "data:") {
        s
    } else if s.as_str().unicode_len() > 0 && s.as_str().get_char(0) == '/' {
        let t = trim_char_start(s.as_str(), '/');
        let mut out = "../../".to_owned();
        out.append(t.as_str());
        out
    } else {
        let mut out = "../../".to_owned();
        out.append(s.as_str());
        out
    }
}

// ---------------------------------------------------------------------------
// The external projection, as a specification
// ---------------------------------------------------------------------------

/// A link takes part in the external page: its URL is set and not blank.
pub open spec fn eligible_external(l: Link) -> bool {
    match l.url {
        Some(u) => trim_spec(u@).len() > 0,
        None => false,
    }
}

/// The external URL text of a link, empty when unset.
pub open spec fn url_text(l: Link) -> Seq<char> {
    match l.url {
        Some(u) => u@,
        None => Seq::<char>::empty(),
    }
}

/// The host of a URL as page text: the parsed host, or empty.
pub open spec fn host_text(u: Seq<char>) -> Seq<char> {
    match host_of(u) {
        Some(h) => h,
        None => Seq::<char>::empty(),
    }
}

/// All links of all groups, flattened in order.
pub open spec fn all_links(gs: Seq<Group>) -> Seq<Link>
    decreases gs.len(),
{
    if gs.len() == 0 {
        Seq::<Link>::empty()
    } else {
        all_links(gs.drop_last()) + gs.last().links@
    }
}

/// Where a group's links start in the flattened list.
pub open spec fn flat_offset(gs: Seq<Group>, g: int) -> int {
    all_links(gs.subrange(0, g)).len() as int
}

/// How many of the first `i` links take part in the external page.
pub open spec fn eligible_count(links: Seq<Link>, i: int) -> int
    decreases i,
{
    if i <= 0 {
        0
    } else {
        eligible_count(links, i - 1) + if eligible_external(links[i - 1]) {
            1int
        } else {
            0int
        }
    }
}

/// How many of the first `i` links are eligible, carry no explicit
/// slug, and fold their name to this key.
pub open spec fn name_key_count(links: Seq<Link>, i: int, key: Seq<char>) -> int
    decreases i,
{
    if i <= 0 {
        0
    } else {
        name_key_count(links, i - 1, key) + if eligible_external(links[i - 1]) && links[i
            - 1].slug is None && lower_of(links[i - 1].name@) == key {
            1int
        } else {
            0int
        }
    }
}

/// The base slug of link `i`: the slugified explicit slug when given;
/// else the slugified name the first time this folded name occurs, then
/// name-host when the host is known, else the name again.
pub open spec fn ext_base_slug(links: Seq<Link>, i: int) -> Seq<char> {
    let l = links[i];
    match l.slug {
        Some(u) => slug_spec(u@),
        None => {
            if name_key_count(links, i, lower_of(l.name@)) == 0 {
                slug_spec(l.name@)
            } else if host_text(url_text(l)).len() > 0 {
                slug_spec(l.name@ + "-"@ + host_text(url_text(l)))
            } else {
                slug_spec(l.name@)
            }
        },
    }
}

/// The slugs taken by the eligible links among the first `i`.
pub open spec fn ext_used(links: Seq<Link>, i: int) -> Seq<Seq<char>>
    decreases i,
{
    if i <= 0 {
        Seq::<Seq<char>>::empty()
    } else {
        let p = ext_used(links, i - 1);
        if eligible_external(links[i - 1]) {
            p.push(unique_slug_spec(ext_base_slug(links, i - 1), p))
        } else {
            p
        }
    }
}

/// The slug link `i` receives.
pub open spec fn ext_slug(links: Seq<Link>, i: int) -> Seq<char> {
    unique_slug_spec(ext_base_slug(links, i), ext_used(links, i))
}

/// The site's default risk for redirect pages.
pub open spec fn site_default_risk(site: Site) -> Option<RiskLevel> {
    match site.redirect {
        Some(r) => r.default_risk,
        None => None,
    }
}

/// The site's redirect delay, zero when unset.
pub open spec fn site_delay(site: Site) -> u32 {
    match site.redirect {
        Some(r) => match r.delay_seconds {
            Some(d) => d,
            None => 0,
        },
        None => 0,
    }
}

/// The site's default UTM parameters for redirect pages.
pub open spec fn site_utm(site: Site) -> Option<UtmParams> {
    match site.redirect {
        Some(r) => r.utm,
        None => None,
    }
}

/// The detail record of eligible link `i`: the allocated slug, the
/// link's own fields, the parsed host, and the risk, delay, UTM and
/// sitemap fields with their site-level fallbacks.
pub open spec fn detail_matches(site: Site, links: Seq<Link>, i: int, d: LinkDetail) -> bool {
    let l = links[i];
    &&& d.slug@ == ext_slug(links, i)
    &&& d.name == l.name
    &&& d.intro == l.intro
    &&& d.details == l.details
    &&& d.icon == l.icon
    &&& d.host@ == host_text(url_text(l))
    &&& d.final_url@ == url_text(l)
    &&& d.risk == (if l.risk is Some {
        l.risk
    } else {
        site_default_risk(site)
    })
    &&& d.delay_seconds == site_delay(site)
    &&& d.utm == (if l.utm is Some {
        l.utm
    } else {
        site_utm(site)
    })
    &&& d.s_lastmod == l.lastmod
    &&& d.s_changefreq == l.changefreq
    &&& d.s_priority == l.priority
}

/// The rendered form of eligible link `i` on the external index page:
/// the href is the redirect page when intermediate pages are on, else
/// the URL itself; the icon resolves against the empty asset prefix.
pub open spec fn rlink_matches_ext(links: Seq<Link>, i: int, gen: bool, rl: RLink) -> bool {
    let l = links[i];
    &&& rl.name == l.name
    &&& rl.href@ == (if gen {
        "/go/"@ + ext_slug(links, i) + "/"@
    } else {
        url_text(l)
    })
    &&& rl.display_url@ == url_text(l)
    &&& rl.desc == l.intro
    &&& match l.icon {
        Some(ic) => rl.icon matches Some(ri) && ri@ == resolve_icon_for_page_spec(
            ic@,
            Seq::<char>::empty(),
        ),
        None => rl.icon is None,
    }
    &&& rl.host@ == host_text(url_text(l))
}

/// A group appears on the external page when one of its links does.
pub open spec fn group_included_ext(g: Group) -> bool {
    exists|l: int| 0 <= l < g.links@.len() && eligible_external(#[trigger] g.links@[l])
}

/// How many of the first `i` groups appear on the external page.
pub open spec fn included_count_ext(gs: Seq<Group>, i: int) -> int
    decreases i,
{
    if i <= 0 {
        0
    } else {
        included_count_ext(gs, i - 1) + if group_included_ext(gs[i - 1]) {
            1int
        } else {
            0int
        }
    }
}

/// A group's category label, `全部` when unset.
pub open spec fn category_of(g: Group) -> Seq<char> {
    match g.category {
        Some(c) => c@,
        None => "全部"@,
    }
}

/// The category list after the first `i` groups: each included group's
/// category once, in first-seen order.
pub open spec fn categories_ext(gs: Seq<Group>, i: int) -> Seq<Seq<char>>
    decreases i,
{
    if i <= 0 {
        Seq::<Seq<char>>::empty()
    } else {
        let p = categories_ext(gs, i - 1);
        if group_included_ext(gs[i - 1]) && !p.contains(category_of(gs[i - 1])) {
            p.push(category_of(gs[i - 1]))
        } else {
            p
        }
    }
}

/// The rendered form of included group `g` on the external page.
pub open spec fn rgroup_matches_ext(
    gs: Seq<Group>,
    site: Site,
    g: int,
    gen: bool,
    rg: RGroup,
) -> bool {
    let grp = gs[g];
    let links = all_links(gs);
    let off = flat_offset(gs, g);
    &&& rg.name == grp.name
    &&& rg.category@ == category_of(grp)
    &&& rg.display@ == resolve_display_spec(
        match grp.display {
            Some(d) => Some(d@),
            None => None,
        },
        site,
        category_of(grp),
    )
    &&& rg.links@.len() == eligible_count(grp.links@, grp.links@.len() as int)
    &&& forall|l: int|
        0 <= l < grp.links@.len() && eligible_external(grp.links@[l]) ==> rlink_matches_ext(
            links,
            off + l,
            gen,
            #[trigger] rg.links@[eligible_count(grp.links@, l)],
        )
}

// ---------------------------------------------------------------------------
// Lemmas about the flattened link list
// ---------------------------------------------------------------------------

proof fn lemma_all_links_snoc(gs: Seq<Group>, k: int)
    requires
        0 <= k < gs.len(),
    ensures
        all_links(gs.subrange(0, k + 1)) == all_links(gs.subrange(0, k)) + gs[k].links@,
{
    let p = gs.subrange(0, k + 1);
    assert(p.drop_last() =~= gs.subrange(0, k));
    assert(p.last() == gs[k]);
}

proof fn lemma_all_links_prefix(gs: Seq<Group>, k: int)
    requires
        0 <= k <= gs.len(),
    ensures
        all_links(gs.subrange(0, k)).len() <= all_links(gs).len(),
        forall|idx: int|
            0 <= idx < all_links(gs.subrange(0, k)).len() ==> all_links(gs)[idx] == all_links(
                gs.subrange(0, k),
            )[idx],
    decreases gs.len() - k,
{
    if k == gs.len() {
        assert(gs.subrange(0, k) =~= gs);
    } else {
        lemma_all_links_snoc(gs, k);
        lemma_all_links_prefix(gs, k + 1);
    }
}

/// The flattened index of a group's link reads that link.
proof fn lemma_flat_index(gs: Seq<Group>, g: int, l: int)
    requires
        0 <= g < gs.len(),
        0 <= l < gs[g].links@.len(),
    ensures
        0 <= flat_offset(gs, g) + l < all_links(gs).len(),
        all_links(gs)[flat_offset(gs, g) + l] == gs[g].links@[l],
{
    lemma_all_links_snoc(gs, g);
    lemma_all_links_prefix(gs, g + 1);
    let off = flat_offset(gs, g);
    assert(all_links(gs.subrange(0, g + 1))[off + l] == gs[g].links@[l]);
}

proof fn lemma_name_key_count_bound(links: Seq<Link>, i: int, key: Seq<char>)
    requires
        0 <= i,
    ensures
        0 <= name_key_count(links, i, key) <= i,
    decreases i,
{
    if i > 0 {
        lemma_name_key_count_bound(links, i - 1, key);
    }
}

proof fn lemma_eligible_count_bound(links: Seq<Link>, i: int)
    requires
        0 <= i,
    ensures
        0 <= eligible_count(links, i) <= i,
    decreases i,
{
    if i > 0 {
        lemma_eligible_count_bound(links, i - 1);
    }
}

proof fn lemma_eligible_count_pos(ls: Seq<Link>, i: int)
    requires
        0 <= i <= ls.len(),
    ensures
        (eligible_count(ls, i) > 0) <==> (exists|l: int|
            0 <= l < i && eligible_external(#[trigger] ls[l])),
    decreases i,
{
    if i > 0 {
        lemma_eligible_count_pos(ls, i - 1);
        lemma_eligible_count_bound(ls, i - 1);
        if eligible_external(ls[i - 1]) {
            assert(eligible_external(ls[i - 1]));
            assert(exists|l: int| 0 <= l < i && eligible_external(#[trigger] ls[l]));
        } else {
            if exists|l: int| 0 <= l < i && eligible_external(#[trigger] ls[l]) {
                let w = choose|l: int| 0 <= l < i && eligible_external(#[trigger] ls[l]);
                assert(w != i - 1);
                assert(0 <= w < i - 1 && eligible_external(ls[w]));
            }
        }
    }
}

proof fn lemma_included_count_bound(gs: Seq<Group>, i: int)
    requires
        0 <= i,
    ensures
        0 <= included_count_ext(gs, i) <= i,
    decreases i,
{
    if i > 0 {
        lemma_included_count_bound(gs, i - 1);
    }
}

proof fn lemma_included_count_mono(gs: Seq<Group>, a: int, b: int)
    requires
        0 <= a <= b,
    ensures
        included_count_ext(gs, a) <= included_count_ext(gs, b),
    decreases b - a,
{
    if a < b {
        lemma_included_count_mono(gs, a, b - 1);
        lemma_included_count_bound(gs, a);
    }
}

proof fn lemma_eligible_count_mono(links: Seq<Link>, a: int, b: int)
    requires
        0 <= a <= b,
    ensures
        eligible_count(links, a) <= eligible_count(links, b),
    decreases b - a,
{
    if a < b {
        lemma_eligible_count_mono(links, a, b - 1);
        lemma_eligible_count_bound(links, a);
    }
}

// ---------------------------------------------------------------------------
// The external projection
// ---------------------------------------------------------------------------

/// The external page's render model: its groups, the category list, and
/// one detail record per displayable external link.
pub struct ExternalPage {
    pub groups: Vec<RGroup>,
    pub categories: Vec<String>,
    pub details: Vec<LinkDetail>,
}

/// Projects the configuration for the external network mode: every link
/// with a non-empty external URL yields exactly one detail record with
/// its allocated slug, no two of which collide; a group appears exactly
/// when it has such a link, and each included group's category joins the
/// category list once, in first-seen order.
#[verifier::rlimit(60)]
pub fn project_external(cfg: &Config, generate_intermediate_page: bool) -> (out: ExternalPage)
    ensures
        ({
            let gs = cfg.groups@;
            let links = all_links(gs);
            &&& out.details@.len() == eligible_count(links, links.len() as int)
            &&& forall|i: int|
                0 <= i < links.len() && eligible_external(links[i]) ==> detail_matches(
                    cfg.site,
                    links,
                    i,
                    #[trigger] out.details@[eligible_count(links, i)],
                )
            &&& forall|k1: int, k2: int|
                0 <= k1 < k2 < out.details@.len() ==> #[trigger] out.details@[k1].slug@
                    != #[trigger] out.details@[k2].slug@
            &&& out.groups@.len() == included_count_ext(gs, gs.len() as int)
            &&& forall|g: int|
                0 <= g < gs.len() && group_included_ext(gs[g]) ==> rgroup_matches_ext(
                    gs,
                    cfg.site,
                    g,
                    generate_intermediate_page,
                    #[trigger] out.groups@[included_count_ext(gs, g)],
                )
            &&& out.categories.deep_view() == categories_ext(gs, gs.len() as int)
        }),
{
    let gs = &cfg.groups;
    let ghost links = all_links(gs@);
    let mut used: Vec<String> = Vec::new();
    let mut seen_names: Vec<String> = Vec::new();
    let mut details: Vec<LinkDetail> = Vec::new();
    let mut rgroups: Vec<RGroup> = Vec::new();
    let mut categories: Vec<String> = Vec::new();
    let mut gi: usize = 0;
    proof {
        assert(gs@.subrange(0, 0) =~= Seq::<Group>::empty());
    }
    while gi < gs.len()
        invariant
            gs == cfg.groups,
            links == all_links(gs@),
            gi <= gs@.len(),
            details@.len() == eligible_count(links, flat_offset(gs@, gi as int)),
            used.deep_view() == ext_used(links, flat_offset(gs@, gi as int)),
            used@.len() == details@.len(),
            forall|k: int|
                0 <= k < details@.len() ==> #[trigger] details@[k].slug@ == used.deep_view()[k],
            forall|k1: int, k2: int|
                0 <= k1 < k2 < used@.len() ==> used.deep_view()[k1] != used.deep_view()[k2],
            forall|i: int|
                0 <= i < flat_offset(gs@, gi as int) && eligible_external(links[i])
                    ==> detail_matches(
                    cfg.site,
                    links,
                    i,
                    #[trigger] details@[eligible_count(links, i)],
                ),
            forall|k: Seq<char>|
                #[trigger] seen_names.deep_view().contains(k) <==> name_key_count(
                    links,
                    flat_offset(gs@, gi as int),
                    k,
                ) > 0,
            rgroups@.len() == included_count_ext(gs@, gi as int),
            forall|g: int|
                0 <= g < gi && group_included_ext(gs@[g]) ==> rgroup_matches_ext(
                    gs@,
                    cfg.site,
                    g,
                    generate_intermediate_page,
                    #[trigger] rgroups@[included_count_ext(gs@, g)],
                ),
            categories.deep_view() == categories_ext(gs@, gi as int),
            flat_offset(gs@, gi as int) <= links.len(),
        decreases gs@.len() - gi,
    {
        let grp = &gs[gi];
        let glinks = &grp.links;
        let ghost off = flat_offset(gs@, gi as int);
        proof {
            lemma_all_links_snoc(gs@, gi as int);
            lemma_all_links_prefix(gs@, gi as int + 1);
        }
        let mut rlinks: Vec<RLink> = Vec::new();
        let mut li: usize = 0;
        while li < glinks.len()
            invariant
                gs == cfg.groups,
                links == all_links(gs@),
                gi < gs@.len(),
                grp == gs@[gi as int],
                glinks == gs@[gi as int].links,
                off == flat_offset(gs@, gi as int),
                off + glinks@.len() <= links.len(),
                forall|l: int|
                    0 <= l < glinks@.len() ==> links[off + l] == glinks@[l],
                li <= glinks@.len(),
                details@.len() == eligible_count(links, off + li),
                used.deep_view() == ext_used(links, off + li),
                used@.len() == details@.len(),
                forall|k: int|
                    0 <= k < details@.len() ==> #[trigger] details@[k].slug@
                        == used.deep_view()[k],
                forall|k1: int, k2: int|
                    0 <= k1 < k2 < used@.len() ==> used.deep_view()[k1] != used.deep_view()[k2],
                forall|i: int|
                    0 <= i < off + li && eligible_external(links[i]) ==> detail_matches(
                        cfg.site,
                        links,
                        i,
                        #[trigger] details@[eligible_count(links, i)],
                    ),
                forall|k: Seq<char>|
                    #[trigger] seen_names.deep_view().contains(k) <==> name_key_count(
                        links,
                        off + li,
                        k,
                    ) > 0,
                rlinks@.len() == eligible_count(glinks@, li as int),
                forall|l: int|
                    0 <= l < li && eligible_external(glinks@[l]) ==> rlink_matches_ext(
                        links,
                        off + l,
                        generate_intermediate_page,
                        #[trigger] rlinks@[eligible_count(glinks@, l)],
                    ),
            decreases glinks@.len() - li,
        {
            let l = &glinks[li];
            let ghost fi = off + li;
            proof {
                lemma_flat_index(gs@, gi as int, li as int);
                assert(links[fi] == glinks@[li as int]);
            }
            let mut take = false;
            let mut final_url = String::new();
            match &l.url {
                Some(u) => {
                    let t = trim_str(u.as_str());
                    if t.as_str().unicode_len() > 0 {
                        take = true;
                        final_url = u.clone();
                    }
                },
                None => {},
            }
            assert(take == eligible_external(links[fi]));
            if take {
                assert(final_url@ == url_text(links[fi]));
                let host: String = match hostname_from_url(final_url.as_str()) {
                    Some(h) => h,
                    None => String::new(),
                };
                assert(host@ == host_text(url_text(links[fi])));
                let base_slug: String = match &l.slug {
                    Some(user_slug) => slugify(user_slug.as_str()),
                    None => {
                        let key = lowercase(l.name.as_str());
                        proof {
                            lemma_name_key_count_bound(links, fi, key@);
                        }
                        let ghost seen_before = seen_names.deep_view();
                        let first = !crate::strutil::contains_string(&seen_names, &key);
                        assert(first <==> name_key_count(links, fi, lower_of(links[fi].name@))
                            == 0);
                        let ghost keyv = key@;
                        if first {
                            seen_names.push(key.clone());
                            assert(seen_names.deep_view() =~= seen_before.push(keyv));
                        }
                        proof {
                            assert forall|k: Seq<char>| #[trigger]
                                seen_names.deep_view().contains(k) <==> name_key_count(
                                links,
                                fi + 1,
                                k,
                            ) > 0 by {
                                lemma_name_key_count_bound(links, fi, k);
                                assert(name_key_count(links, fi + 1, k) == name_key_count(
                                    links,
                                    fi,
                                    k,
                                ) + (if eligible_external(links[fi]) && links[fi].slug is None
                                    && lower_of(links[fi].name@) == k {
                                    1int
                                } else {
                                    0int
                                }));
                                if first {
                                    let sv = seen_before.push(keyv);
                                    assert(seen_names.deep_view() == sv);
                                    if k == keyv {
                                        assert(sv[sv.len() - 1] == keyv);
                                        assert(sv.contains(k));
                                    } else {
                                        if sv.contains(k) {
                                            let w = choose|w: int|
                                                0 <= w < sv.len() && sv[w] == k;
                                            assert(w < seen_before.len());
                                            assert(seen_before[w] == k);
                                            assert(seen_before.contains(k));
                                        }
                                        if seen_before.contains(k) {
                                            let w = choose|w: int|
                                                0 <= w < seen_before.len() && seen_before[w] == k;
                                            assert(sv[w] == k);
                                            assert(sv.contains(k));
                                        }
                                    }
                                } else {
                                    assert(seen_names.deep_view() == seen_before);
                                    if k == keyv {
                                        assert(name_key_count(links, fi, k) > 0);
                                    }
                                }
                            };
                        }
                        if first {
                            slugify(l.name.as_str())
                        } else if host.as_str().unicode_len() > 0 {
                            let mut nm = l.name.clone();
                            nm.append("-");
                            nm.append(host.as_str());
                            slugify(nm.as_str())
                        } else {
                            slugify(l.name.as_str())
                        }
                    },
                };
                assert(base_slug@ == ext_base_slug(links, fi));
                let ghost used_before = used.deep_view();
                let slug = unique_slug(base_slug.as_str(), &mut used);
                proof {
                    assert(used_before == ext_used(links, fi));
                    assert(slug@ == ext_slug(links, fi));
                    assert(used.deep_view() == used_before.push(slug@));
                }
                let href: String = if generate_intermediate_page {
                    let mut h = "/go/".to_owned();
                    h.append(slug.as_str());
                    h.append("/");
                    h
                } else {
                    final_url.clone()
                };
                let icon_res: Option<String> = match &l.icon {
                    Some(ic) => Some(resolve_icon_for_page(ic.as_str(), "")),
                    None => None,
                };
                proof {
                    reveal_strlit("");
                    assert(""@ =~= Seq::<char>::empty());
                }
                let rl = RLink {
                    name: l.name.clone(),
                    href,
                    display_url: final_url.clone(),
                    desc: l.intro.clone(),
                    icon: icon_res,
                    host: host.clone(),
                };
                let ghost rlinks_before = rlinks@;
                rlinks.push(rl);
                proof {
                    assert(rlink_matches_ext(
                        links,
                        fi,
                        generate_intermediate_page,
                        rlinks@[rlinks_before.len() as int],
                    ));
                }
                let delay: u32 = match &cfg.site.redirect {
                    Some(r) => match r.delay_seconds {
                        Some(d) => d,
                        None => 0,
                    },
                    None => 0,
                };
                let risk: Option<RiskLevel> = match l.risk {
                    Some(r) => Some(r),
                    None => match &cfg.site.redirect {
                        Some(rd) => rd.default_risk,
                        None => None,
                    },
                };
                let utm: Option<UtmParams> = match &l.utm {
                    Some(_) => crate::model::clone_opt_utm(&l.utm),
                    None => match &cfg.site.redirect {
                        Some(r) => crate::model::clone_opt_utm(&r.utm),
                        None => None,
                    },
                };
                let d = LinkDetail {
                    slug,
                    name: l.name.clone(),
                    intro: l.intro.clone(),
                    details: crate::model::clone_opt_string(&l.details),
                    icon: crate::model::clone_opt_string(&l.icon),
                    host,
                    final_url,
                    risk,
                    delay_seconds: delay,
                    utm,
                    s_lastmod: crate::model::clone_opt_string(&l.lastmod),
                    s_changefreq: l.changefreq,
                    s_priority: l.priority,
                };
                let ghost details_before = details@;
                details.push(d);
                proof {
                    assert(detail_matches(cfg.site, links, fi, details@[details_before.len() as int]));
                    lemma_eligible_count_mono(links, 0, fi);
                    assert forall|i: int|
                        0 <= i < fi + 1 && eligible_external(links[i]) implies detail_matches(
                        cfg.site,
                        links,
                        i,
                        #[trigger] details@[eligible_count(links, i)],
                    ) by {
                        if i < fi {
                            lemma_eligible_count_mono(links, i + 1, fi);
                            lemma_eligible_count_bound(links, i);
                            assert(eligible_count(links, i + 1) == eligible_count(links, i) + 1);
                            assert(0 <= eligible_count(links, i) < details_before.len());
                            assert(details@ == details_before.push(d));
                            assert(details@[eligible_count(links, i)]
                                == details_before[eligible_count(links, i)]);
                        } else {
                            assert(eligible_count(links, fi) == details_before.len());
                        }
                    };
                }
            }
            li = li + 1;
            proof {
                assert(eligible_count(links, off + li) == eligible_count(links, off + li - 1) + (
                if eligible_external(links[off + li - 1]) {
                    1int
                } else {
                    0int
                }));
                assert(ext_used(links, off + li) =~= (if eligible_external(links[off + li - 1]) {
                    ext_used(links, off + li - 1).push(
                        unique_slug_spec(
                            ext_base_slug(links, off + li - 1),
                            ext_used(links, off + li - 1),
                        ),
                    )
                } else {
                    ext_used(links, off + li - 1)
                }));
                assert(eligible_count(glinks@, li as int) == eligible_count(glinks@, li - 1) + (
                if eligible_external(glinks@[li - 1]) {
                    1int
                } else {
                    0int
                }));
                assert forall|l: int|
                    0 <= l < li && eligible_external(glinks@[l]) implies rlink_matches_ext(
                    links,
                    off + l,
                    generate_intermediate_page,
                    #[trigger] rlinks@[eligible_count(glinks@, l)],
                ) by {
                    if l < li - 1 {
                        lemma_eligible_count_mono(glinks@, l + 1, li - 1);
                        lemma_eligible_count_bound(glinks@, l);
                        assert(eligible_count(glinks@, l + 1) == eligible_count(glinks@, l) + 1);
                    }
                };
                assert forall|k: Seq<char>| #[trigger]
                    seen_names.deep_view().contains(k) <==> name_key_count(
                    links,
                    off + li,
                    k,
                ) > 0 by {
                    lemma_name_key_count_bound(links, off + li - 1, k);
                    assert(name_key_count(links, off + li, k) == name_key_count(
                        links,
                        off + li - 1,
                        k,
                    ) + (if eligible_external(links[off + li - 1]) && links[off + li
                        - 1].slug is None && lower_of(links[off + li - 1].name@) == k {
                        1int
                    } else {
                        0int
                    }));
                };
            }
        }
        proof {
            assert(glinks@.len() as int == gs@[gi as int].links@.len());
            assert(flat_offset(gs@, gi as int + 1) == off + glinks@.len()) by {
                lemma_all_links_snoc(gs@, gi as int);
            };
        }
        if rlinks.len() > 0 {
            proof {
                lemma_eligible_count_pos(glinks@, glinks@.len() as int);
                assert(group_included_ext(gs@[gi as int]));
            }
            let cat: String = match &grp.category {
                Some(c) => c.clone(),
                None => "全部".to_owned(),
            };
            assert(cat@ == category_of(gs@[gi as int]));
            let ghost cats_before = categories.deep_view();
            if !crate::strutil::contains_string(&categories, &cat) {
                categories.push(cat.clone());
                assert(categories.deep_view() =~= cats_before.push(cat@));
            }
            let disp = resolve_display(
                match &grp.display {
                    Some(d) => Some(d),
                    None => None,
                },
                &cfg.site,
                cat.as_str(),
            );
            let rg = RGroup { name: grp.name.clone(), category: cat, display: disp, links: rlinks };
            let ghost rg_before = rgroups@;
            rgroups.push(rg);
            proof {
                assert(rgroup_matches_ext(
                    gs@,
                    cfg.site,
                    gi as int,
                    generate_intermediate_page,
                    rgroups@[rg_before.len() as int],
                ));
            }
        } else {
            proof {
                lemma_eligible_count_pos(glinks@, glinks@.len() as int);
                assert(!group_included_ext(gs@[gi as int]));
            }
        }
        gi = gi + 1;
        proof {
            assert(included_count_ext(gs@, gi as int) == included_count_ext(gs@, gi - 1) + (
            if group_included_ext(gs@[gi - 1]) {
                1int
            } else {
                0int
            }));
            assert forall|g: int|
                0 <= g < gi && group_included_ext(gs@[g]) implies rgroup_matches_ext(
                gs@,
                cfg.site,
                g,
                generate_intermediate_page,
                #[trigger] rgroups@[included_count_ext(gs@, g)],
            ) by {
                if g < gi - 1 {
                    lemma_included_count_mono(gs@, g + 1, gi - 1);
                    lemma_included_count_bound(gs@, g);
                    assert(included_count_ext(gs@, g + 1) == included_count_ext(gs@, g) + 1);
                }
            };
            assert(categories_ext(gs@, gi as int) =~= (if group_included_ext(gs@[gi - 1])
                && !categories_ext(gs@, gi - 1).contains(category_of(gs@[gi - 1])) {
                categories_ext(gs@, gi - 1).push(category_of(gs@[gi - 1]))
            } else {
                categories_ext(gs@, gi - 1)
            }));
        }
    }
    proof {
        assert(gs@.subrange(0, gs@.len() as int) =~= gs@);
        assert(flat_offset(gs@, gs@.len() as int) == links.len());
    }
    ExternalPage { groups: rgroups, categories, details }
}

// ---------------------------------------------------------------------------
// The intranet projection
// ---------------------------------------------------------------------------

/// The target an intranet page links: the intranet URL when set, else
/// the external URL, else nothing.
pub open spec fn intranet_target(l: Link) -> Seq<char> {
    match l.intranet {
        Some(s) => s@,
        None => match l.url {
            Some(u) => u@,
            None => Seq::<char>::empty(),
        },
    }
}

/// A link takes part in the intranet page: its target is not blank.
pub open spec fn eligible_intranet(l: Link) -> bool {
    trim_spec(intranet_target(l)).len() > 0
}

/// How many of the first `i` links take part in the intranet page.
pub open spec fn eligible_count_in(links: Seq<Link>, i: int) -> int
    decreases i,
{
    if i <= 0 {
        0
    } else {
        eligible_count_in(links, i - 1) + if eligible_intranet(links[i - 1]) {
            1int
        } else {
            0int
        }
    }
}

/// The rendered form of an intranet link: the target itself as href and
/// display URL, and the icon resolved against the `../` asset prefix.
pub open spec fn rlink_matches_in(l: Link, rl: RLink) -> bool {
    &&& rl.name == l.name
    &&& rl.href@ == intranet_target(l)
    &&& rl.display_url@ == intranet_target(l)
    &&& rl.desc == l.intro
    &&& match l.icon {
        Some(ic) => rl.icon matches Some(ri) && ri@ == resolve_icon_for_page_spec(ic@, "../"@),
        None => rl.icon is None,
    }
    &&& rl.host@ == host_text(intranet_target(l))
}

/// A group appears on the intranet page when one of its links does.
pub open spec fn group_included_in(g: Group) -> bool {
    exists|l: int| 0 <= l < g.links@.len() && eligible_intranet(#[trigger] g.links@[l])
}

/// How many of the first `i` groups appear on the intranet page.
pub open spec fn included_count_in(gs: Seq<Group>, i: int) -> int
    decreases i,
{
    if i <= 0 {
        0
    } else {
        included_count_in(gs, i - 1) + if group_included_in(gs[i - 1]) {
            1int
        } else {
            0int
        }
    }
}

/// The intranet category list after the first `i` groups.
pub open spec fn categories_in(gs: Seq<Group>, i: int) -> Seq<Seq<char>>
    decreases i,
{
    if i <= 0 {
        Seq::<Seq<char>>::empty()
    } else {
        let p = categories_in(gs, i - 1);
        if group_included_in(gs[i - 1]) && !p.contains(category_of(gs[i - 1])) {
            p.push(category_of(gs[i - 1]))
        } else {
            p
        }
    }
}

/// The rendered form of included group `g` on the intranet page.
pub open spec fn rgroup_matches_in(gs: Seq<Group>, site: Site, g: int, rg: RGroup) -> bool {
    let grp = gs[g];
    &&& rg.name == grp.name
    &&& rg.category@ == category_of(grp)
    &&& rg.display@ == resolve_display_spec(
        match grp.display {
            Some(d) => Some(d@),
            None => None,
        },
        site,
        category_of(grp),
    )
    &&& rg.links@.len() == eligible_count_in(grp.links@, grp.links@.len() as int)
    &&& forall|l: int|
        0 <= l < grp.links@.len() && eligible_intranet(grp.links@[l]) ==> rlink_matches_in(
            grp.links@[l],
            #[trigger] rg.links@[eligible_count_in(grp.links@, l)],
        )
}

proof fn lemma_eligible_count_in_bound(links: Seq<Link>, i: int)
    requires
        0 <= i,
    ensures
        0 <= eligible_count_in(links, i) <= i,
    decreases i,
{
    if i > 0 {
        lemma_eligible_count_in_bound(links, i - 1);
    }
}

proof fn lemma_eligible_count_in_mono(links: Seq<Link>, a: int, b: int)
    requires
        0 <= a <= b,
    ensures
        eligible_count_in(links, a) <= eligible_count_in(links, b),
    decreases b - a,
{
    if a < b {
        lemma_eligible_count_in_mono(links, a, b - 1);
        lemma_eligible_count_in_bound(links, a);
    }
}

proof fn lemma_eligible_count_in_pos(ls: Seq<Link>, i: int)
    requires
        0 <= i <= ls.len(),
    ensures
        (eligible_count_in(ls, i) > 0) <==> (exists|l: int|
            0 <= l < i && eligible_intranet(#[trigger] ls[l])),
    decreases i,
{
    if i > 0 {
        lemma_eligible_count_in_pos(ls, i - 1);
        lemma_eligible_count_in_bound(ls, i - 1);
        if eligible_intranet(ls[i - 1]) {
            assert(exists|l: int| 0 <= l < i && eligible_intranet(#[trigger] ls[l]));
        } else {
            if exists|l: int| 0 <= l < i && eligible_intranet(#[trigger] ls[l]) {
                let w = choose|l: int| 0 <= l < i && eligible_intranet(#[trigger] ls[l]);
                assert(w != i - 1);
                assert(0 <= w < i - 1 && eligible_intranet(ls[w]));
            }
        }
    }
}

proof fn lemma_included_count_in_bound(gs: Seq<Group>, i: int)
    requires
        0 <= i,
    ensures
        0 <= included_count_in(gs, i) <= i,
    decreases i,
{
    if i > 0 {
        lemma_included_count_in_bound(gs, i - 1);
    }
}

proof fn lemma_included_count_in_mono(gs: Seq<Group>, a: int, b: int)
    requires
        0 <= a <= b,
    ensures
        included_count_in(gs, a) <= included_count_in(gs, b),
    decreases b - a,
{
    if a < b {
        lemma_included_count_in_mono(gs, a, b - 1);
        lemma_included_count_in_bound(gs, a);
    }
}

/// The intranet page's render model.
pub struct IntranetPage {
    pub groups: Vec<RGroup>,
    pub categories: Vec<String>,
}

/// Projects the configuration for the intranet network mode: a link
/// appears when its intranet URL, or failing that its external URL, is
/// not blank; no detail records and no slugs are produced.
pub fn project_intranet(cfg: &Config) -> (out: IntranetPage)
    ensures
        ({
            let gs = cfg.groups@;
            &&& out.groups@.len() == included_count_in(gs, gs.len() as int)
            &&& forall|g: int|
                0 <= g < gs.len() && group_included_in(gs[g]) ==> rgroup_matches_in(
                    gs,
                    cfg.site,
                    g,
                    #[trigger] out.groups@[included_count_in(gs, g)],
                )
            &&& out.categories.deep_view() == categories_in(gs, gs.len() as int)
        }),
{
    let gs = &cfg.groups;
    let mut rgroups: Vec<RGroup> = Vec::new();
    let mut categories: Vec<String> = Vec::new();
    let mut gi: usize = 0;
    while gi < gs.len()
        invariant
            gs == cfg.groups,
            gi <= gs@.len(),
            rgroups@.len() == included_count_in(gs@, gi as int),
            forall|g: int|
                0 <= g < gi && group_included_in(gs@[g]) ==> rgroup_matches_in(
                    gs@,
                    cfg.site,
                    g,
                    #[trigger] rgroups@[included_count_in(gs@, g)],
                ),
            categories.deep_view() == categories_in(gs@, gi as int),
        decreases gs@.len() - gi,
    {
        let grp = &gs[gi];
        let glinks = &grp.links;
        let mut rlinks: Vec<RLink> = Vec::new();
        let mut li: usize = 0;
        while li < glinks.len()
            invariant
                gs == cfg.groups,
                gi < gs@.len(),
                grp == gs@[gi as int],
                glinks == gs@[gi as int].links,
                li <= glinks@.len(),
                rlinks@.len() == eligible_count_in(glinks@, li as int),
                forall|l: int|
                    0 <= l < li && eligible_intranet(glinks@[l]) ==> rlink_matches_in(
                        glinks@[l],
                        #[trigger] rlinks@[eligible_count_in(glinks@, l)],
                    ),
            decreases glinks@.len() - li,
        {
            let l = &glinks[li];
            let href: String = match &l.intranet {
                Some(s) => s.clone(),
                None => match &l.url {
                    Some(u) => u.clone(),
                    None => String::new(),
                },
            };
            assert(href@ == intranet_target(glinks@[li as int]));
            let t = trim_str(href.as_str());
            if t.as_str().unicode_len() > 0 {
                assert(eligible_intranet(glinks@[li as int]));
                let host: String = match hostname_from_url(href.as_str()) {
                    Some(h) => h,
                    None => String::new(),
                };
                let icon_res: Option<String> = match &l.icon {
                    Some(ic) => Some(resolve_icon_for_page(ic.as_str(), "../")),
                    None => None,
                };
                let display_url = href.clone();
                let rl = RLink {
                    name: l.name.clone(),
                    href,
                    display_url,
                    desc: l.intro.clone(),
                    icon: icon_res,
                    host,
                };
                let ghost rlinks_before = rlinks@;
                rlinks.push(rl);
                proof {
                    assert(rlink_matches_in(
                        glinks@[li as int],
                        rlinks@[rlinks_before.len() as int],
                    ));
                }
            } else {
                assert(!eligible_intranet(glinks@[li as int]));
            }
            li = li + 1;
            proof {
                assert(eligible_count_in(glinks@, li as int) == eligible_count_in(
                    glinks@,
                    li - 1,
                ) + (if eligible_intranet(glinks@[li - 1]) {
                    1int
                } else {
                    0int
                }));
                assert forall|l: int|
                    0 <= l < li && eligible_intranet(glinks@[l]) implies rlink_matches_in(
                    glinks@[l],
                    #[trigger] rlinks@[eligible_count_in(glinks@, l)],
                ) by {
                    if l < li - 1 {
                        lemma_eligible_count_in_mono(glinks@, l + 1, li - 1);
                        lemma_eligible_count_in_bound(glinks@, l);
                        assert(eligible_count_in(glinks@, l + 1) == eligible_count_in(glinks@, l)
                            + 1);
                    }
                };
            }
        }
        if rlinks.len() > 0 {
            proof {
                lemma_eligible_count_in_pos(glinks@, glinks@.len() as int);
                assert(group_included_in(gs@[gi as int]));
            }
            let cat: String = match &grp.category {
                Some(c) => c.clone(),
                None => "全部".to_owned(),
            };
            assert(cat@ == category_of(gs@[gi as int]));
            let ghost cats_before = categories.deep_view();
            if !crate::strutil::contains_string(&categories, &cat) {
                categories.push(cat.clone());
                assert(categories.deep_view() =~= cats_before.push(cat@));
            }
            let disp = resolve_display(
                match &grp.display {
                    Some(d) => Some(d),
                    None => None,
                },
                &cfg.site,
                cat.as_str(),
            );
            let rg = RGroup { name: grp.name.clone(), category: cat, display: disp, links: rlinks };
            let ghost rg_before = rgroups@;
            rgroups.push(rg);
            proof {
                assert(rgroup_matches_in(gs@, cfg.site, gi as int, rgroups@[rg_before.len() as int]));
            }
        } else {
            proof {
                lemma_eligible_count_in_pos(glinks@, glinks@.len() as int);
                assert(!group_included_in(gs@[gi as int]));
            }
        }
        gi = gi + 1;
        proof {
            assert(included_count_in(gs@, gi as int) == included_count_in(gs@, gi - 1) + (
            if group_included_in(gs@[gi - 1]) {
                1int
            } else {
                0int
            }));
            assert(categories_in(gs@, gi as int) =~= (if group_included_in(gs@[gi - 1])
                && !categories_in(gs@, gi - 1).contains(category_of(gs@[gi - 1])) {
                categories_in(gs@, gi - 1).push(category_of(gs@[gi - 1]))
            } else {
                categories_in(gs@, gi - 1)
            }));
            assert forall|g: int|
                0 <= g < gi && group_included_in(gs@[g]) implies rgroup_matches_in(
                gs@,
                cfg.site,
                g,
                #[trigger] rgroups@[included_count_in(gs@, g)],
            ) by {
                if g < gi - 1 {
                    lemma_included_count_in_mono(gs@, g + 1, gi - 1);
                    lemma_included_count_in_bound(gs@, g);
                    assert(included_count_in(gs@, g + 1) == included_count_in(gs@, g) + 1);
                }
            };
        }
    }
    IntranetPage { groups: rgroups, categories }
}

/// Slug assignment is a function of the link list alone: any two detail
/// records that meet the projection contract for the same position
/// carry the same slug, so a fixed input order yields stable slugs
/// across repeated builds; and no two positions share a slug within one
/// build, which `project_external` states of its output.
pub proof fn lemma_slug_stability(
    site: Site,
    links: Seq<Link>,
    i: int,
    d1: LinkDetail,
    d2: LinkDetail,
)
    requires
        0 <= i < links.len(),
        eligible_external(links[i]),
        detail_matches(site, links, i, d1),
        detail_matches(site, links, i, d2),
    ensures
        d1.slug@ == d2.slug@,
{
}

proof fn lemma_ext_used_grows(links: Seq<Link>, a: int, b: int, x: Seq<char>)
    requires
        0 <= a <= b,
        ext_used(links, a).contains(x),
    ensures
        ext_used(links, b).contains(x),
    decreases b - a,
{
    if a < b {
        lemma_ext_used_grows(links, a, b - 1, x);
        let p = ext_used(links, b - 1);
        if eligible_external(links[b - 1]) {
            let w = choose|w: int| 0 <= w < p.len() && p[w] == x;
            assert(ext_used(links, b)[w] == x);
        }
    }
}

/// No two links of one build receive the same slug: the later link's
/// slug is allocated against a taken-set that already holds the earlier
/// one, and the allocator never returns a taken slug.
pub proof fn lemma_ext_slugs_distinct(links: Seq<Link>, i: int, j: int)
    requires
        0 <= i < j < links.len(),
        eligible_external(links[i]),
        eligible_external(links[j]),
    ensures
        ext_slug(links, i) != ext_slug(links, j),
{
    let si = ext_slug(links, i);
    assert(ext_used(links, i + 1).contains(si)) by {
        let p = ext_used(links, i);
        assert(ext_used(links, i + 1) == p.push(si));
        assert(ext_used(links, i + 1)[p.len() as int] == si);
    };
    lemma_ext_used_grows(links, i + 1, j, si);
    crate::slug::lemma_unique_slug_fresh(ext_base_slug(links, j), ext_used(links, j));
}

} // verus!
