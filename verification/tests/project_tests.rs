use dove::model::{Config, Group, Layout, Link, RedirectSettings, RiskLevel, Site, UtmParams};
use dove::project::{
    project_external, project_intranet, resolve_display, resolve_icon_for_detail,
    resolve_icon_for_page, risk_meta,
};

fn bare_site() -> Site {
    Site {
        title: "t".to_string(),
        description: String::new(),
        color_scheme: dove::model::ColorScheme::Auto,
        theme_dir: None,
        base_path: None,
        redirect: None,
        base_url: None,
        og_image: None,
        sitemap: None,
        search_engines: None,
        default_engine: None,
        layout: Layout::Default,
        baidu_tongji_id: None,
        google_analytics_id: None,
        category_display: None,
        default_category_display: None,
    }
}

fn bare_link(name: &str, url: Option<&str>) -> Link {
    Link {
        name: name.to_string(),
        url: url.map(|s| s.to_string()),
        intro: String::new(),
        details: None,
        slug: None,
        icon: None,
        intranet: None,
        risk: None,
        utm: None,
        lastmod: None,
        changefreq: None,
        priority: None,
    }
}

fn group(name: &str, links: Vec<Link>) -> Group {
    Group {
        name: name.to_string(),
        links,
        category: None,
        display: None,
    }
}

#[test]
fn duplicate_names_get_distinct_slugs() {
    // Two groups, each with one link named "Example" at the same URL: the
    // second falls back to the name-host base, and no two slugs collide.
    let cfg = Config {
        site: bare_site(),
        groups: vec![
            group("g1", vec![bare_link("Example", Some("https://example.com"))]),
            group("g2", vec![bare_link("Example", Some("https://example.com"))]),
        ],
    };
    let page = project_external(&cfg, true);
    assert_eq!(page.details.len(), 2);
    assert_eq!(page.details[0].slug, "example");
    assert_eq!(page.details[1].slug, "example-example-com");
    assert_ne!(page.details[0].slug, page.details[1].slug);
    assert_eq!(page.groups.len(), 2);
    assert_eq!(page.groups[0].links[0].href, "/go/example/");
    assert_eq!(page.groups[1].links[0].href, "/go/example-example-com/");
}

#[test]
fn duplicate_names_without_host_get_numeric_suffixes() {
    // Same repeated name, but the URL has no parsable host: the base slug
    // repeats and the allocator disambiguates numerically.
    let cfg = Config {
        site: bare_site(),
        groups: vec![
            group("g1", vec![bare_link("Note", Some("not a url"))]),
            group("g2", vec![bare_link("Note", Some("not a url"))]),
        ],
    };
    let page = project_external(&cfg, true);
    assert_eq!(page.details.len(), 2);
    assert_eq!(page.details[0].slug, "note");
    assert_eq!(page.details[1].slug, "note-2");
}

#[test]
fn name_deduplication_ignores_case() {
    // The repeat detection folds names, so EXAMPLE repeats Example and
    // the second link falls back to the name-host base rather than a
    // numeric suffix.
    let cfg = Config {
        site: bare_site(),
        groups: vec![
            group("g1", vec![bare_link("Example", Some("https://example.com"))]),
            group("g2", vec![bare_link("EXAMPLE", Some("https://example.com"))]),
        ],
    };
    let page = project_external(&cfg, true);
    assert_eq!(page.details[0].slug, "example");
    assert_eq!(page.details[1].slug, "example-example-com");
}

#[test]
fn explicit_slug_wins() {
    let mut l = bare_link("Name", Some("https://a.example"));
    l.slug = Some("My Slug".to_string());
    let cfg = Config {
        site: bare_site(),
        groups: vec![group("g", vec![l])],
    };
    let page = project_external(&cfg, true);
    assert_eq!(page.details[0].slug, "my-slug");
}

#[test]
fn projection_slugs_stable_across_runs() {
    let cfg = Config {
        site: bare_site(),
        groups: vec![group(
            "g",
            vec![
                bare_link("Example", Some("https://example.com")),
                bare_link("Example", Some("https://example.com")),
                bare_link("!!!", Some("https://other.example")),
            ],
        )],
    };
    let a = project_external(&cfg, true);
    let b = project_external(&cfg, true);
    let sa: Vec<&str> = a.details.iter().map(|d| d.slug.as_str()).collect();
    let sb: Vec<&str> = b.details.iter().map(|d| d.slug.as_str()).collect();
    assert_eq!(sa, sb);
}

#[test]
fn group_filtering_is_mode_dependent() {
    // A group whose only link has no external URL but an intranet target:
    // absent from the external output, present in the intranet output.
    let mut l = bare_link("Internal", None);
    l.intranet = Some("http://10.0.0.1/".to_string());
    let cfg = Config {
        site: bare_site(),
        groups: vec![group("internal-only", vec![l])],
    };
    let ext = project_external(&cfg, true);
    assert_eq!(ext.groups.len(), 0);
    assert_eq!(ext.details.len(), 0);
    assert_eq!(ext.categories.len(), 0);
    let intra = project_intranet(&cfg);
    assert_eq!(intra.groups.len(), 1);
    assert_eq!(intra.groups[0].links[0].href, "http://10.0.0.1/");
}

#[test]
fn intranet_falls_back_to_external_url() {
    let cfg = Config {
        site: bare_site(),
        groups: vec![group("g", vec![bare_link("Pub", Some("https://pub.example"))])],
    };
    let intra = project_intranet(&cfg);
    assert_eq!(intra.groups.len(), 1);
    assert_eq!(intra.groups[0].links[0].href, "https://pub.example");
}

#[test]
fn blank_urls_are_skipped_everywhere() {
    let cfg = Config {
        site: bare_site(),
        groups: vec![group("g", vec![bare_link("Blank", Some("   "))])],
    };
    let ext = project_external(&cfg, true);
    assert_eq!(ext.details.len(), 0);
    let intra = project_intranet(&cfg);
    assert_eq!(intra.groups.len(), 0);
}

#[test]
fn every_external_link_yields_one_detail() {
    let cfg = Config {
        site: bare_site(),
        groups: vec![
            group(
                "g1",
                vec![
                    bare_link("A", Some("https://a.example")),
                    bare_link("NoUrl", None),
                    bare_link("B", Some("https://b.example")),
                ],
            ),
            group("g2", vec![bare_link("C", Some("https://c.example"))]),
        ],
    };
    let page = project_external(&cfg, true);
    assert_eq!(page.details.len(), 3);
    let names: Vec<&str> = page.details.iter().map(|d| d.name.as_str()).collect();
    assert_eq!(names, vec!["A", "B", "C"]);
    assert_eq!(page.details[0].host, "a.example");
}

#[test]
fn detail_inherits_site_redirect_defaults() {
    let mut site = bare_site();
    site.redirect = Some(RedirectSettings {
        delay_seconds: Some(5),
        default_risk: Some(RiskLevel::Medium),
        utm: Some(UtmParams {
            source: Some("dove".to_string()),
            medium: None,
            campaign: None,
            term: None,
            content: None,
        }),
    });
    let mut risky = bare_link("Risky", Some("https://r.example"));
    risky.risk = Some(RiskLevel::High);
    let cfg = Config {
        site,
        groups: vec![group("g", vec![bare_link("Plain", Some("https://p.example")), risky])],
    };
    let page = project_external(&cfg, true);
    assert_eq!(page.details[0].delay_seconds, 5);
    assert!(matches!(page.details[0].risk, Some(RiskLevel::Medium)));
    assert_eq!(
        page.details[0].utm.as_ref().unwrap().source.as_deref(),
        Some("dove")
    );
    assert!(matches!(page.details[1].risk, Some(RiskLevel::High)));
}

#[test]
fn href_is_plain_url_without_intermediate_pages() {
    let cfg = Config {
        site: bare_site(),
        groups: vec![group("g", vec![bare_link("A", Some("https://a.example"))])],
    };
    let page = project_external(&cfg, false);
    assert_eq!(page.groups[0].links[0].href, "https://a.example");
}

#[test]
fn categories_first_seen_once() {
    let mut g1 = group("g1", vec![bare_link("A", Some("https://a.example"))]);
    g1.category = Some("Dev".to_string());
    let mut g2 = group("g2", vec![bare_link("B", Some("https://b.example"))]);
    g2.category = Some("Dev".to_string());
    let g3 = group("g3", vec![bare_link("C", Some("https://c.example"))]);
    let cfg = Config {
        site: bare_site(),
        groups: vec![g1, g2, g3],
    };
    let page = project_external(&cfg, true);
    assert_eq!(page.categories, vec!["Dev".to_string(), "全部".to_string()]);
}

#[test]
fn display_mode_resolution_precedence() {
    let mut site = bare_site();
    site.category_display = Some(vec![("Dev".to_string(), "compact".to_string())]);
    site.default_category_display = Some("list".to_string());
    let own = Some("文本".to_string());
    assert_eq!(resolve_display(own.as_ref(), &site, "Dev"), "text");
    assert_eq!(resolve_display(None, &site, "Dev"), "compact");
    assert_eq!(resolve_display(None, &site, "Other"), "list");
    let bare = bare_site();
    assert_eq!(resolve_display(None, &bare, "Dev"), "standard");
    assert_eq!(resolve_display(Some(&"nonsense".to_string()), &bare, "x"), "standard");
}

#[test]
fn risk_meta_labels() {
    assert_eq!(risk_meta(None), ("low".to_string(), "低风险".to_string()));
    assert_eq!(
        risk_meta(Some(RiskLevel::Medium)),
        ("medium".to_string(), "中风险".to_string())
    );
    assert_eq!(
        risk_meta(Some(RiskLevel::High)),
        ("high".to_string(), "高风险".to_string())
    );
}

#[test]
fn icon_resolution_for_pages() {
    assert_eq!(
        resolve_icon_for_page("https://a.example/i.png", ""),
        "https://a.example/i.png"
    );
    assert_eq!(resolve_icon_for_page("/assets/i.png", ""), "assets/i.png");
    assert_eq!(resolve_icon_for_page("/assets/i.png", "../"), "../assets/i.png");
    assert_eq!(resolve_icon_for_page("./i.png", "../"), "./i.png");
    assert_eq!(resolve_icon_for_page("i.png", "../"), "../i.png");
    assert_eq!(resolve_icon_for_page("i.png", ""), "i.png");
    assert_eq!(resolve_icon_for_page("data:image/png;base64,AA", "../"), "data:image/png;base64,AA");
}

#[test]
fn icon_resolution_for_detail_pages() {
    assert_eq!(
        resolve_icon_for_detail("https://a.example/i.png"),
        "https://a.example/i.png"
    );
    assert_eq!(resolve_icon_for_detail("/assets/i.png"), "../../assets/i.png");
    assert_eq!(resolve_icon_for_detail("assets/i.png"), "../../assets/i.png");
}
