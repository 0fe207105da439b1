use dove::model::{ChangeFreq, Config, Group, Layout, Link, Site, SitemapSettings};
use dove::project::project_external;
use dove::sitemap::{
    build_page_url, changefreq_str, priority_str, robots_txt, sanitize_priority, sitemap_xml,
    url_join,
};

fn bare_site() -> Site {
    Site {
        title: "t".to_string(),
        description: String::new(),
        color_scheme: dove::model::ColorScheme::Auto,
        theme_dir: None,
        base_path: None,
        redirect: None,
        base_url: None,
        og_image: None,
        sitemap: None,
        search_engines: None,
        default_engine: None,
        layout: Layout::Default,
        baidu_tongji_id: None,
        google_analytics_id: None,
        category_display: None,
        default_category_display: None,
    }
}

fn bare_link(name: &str, url: Option<&str>) -> Link {
    Link {
        name: name.to_string(),
        url: url.map(|s| s.to_string()),
        intro: String::new(),
        details: None,
        slug: None,
        icon: None,
        intranet: None,
        risk: None,
        utm: None,
        lastmod: None,
        changefreq: None,
        priority: None,
    }
}

#[test]
fn priority_clamping() {
    // Priorities are held in thousandths: -400 stands for -0.4.
    assert_eq!(sanitize_priority(-400), 0);
    assert_eq!(sanitize_priority(1700), 10);
    // 0.55 rounds half away from zero to 0.6.
    assert_eq!(sanitize_priority(550), 6);
    assert_eq!(sanitize_priority(0), 0);
    assert_eq!(sanitize_priority(1000), 10);
    assert_eq!(sanitize_priority(540), 5);
}

#[test]
fn priority_formatting() {
    assert_eq!(priority_str(550), "0.6");
    assert_eq!(priority_str(1700), "1.0");
    assert_eq!(priority_str(-400), "0.0");
    assert_eq!(priority_str(500), "0.5");
}

#[test]
fn changefreq_words() {
    assert_eq!(changefreq_str(ChangeFreq::Weekly), "weekly");
    assert_eq!(changefreq_str(ChangeFreq::Never), "never");
}

#[test]
fn url_join_trims_slashes() {
    let base = "https://nav.test/".to_string();
    let bp = "team".to_string();
    assert_eq!(
        url_join(Some(&base), Some(&bp), "/go/x/index.html"),
        "https://nav.test/team/go/x/index.html"
    );
    assert_eq!(
        url_join(Some(&base), None, "index.html"),
        "https://nav.test/index.html"
    );
    assert_eq!(url_join(None, Some(&bp), "index.html"), "team/index.html");
    assert_eq!(url_join(None, None, "index.html"), "index.html");
}

#[test]
fn build_page_url_is_relative_without_base() {
    assert_eq!(build_page_url(None, None, "index.html"), "index.html");
    let base = "https://nav.test".to_string();
    assert_eq!(
        build_page_url(Some(&base), None, "index.html"),
        "https://nav.test/index.html"
    );
}

#[test]
fn robots_allows_everything() {
    assert_eq!(robots_txt(), "User-agent: *\nAllow: /\n");
}

#[test]
fn sitemap_scenario_with_base_url_and_overrides() {
    // base_url https://nav.test, base_path team, one link with its own
    // lastmod, weekly changefreq, and an out-of-range priority of 1.5.
    let mut site = bare_site();
    site.base_url = Some("https://nav.test".to_string());
    let mut l = bare_link("X", Some("https://x.example"));
    l.lastmod = Some("2024-01-01".to_string());
    l.changefreq = Some(ChangeFreq::Weekly);
    l.priority = Some(1500);
    let cfg = Config {
        site,
        groups: vec![Group {
            name: "g".to_string(),
            links: vec![l],
            category: None,
            display: None,
        }],
    };
    let page = project_external(&cfg, true);
    let slug = page.details[0].slug.clone();
    assert_eq!(slug, "x");
    let bp = "team".to_string();
    let xml = sitemap_xml(&cfg.site, Some(&bp), &page.details, "2024-06-01T00:00:00Z");
    assert!(xml.contains(&format!(
        "<loc>https://nav.test/team/go/{}/index.html</loc>",
        slug
    )));
    assert!(xml.contains("<lastmod>2024-01-01</lastmod>"));
    assert!(xml.contains("<changefreq>weekly</changefreq>"));
    assert!(xml.contains("<priority>1.0</priority>"));
    // The two index entries are present too.
    assert!(xml.contains("<loc>https://nav.test/team/index.html</loc>"));
    assert!(xml.contains("<loc>https://nav.test/team/intranet/index.html</loc>"));
    assert!(xml.starts_with("<?xml version=\"1.0\" encoding=\"UTF-8\"?>\n"));
    assert!(xml.ends_with("</urlset>\n"));
}

#[test]
fn sitemap_falls_back_to_site_defaults_and_build_time() {
    let mut site = bare_site();
    site.sitemap = Some(SitemapSettings {
        default_changefreq: Some(ChangeFreq::Daily),
        default_priority: Some(300),
        lastmod: None,
    });
    let cfg = Config {
        site,
        groups: vec![Group {
            name: "g".to_string(),
            links: vec![bare_link("X", Some("https://x.example"))],
            category: None,
            display: None,
        }],
    };
    let page = project_external(&cfg, true);
    let xml = sitemap_xml(&cfg.site, None, &page.details, "2024-06-01T00:00:00Z");
    // The link has no sitemap fields of its own, so the site defaults and
    // the build time apply to its entry.
    assert!(xml.contains("<loc>go/x/index.html</loc>"));
    assert!(xml.contains("<lastmod>2024-06-01T00:00:00Z</lastmod>"));
    assert!(xml.contains("<changefreq>daily</changefreq>"));
    assert!(xml.contains("<priority>0.3</priority>"));
}

#[test]
fn sitemap_omits_unset_optional_fields() {
    let cfg = Config {
        site: bare_site(),
        groups: vec![Group {
            name: "g".to_string(),
            links: vec![bare_link("X", Some("https://x.example"))],
            category: None,
            display: None,
        }],
    };
    let page = project_external(&cfg, true);
    let xml = sitemap_xml(&cfg.site, None, &page.details, "bt");
    assert!(!xml.contains("<changefreq>"));
    assert!(!xml.contains("<priority>"));
    assert!(xml.contains("<lastmod>bt</lastmod>"));
}
