use dove::icons::{
    apply_icon_map, cache_file_name, collect_icon_targets, download_icons_concurrent,
    ext_from_headers_or_url, fnv1a64, icon_rel_path, normalize_remote_icon,
};
use dove::model::{Config, Group, Layout, Link, SearchEngine, Site};

fn bare_site() -> Site {
    Site {
        title: "t".to_string(),
        description: String::new(),
        color_scheme: dove::model::ColorScheme::Auto,
        theme_dir: None,
        base_path: None,
        redirect: None,
        base_url: None,
        og_image: None,
        sitemap: None,
        search_engines: None,
        default_engine: None,
        layout: Layout::Default,
        baidu_tongji_id: None,
        google_analytics_id: None,
        category_display: None,
        default_category_display: None,
    }
}

fn bare_link(name: &str, url: Option<&str>, icon: Option<&str>) -> Link {
    Link {
        name: name.to_string(),
        url: url.map(|s| s.to_string()),
        intro: String::new(),
        details: None,
        slug: None,
        icon: icon.map(|s| s.to_string()),
        intranet: None,
        risk: None,
        utm: None,
        lastmod: None,
        changefreq: None,
        priority: None,
    }
}

#[test]
fn normalize_recognizes_http_and_https() {
    let r = normalize_remote_icon("https://a.example/x.png").unwrap();
    assert_eq!(r.0, "https://a.example/x.png");
    assert_eq!(r.1, "https://a.example/x.png");
    let r = normalize_remote_icon("  http://a.example/x.png  ").unwrap();
    assert_eq!(r.0, "http://a.example/x.png");
    assert_eq!(r.1, "http://a.example/x.png");
}

#[test]
fn normalize_rewrites_protocol_relative() {
    let r = normalize_remote_icon("//cdn.example/i.svg").unwrap();
    assert_eq!(r.0, "//cdn.example/i.svg");
    assert_eq!(r.1, "https://cdn.example/i.svg");
}

#[test]
fn normalize_rejects_local_and_data() {
    assert!(normalize_remote_icon("assets/icons/x.png").is_none());
    assert!(normalize_remote_icon("/abs/path.svg").is_none());
    assert!(normalize_remote_icon("data:image/png;base64,AAAA").is_none());
    assert!(normalize_remote_icon("").is_none());
    assert!(normalize_remote_icon("   ").is_none());
}

#[test]
fn fnv_known_value() {
    assert_eq!(fnv1a64(b"a"), 0xaf63dc4c8601ec8c);
}

#[test]
fn cache_file_name_is_hash_of_url() {
    assert_eq!(
        cache_file_name("https://example.com/icon.png", "png"),
        "i_130fc9072d4df5b0.png"
    );
}

#[test]
fn cache_file_name_deterministic() {
    let a = cache_file_name("https://example.com/icon.png", "png");
    let b = cache_file_name("https://example.com/icon.png", "png");
    assert_eq!(a, b);
}

#[test]
fn icon_rel_path_trims_slashes() {
    assert_eq!(icon_rel_path("assets/icons", "f.png"), "assets/icons/f.png");
    assert_eq!(icon_rel_path("/assets/icons/", "f.png"), "assets/icons/f.png");
    assert_eq!(icon_rel_path("", "f.png"), "f.png");
    assert_eq!(icon_rel_path("///", "f.png"), "f.png");
}

#[test]
fn ext_from_content_type() {
    assert_eq!(ext_from_headers_or_url("image/svg+xml", "u"), "svg");
    assert_eq!(
        ext_from_headers_or_url("image/png; charset=binary", "u"),
        "png"
    );
    assert_eq!(ext_from_headers_or_url("IMAGE/JPEG", "u"), "jpg");
    assert_eq!(ext_from_headers_or_url("image/vnd.microsoft.icon", "u"), "ico");
}

#[test]
fn ext_falls_back_to_url_then_bin() {
    assert_eq!(
        ext_from_headers_or_url("text/plain", "https://a.example/img.WEBP"),
        "webp"
    );
    assert_eq!(
        ext_from_headers_or_url("text/plain", "https://a.example/img.unknown"),
        "bin"
    );
    assert_eq!(
        ext_from_headers_or_url("text/plain", "https://a.example/noext"),
        "bin"
    );
    assert_eq!(ext_from_headers_or_url("text/plain", "not a url"), "bin");
    // The extension comes from the URL's last path segment, not from the
    // raw URL text: the query string's dot must not win.
    assert_eq!(
        ext_from_headers_or_url("text/plain", "https://a.example/x.png?v=2.svg"),
        "png"
    );
}

#[test]
fn shared_icon_fetched_once() {
    // Two links with different names share one remote icon: exactly one
    // download target remains after deduplication.
    let shared = "https://cdn.example.net/shared.svg";
    let cfg = Config {
        site: bare_site(),
        groups: vec![Group {
            name: "g".to_string(),
            links: vec![
                bare_link("One", Some("https://one.example"), Some(shared)),
                bare_link("Two", Some("https://two.example"), Some(shared)),
            ],
            category: None,
            display: None,
        }],
    };
    let targets = collect_icon_targets(&cfg);
    assert_eq!(targets.len(), 1);
    assert_eq!(targets[0].0, shared);

    // A counting stub "fetches" each target once and records the content type.
    let mut fetch_calls = 0usize;
    let outcomes: Vec<Option<String>> = targets
        .iter()
        .map(|_| {
            fetch_calls += 1;
            Some("image/svg+xml".to_string())
        })
        .collect();
    assert_eq!(fetch_calls, 1);

    let map = download_icons_concurrent(&targets, "assets/icons", &outcomes);
    assert_eq!(map.len(), 1);
    assert_eq!(map[0].1, "assets/icons/i_1caf3979dc6780b0.svg");

    // Both links end up referencing the identical cached local path.
    let rewritten = apply_icon_map(&cfg, &map);
    let links = &rewritten.groups[0].links;
    assert_eq!(links[0].icon.as_deref(), Some("assets/icons/i_1caf3979dc6780b0.svg"));
    assert_eq!(links[0].icon, links[1].icon);
}

#[test]
fn fetch_and_cache_twice_same_filename() {
    // Running the fold twice over the same targets and outcomes names the
    // same cached file both times; a driver that checks for the file on
    // disk therefore finds it and skips the write.
    let cfg = Config {
        site: bare_site(),
        groups: vec![Group {
            name: "g".to_string(),
            links: vec![bare_link(
                "One",
                Some("https://one.example"),
                Some("https://cdn.example.net/shared.svg"),
            )],
            category: None,
            display: None,
        }],
    };
    let targets = collect_icon_targets(&cfg);
    let outcomes: Vec<Option<String>> = vec![Some("image/svg+xml".to_string())];
    let first = download_icons_concurrent(&targets, "assets/icons", &outcomes);
    let second = download_icons_concurrent(&targets, "assets/icons", &outcomes);
    assert_eq!(first.len(), 1);
    assert_eq!(first[0].0, second[0].0);
    assert_eq!(first[0].1, second[0].1);
}

#[test]
fn failed_fetch_leaves_icon_unchanged() {
    // The fetch fails (the stub returns no content type): no map entry is
    // made and the link keeps its original remote reference.
    let remote = "https://cdn.example.net/shared.svg";
    let cfg = Config {
        site: bare_site(),
        groups: vec![Group {
            name: "g".to_string(),
            links: vec![bare_link("One", Some("https://one.example"), Some(remote))],
            category: None,
            display: None,
        }],
    };
    let targets = collect_icon_targets(&cfg);
    assert_eq!(targets.len(), 1);
    let outcomes: Vec<Option<String>> = vec![None];
    let map = download_icons_concurrent(&targets, "assets/icons", &outcomes);
    assert_eq!(map.len(), 0);
    let rewritten = apply_icon_map(&cfg, &map);
    assert_eq!(rewritten.groups[0].links[0].icon.as_deref(), Some(remote));
}

#[test]
fn search_engine_icons_are_collected_and_rewritten() {
    let mut site = bare_site();
    site.search_engines = Some(vec![SearchEngine {
        name: "s".to_string(),
        template: "https://s.example/?q={q}".to_string(),
        icon: Some("https://cdn.example.net/shared.svg".to_string()),
    }]);
    let cfg = Config { site, groups: vec![] };
    let targets = collect_icon_targets(&cfg);
    assert_eq!(targets.len(), 1);
    let outcomes: Vec<Option<String>> = vec![Some("image/svg+xml".to_string())];
    let map = download_icons_concurrent(&targets, "assets/icons", &outcomes);
    let rewritten = apply_icon_map(&cfg, &map);
    let engines = rewritten.site.search_engines.unwrap();
    assert_eq!(
        engines[0].icon.as_deref(),
        Some("assets/icons/i_1caf3979dc6780b0.svg")
    );
}
