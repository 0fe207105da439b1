use dove::model::{
    default_color_scheme, default_layout, describe_source, parse_color_scheme, ColorScheme, Config,
    ConfigSource, Group, Layout, Link, Site, UtmParams,
};
use dove::options::{
    parse_truthy, resolve_build_options, CliBuildOptions, EnvBuildOptions,
    _resolve_explicit_config_path, _resolve_local_config_path,
};
use dove::pages::{detail_context, detail_page_path, page_context, NetMode};
use dove::project::project_external;

fn bare_site() -> Site {
    Site {
        title: "Site Title".to_string(),
        description: "Site Desc".to_string(),
        color_scheme: ColorScheme::Auto,
        theme_dir: None,
        base_path: None,
        redirect: None,
        base_url: None,
        og_image: None,
        sitemap: None,
        search_engines: None,
        default_engine: None,
        layout: Layout::Default,
        baidu_tongji_id: None,
        google_analytics_id: None,
        category_display: None,
        default_category_display: None,
    }
}

fn bare_link(name: &str, url: Option<&str>) -> Link {
    Link {
        name: name.to_string(),
        url: url.map(|s| s.to_string()),
        intro: "intro".to_string(),
        details: None,
        slug: None,
        icon: None,
        intranet: None,
        risk: None,
        utm: None,
        lastmod: None,
        changefreq: None,
        priority: None,
    }
}

fn bare_cli() -> CliBuildOptions {
    CliBuildOptions {
        input: None,
        input_url: None,
        gist_id: None,
        gist_file: None,
        github_token: None,
        auth_scheme: None,
        out: None,
        static_dir: None,
        theme: None,
        base_path: None,
        no_intranet: false,
        color_scheme: None,
        title: None,
        description: None,
        build_version: None,
        icon_dir: None,
        icon_threads: None,
        generate_intermediate_page: None,
    }
}

fn bare_env() -> EnvBuildOptions {
    EnvBuildOptions {
        input: None,
        input_url: None,
        gist_id: None,
        gist_file: None,
        github_token: None,
        auth_scheme: None,
        out: None,
        static_dir: None,
        theme: None,
        theme_dir: None,
        base_path: None,
        no_intranet: false,
        color_scheme: None,
        title: None,
        description: None,
        build_version: None,
        icon_dir: None,
        icon_threads: None,
        generate_intermediate_page: None,
    }
}

#[test]
fn page_context_external_basics() {
    let mut site = bare_site();
    site.base_url = Some("https://nav.test/".to_string());
    site.base_path = Some("team".to_string());
    site.baidu_tongji_id = Some("   ".to_string());
    site.google_analytics_id = Some("G-1".to_string());
    let cfg = Config { site, groups: vec![] };
    let ctx = page_context(&cfg, NetMode::External, true, true, None, None, None);
    assert_eq!(ctx.site_title, "Site Title");
    assert_eq!(ctx.asset_prefix, "");
    assert_eq!(ctx.root_prefix, "");
    assert_eq!(ctx.service_worker_path, "sw.js");
    assert_eq!(ctx.network_switch_href, "intranet/");
    assert_eq!(ctx.mode_other_label, "内网");
    assert_eq!(ctx.color_scheme, "auto");
    assert_eq!(
        ctx.canonical_url.as_deref(),
        Some("https://nav.test/team/index.html")
    );
    assert_eq!(ctx.og_image.as_deref(), Some("assets/favicon.svg"));
    // A blank analytics identifier stays out of the context.
    assert!(ctx.baidu_tongji_id.is_none());
    assert_eq!(ctx.google_analytics_id.as_deref(), Some("G-1"));
}

#[test]
fn page_context_intranet_prefixes() {
    let cfg = Config {
        site: bare_site(),
        groups: vec![],
    };
    let title = "Over".to_string();
    let ctx = page_context(
        &cfg,
        NetMode::Intranet,
        true,
        false,
        Some(ColorScheme::Dark),
        Some(&title),
        None,
    );
    assert_eq!(ctx.site_title, "Over");
    assert_eq!(ctx.asset_prefix, "../");
    assert_eq!(ctx.service_worker_path, "../sw.js");
    assert_eq!(ctx.network_switch_href, "../");
    assert_eq!(ctx.mode_other_label, "外网");
    assert_eq!(ctx.color_scheme, "dark");
    assert!(ctx.canonical_url.is_none());
    assert!(ctx.og_image.is_none());
}

#[test]
fn page_context_default_engine_falls_back_to_first() {
    let mut site = bare_site();
    site.search_engines = Some(vec![
        dove::model::SearchEngine {
            name: "First".to_string(),
            template: "https://f.example/?q={q}".to_string(),
            icon: None,
        },
        dove::model::SearchEngine {
            name: "Second".to_string(),
            template: "https://s.example/?q={q}".to_string(),
            icon: None,
        },
    ]);
    let cfg = Config { site, groups: vec![] };
    let ctx = page_context(&cfg, NetMode::External, true, true, None, None, None);
    assert_eq!(ctx.engine_default, "First");
    assert_eq!(ctx.search_engines.len(), 2);

    let mut site2 = bare_site();
    site2.default_engine = Some("Chosen".to_string());
    let cfg2 = Config { site: site2, groups: vec![] };
    let ctx2 = page_context(&cfg2, NetMode::External, true, true, None, None, None);
    assert_eq!(ctx2.engine_default, "Chosen");
}

#[test]
fn detail_context_scenario() {
    let mut site = bare_site();
    site.base_url = Some("https://nav.test/".to_string());
    site.redirect = Some(dove::model::RedirectSettings {
        delay_seconds: Some(3),
        default_risk: None,
        utm: Some(UtmParams {
            source: Some("dove".to_string()),
            medium: None,
            campaign: None,
            term: None,
            content: None,
        }),
    });
    let mut l = bare_link("Example", Some("https://example.com/"));
    l.icon = Some("/assets/i.png".to_string());
    let cfg = Config {
        site,
        groups: vec![Group {
            name: "g".to_string(),
            links: vec![l],
            category: None,
            display: None,
        }],
    };
    let page = project_external(&cfg, true);
    let d = &page.details[0];
    let ctx = detail_context(&cfg, d, None, None, None);
    assert_eq!(ctx.site_url.as_deref(), Some("https://nav.test/go/example/"));
    assert_eq!(ctx.base_url.as_deref(), Some("https://nav.test/"));
    assert_eq!(ctx.link_icon.as_deref(), Some("../../assets/i.png"));
    assert_eq!(ctx.risk_class, "low");
    assert_eq!(ctx.risk_label, "低风险");
    assert_eq!(ctx.delay_seconds, 3);
    assert!(ctx.has_delay);
    // The site-level UTM source reaches the final URL.
    assert_eq!(ctx.link_url.matches("utm_source=dove").count(), 1);
    assert!(ctx.link_url.starts_with("https://example.com/"));
}

#[test]
fn detail_page_paths() {
    assert_eq!(detail_page_path("example"), "go/example/index.html");
}

#[test]
fn build_still_completes_when_icon_fetch_fails() {
    // A remote icon whose fetch fails: the projection, detail pages and
    // sitemap still come out, and the rendered icon stays remote.
    let remote = "https://cdn.example.net/i.svg";
    let mut l = bare_link("Example", Some("https://example.com/"));
    l.icon = Some(remote.to_string());
    let cfg = Config {
        site: bare_site(),
        groups: vec![Group {
            name: "g".to_string(),
            links: vec![l],
            category: None,
            display: None,
        }],
    };
    let targets = dove::icons::collect_icon_targets(&cfg);
    let outcomes: Vec<Option<String>> = targets.iter().map(|_| None).collect();
    let map = dove::icons::download_icons_concurrent(&targets, "assets/icons", &outcomes);
    let cfg2 = dove::icons::apply_icon_map(&cfg, &map);
    let page = project_external(&cfg2, true);
    assert_eq!(page.details.len(), 1);
    assert_eq!(page.groups[0].links[0].icon.as_deref(), Some(remote));
    let xml = dove::sitemap::sitemap_xml(&cfg2.site, None, &page.details, "bt");
    assert!(xml.contains("<loc>go/example/index.html</loc>"));
}

#[test]
fn color_scheme_parsing() {
    assert!(matches!(parse_color_scheme("Auto".to_string()), Some(ColorScheme::Auto)));
    assert!(matches!(parse_color_scheme("LIGHT".to_string()), Some(ColorScheme::Light)));
    assert!(matches!(parse_color_scheme("dark".to_string()), Some(ColorScheme::Dark)));
    assert!(parse_color_scheme("blue".to_string()).is_none());
    assert!(matches!(default_color_scheme(), ColorScheme::Auto));
    assert!(matches!(default_layout(), Layout::Default));
}

#[test]
fn describe_sources() {
    assert_eq!(
        describe_source(&ConfigSource::LocalExplicit("dove.yaml".to_string())),
        "local file: dove.yaml"
    );
    assert_eq!(
        describe_source(&ConfigSource::LocalAuto("config.yml".to_string())),
        "local file (discovered): config.yml"
    );
    assert_eq!(
        describe_source(&ConfigSource::Url("https://x.example/c.yaml".to_string())),
        "remote URL: https://x.example/c.yaml"
    );
    assert_eq!(
        describe_source(&ConfigSource::Gist {
            id: "abc".to_string(),
            file: Some("d.yaml".to_string()),
            raw_url: "https://r.example".to_string()
        }),
        "Gist abc / d.yaml (raw: https://r.example)"
    );
    assert_eq!(
        describe_source(&ConfigSource::Gist {
            id: "abc".to_string(),
            file: None,
            raw_url: "https://r.example".to_string()
        }),
        "Gist abc (raw: https://r.example)"
    );
}

#[test]
fn truthy_words() {
    for t in ["1", "true", "ON", "Yes", "y"] {
        assert!(parse_truthy(t), "{}", t);
    }
    for f in ["0", "false", "off", "no", "n", "", "maybe"] {
        assert!(!parse_truthy(f), "{}", f);
    }
}

#[test]
fn option_layering_cli_over_env() {
    let mut cli = bare_cli();
    cli.title = Some("cli-title".to_string());
    cli.no_intranet = false;
    let mut env = bare_env();
    env.title = Some("env-title".to_string());
    env.out = Some("outdir".to_string());
    env.theme_dir = Some("themes/x".to_string());
    env.no_intranet = true;
    let r = resolve_build_options(cli, env);
    assert_eq!(r.title.as_deref(), Some("cli-title"));
    assert_eq!(r.out, "outdir");
    assert_eq!(r.theme.as_deref(), Some("themes/x"));
    assert!(r.no_intranet);
    assert_eq!(r.icon_dir, "assets/icons");
    assert_eq!(r.icon_threads, 8);
    assert!(r.generate_intermediate_page);
}

#[test]
fn option_defaults_and_url_clears_input() {
    let mut cli = bare_cli();
    cli.input = Some("dove.yaml".to_string());
    cli.input_url = Some("https://c.example/d.yaml".to_string());
    cli.icon_threads = Some(0);
    let r = resolve_build_options(cli, bare_env());
    assert!(r.input.is_none());
    assert_eq!(r.input_url.as_deref(), Some("https://c.example/d.yaml"));
    assert_eq!(r.out, "dist");
    assert_eq!(r.icon_threads, 1);
}

#[test]
fn config_path_resolution() {
    let explicit = "given.yaml".to_string();
    assert_eq!(
        _resolve_explicit_config_path(Some(&explicit), true).as_deref(),
        Some("given.yaml")
    );
    assert!(_resolve_explicit_config_path(Some(&explicit), false).is_none());
    assert!(_resolve_explicit_config_path(None, true).is_none());

    let candidates = vec![
        ("dove.yaml".to_string(), false),
        ("dove.yml".to_string(), true),
        ("config.yaml".to_string(), true),
    ];
    assert_eq!(
        _resolve_local_config_path(None, false, &candidates).as_deref(),
        Some("dove.yml")
    );
    assert_eq!(
        _resolve_local_config_path(Some(&explicit), true, &candidates).as_deref(),
        Some("given.yaml")
    );
    assert_eq!(
        _resolve_local_config_path(Some(&explicit), false, &candidates).as_deref(),
        Some("dove.yml")
    );
    let none: Vec<(String, bool)> = vec![("a".to_string(), false)];
    assert!(_resolve_local_config_path(None, false, &none).is_none());
}
