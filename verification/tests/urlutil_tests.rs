use dove::model::UtmParams;
use dove::paths::{content_type_for_path, safe_subpath};
use dove::urlutil::{apply_utm, is_url_like, join_url, value_dir_of_url};

fn utm(
    source: Option<&str>,
    medium: Option<&str>,
    campaign: Option<&str>,
    term: Option<&str>,
    content: Option<&str>,
) -> UtmParams {
    UtmParams {
        source: source.map(|s| s.to_string()),
        medium: medium.map(|s| s.to_string()),
        campaign: campaign.map(|s| s.to_string()),
        term: term.map(|s| s.to_string()),
        content: content.map(|s| s.to_string()),
    }
}

#[test]
fn apply_utm_without_params_is_identity() {
    let url = "https://a.example/path?x=1&y=2";
    assert_eq!(apply_utm(url, None), url);
    let empty = utm(None, None, None, None, None);
    assert_eq!(apply_utm(url, Some(&empty)), url);
}

#[test]
fn apply_utm_appends_each_key_once_and_keeps_query() {
    let url = "https://a.example/path?x=1";
    let u = utm(Some("dove"), Some("web"), None, None, None);
    let out = apply_utm(url, Some(&u));
    assert!(out.contains("x=1"));
    assert_eq!(out.matches("utm_source=dove").count(), 1);
    assert_eq!(out.matches("utm_medium=web").count(), 1);
    assert_eq!(out.matches("utm_campaign").count(), 0);
    assert!(out.starts_with("https://a.example/path?"));
}

#[test]
fn apply_utm_on_unparsable_url_is_identity() {
    let u = utm(Some("dove"), None, None, None, None);
    assert_eq!(apply_utm("not a url", Some(&u)), "not a url");
}

#[test]
fn apply_utm_all_five_keys() {
    let u = utm(Some("s"), Some("m"), Some("c"), Some("t"), Some("n"));
    let out = apply_utm("https://a.example/", Some(&u));
    for key in [
        "utm_source=s",
        "utm_medium=m",
        "utm_campaign=c",
        "utm_term=t",
        "utm_content=n",
    ] {
        assert_eq!(out.matches(key).count(), 1, "{}", key);
    }
}

#[test]
fn url_likeness() {
    assert!(is_url_like("https://a.example"));
    assert!(is_url_like("  http://a.example"));
    assert!(!is_url_like("ftp://a.example"));
    assert!(!is_url_like("a/b/c"));
}

#[test]
fn value_dir_takes_through_last_slash() {
    assert_eq!(
        value_dir_of_url("https://a.example/cfg/main.yaml"),
        "https://a.example/cfg/"
    );
    assert_eq!(value_dir_of_url("nopath"), "nopath");
}

#[test]
fn join_url_cases() {
    assert_eq!(join_url("https://a.example/cfg/", "inc.yaml"), "https://a.example/cfg/inc.yaml");
    assert_eq!(join_url("https://a.example/cfg", "inc.yaml"), "https://a.example/cfg/inc.yaml");
    assert_eq!(
        join_url("https://a.example/cfg/", "https://b.example/x.yaml"),
        "https://b.example/x.yaml"
    );
}

#[test]
fn safe_subpath_filters_dangerous_segments() {
    let v = safe_subpath("a/./../b//c").unwrap();
    assert_eq!(v, vec!["a".to_string(), "b".to_string(), "c".to_string()]);
    assert!(safe_subpath("..").is_none());
    assert!(safe_subpath("///").is_none());
    assert!(safe_subpath("").is_none());
    let v = safe_subpath(" team ").unwrap();
    assert_eq!(v, vec!["team".to_string()]);
}

#[test]
fn content_types_by_extension() {
    assert_eq!(content_type_for_path("dist/index.html"), "text/html; charset=utf-8");
    assert_eq!(content_type_for_path("a/b/style.CSS"), "text/css; charset=utf-8");
    assert_eq!(content_type_for_path("app.wasm"), "application/wasm");
    assert_eq!(content_type_for_path("font.woff2"), "font/woff2");
    assert_eq!(content_type_for_path("noext"), "application/octet-stream");
    assert_eq!(content_type_for_path("weird.xyz"), "application/octet-stream");
}
