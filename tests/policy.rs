use zdmr::job::{attempt_urls, mirror_used_for};
use zdmr::model::{
    HeaderRule, HeaderSpec, HeaderValueSpec, MirrorRule, ProxyRule, RulesSnapshot, SettingsSnapshot,
};
use zdmr::pattern::{best_pattern_match, pattern_matches, pattern_specificity};
use zdmr::transport::{attempt_proxy, Transport};
use zdmr::url::UrlParts;

fn proxy_rule(id: i64, pattern: &str, use_proxy: bool, over: Option<&str>) -> ProxyRule {
    ProxyRule {
        id,
        pattern: pattern.to_string(),
        enabled: true,
        use_proxy,
        proxy_url_override: over.map(|s| s.to_string()),
    }
}

fn settings(enabled: bool, global: Option<&str>) -> SettingsSnapshot {
    SettingsSnapshot {
        default_download_dir: String::new(),
        bandwidth_limit_bps: None,
        minimize_to_tray: true,
        theme: "dark".to_string(),
        skin: String::new(),
        global_hotkey: String::new(),
        global_proxy_enabled: enabled,
        global_proxy_url: global.map(|s| s.to_string()),
        local_api_port: 17777,
    }
}

fn rules(proxy: Vec<ProxyRule>, header: Vec<HeaderRule>, mirror: Vec<MirrorRule>) -> RulesSnapshot {
    RulesSnapshot { proxy_rules: proxy, header_rules: header, mirror_rules: mirror }
}

#[test]
fn exact_rule_beats_wildcards() {
    let rs = vec![
        proxy_rule(1, "*.example.com", true, None),
        proxy_rule(2, "api.example.com", true, None),
        proxy_rule(3, "*", true, None),
    ];
    assert_eq!(best_pattern_match(&rs, "api.example.com"), Some(1));
}

#[test]
fn suffix_pattern_matches_subdomains_only() {
    assert!(!pattern_matches("*.example.com", "example.com"));
    assert!(pattern_matches("*.example.com", "x.y.example.com"));
    assert!(pattern_matches("  *.Example.COM ", "API.example.com"));
    assert!(!pattern_matches("*.example.com", "badexample.com"));
    assert!(pattern_matches("*", "anything.test"));
    assert!(!pattern_matches("", "anything.test"));
    assert!(pattern_matches("Host.Test", "host.test"));
}

#[test]
fn specificity_orders_exact_then_longer_suffix() {
    assert_eq!(pattern_specificity("api.example.com"), (2, 15));
    assert_eq!(pattern_specificity("*.example.com"), (1, 11));
    assert_eq!(pattern_specificity("*"), (1, 0));
}

#[test]
fn longer_suffix_wins_and_first_wins_ties() {
    let rs = vec![
        proxy_rule(1, "*.com", false, None),
        proxy_rule(2, "*.example.com", true, None),
        proxy_rule(3, "*.example.com", false, None),
    ];
    assert_eq!(best_pattern_match(&rs, "a.example.com"), Some(1));
    let mut disabled = rs.clone();
    disabled[1].enabled = false;
    assert_eq!(best_pattern_match(&disabled, "a.example.com"), Some(2));
    assert_eq!(best_pattern_match(&rs, "example.org"), None);
}

#[test]
fn proxy_follows_allowlist_rules() {
    let u = UrlParts::parse("https://cdn.slow.test/f").unwrap();
    let r = rules(vec![proxy_rule(1, "*.slow.test", true, None)], vec![], vec![]);
    let s = settings(true, Some("http://proxy:8080"));
    assert_eq!(Transport::effective_proxy_url(&s, &r, &u), Some("http://proxy:8080".to_string()));
    let off = settings(false, Some("http://proxy:8080"));
    assert_eq!(Transport::effective_proxy_url(&off, &r, &u), None);
    let other = UrlParts::parse("https://fast.test/f").unwrap();
    assert_eq!(Transport::effective_proxy_url(&s, &r, &other), None);
    let bypass = rules(vec![proxy_rule(1, "*.slow.test", false, None)], vec![], vec![]);
    assert_eq!(Transport::effective_proxy_url(&s, &bypass, &u), None);
    let over = rules(vec![proxy_rule(1, "*.slow.test", true, Some("socks5://o:1"))], vec![], vec![]);
    assert_eq!(Transport::effective_proxy_url(&s, &over, &u), Some("socks5://o:1".to_string()));
}

#[test]
fn forced_proxy_overrides_rules() {
    let g = Some("http://g:1".to_string());
    assert_eq!(attempt_proxy(true, &None, &g, None), Some("http://g:1".to_string()));
    assert_eq!(
        attempt_proxy(true, &Some("http://f:2".to_string()), &g, None),
        Some("http://f:2".to_string())
    );
    assert_eq!(attempt_proxy(true, &Some("  ".to_string()), &g, None), None);
    assert_eq!(attempt_proxy(false, &None, &g, Some("http://r:3".to_string())), Some("http://r:3".to_string()));
}

#[test]
fn mirror_failover_scenario() {
    let r = rules(
        vec![proxy_rule(1, "*.slow.test", true, None)],
        vec![],
        vec![MirrorRule {
            id: 1,
            pattern: "*.slow.test".to_string(),
            enabled: true,
            candidate_base_urls: vec!["https://fast.test".to_string(), "not a url".to_string()],
        }],
    );
    let urls = attempt_urls("https://cdn.slow.test/f?v=2", &r).unwrap();
    assert_eq!(urls, vec!["https://cdn.slow.test/f?v=2".to_string(), "https://fast.test/f?v=2".to_string()]);
    let first = UrlParts::parse(&urls[0]).unwrap();
    let second = UrlParts::parse(&urls[1]).unwrap();
    assert_eq!(mirror_used_for(0, &first), None);
    assert_eq!(mirror_used_for(1, &second), Some("https://fast.test".to_string()));
    let s = settings(true, Some("http://proxy:8080"));
    assert_eq!(Transport::effective_proxy_url(&s, &r, &first), Some("http://proxy:8080".to_string()));
    assert_eq!(Transport::effective_proxy_url(&s, &r, &second), None);
}

#[test]
fn invalid_original_url_is_rejected() {
    let r = rules(vec![], vec![], vec![]);
    assert_eq!(attempt_urls("not a url", &r), Err(zdmr::error::ErrorCode::InvalidUrl));
}

#[test]
fn header_rules_apply_modes() {
    let rule = HeaderRule {
        id: 1,
        pattern: "*.example.com".to_string(),
        enabled: true,
        headers: vec![
            HeaderSpec { name: "User-Agent".to_string(), value: HeaderValueSpec::Plain("X".to_string()) },
            HeaderSpec {
                name: "Referer".to_string(),
                value: HeaderValueSpec::Detailed { value: Some("R".to_string()), mode: Some("add_if_missing".to_string()) },
            },
            HeaderSpec {
                name: "Authorization".to_string(),
                value: HeaderValueSpec::Detailed { value: Some("T".to_string()), mode: None },
            },
            HeaderSpec { name: "Bad Name".to_string(), value: HeaderValueSpec::Plain("v".to_string()) },
            HeaderSpec { name: "X-Empty".to_string(), value: HeaderValueSpec::Plain(String::new()) },
            HeaderSpec { name: "X-Obj".to_string(), value: HeaderValueSpec::Unsupported },
            HeaderSpec { name: "X-Broken".to_string(), value: HeaderValueSpec::Plain("a\nb".to_string()) },
            HeaderSpec { name: "X-Tab".to_string(), value: HeaderValueSpec::Plain("a\tb".to_string()) },
        ],
    };
    let r = rules(vec![], vec![rule], vec![]);
    let u = UrlParts::parse("https://a.example.com/x").unwrap();
    let mut headers = vec![
        ("referer".to_string(), "keep".to_string()),
        ("user-agent".to_string(), "old".to_string()),
    ];
    Transport::apply_header_rules(&r, &mut headers, &u);
    assert_eq!(
        headers,
        vec![
            ("referer".to_string(), "keep".to_string()),
            ("user-agent".to_string(), "X".to_string()),
            ("authorization".to_string(), "T".to_string()),
            ("x-tab".to_string(), "a\tb".to_string()),
        ]
    );
    let other = UrlParts::parse("https://other.test/x").unwrap();
    let mut untouched = vec![];
    Transport::apply_header_rules(&r, &mut untouched, &other);
    assert!(untouched.is_empty());
}

#[test]
fn url_hostname_reads_host() {
    assert_eq!(Transport::url_hostname("https://Cdn.Example.com:8443/x"), Some("cdn.example.com".to_string()));
    assert_eq!(Transport::url_hostname("nonsense"), None);
}
