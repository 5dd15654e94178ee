use clashctl::clash_config::{ClashConfig, ClashProxyProvider};
use clashctl::clash_types::{ClashMode, Proxy, ProxyType};
use clashctl::mihomo_party::{
    count_proxies_in_profile, update_profile_updated_at, MihomoPartyProfileItem,
    MihomoPartyProfileList,
};
use clashctl::mode::Mode;
use clashctl::order::{precedes, sorted_names};
use clashctl::pages::Page;
use clashctl::preset::Preset;
use clashctl::routes::HumanRoute;
use clashctl::settings::{AppConfig, GroupError};
use clashctl::state::{describe_delay, AppState, ClashState, DelayTestResult, HealthStatus};
use clashctl::theme::Theme;
use clashctl::yaml::Yaml;
use std::time::Instant;

fn strings(items: &[&str]) -> Vec<String> {
    items.iter().map(|s| s.to_string()).collect()
}

fn group(kind: ProxyType, now: Option<&str>, all: Option<&[&str]>) -> Proxy {
    Proxy {
        proxy_type: kind,
        name: String::new(),
        now: now.map(|s| s.to_string()),
        all: all.map(strings),
        history: None,
        udp: None,
    }
}

fn item(id: &str, updated: Option<i64>) -> MihomoPartyProfileItem {
    MihomoPartyProfileItem {
        id: id.to_string(),
        name: format!("profile {}", id),
        profile_type: "remote".to_string(),
        url: Some("https://example.com/sub".to_string()),
        updated,
        extra: vec![("interval".to_string(), Yaml::number(60))],
    }
}

#[test]
fn default_settings() {
    let config = AppConfig::default();
    assert_eq!(config.secret, None);
    assert!(config.whitelist.is_empty());
    assert!(config.blacklist.is_empty());
    assert!(config.favorite_nodes.is_empty());
    assert!(config.node_groups.is_empty());
    assert_eq!(config.theme, "dark");
    assert_eq!(config.clash_config_path, None);
    assert_eq!(config.get_theme(), Theme::Dark);
}

#[test]
fn command_line_overrides() {
    let mut config = AppConfig::default();
    config.merge_cli(None, None);
    assert_eq!(config.api_url, "http://127.0.0.1:9090");
    assert_eq!(config.secret, None);
    config.merge_cli(Some("http://10.0.0.1:9090".to_string()), Some("s3".to_string()));
    assert_eq!(config.api_url, "http://10.0.0.1:9090");
    assert_eq!(config.secret.as_deref(), Some("s3"));
    config.merge_cli(None, None);
    assert_eq!(config.api_url, "http://10.0.0.1:9090");
    assert_eq!(config.secret.as_deref(), Some("s3"));
    config.set_preset(&Preset::Strict);
    assert_eq!(config.current_preset, "strict");
    config.set_theme(Theme::Nord);
    assert_eq!(config.theme, "nord");
    assert_eq!(config.get_theme(), Theme::Nord);
    config.theme = "Dracula".to_string();
    assert_eq!(config.get_theme(), Theme::Dracula);
}

#[test]
fn lists_hold_each_entry_once() {
    let mut config = AppConfig::default();
    assert!(config.add_to_whitelist("a.example".to_string()));
    assert!(config.add_to_whitelist("b.example".to_string()));
    assert!(!config.add_to_whitelist("a.example".to_string()));
    assert_eq!(config.whitelist, strings(&["a.example", "b.example"]));
    config.whitelist.push("a.example".to_string());
    config.remove_from_whitelist("a.example");
    assert_eq!(config.whitelist, strings(&["b.example"]));
    config.remove_from_whitelist("missing");
    assert_eq!(config.whitelist, strings(&["b.example"]));
    assert!(config.add_to_blacklist("x".to_string()));
    assert!(!config.add_to_blacklist("x".to_string()));
    config.remove_from_blacklist("x");
    assert!(config.blacklist.is_empty());
    assert!(!config.is_favorite("n1"));
    assert!(config.add_favorite("n1".to_string()));
    assert!(!config.add_favorite("n1".to_string()));
    assert!(config.is_favorite("n1"));
    config.remove_favorite("n1");
    assert!(!config.is_favorite("n1"));
}

#[test]
fn groups_of_nodes() {
    let mut config = AppConfig::default();
    assert!(config.create_group("work".to_string(), strings(&["n1"])).is_ok());
    assert!(config.create_group("home".to_string(), Vec::new()).is_ok());
    let again = config.create_group("work".to_string(), strings(&["other"])).unwrap_err();
    assert!(matches!(&again, GroupError::AlreadyExists(n) if n == "work"));
    assert_eq!(again.message(), "Group 'work' already exists");
    assert_eq!(config.get_group_nodes("work"), Some(&strings(&["n1"])));
    assert_eq!(config.add_node_to_group("work", "n2".to_string()).unwrap(), true);
    assert_eq!(config.add_node_to_group("work", "n1".to_string()).unwrap(), false);
    assert_eq!(config.get_group_nodes("work"), Some(&strings(&["n1", "n2"])));
    let missing = config.add_node_to_group("nowhere", "n".to_string()).unwrap_err();
    assert!(matches!(&missing, GroupError::NotFound(n) if n == "nowhere"));
    assert_eq!(missing.message(), "Group 'nowhere' not found");
    assert!(config.remove_node_from_group("work", "n1").is_ok());
    assert_eq!(config.get_group_nodes("work"), Some(&strings(&["n2"])));
    assert!(config.remove_node_from_group("nowhere", "n1").is_err());
    assert!(config.create_group("Alpha".to_string(), Vec::new()).is_ok());
    assert_eq!(config.get_group_names(), strings(&["Alpha", "home", "work"]));
    config.delete_group("home");
    config.delete_group("missing");
    assert_eq!(config.get_group_names(), strings(&["Alpha", "work"]));
    assert_eq!(config.get_group_nodes("home"), None);
    assert_eq!(config.find_group("work"), Some(0));
}

#[test]
fn the_order_of_texts() {
    assert!(precedes("a", "b"));
    assert!(!precedes("b", "a"));
    assert!(!precedes("a", "a"));
    assert!(precedes("", "a"));
    assert!(!precedes("a", ""));
    assert!(precedes("ab", "abc"));
    assert!(precedes("Z", "a"));
    assert!(precedes("a", "é"));
    assert!(precedes("z", "日本"));
    let mut expected = strings(&["b", "", "a", "B", "ab", "a", "é", "日本", "~"]);
    let sorted = sorted_names(&expected);
    expected.sort();
    assert_eq!(sorted, expected);
    assert!(sorted_names(&Vec::new()).is_empty());
}

#[test]
fn routes_are_the_groups_to_choose_from() {
    let proxies = vec![
        ("zeta".to_string(), group(ProxyType::Selector, Some("n1"), Some(&["n1", "n2"]))),
        ("DIRECT".to_string(), group(ProxyType::Direct, None, None)),
        ("auto".to_string(), group(ProxyType::URLTest, None, Some(&["n1"]))),
        ("GLOBAL".to_string(), group(ProxyType::Selector, Some("zeta"), Some(&["zeta", "auto"]))),
        ("empty".to_string(), group(ProxyType::Selector, None, Some(&[]))),
        ("bare".to_string(), group(ProxyType::LoadBalance, Some("n2"), None)),
        ("n1".to_string(), group(ProxyType::Vmess, None, None)),
        ("Smart".to_string(), group(ProxyType::Smart, None, Some(&["n2"]))),
        ("fallback".to_string(), group(ProxyType::Fallback, Some("n1"), Some(&["n1"]))),
    ];
    let routes = HumanRoute::from_proxies(&proxies, Mode::Simple);
    let names: Vec<&str> = routes.iter().map(|r| r.name.as_str()).collect();
    assert_eq!(names, vec!["GLOBAL", "Smart", "auto", "bare", "zeta"]);
    assert_eq!(routes[0].current_node.as_deref(), Some("zeta"));
    assert_eq!(routes[0].node_count, 2);
    assert_eq!(routes[0].all_nodes, strings(&["zeta", "auto"]));
    assert_eq!(routes[2].proxy_type, ProxyType::URLTest);
    assert_eq!(routes[3].node_count, 0);
    assert!(HumanRoute::from_proxies(&Vec::new(), Mode::Expert).is_empty());
}

#[test]
fn long_names_are_cut_for_display() {
    let mut route = HumanRoute {
        name: "short".to_string(),
        proxy_type: ProxyType::Selector,
        current_node: None,
        all_nodes: Vec::new(),
        node_count: 0,
    };
    assert_eq!(route.display_name(), "short");
    assert_eq!(route.current_display(), "None");
    route.name = "a".repeat(40);
    assert_eq!(route.display_name(), "a".repeat(40));
    route.name = "b".repeat(41);
    assert_eq!(route.display_name(), format!("{}...", "b".repeat(37)));
    route.current_node = Some("c".repeat(30));
    assert_eq!(route.current_display(), "c".repeat(30));
    route.current_node = Some("d".repeat(31));
    assert_eq!(route.current_display(), format!("{}...", "d".repeat(27)));
}

#[test]
fn the_main_selector() {
    let mut state = ClashState::new(Instant::now());
    assert_eq!(state.mode, ClashMode::Rule);
    assert_eq!(state.get_health_status(), HealthStatus::Unknown);
    state.find_main_selector();
    assert_eq!(state.current_selector, None);
    state.proxies = vec![
        ("n1".to_string(), group(ProxyType::Trojan, None, None)),
        ("first".to_string(), group(ProxyType::Selector, Some("n1"), Some(&["n1"]))),
        ("second".to_string(), group(ProxyType::Selector, Some("n2"), Some(&["n2"]))),
    ];
    state.find_main_selector();
    assert_eq!(state.current_selector.as_deref(), Some("first"));
    assert_eq!(state.current_proxy.as_deref(), Some("n1"));
    assert_eq!(state.get_health_status(), HealthStatus::Good);
    state
        .proxies
        .push(("GLOBAL".to_string(), group(ProxyType::Selector, Some("second"), Some(&["first", "second"]))));
    state.find_main_selector();
    assert_eq!(state.current_selector.as_deref(), Some("GLOBAL"));
    assert_eq!(state.current_proxy.as_deref(), Some("second"));
    state.error = Some("down".to_string());
    assert_eq!(state.get_health_status(), HealthStatus::Error);
}

#[test]
fn delay_results_are_taken_in() {
    let mut state = AppState::new(Preset::Expert, Instant::now());
    assert_eq!(state.mode, Mode::Expert);
    assert_eq!(state.current_page, Page::Home);
    assert_eq!(AppState::new(Preset::Work, Instant::now()).mode, Mode::Simple);
    let name = "n1".to_string();
    state.start_test_delay(&name);
    state.start_test_delay(&name);
    state.start_test_delay(&"n2".to_string());
    assert_eq!(state.testing_nodes, strings(&["n1", "n2"]));
    assert!(state.is_testing("n1"));
    assert!(state.get_delay("n1").is_none());
    state.process_delay_results(DelayTestResult { node: "n1".to_string(), delay: Some(120) }, Instant::now());
    assert!(!state.is_testing("n1"));
    assert!(state.is_testing("n2"));
    assert_eq!(state.status_message.as_deref(), Some("n1: 120ms (Fast)"));
    assert_eq!(state.get_delay("n1").unwrap().delay, 120);
    state.process_delay_results(DelayTestResult { node: "n1".to_string(), delay: Some(650) }, Instant::now());
    assert_eq!(state.delay_cache.len(), 1);
    assert_eq!(state.get_delay("n1").unwrap().delay, 650);
    assert_eq!(state.status_message.as_deref(), Some("n1: 650ms (Slow)"));
    state.process_delay_results(DelayTestResult { node: "n2".to_string(), delay: None }, Instant::now());
    assert_eq!(state.status_message.as_deref(), Some("n2: Test failed"));
    assert!(state.testing_nodes.is_empty());
    assert!(state.get_delay("n2").is_none());
    assert_eq!(describe_delay("x", Some(199)), "x: 199ms (Fast)");
    assert_eq!(describe_delay("x", Some(200)), "x: 200ms (Good)");
    assert_eq!(describe_delay("x", Some(499)), "x: 499ms (Good)");
    assert_eq!(describe_delay("x", Some(500)), "x: 500ms (Slow)");
    assert_eq!(describe_delay("x", Some(0)), "x: 0ms (Fast)");
    assert_eq!(describe_delay("x", Some(4294967295)), "x: 4294967295ms (Slow)");
}

#[test]
fn nodes_that_can_be_tested() {
    let mut state = AppState::new(Preset::Default, Instant::now());
    state.clash_state.proxies = vec![
        ("DIRECT".to_string(), group(ProxyType::Direct, None, None)),
        ("REJECT".to_string(), group(ProxyType::Reject, None, None)),
        ("drop".to_string(), group(ProxyType::RejectDrop, None, None)),
        ("compat".to_string(), group(ProxyType::Compatible, None, None)),
        ("pass".to_string(), group(ProxyType::Pass, None, None)),
        ("n1".to_string(), group(ProxyType::Shadowsocks, None, None)),
        ("sel".to_string(), group(ProxyType::Selector, Some("n1"), Some(&["n1"]))),
    ];
    for name in ["DIRECT", "REJECT", "drop", "compat", "pass"] {
        assert!(!state.is_node_testable(name));
    }
    assert!(state.is_node_testable("n1"));
    assert!(state.is_node_testable("sel"));
    assert!(state.is_node_testable("unknown"));
    assert_eq!(state.get_current_node().as_deref(), Some("n1"));
    state.clash_state.proxies.truncate(6);
    assert_eq!(state.get_current_node(), None);
}

#[test]
fn providers_with_their_sources() {
    let provider = |kind: &str, url: Option<&str>, path: Option<&str>| ClashProxyProvider {
        provider_type: kind.to_string(),
        url: url.map(|s| s.to_string()),
        path: path.map(|s| s.to_string()),
        interval: None,
        health_check: None,
    };
    let config = ClashConfig {
        proxy_providers: vec![
            ("remote".to_string(), provider("http", Some("https://e.example/s"), Some("./r.yaml"))),
            ("local".to_string(), provider("file", None, Some("./l.yaml"))),
            ("bare".to_string(), provider("inline", None, None)),
        ],
    };
    assert_eq!(
        config.get_providers(),
        vec![
            ("remote".to_string(), "http".to_string(), Some("https://e.example/s".to_string())),
            ("local".to_string(), "file".to_string(), Some("./l.yaml".to_string())),
            ("bare".to_string(), "inline".to_string(), None),
        ]
    );
}

#[test]
fn profiles_are_stamped() {
    let mut list = MihomoPartyProfileList {
        items: vec![item("a", None), item("b", Some(5)), item("a", Some(7))],
        current: Some("b".to_string()),
        extra: Vec::new(),
    };
    assert!(update_profile_updated_at(&mut list, "a", 1_700_000_000_000));
    assert_eq!(list.items[0].updated, Some(1_700_000_000_000));
    assert_eq!(list.items[1].updated, Some(5));
    assert_eq!(list.items[2].updated, Some(7));
    assert_eq!(list.items[0].name, "profile a");
    assert_eq!(list.items[0].extra.len(), 1);
    assert!(!update_profile_updated_at(&mut list, "zzz", 1));
    assert_eq!(list.items.len(), 3);
    assert_eq!(list.current.as_deref(), Some("b"));
    assert!(update_profile_updated_at(&mut list, "b", -1));
    assert_eq!(list.items[1].updated, Some(-1));
}

#[test]
fn proxies_of_a_profile_are_counted() {
    assert_eq!(count_proxies_in_profile(b"proxies:\n  - {name: a}\n  - {name: b}\n"), Some(2));
    assert_eq!(count_proxies_in_profile(b"proxies: []\n"), Some(0));
    assert_eq!(count_proxies_in_profile(b"proxies: none\n"), None);
    assert_eq!(count_proxies_in_profile(b"rules: []\n"), None);
    assert_eq!(count_proxies_in_profile(b"- a\n- b\n"), None);
    assert_eq!(count_proxies_in_profile(b"proxies: [unclosed"), None);
}

#[test]
fn group_names_come_out_in_strict_order() {
    let mut config = AppConfig::default();
    for name in ["zeta", "Beta", "alpha", "beta", "a", "东京", "", "alpha2"] {
        assert!(config.create_group(name.to_string(), Vec::new()).is_ok());
        assert!(config.create_group(name.to_string(), Vec::new()).is_err());
    }
    let before: Vec<String> = config.node_groups.iter().map(|g| g.name.clone()).collect();
    let names = config.get_group_names();
    assert_eq!(names, strings(&["", "Beta", "a", "alpha", "alpha2", "beta", "zeta", "东京"]));
    assert!(names.windows(2).all(|pair| pair[0] < pair[1]));
    let after: Vec<String> = config.node_groups.iter().map(|g| g.name.clone()).collect();
    assert_eq!(before, after);
    config.delete_group("alpha");
    assert_eq!(config.find_group("alpha"), None);
    assert_eq!(
        config.get_group_names(),
        strings(&["", "Beta", "a", "alpha2", "beta", "zeta", "东京"])
    );
}
