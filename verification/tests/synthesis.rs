use clashctl::record::ProxyRecord;
use clashctl::subscription::{
    decode_lines, extract_subscription_lines, is_full_config, is_http_url,
    looks_like_clash_config, parse_raw_subscription,
};
use clashctl::synth::{
    apply_proxies_to_config, convert_raw_subscription_to_config, merge, proxy_specs_to_yaml,
    SynthesisError,
};
use clashctl::yaml::Yaml;

fn records(links: &[&str]) -> Vec<ProxyRecord> {
    let lines: Vec<String> = links.iter().map(|l| l.to_string()).collect();
    let out = decode_lines(&lines);
    assert_eq!(out.len(), links.len());
    out
}

fn named(names: &[&str]) -> Vec<ProxyRecord> {
    let links: Vec<String> = names
        .iter()
        .map(|n| format!("ss://aes-128-gcm:pw@h.example:1#{}", n))
        .collect();
    let refs: Vec<&str> = links.iter().map(|l| l.as_str()).collect();
    records(&refs)
}

fn value(bytes: &[u8]) -> serde_yaml::Value {
    serde_yaml::from_slice(bytes).unwrap()
}

fn members(doc: &serde_yaml::Value, group: usize) -> Vec<String> {
    doc["proxy-groups"][group]["proxies"]
        .as_sequence()
        .unwrap()
        .iter()
        .map(|v| v.as_str().unwrap().to_string())
        .collect()
}

const BASE: &str = "mixed-port: 7890
mode: rule
proxies:
  - name: StaleProxy
    type: ss
    server: old.example
    port: 1
    cipher: aes-128-gcm
    password: x
proxy-groups:
  - name: Auto
    type: select
    proxies: [DIRECT, OldGroup, StaleProxy]
  - name: OldGroup
    type: select
    proxies: [DIRECT, REJECT]
rules:
  - MATCH,Auto
";

#[test]
fn structural_members_stay_and_records_are_appended() {
    let out = apply_proxies_to_config(BASE.as_bytes(), &named(&["A", "B"])).unwrap();
    let doc = value(&out);
    assert_eq!(members(&doc, 0), vec!["DIRECT", "OldGroup", "A", "B"]);
    assert_eq!(members(&doc, 1), vec!["DIRECT", "REJECT"]);
}

#[test]
fn a_member_that_is_among_the_records_stays() {
    let out = apply_proxies_to_config(BASE.as_bytes(), &named(&["StaleProxy", "A", "B"])).unwrap();
    let doc = value(&out);
    assert_eq!(
        members(&doc, 0),
        vec!["DIRECT", "OldGroup", "StaleProxy", "A", "B"]
    );
}

#[test]
fn proxies_are_replaced_and_other_keys_stay() {
    let out = apply_proxies_to_config(BASE.as_bytes(), &named(&["A", "B"])).unwrap();
    let doc = value(&out);
    let keys: Vec<&str> = doc
        .as_mapping()
        .unwrap()
        .keys()
        .map(|k| k.as_str().unwrap())
        .collect();
    assert_eq!(keys, vec!["mixed-port", "mode", "proxies", "proxy-groups", "rules"]);
    assert_eq!(doc["mixed-port"], serde_yaml::Value::from(7890));
    assert_eq!(doc["mode"], serde_yaml::Value::from("rule"));
    assert_eq!(doc["rules"], value(b"- MATCH,Auto"));
    let expected = value(
        b"- {name: A, type: ss, server: h.example, port: 1, cipher: aes-128-gcm, password: pw}
- {name: B, type: ss, server: h.example, port: 1, cipher: aes-128-gcm, password: pw}",
    );
    assert_eq!(doc["proxies"], expected);
    assert_eq!(doc["proxy-groups"][0]["name"], serde_yaml::Value::from("Auto"));
    assert_eq!(doc["proxy-groups"][0]["type"], serde_yaml::Value::from("select"));
}

#[test]
fn a_second_run_changes_nothing() {
    let list = named(&["A", "B", "A"]);
    let once = apply_proxies_to_config(BASE.as_bytes(), &list).unwrap();
    let twice = apply_proxies_to_config(&once, &list).unwrap();
    assert_eq!(once, twice);
    let doc = value(&twice);
    assert_eq!(members(&doc, 0), vec!["DIRECT", "OldGroup", "A", "B"]);
}

#[test]
fn a_record_named_like_a_group_is_not_listed_twice() {
    let out = apply_proxies_to_config(BASE.as_bytes(), &named(&["OldGroup", "DIRECT", "N"])).unwrap();
    let doc = value(&out);
    assert_eq!(members(&doc, 0), vec!["DIRECT", "OldGroup", "N"]);
}

#[test]
fn duplicates_among_structural_members_are_dropped() {
    let base = "proxy-groups:
  - name: G
    proxies: [PASS, H, PASS, x, H, GLOBAL, 7, REJECT-DROP]
  - name: H
    proxies: [x]
";
    let out = apply_proxies_to_config(base.as_bytes(), &named(&["n1"])).unwrap();
    let doc = value(&out);
    assert_eq!(members(&doc, 0), vec!["PASS", "H", "GLOBAL", "REJECT-DROP", "n1"]);
    assert_eq!(members(&doc, 1), vec!["n1"]);
    let keys: Vec<&str> = doc
        .as_mapping()
        .unwrap()
        .keys()
        .map(|k| k.as_str().unwrap())
        .collect();
    assert_eq!(keys, vec!["proxy-groups", "proxies"]);
}

#[test]
fn groups_of_other_shapes_are_left_alone() {
    let base = "proxy-groups:
  - just text
  - name: NoList
    proxies: leaf
  - name: Empty
    proxies: []
  - name: NoMembers
    use: [provider]
  - proxies: [leaf]
";
    let out = apply_proxies_to_config(base.as_bytes(), &named(&["n1"])).unwrap();
    let doc = value(&out);
    let groups = doc["proxy-groups"].as_sequence().unwrap();
    assert_eq!(groups[0], serde_yaml::Value::from("just text"));
    assert_eq!(groups[1], value(b"{name: NoList, proxies: leaf}"));
    assert_eq!(groups[2], value(b"{name: Empty, proxies: []}"));
    assert_eq!(groups[3], value(b"{name: NoMembers, use: [provider]}"));
    assert_eq!(groups[4], value(b"{proxies: [n1]}"));
}

#[test]
fn an_unreadable_base_counts_as_empty() {
    for base in [&b"{ this is: [not yaml"[..], &b"- a\n- b\n"[..], &b"plain text"[..], &b""[..], &b"\xff\xfe"[..]] {
        let out = apply_proxies_to_config(base, &named(&["A"])).unwrap();
        let doc = value(&out);
        assert_eq!(
            doc,
            value(b"proxies:\n- {name: A, type: ss, server: h.example, port: 1, cipher: aes-128-gcm, password: pw}")
        );
    }
}

#[test]
fn no_records_give_an_empty_list() {
    let out = apply_proxies_to_config(BASE.as_bytes(), &Vec::new()).unwrap();
    let doc = value(&out);
    assert_eq!(doc["proxies"], value(b"[]"));
    assert_eq!(members(&doc, 0), vec!["DIRECT", "OldGroup"]);
}

#[test]
fn merge_works_on_trees() {
    let base = Yaml::parse(BASE.as_bytes()).unwrap();
    let merged = merge(&base, &named(&["A"]));
    let text = merged.to_text().unwrap();
    let doc = value(text.as_bytes());
    assert_eq!(members(&doc, 0), vec!["DIRECT", "OldGroup", "A"]);
    let again = merge(&merged, &named(&["A"]));
    assert_eq!(again.to_text().unwrap(), text);
    let list = proxy_specs_to_yaml(&named(&["A", "B"]));
    assert!(matches!(&list, Yaml::List(items) if items.len() == 2));
}

#[test]
fn yaml_round_trip_keeps_what_is_not_understood() {
    let text = "a: 1\nb: -2\nc: 1.5\nd: true\ne: ~\nf: !custom tagged\ng: [1, two, 3.0]\nh: {k: v}\n1: numeric key\n";
    let tree = Yaml::parse(text.as_bytes()).unwrap();
    assert!(tree.has_named_tags());
    let written = tree.to_text().unwrap();
    assert_eq!(value(written.as_bytes()), value(text.as_bytes()));
    let copy = tree.clone();
    assert_eq!(copy.to_text().unwrap(), written);
    assert!(Yaml::parse(b"a: [1, 2").is_none());
    let bad = Yaml::Tagged(String::new(), Box::new(Yaml::Null));
    assert!(!bad.has_named_tags());
    assert!(bad.to_text().is_none());
    assert!(!Yaml::List(vec![Yaml::Null, bad]).has_named_tags());
    assert_eq!(Yaml::number(65535).to_text().unwrap().trim(), "65535");
    assert_eq!(Yaml::number(0).to_text().unwrap().trim(), "0");
    assert_eq!(value(Yaml::text("8388").to_text().unwrap().as_bytes()), serde_yaml::Value::from("8388"));
}

#[test]
fn full_configurations_are_told_from_link_lists() {
    assert!(looks_like_clash_config(b"rule-providers:\n  x: {type: http}\nnote: ss://a:b@h:1\n"));
    assert!(looks_like_clash_config(b"proxies: []\n"));
    assert!(looks_like_clash_config(b"proxy-providers: {}\n"));
    assert!(looks_like_clash_config(b"proxy-groups: []\n"));
    assert!(looks_like_clash_config(b"rules: []\n"));
    assert!(!looks_like_clash_config(b"mixed-port: 7890\n"));
    assert!(!looks_like_clash_config(b"ss://a:b@h:1\nvless://id@h:2\n"));
    assert!(!looks_like_clash_config(b"- proxies\n- rules\n"));
    assert!(!looks_like_clash_config(b"proxies: [unclosed"));
    assert!(!looks_like_clash_config(b""));
    assert!(!looks_like_clash_config(b"c3M6Ly9hOmJAaDox"));
    let doc = Yaml::parse(b"Rules: []\n").unwrap();
    assert!(!is_full_config(&doc));
    assert!(is_full_config(&Yaml::parse(b"rules: 1\n").unwrap()));
}

#[test]
fn lines_are_trimmed_and_empty_ones_dropped() {
    let lines = extract_subscription_lines(b"  ss://a:b@h:1 \r\n\r\n\tvless://id@h:2\n\n   \ntrojan://pw@h:3");
    assert_eq!(lines, vec!["ss://a:b@h:1", "vless://id@h:2", "trojan://pw@h:3"]);
    assert!(extract_subscription_lines(b"").is_empty());
    assert!(extract_subscription_lines(b" \n \n").is_empty());
}

#[test]
fn base64_wrapped_lists_are_unwrapped() {
    let blob = b"c3M6Ly9ZV1Z6TFRJMU5pMW5ZMjA2Y0dGemMzZHZjbVE9QGV4YW1wbGUuY29tOjgzODgjQQp0cm9qYW46Ly9wd0B0LmV4YW1wbGUuY29tOjQ0MyNCCg==";
    let lines = extract_subscription_lines(blob);
    assert_eq!(
        lines,
        vec![
            "ss://YWVzLTI1Ni1nY206cGFzc3dvcmQ=@example.com:8388#A",
            "trojan://pw@t.example.com:443#B"
        ]
    );
    let wrapped = b"c3M6Ly9ZV1Z6TFRJMU5p\nMW5ZMjA2Y0dGemMzZHZjbVE9QGV4YW1wbGUuY29tOjgzODgjQQp0cm9qYW46Ly9wd0B0LmV4YW1wbGUuY29tOjQ0MyNC\n";
    assert_eq!(extract_subscription_lines(wrapped).len(), 2);
    let found = parse_raw_subscription(blob);
    assert_eq!(found.len(), 2);
    assert_eq!(found[0].name(), "A");
    assert_eq!(found[1].name(), "B");
    let plain = extract_subscription_lines(b"aGVsbG8gd29ybGQ=");
    assert_eq!(plain, vec!["hello world"]);
    let two = extract_subscription_lines(b"IGZpcnN0IAoKc2Vjb25kCg==");
    assert_eq!(two, vec!["first", "second"]);
    let not_text = extract_subscription_lines(b"//79");
    assert_eq!(not_text, vec!["//79"]);
}

#[test]
fn a_blob_without_links_gives_no_record() {
    assert!(parse_raw_subscription(b"\xff\xfe\x00garbage\n\x01\x02").is_empty());
    assert!(parse_raw_subscription(b"").is_empty());
    assert!(parse_raw_subscription(b"hello world\nnothing here").is_empty());
    assert!(parse_raw_subscription(b"aGVsbG8gd29ybGQ=").is_empty());
    assert!(parse_raw_subscription(b"https://example.com/sub\nhysteria2://x@h:1").is_empty());
    assert_eq!(extract_subscription_lines(b"hello world\nnothing here").len(), 2);
}

#[test]
fn lines_that_do_not_decode_are_left_out() {
    let found = parse_raw_subscription(b"junk\nss://a:b@h:1#one\n\nvless://@h:2\ntrojan://pw@h:3#three\n");
    assert_eq!(found.len(), 2);
    assert_eq!(found[0].name(), "one");
    assert_eq!(found[1].name(), "three");
}

#[test]
fn conversion_counts_the_proxies() {
    let (out, count) =
        convert_raw_subscription_to_config(b"ss://a:b@h:1#one\ntrojan://pw@h:3#three\n", BASE.as_bytes()).unwrap();
    assert_eq!(count, 2);
    let doc = value(&out);
    assert_eq!(members(&doc, 0), vec!["DIRECT", "OldGroup", "one", "three"]);
}

#[test]
fn conversion_without_links_is_an_error() {
    let err = convert_raw_subscription_to_config(b"no links at all", BASE.as_bytes()).unwrap_err();
    assert!(matches!(err, SynthesisError::NoSupportedEntries));
    assert_eq!(err.message(), "Unsupported raw subscription format");
    let other = SynthesisError::Serialize("boom".to_string());
    assert_eq!(other.message(), "Failed to serialize config: boom");
}

#[test]
fn http_addresses() {
    assert!(is_http_url("http://example.com"));
    assert!(is_http_url("https://example.com/sub?x=1"));
    assert!(!is_http_url("ftp://example.com"));
    assert!(!is_http_url(" http://example.com"));
    assert!(!is_http_url("HTTP://example.com"));
    assert!(!is_http_url("http:/"));
    assert!(!is_http_url(""));
}

#[test]
fn a_second_run_keeps_a_group_whose_structural_members_come_first() {
    let base = b"proxy-groups:\n  - name: G\n    proxies: [REJECT, old]\n";
    let list = named(&["A", "REJECT", "B"]);
    let once = apply_proxies_to_config(base, &list).unwrap();
    assert_eq!(members(&value(&once), 0), vec!["REJECT", "A", "B"]);
    let twice = apply_proxies_to_config(&once, &list).unwrap();
    assert_eq!(once, twice);
}

#[test]
fn a_second_run_moves_structural_names_that_came_behind_a_leaf() {
    let base = b"proxy-groups:\n  - name: G\n    proxies: [old]\n";
    let list = named(&["A", "DIRECT"]);
    let once = apply_proxies_to_config(base, &list).unwrap();
    assert_eq!(members(&value(&once), 0), vec!["A", "DIRECT"]);
    let twice = apply_proxies_to_config(&once, &list).unwrap();
    assert_eq!(members(&value(&twice), 0), vec!["DIRECT", "A"]);
    let thrice = apply_proxies_to_config(&twice, &list).unwrap();
    assert_eq!(twice, thrice);
}

#[test]
fn white_space_is_the_unicode_property() {
    let spaces = [
        '\u{9}', '\u{a}', '\u{b}', '\u{c}', '\u{d}', '\u{20}', '\u{85}', '\u{a0}', '\u{1680}',
        '\u{2000}', '\u{2001}', '\u{2002}', '\u{2003}', '\u{2004}', '\u{2005}', '\u{2006}',
        '\u{2007}', '\u{2008}', '\u{2009}', '\u{200a}', '\u{2028}', '\u{2029}', '\u{202f}',
        '\u{205f}', '\u{3000}',
    ];
    for c in spaces {
        assert_eq!(clashctl::text::trim(&[c, 'x', c, 'y', c]), &['x', c, 'y']);
    }
    for c in ['\u{8}', '\u{e}', '\u{1f}', '\u{180e}', '\u{200b}', '\u{2060}', '\u{feff}', '_'] {
        assert_eq!(clashctl::text::trim(&[c, 'x', c]), &[c, 'x', c]);
    }
    let listed = (0..=0x10ffffu32).filter_map(char::from_u32).filter(|c| {
        clashctl::text::trim(&[*c]).is_empty()
    });
    assert_eq!(listed.collect::<Vec<char>>(), spaces.to_vec());
}
