use clashctl::codec::{decode_base64, percent_decode};
use clashctl::options::parse_bool;
use clashctl::record::{ProxyKind, ProxyRecord, Transport};
use clashctl::shadowsocks::parse_ss_url;
use clashctl::subscription::decode_link;
use clashctl::trojan::parse_trojan_url;
use clashctl::vless::parse_vless_url;
use clashctl::vmess::parse_vmess_url;
use clashctl::yaml::Yaml;

fn entry<'a>(node: &'a Yaml, key: &str) -> Option<&'a Yaml> {
    match node {
        Yaml::Mapping(entries) => entries
            .iter()
            .find(|(k, _)| matches!(k, Yaml::Text(t) if t == key))
            .map(|(_, v)| v),
        _ => None,
    }
}

fn text_at(node: &Yaml, key: &str) -> Option<String> {
    match entry(node, key) {
        Some(Yaml::Text(t)) => Some(t.clone()),
        _ => None,
    }
}

fn number_at(node: &Yaml, key: &str) -> Option<String> {
    match entry(node, key) {
        Some(Yaml::Number(t)) => Some(t.clone()),
        _ => None,
    }
}

fn flag_at(node: &Yaml, key: &str) -> Option<bool> {
    match entry(node, key) {
        Some(Yaml::Bool(b)) => Some(*b),
        _ => None,
    }
}

fn keys(node: &Yaml) -> Vec<String> {
    match node {
        Yaml::Mapping(entries) => entries
            .iter()
            .map(|(k, _)| match k {
                Yaml::Text(t) => t.clone(),
                _ => String::new(),
            })
            .collect(),
        _ => Vec::new(),
    }
}

#[test]
fn shadowsocks_link_with_base64_userinfo_and_encoded_name() {
    let r = parse_ss_url("ss://YWVzLTI1Ni1nY206cGFzc3dvcmQ=@example.com:8388#My%20Node").unwrap();
    assert_eq!(r.name, "My Node");
    assert_eq!(r.cipher, "aes-256-gcm");
    assert_eq!(r.password, "password");
    assert_eq!(r.server, "example.com");
    assert_eq!(r.port, 8388);
    assert_eq!(r.plugin, None);
    assert_eq!(r.plugin_opts, None);
}

#[test]
fn shadowsocks_entry_matches_the_link() {
    let r = parse_ss_url("ss://aes-128-gcm:s3cret@10.0.0.7:443#edge").unwrap();
    let node = r.to_yaml();
    assert_eq!(
        keys(&node),
        vec!["name", "type", "server", "port", "cipher", "password"]
    );
    assert_eq!(text_at(&node, "name").as_deref(), Some("edge"));
    assert_eq!(text_at(&node, "type").as_deref(), Some("ss"));
    assert_eq!(text_at(&node, "server").as_deref(), Some("10.0.0.7"));
    assert_eq!(number_at(&node, "port").as_deref(), Some("443"));
    assert_eq!(text_at(&node, "cipher").as_deref(), Some("aes-128-gcm"));
    assert_eq!(text_at(&node, "password").as_deref(), Some("s3cret"));
}

#[test]
fn shadowsocks_name_defaults_to_host_and_port() {
    let r = parse_ss_url("ss://aes-128-gcm:pw@host.example:1").unwrap();
    assert_eq!(r.name, "host.example:1");
    let empty = parse_ss_url("ss://aes-128-gcm:pw@host.example:65535#").unwrap();
    assert_eq!(empty.name, "host.example:65535");
    assert_eq!(empty.port, 65535);
}

#[test]
fn shadowsocks_legacy_link_is_wholly_base64() {
    let r = parse_ss_url("ss://Y2hhY2hhMjAtaWV0Zi1wb2x5MTMwNTpzZWNyZXRAMTkyLjE2OC4xLjE6ODM4OA==#old")
        .unwrap();
    assert_eq!(r.cipher, "chacha20-ietf-poly1305");
    assert_eq!(r.password, "secret");
    assert_eq!(r.server, "192.168.1.1");
    assert_eq!(r.port, 8388);
    assert_eq!(r.name, "old");
}

#[test]
fn shadowsocks_bracketed_ipv6_host() {
    let r = parse_ss_url("  ss://aes-256-gcm:pw@[::1]:8388  ").unwrap();
    assert_eq!(r.server, "::1");
    assert_eq!(r.port, 8388);
    assert_eq!(r.name, "::1:8388");
    assert!(parse_ss_url("ss://aes-256-gcm:pw@[::1]").is_none());
    assert!(parse_ss_url("ss://aes-256-gcm:pw@[::1]:").is_none());
    assert!(parse_ss_url("ss://aes-256-gcm:pw@[::1").is_none());
}

#[test]
fn shadowsocks_plugin_and_its_options() {
    let r = parse_ss_url(
        "ss://aes-256-gcm:pw@example.com:443?plugin=obfs-local%3Bobfs%3Dhttp%3Bobfs-host%3Dexample.com#p",
    )
    .unwrap();
    assert_eq!(r.plugin.as_deref(), Some("obfs-local"));
    assert_eq!(r.plugin_opts.as_deref(), Some("obfs=http;obfs-host=example.com"));
    let node = r.to_yaml();
    assert_eq!(
        keys(&node),
        vec!["name", "type", "server", "port", "cipher", "password", "plugin", "plugin-opts"]
    );
    let bare = parse_ss_url("ss://aes-256-gcm:pw@example.com:443?plugin=v2ray-plugin").unwrap();
    assert_eq!(bare.plugin.as_deref(), Some("v2ray-plugin"));
    assert_eq!(bare.plugin_opts, None);
    let other = parse_ss_url("ss://aes-256-gcm:pw@example.com:443?group=x").unwrap();
    assert_eq!(other.plugin, None);
}

#[test]
fn shadowsocks_rejects_what_is_no_link() {
    assert!(parse_ss_url("vmess://abc").is_none());
    assert!(parse_ss_url("ss://").is_none());
    assert!(parse_ss_url("ss://nocolonuser@example.com:8388").is_none());
    assert!(parse_ss_url("ss://a:b@example.com").is_none());
    assert!(parse_ss_url("ss://a:b@example.com:port").is_none());
    assert!(parse_ss_url("ss://a:b@example.com:65536").is_none());
    assert!(parse_ss_url("ss://a:b@example.com:-1").is_none());
    assert!(parse_ss_url("ss://a:b@example.com:").is_none());
    assert!(parse_ss_url("ss://!!!!").is_none());
}

#[test]
fn shadowsocks_port_may_carry_a_plus_sign_and_zeros() {
    assert_eq!(parse_ss_url("ss://a:b@h:+80").unwrap().port, 80);
    assert_eq!(parse_ss_url("ss://a:b@h:000443").unwrap().port, 443);
    assert_eq!(parse_ss_url("ss://a:b@h:0").unwrap().port, 0);
    assert!(parse_ss_url("ss://a:b@h:+").is_none());
}

#[test]
fn vmess_link_with_websocket_options() {
    let r = parse_vmess_url(
        "vmess://eyJhZGQiOiIxLjIuMy40IiwicG9ydCI6IjQ0MyIsImlkIjoidXVpZCIsIm5ldCI6IndzIiwicGF0aCI6Ii9wIiwiaG9zdCI6ImguZXhhbXBsZSJ9",
    )
    .unwrap();
    assert_eq!(r.server, "1.2.3.4");
    assert_eq!(r.port, 443);
    assert_eq!(r.uuid, "uuid");
    assert_eq!(r.name, "1.2.3.4:443");
    assert_eq!(r.cipher, "auto");
    assert_eq!(r.network.as_deref(), Some("ws"));
    assert!(!r.tls);
    match &r.transport {
        Transport::Ws { path, host } => {
            assert_eq!(path.as_deref(), Some("/p"));
            assert_eq!(host.as_deref(), Some("h.example"));
        }
        _ => panic!("expected websocket options"),
    }
    let node = r.to_yaml();
    assert_eq!(text_at(&node, "network").as_deref(), Some("ws"));
    assert!(entry(&node, "tls").is_none());
    let ws = entry(&node, "ws-opts").unwrap();
    assert_eq!(text_at(ws, "path").as_deref(), Some("/p"));
    let headers = entry(ws, "headers").unwrap();
    assert_eq!(text_at(headers, "Host").as_deref(), Some("h.example"));
    assert_eq!(text_at(&node, "servername").as_deref(), Some("h.example"));
}

#[test]
fn vmess_link_with_every_member() {
    let r = parse_vmess_url(
        "vmess://eyJ2IjogIjIiLCAicHMiOiAiVG9reW8gMDEiLCAiYWRkIjogImpwLmV4YW1wbGUub3JnIiwgInBvcnQiOiA4NDQzLCAiaWQiOiAiYjgzMTM4MWQtNjMyNC00ZDUzLWFkNGYtOGNkYTQ4YjMwODExIiwgImFpZCI6ICIwIiwgInNjeSI6ICIiLCAibmV0IjogImdycGMiLCAidGxzIjogInRscyIsICJzbmkiOiAic25pLmV4YW1wbGUub3JnIiwgImFscG4iOiAiaDIsIGh0dHAvMS4xIiwgInBhdGgiOiAic3ZjIn0=",
    )
    .unwrap();
    assert_eq!(r.name, "Tokyo 01");
    assert_eq!(r.server, "jp.example.org");
    assert_eq!(r.port, 8443);
    assert_eq!(r.uuid, "b831381d-6324-4d53-ad4f-8cda48b30811");
    assert_eq!(r.alter_id, Some(0));
    assert_eq!(r.cipher, "auto");
    assert!(r.tls);
    assert_eq!(r.servername.as_deref(), Some("sni.example.org"));
    assert_eq!(r.alpn, Some(vec!["h2".to_string(), "http/1.1".to_string()]));
    match &r.transport {
        Transport::Grpc { service_name } => assert_eq!(service_name.as_deref(), Some("svc")),
        _ => panic!("expected gRPC options"),
    }
    let node = r.to_yaml();
    assert_eq!(
        keys(&node),
        vec![
            "name", "type", "server", "port", "uuid", "cipher", "alterId", "network", "tls",
            "servername", "alpn", "grpc-opts"
        ]
    );
    assert_eq!(text_at(&node, "type").as_deref(), Some("vmess"));
    assert_eq!(number_at(&node, "port").as_deref(), Some("8443"));
    assert_eq!(number_at(&node, "alterId").as_deref(), Some("0"));
    assert_eq!(flag_at(&node, "tls"), Some(true));
    let grpc = entry(&node, "grpc-opts").unwrap();
    assert_eq!(text_at(grpc, "grpc-service-name").as_deref(), Some("svc"));
}

#[test]
fn vmess_number_members_and_disabled_tls() {
    let r = parse_vmess_url(
        "vmess://eyJhZGQiOiJoIiwicG9ydCI6NDQzLCJpZCI6InUiLCJhaWQiOjIsInRscyI6Im5vbmUiLCJuZXQiOiIifQ==",
    )
    .unwrap();
    assert_eq!(r.port, 443);
    assert_eq!(r.alter_id, Some(2));
    assert!(!r.tls);
    assert_eq!(r.network, None);
    assert!(matches!(r.transport, Transport::Plain));
    assert_eq!(r.servername, None);
}

#[test]
fn vmess_rejects_what_is_no_link() {
    assert!(parse_vmess_url("vmess://").is_none());
    assert!(parse_vmess_url("vmess://%%%").is_none());
    assert!(parse_vmess_url("vmess://WzEsMiwzXQ==").is_none());
    assert!(parse_vmess_url("vmess://eyJhZGQiOiJoIiwicG9ydCI6IjcwMDAwIiwiaWQiOiJ1In0=").is_none());
    assert!(parse_vmess_url("ss://a:b@h:1").is_none());
}

#[test]
fn vless_link_with_reality_and_grpc() {
    let r = parse_vless_url(
        "vless://0a1b2c3d@v.example.net:8443?type=grpc&security=reality&sni=www.example.com&pbk=PUBKEY&sid=6ba85179e30d4fc2&fp=chrome&serviceName=grpcsvc&flow=xtls-rprx-vision&encryption=none&udp=Yes&alpn=h2#Frankfurt%2002",
    )
    .unwrap();
    assert_eq!(r.name, "Frankfurt 02");
    assert_eq!(r.server, "v.example.net");
    assert_eq!(r.port, 8443);
    assert_eq!(r.uuid, "0a1b2c3d");
    assert!(r.udp);
    assert!(r.tls);
    assert_eq!(r.network.as_deref(), Some("grpc"));
    assert_eq!(r.flow.as_deref(), Some("xtls-rprx-vision"));
    assert_eq!(r.encryption.as_deref(), Some("none"));
    assert_eq!(r.servername.as_deref(), Some("www.example.com"));
    let reality = r.reality.as_ref().unwrap();
    assert_eq!(reality.public_key.as_deref(), Some("PUBKEY"));
    assert_eq!(reality.short_id.as_deref(), Some("6ba85179e30d4fc2"));
    assert_eq!(reality.spider_x, None);
    assert_eq!(reality.fingerprint.as_deref(), Some("chrome"));
    let node = r.to_yaml();
    assert_eq!(
        keys(&node),
        vec![
            "name", "type", "server", "port", "uuid", "udp", "network", "flow", "encryption",
            "tls", "servername", "alpn", "reality-opts", "grpc-opts"
        ]
    );
    assert_eq!(text_at(&node, "server").as_deref(), Some("v.example.net"));
    assert_eq!(number_at(&node, "port").as_deref(), Some("8443"));
    assert_eq!(text_at(&node, "uuid").as_deref(), Some("0a1b2c3d"));
    let opts = entry(&node, "reality-opts").unwrap();
    assert_eq!(keys(opts), vec!["public-key", "short-id", "fingerprint"]);
    let grpc = entry(&node, "grpc-opts").unwrap();
    assert_eq!(text_at(grpc, "grpc-service-name").as_deref(), Some("grpcsvc"));
}

#[test]
fn vless_aliases_and_defaults() {
    let r = parse_vless_url("vless://id@h.example:443?network=ws&peer=p.example&path=%2Fws&host=cdn.example")
        .unwrap();
    assert_eq!(r.name, "h.example:443");
    assert!(!r.udp);
    assert!(!r.tls);
    assert!(r.reality.is_none());
    assert_eq!(r.network.as_deref(), Some("ws"));
    assert_eq!(r.servername.as_deref(), Some("p.example"));
    match &r.transport {
        Transport::Ws { path, host } => {
            assert_eq!(path.as_deref(), Some("/ws"));
            assert_eq!(host.as_deref(), Some("cdn.example"));
        }
        _ => panic!("expected websocket options"),
    }
    let both = parse_vless_url("vless://id@h.example:443?sni=first&peer=second&type=tcp&network=ws").unwrap();
    assert_eq!(both.servername.as_deref(), Some("first"));
    assert_eq!(both.network.as_deref(), Some("tcp"));
    assert!(matches!(both.transport, Transport::Plain));
    let grpc = parse_vless_url("vless://id@h.example:443?type=grpc&path=fallback").unwrap();
    match &grpc.transport {
        Transport::Grpc { service_name } => assert_eq!(service_name.as_deref(), Some("fallback")),
        _ => panic!("expected gRPC options"),
    }
}

#[test]
fn vless_rejects_what_is_no_link() {
    assert!(parse_vless_url("vless://@h.example:443").is_none());
    assert!(parse_vless_url("vless://id@h.example").is_none());
    assert!(parse_vless_url("trojan://id@h.example:443").is_none());
    assert!(parse_vless_url("not a url").is_none());
    assert!(parse_vless_url("").is_none());
}

#[test]
fn trojan_link_with_flags() {
    let r = parse_trojan_url(
        "trojan://p%40ss@t.example.com:443?allowInsecure=1&sni=s.example.com&type=ws&path=%2Ft&host=w.example.com&udp=on&alpn=h2,http%2F1.1#Node%20T",
    )
    .unwrap();
    assert_eq!(r.name, "Node T");
    assert_eq!(r.server, "t.example.com");
    assert_eq!(r.port, 443);
    assert_eq!(r.password, "p%40ss");
    assert!(r.udp);
    assert!(r.skip_cert_verify);
    assert_eq!(r.sni.as_deref(), Some("s.example.com"));
    assert_eq!(r.alpn, Some(vec!["h2".to_string(), "http/1.1".to_string()]));
    let node = r.to_yaml();
    assert_eq!(
        keys(&node),
        vec![
            "name", "type", "server", "port", "password", "udp", "skip-cert-verify", "network",
            "sni", "alpn", "ws-opts"
        ]
    );
    assert_eq!(text_at(&node, "type").as_deref(), Some("trojan"));
    assert_eq!(text_at(&node, "server").as_deref(), Some("t.example.com"));
    assert_eq!(number_at(&node, "port").as_deref(), Some("443"));
    assert_eq!(text_at(&node, "password").as_deref(), Some("p%40ss"));
    assert_eq!(flag_at(&node, "udp"), Some(true));
    assert_eq!(flag_at(&node, "skip-cert-verify"), Some(true));
}

#[test]
fn trojan_defaults_and_unrecognized_flags() {
    let r = parse_trojan_url("trojan://pw@t.example.com:8443?udp=maybe&allowInsecure=nope&skip-cert-verify=true")
        .unwrap();
    assert_eq!(r.name, "t.example.com:8443");
    assert!(!r.udp);
    assert!(!r.skip_cert_verify);
    assert_eq!(r.network, None);
    assert!(matches!(r.transport, Transport::Plain));
    let alias = parse_trojan_url("trojan://pw@t.example.com:8443?skip-cert-verify=TRUE").unwrap();
    assert!(alias.skip_cert_verify);
    let node = r.to_yaml();
    assert_eq!(
        keys(&node),
        vec!["name", "type", "server", "port", "password", "udp"]
    );
    assert_eq!(flag_at(&node, "udp"), Some(false));
    assert!(parse_trojan_url("trojan://@t.example.com:8443").is_none());
    assert!(parse_trojan_url("trojan://pw@t.example.com").is_none());
    assert!(parse_trojan_url("vless://pw@t.example.com:1").is_none());
}

#[test]
fn boolean_words() {
    for word in ["1", "true", "TRUE", "Yes", "on", "oN"] {
        assert_eq!(parse_bool(word), Some(true));
    }
    for word in ["0", "false", "False", "NO", "off"] {
        assert_eq!(parse_bool(word), Some(false));
    }
    for word in ["", "2", "y", "enabled", " true", "truе"] {
        assert_eq!(parse_bool(word), None);
    }
}

#[test]
fn percent_escapes() {
    assert_eq!(percent_decode("My%20Node"), "My Node");
    assert_eq!(percent_decode("%41%62%7a"), "Abz");
    assert_eq!(percent_decode("100%"), "100%");
    assert_eq!(percent_decode("%4"), "%4");
    assert_eq!(percent_decode("%zz%41"), "%zzA");
    assert_eq!(percent_decode("%E6%97%A5%E6%9C%AC"), "日本");
    assert_eq!(percent_decode("%ff"), "\u{fffd}");
    assert_eq!(percent_decode(""), "");
    assert_eq!(percent_decode("a+b"), "a+b");
}

#[test]
fn lenient_base64() {
    assert_eq!(decode_base64("aGVsbG8=").as_deref(), Some(&b"hello"[..]));
    assert_eq!(decode_base64("aGVsbG8").as_deref(), Some(&b"hello"[..]));
    assert_eq!(decode_base64(" aGVs\nbG8\t").as_deref(), Some(&b"hello"[..]));
    assert_eq!(
        decode_base64("-__-Pj4-").as_deref(),
        Some(&[0xfb, 0xff, 0xfe, b'>', b'>', b'>'][..])
    );
    assert_eq!(decode_base64("").as_deref(), Some(&b""[..]));
    assert!(decode_base64("a").is_none());
    assert!(decode_base64("a!b=").is_none());
    assert!(decode_base64("é").is_none());
}

#[test]
fn first_decoder_that_accepts_wins() {
    let ss = decode_link("ss://a:b@h:1#n").unwrap();
    assert_eq!(ss.kind(), ProxyKind::Shadowsocks);
    assert_eq!(ss.name(), "n");
    assert_eq!(ss.server(), "h");
    assert_eq!(ss.port(), 1);
    let vless = decode_link("vless://id@h:2").unwrap();
    assert_eq!(vless.kind(), ProxyKind::Vless);
    let trojan = decode_link("trojan://pw@h:3").unwrap();
    assert!(matches!(trojan, ProxyRecord::Trojan(_)));
    let vmess = decode_link(
        "vmess://eyJhZGQiOiJoIiwicG9ydCI6NDQzLCJpZCI6InUiLCJhaWQiOjIsInRscyI6Im5vbmUiLCJuZXQiOiIifQ==",
    )
    .unwrap();
    assert_eq!(vmess.kind(), ProxyKind::Vmess);
    assert!(decode_link("https://example.com/sub").is_none());
    assert!(decode_link("hysteria2://pw@h:4").is_none());
}

#[test]
fn trojan_grpc_service_name_by_any_of_its_keys() {
    let by_service =
        parse_trojan_url("trojan://pw@example.com:443?type=grpc&service=svc&allowInsecure=1").unwrap();
    assert_eq!(by_service.password, "pw");
    assert_eq!(by_service.network.as_deref(), Some("grpc"));
    assert!(by_service.skip_cert_verify);
    match &by_service.transport {
        Transport::Grpc { service_name } => assert_eq!(service_name.as_deref(), Some("svc")),
        _ => panic!("expected gRPC options"),
    }
    let node = by_service.to_yaml();
    let grpc = entry(&node, "grpc-opts").unwrap();
    assert_eq!(keys(grpc), vec!["grpc-service-name"]);
    assert_eq!(text_at(grpc, "grpc-service-name").as_deref(), Some("svc"));
    assert_eq!(flag_at(&node, "skip-cert-verify"), Some(true));

    let by_path = parse_trojan_url("trojan://pw@example.com:443?type=grpc&path=fallback").unwrap();
    match &by_path.transport {
        Transport::Grpc { service_name } => assert_eq!(service_name.as_deref(), Some("fallback")),
        _ => panic!("expected gRPC options"),
    }
    assert_eq!(
        text_at(entry(&by_path.to_yaml(), "grpc-opts").unwrap(), "grpc-service-name").as_deref(),
        Some("fallback")
    );

    let by_name = parse_trojan_url(
        "trojan://pw@example.com:443?type=grpc&path=third&service=second&serviceName=first",
    )
    .unwrap();
    match &by_name.transport {
        Transport::Grpc { service_name } => assert_eq!(service_name.as_deref(), Some("first")),
        _ => panic!("expected gRPC options"),
    }
    let second = parse_trojan_url("trojan://pw@example.com:443?type=grpc&path=third&service=second")
        .unwrap();
    match &second.transport {
        Transport::Grpc { service_name } => assert_eq!(service_name.as_deref(), Some("second")),
        _ => panic!("expected gRPC options"),
    }
    let none = parse_trojan_url("trojan://pw@example.com:443?type=grpc").unwrap();
    assert!(matches!(&none.transport, Transport::Grpc { service_name: None }));
    assert!(entry(&none.to_yaml(), "grpc-opts").is_none());
}

#[test]
fn vless_grpc_service_name_by_service() {
    let r = parse_vless_url("vless://id@h.example:443?type=grpc&service=svc&path=p").unwrap();
    match &r.transport {
        Transport::Grpc { service_name } => assert_eq!(service_name.as_deref(), Some("svc")),
        _ => panic!("expected gRPC options"),
    }
}

#[test]
fn fragments_of_well_formed_text_are_decoded_as_they_are() {
    assert_eq!(percent_decode("Tokyo%2001%20%F0%9F%87%AF%F0%9F%87%B5"), "Tokyo 01 🇯🇵");
    let r = parse_trojan_url("trojan://pw@h.example:443#%E6%9D%B1%E4%BA%AC").unwrap();
    assert_eq!(r.name, "東京");
    let broken = parse_trojan_url("trojan://pw@h.example:443#a%FFb").unwrap();
    assert_eq!(broken.name, "a\u{fffd}b");
}
