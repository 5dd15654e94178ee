//! VLess links: `vless://uuid@host:port?..#name`.

use crate::options::{
    alpn_of, choose_transport, display_name, flag_of, is_set, keep_non_empty, name_proxy,
    non_empty, opt_alpn, transport_for,
};
use crate::record::{RealityOptions, RealityOptionsView, VlessRecord, VlessView};
use crate::text::{opt_text, same_text};
use crate::uri::{
    form_pairs, last_value, lookup, lookup_either, or_else, pair_texts, parse_form, parse_url,
    url_parts, UrlParts, UrlPartsView,
};
use vstd::prelude::*;
use vstd::utf8::encode_utf8;

verus! {

/// The `security` of a link, `none` where the query does not give it.
pub open spec fn security_of(pairs: Seq<(Seq<char>, Seq<char>)>) -> Seq<char> {
    match last_value(pairs, "security"@) {
        Some(s) => s,
        None => "none"@,
    }
}

/// The REALITY options that a query gives, each under its short name or
/// else its long one.
pub open spec fn reality_of(pairs: Seq<(Seq<char>, Seq<char>)>) -> RealityOptionsView {
    RealityOptionsView {
        public_key: or_else(last_value(pairs, "pbk"@), last_value(pairs, "public-key"@)),
        short_id: or_else(last_value(pairs, "sid"@), last_value(pairs, "short-id"@)),
        spider_x: or_else(last_value(pairs, "spx"@), last_value(pairs, "spider-x"@)),
        fingerprint: last_value(pairs, "fp"@),
    }
}

/// The gRPC service name of a query: `serviceName`, else `service`, else
/// `path`.
pub open spec fn service_of(pairs: Seq<(Seq<char>, Seq<char>)>) -> Option<Seq<char>> {
    or_else(
        or_else(last_value(pairs, "serviceName"@), last_value(pairs, "service"@)),
        last_value(pairs, "path"@),
    )
}

/// Reads the gRPC service name of a query.
pub fn read_service(pairs: &Vec<(String, String)>) -> (service: Option<String>)
    ensures
        opt_text(service) == service_of(pair_texts(pairs@)),
{
    match lookup_either(pairs, "serviceName", "service") {
        Some(s) => Some(s),
        None => lookup(pairs, "path"),
    }
}

/// The record that the parts of a URL and the pairs of its query describe;
/// `None` unless the scheme is `vless`, the user name is not empty and host
/// and port are given.
pub open spec fn vless_record(parts: UrlPartsView, pairs: Seq<(Seq<char>, Seq<char>)>) -> Option<
    VlessView,
> {
    if parts.scheme == "vless"@ && parts.username.len() > 0 {
        match (parts.host, parts.port) {
            (Some(server), Some(port)) => {
                let network = or_else(last_value(pairs, "type"@), last_value(pairs, "network"@));
                Some(
                    VlessView {
                        name: display_name(parts.fragment, server, port),
                        server,
                        port,
                        uuid: parts.username,
                        udp: is_set(last_value(pairs, "udp"@)),
                        network: non_empty(network),
                        flow: last_value(pairs, "flow"@),
                        encryption: last_value(pairs, "encryption"@),
                        tls: security_of(pairs) != "none"@,
                        servername: or_else(
                            last_value(pairs, "sni"@),
                            last_value(pairs, "peer"@),
                        ),
                        alpn: opt_alpn(last_value(pairs, "alpn"@)),
                        reality: if security_of(pairs) == "reality"@ {
                            Some(reality_of(pairs))
                        } else {
                            None
                        },
                        transport: transport_for(
                            network,
                            last_value(pairs, "path"@),
                            last_value(pairs, "host"@),
                            service_of(pairs),
                        ),
                    },
                )
            },
            _ => None,
        }
    } else {
        None
    }
}

/// The pairs of the query of a URL; none where it has no query.
pub open spec fn query_pairs(parts: UrlPartsView) -> Seq<(Seq<char>, Seq<char>)> {
    match parts.query {
        Some(q) => form_pairs(encode_utf8(q)),
        None => form_pairs(Seq::empty()),
    }
}

/// The record that a VLess link decodes to, `None` for a text that is no
/// such link.
pub open spec fn vless_link(line: Seq<char>) -> Option<VlessView> {
    match url_parts(line) {
        Some(parts) => vless_record(parts, query_pairs(parts)),
        None => None,
    }
}

/// Reads the pairs of the query of a URL.
pub fn read_query(parts: &UrlParts) -> (pairs: Vec<(String, String)>)
    ensures
        pair_texts(pairs@) == query_pairs(parts@),
{
    match &parts.query {
        Some(q) => parse_form(q.as_str().as_bytes()),
        None => {
            let empty: Vec<u8> = Vec::new();
            assert(empty@ =~= Seq::<u8>::empty());
            parse_form(empty.as_slice())
        },
    }
}

/// Builds the record that the parts of a URL and the pairs of its query
/// describe.
pub fn vless_from_parts(parts: &UrlParts, pairs: &Vec<(String, String)>) -> (record: Option<
    VlessRecord,
>)
    ensures
        match record {
            Some(r) => vless_record(parts@, pair_texts(pairs@)) == Some(r@) && r@.name.len() > 0,
            None => vless_record(parts@, pair_texts(pairs@)) is None,
        },
{
    if !same_text(parts.scheme.as_str(), "vless") || parts.username.as_str().is_empty() {
        return None;
    }
    let server = match &parts.host {
        Some(h) => h.clone(),
        None => {
            return None;
        },
    };
    let port = match parts.port {
        Some(p) => p,
        None => {
            return None;
        },
    };
    let name = match &parts.fragment {
        Some(f) => name_proxy(Some(f.as_str()), server.as_str(), port),
        None => name_proxy(None, server.as_str(), port),
    };
    let network = lookup_either(pairs, "type", "network");
    let security = match lookup(pairs, "security") {
        Some(s) => s,
        None => "none".to_owned(),
    };
    let reality = if same_text(security.as_str(), "reality") {
        Some(
            RealityOptions {
                public_key: lookup_either(pairs, "pbk", "public-key"),
                short_id: lookup_either(pairs, "sid", "short-id"),
                spider_x: lookup_either(pairs, "spx", "spider-x"),
                fingerprint: lookup(pairs, "fp"),
            },
        )
    } else {
        None
    };
    let service = read_service(pairs);
    let transport = choose_transport(
        &network,
        lookup(pairs, "path"),
        lookup(pairs, "host"),
        service,
    );
    Some(
        VlessRecord {
            name,
            server,
            port,
            uuid: parts.username.clone(),
            udp: flag_of(&lookup(pairs, "udp")),
            network: keep_non_empty(network),
            flow: lookup(pairs, "flow"),
            encryption: lookup(pairs, "encryption"),
            tls: !same_text(security.as_str(), "none"),
            servername: lookup_either(pairs, "sni", "peer"),
            alpn: alpn_of(&lookup(pairs, "alpn")),
            reality,
            transport,
        },
    )
}

/// Decodes a VLess link.
pub fn parse_vless_url(line: &str) -> (record: Option<VlessRecord>)
    ensures
        match record {
            Some(r) => vless_link(line@) == Some(r@) && r@.name.len() > 0,
            None => vless_link(line@) is None,
        },
{
    match parse_url(line) {
        Some(parts) => {
            let pairs = read_query(&parts);
            vless_from_parts(&parts, &pairs)
        },
        None => None,
    }
}

} // verus!
