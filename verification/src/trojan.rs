//! Trojan links: `trojan://password@host:port?..#name`.

use crate::options::{
    alpn_of, choose_transport, display_name, flag_of, is_set, keep_non_empty, name_proxy,
    non_empty, opt_alpn, transport_for,
};
use crate::record::{TrojanRecord, TrojanView};
use crate::text::same_text;
use crate::uri::{
    last_value, lookup, lookup_either, or_else, pair_texts, parse_url, url_parts, UrlParts,
    UrlPartsView,
};
use crate::vless::{query_pairs, read_query, read_service, service_of};
use vstd::prelude::*;

verus! {

/// The record that the parts of a URL and the pairs of its query describe;
/// `None` unless the scheme is `trojan`, the user name is not empty and host
/// and port are given.
pub open spec fn trojan_record(
    parts: UrlPartsView,
    pairs: Seq<(Seq<char>, Seq<char>)>,
) -> Option<TrojanView> {
    if parts.scheme == "trojan"@ && parts.username.len() > 0 {
        match (parts.host, parts.port) {
            (Some(server), Some(port)) => {
                let network = or_else(last_value(pairs, "type"@), last_value(pairs, "network"@));
                Some(
                    TrojanView {
                        name: display_name(parts.fragment, server, port),
                        server,
                        port,
                        password: parts.username,
                        udp: is_set(last_value(pairs, "udp"@)),
                        skip_cert_verify: is_set(
                            or_else(
                                last_value(pairs, "allowInsecure"@),
                                last_value(pairs, "skip-cert-verify"@),
                            ),
                        ),
                        network: non_empty(network),
                        sni: or_else(last_value(pairs, "sni"@), last_value(pairs, "peer"@)),
                        alpn: opt_alpn(last_value(pairs, "alpn"@)),
                        transport: transport_for(
                            network,
                            last_value(pairs, "path"@),
                            last_value(pairs, "host"@),
                            service_of(pairs),
                        ),
                    },
                )
            },
            _ => None,
        }
    } else {
        None
    }
}

/// The record that a Trojan link decodes to, `None` for a text that is no
/// such link.
pub open spec fn trojan_link(line: Seq<char>) -> Option<TrojanView> {
    match url_parts(line) {
        Some(parts) => trojan_record(parts, query_pairs(parts)),
        None => None,
    }
}

/// Builds the record that the parts of a URL and the pairs of its query
/// describe.
pub fn trojan_from_parts(parts: &UrlParts, pairs: &Vec<(String, String)>) -> (record: Option<
    TrojanRecord,
>)
    ensures
        match record {
            Some(r) => trojan_record(parts@, pair_texts(pairs@)) == Some(r@) && r@.name.len()
                > 0,
            None => trojan_record(parts@, pair_texts(pairs@)) is None,
        },
{
    if !same_text(parts.scheme.as_str(), "trojan") || parts.username.as_str().is_empty() {
        return None;
    }
    let server = match &parts.host {
        Some(h) => h.clone(),
        None => {
            return None;
        },
    };
    let port = match parts.port {
        Some(p) => p,
        None => {
            return None;
        },
    };
    let name = match &parts.fragment {
        Some(f) => name_proxy(Some(f.as_str()), server.as_str(), port),
        None => name_proxy(None, server.as_str(), port),
    };
    let network = lookup_either(pairs, "type", "network");
    let transport = choose_transport(
        &network,
        lookup(pairs, "path"),
        lookup(pairs, "host"),
        read_service(pairs),
    );
    Some(
        TrojanRecord {
            name,
            server,
            port,
            password: parts.username.clone(),
            udp: flag_of(&lookup(pairs, "udp")),
            skip_cert_verify: flag_of(&lookup_either(pairs, "allowInsecure", "skip-cert-verify")),
            network: keep_non_empty(network),
            sni: lookup_either(pairs, "sni", "peer"),
            alpn: alpn_of(&lookup(pairs, "alpn")),
            transport,
        },
    )
}

/// Decodes a Trojan link.
pub fn parse_trojan_url(line: &str) -> (record: Option<TrojanRecord>)
    ensures
        match record {
            Some(r) => trojan_link(line@) == Some(r@) && r@.name.len() > 0,
            None => trojan_link(line@) is None,
        },
{
    match parse_url(line) {
        Some(parts) => {
            let pairs = read_query(&parts);
            trojan_from_parts(&parts, &pairs)
        },
        None => None,
    }
}

} // verus!
