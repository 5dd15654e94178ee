//! VMess links: `vmess://` followed by a JSON object in base64.

use crate::codec::{base64_decoded, decode_base64_chars};
use crate::json::{field_text, json_document, read_json, JsonDocument, JsonDocumentView};
use crate::options::{
    alpn_of, choose_transport, endpoint_name, keep_non_empty, name_endpoint, non_empty, opt_alpn,
    transport_for,
};
use crate::record::{VmessRecord, VmessView};
use crate::text::{chars_of, decimal_u16, opt_text, parse_u16, spells, starts_with, trim, trimmed};
use crate::uri::or_else;
use vstd::prelude::*;

verus! {

/// An optional text, or `fallback` where it is absent or empty.
pub open spec fn text_or(value: Option<Seq<char>>, fallback: Seq<char>) -> Seq<char> {
    match non_empty(value) {
        Some(t) => t,
        None => fallback,
    }
}

/// True for a `tls` member that asks for TLS: one that is present, not empty
/// and not `none`.
pub open spec fn asks_tls(tls: Option<Seq<char>>) -> bool {
    match tls {
        Some(t) => t.len() > 0 && t != "none"@,
        None => false,
    }
}

/// The 16-bit number that an optional text writes.
pub open spec fn opt_u16(value: Option<Seq<char>>) -> Option<u16> {
    match value {
        Some(t) => decimal_u16(t),
        None => None,
    }
}

/// The record that the JSON document of a VMess link describes; `None`
/// where `add`, `port` or `id` is missing or the port is no 16-bit number.
pub open spec fn vmess_record(doc: JsonDocumentView) -> Option<VmessView> {
    match (field_text(doc, "add"@), opt_u16(field_text(doc, "port"@)), field_text(doc, "id"@)) {
        (Some(server), Some(port), Some(uuid)) => {
            let network = or_else(field_text(doc, "net"@), field_text(doc, "network"@));
            Some(
                VmessView {
                    name: text_or(field_text(doc, "ps"@), endpoint_name(server, port)),
                    server,
                    port,
                    uuid,
                    cipher: text_or(field_text(doc, "scy"@), "auto"@),
                    alter_id: opt_u16(field_text(doc, "aid"@)),
                    network: non_empty(network),
                    tls: asks_tls(field_text(doc, "tls"@)),
                    servername: or_else(field_text(doc, "sni"@), field_text(doc, "host"@)),
                    alpn: opt_alpn(field_text(doc, "alpn"@)),
                    transport: transport_for(
                        network,
                        field_text(doc, "path"@),
                        field_text(doc, "host"@),
                        field_text(doc, "path"@),
                    ),
                },
            )
        },
        _ => None,
    }
}

/// The record that a VMess link decodes to, `None` for a text that is no
/// such link.
pub open spec fn vmess_link(line: Seq<char>) -> Option<VmessView> {
    let link = trimmed(line);
    if "vmess://"@.is_prefix_of(link) {
        match base64_decoded(link.skip("vmess://"@.len() as int)) {
            Some(bytes) => match json_document(bytes) {
                Some(doc) => vmess_record(doc),
                None => None,
            },
            None => None,
        }
    } else {
        None
    }
}

fn read_u16(value: &Option<String>) -> (n: Option<u16>)
    ensures
        n == opt_u16(opt_text(*value)),
{
    match value {
        Some(t) => {
            let chars = chars_of(t.as_str());
            parse_u16(chars.as_slice())
        },
        None => None,
    }
}

fn first_present(first: Option<String>, second: Option<String>) -> (value: Option<String>)
    ensures
        opt_text(value) == or_else(opt_text(first), opt_text(second)),
{
    match first {
        Some(v) => Some(v),
        None => second,
    }
}

/// Builds the record that the JSON document of a VMess link describes.
pub fn vmess_from_json(doc: &JsonDocument) -> (record: Option<VmessRecord>)
    ensures
        match record {
            Some(r) => vmess_record(doc@) == Some(r@) && r@.name.len() > 0,
            None => vmess_record(doc@) is None,
        },
{
    let server = match doc.text("add") {
        Some(s) => s,
        None => {
            return None;
        },
    };
    let port = match read_u16(&doc.text("port")) {
        Some(p) => p,
        None => {
            return None;
        },
    };
    let uuid = match doc.text("id") {
        Some(u) => u,
        None => {
            return None;
        },
    };
    let name = match keep_non_empty(doc.text("ps")) {
        Some(n) => n,
        None => name_endpoint(server.as_str(), port),
    };
    let cipher = match keep_non_empty(doc.text("scy")) {
        Some(c) => c,
        None => "auto".to_owned(),
    };
    let network = first_present(doc.text("net"), doc.text("network"));
    let tls = match doc.text("tls") {
        Some(t) => {
            let chars = chars_of(t.as_str());
            chars.len() > 0 && !spells(chars.as_slice(), "none")
        },
        None => false,
    };
    let transport = choose_transport(&network, doc.text("path"), doc.text("host"), doc.text("path"));
    Some(
        VmessRecord {
            name,
            server,
            port,
            uuid,
            cipher,
            alter_id: read_u16(&doc.text("aid")),
            network: keep_non_empty(network),
            tls,
            servername: first_present(doc.text("sni"), doc.text("host")),
            alpn: alpn_of(&doc.text("alpn")),
            transport,
        },
    )
}

/// Decodes a VMess link.
pub fn parse_vmess_url(line: &str) -> (record: Option<VmessRecord>)
    ensures
        match record {
            Some(r) => vmess_link(line@) == Some(r@) && r@.name.len() > 0,
            None => vmess_link(line@) is None,
        },
{
    let chars = chars_of(line);
    let link = trim(chars.as_slice());
    let scheme = chars_of("vmess://");
    proof {
        reveal_strlit("vmess://");
    }
    if !starts_with(link, scheme.as_slice()) {
        return None;
    }
    let bytes = match decode_base64_chars(&link[8..link.len()]) {
        Some(b) => b,
        None => {
            return None;
        },
    };
    match read_json(bytes.as_slice()) {
        Some(doc) => vmess_from_json(&doc),
        None => None,
    }
}

} // verus!
