//! Subscription payloads: telling a full configuration from a list of share
//! links, and turning such a list into proxy records.

use crate::codec::{decode_lossy, lossy_decoded};
use crate::record::{record_views, ProxyRecord, ProxyRecordView};
use crate::shadowsocks::{base64_text, decode_base64_text, parse_ss_url, shadowsocks_link};
use crate::text::{
    chars_of, contains_word, has_run, runs, split, split_on, starts_with, string_of, texts, trim,
    trimmed,
};
use crate::trojan::{parse_trojan_url, trojan_link};
use crate::vless::{parse_vless_url, vless_link};
use crate::vmess::{parse_vmess_url, vmess_link};
use crate::yaml::{
    entries_of, find_key, key_index, lemma_mapping_value, plain, read_document, yaml_document,
    Yaml, YamlView,
};
use vstd::prelude::*;

verus! {

/// True for a text that begins with `http://` or `https://`.
pub open spec fn http_url(raw: Seq<char>) -> bool {
    "http://"@.is_prefix_of(raw) || "https://"@.is_prefix_of(raw)
}

/// Whether a text begins with `http://` or `https://`.
pub fn is_http_url(raw: &str) -> (yes: bool)
    ensures
        yes == http_url(raw@),
{
    let chars = chars_of(raw);
    let plain_scheme = chars_of("http://");
    let secure_scheme = chars_of("https://");
    starts_with(chars.as_slice(), plain_scheme.as_slice()) || starts_with(
        chars.as_slice(),
        secure_scheme.as_slice(),
    )
}

/// True when some entry has the text `key` as its key.
pub open spec fn has_key(entries: Seq<(YamlView, YamlView)>, key: Seq<char>) -> bool {
    key_index(entries, key) is Some
}

/// True for a document that is a full daemon configuration: a mapping with
/// one of the keys `proxies`, `proxy-providers`, `proxy-groups`, `rules` and
/// `rule-providers`.
pub open spec fn full_config(doc: YamlView) -> bool {
    match plain(doc) {
        YamlView::Mapping(entries) => has_key(entries, "proxies"@) || has_key(
            entries,
            "proxy-providers"@,
        ) || has_key(entries, "proxy-groups"@) || has_key(entries, "rules"@) || has_key(
            entries,
            "rule-providers"@,
        ),
        _ => false,
    }
}

/// Whether a mapping has the text `key` as a key.
pub fn mapping_has_key(entries: &Vec<(Yaml, Yaml)>, key: &str) -> (yes: bool)
    ensures
        yes == has_key(entries_of(entries@), key@),
{
    find_key(entries, key).is_some()
}

/// Whether a document is a full daemon configuration.
pub fn is_full_config(doc: &Yaml) -> (yes: bool)
    ensures
        yes == full_config(doc@),
{
    match doc.untagged() {
        Yaml::Mapping(entries) => {
            proof {
                lemma_mapping_value(*entries);
            }
            mapping_has_key(entries, "proxies") || mapping_has_key(entries, "proxy-providers")
                || mapping_has_key(entries, "proxy-groups") || mapping_has_key(entries, "rules")
                || mapping_has_key(entries, "rule-providers")
        },
        _ => false,
    }
}

/// Whether a payload is a full daemon configuration rather than a list of
/// share links. A payload that does not read as YAML is none.
pub fn looks_like_clash_config(bytes: &[u8]) -> (yes: bool)
    ensures
        yes == match yaml_document(bytes@) {
            Some(doc) => full_config(doc),
            None => false,
        },
{
    match read_document(bytes) {
        Some(doc) => is_full_config(&doc),
        None => false,
    }
}

/// The text in which the links of a payload stand: the payload itself,
/// read as UTF-8 and trimmed, where it contains `://`; else the text that
/// it holds in base64, where it holds one; else the payload itself.
pub open spec fn link_text(bytes: Seq<u8>) -> Seq<char> {
    let raw = trimmed(lossy_decoded(bytes));
    if has_run(raw, "://"@) {
        raw
    } else {
        match base64_text(raw) {
            Some(decoded) => decoded,
            None => raw,
        }
    }
}

/// The lines of a text, each without the white space around it, the empty
/// ones left out.
pub open spec fn content_lines(text: Seq<char>) -> Seq<Seq<char>> {
    split_on(text, '\n').map_values(|line: Seq<char>| trimmed(line)).filter(
        |line: Seq<char>| line.len() > 0,
    )
}

/// The candidate share links of a payload.
pub open spec fn subscription_lines(bytes: Seq<u8>) -> Seq<Seq<char>> {
    content_lines(link_text(bytes))
}

/// Splits a text into its trimmed, non-empty lines.
pub fn lines_of(text: &[char]) -> (lines: Vec<String>)
    ensures
        texts(lines@) == content_lines(text@),
{
    let pieces = split(text, '\n');
    let ghost trim_line = |line: Seq<char>| trimmed(line);
    let ghost filled = |line: Seq<char>| line.len() > 0;
    let mut lines: Vec<String> = Vec::new();
    let mut i: usize = 0;
    assert(runs(pieces@).take(0).map_values(trim_line) =~= Seq::<Seq<char>>::empty());
    while i < pieces.len()
        invariant
            i <= pieces.len(),
            trim_line == (|line: Seq<char>| trimmed(line)),
            filled == (|line: Seq<char>| line.len() > 0),
            texts(lines@) == runs(pieces@).take(i as int).map_values(trim_line).filter(filled),
        decreases pieces.len() - i,
    {
        let line = trim(pieces[i].as_slice());
        proof {
            let before = runs(pieces@).take(i as int).map_values(trim_line);
            assert(runs(pieces@).take(i + 1).map_values(trim_line) =~= before.push(line@));
            before.lemma_filter_push(line@, filled);
        }
        if line.len() > 0 {
            let ghost earlier = texts(lines@);
            lines.push(string_of(line));
            assert(texts(lines@) =~= earlier.push(line@));
        }
        i += 1;
    }
    assert(runs(pieces@).take(pieces.len() as int) =~= runs(pieces@));
    lines
}

/// The candidate share links of a payload: its trimmed, non-empty lines,
/// after unwrapping base64 where the payload itself holds no `://` and
/// holds a text in base64.
pub fn extract_subscription_lines(bytes: &[u8]) -> (lines: Vec<String>)
    ensures
        texts(lines@) == subscription_lines(bytes@),
{
    let text = decode_lossy(bytes);
    let chars = chars_of(text.as_str());
    let raw = trim(chars.as_slice());
    if contains_word(raw, "://") {
        return lines_of(raw);
    }
    match decode_base64_text(raw) {
        Some(decoded) => lines_of(decoded.as_slice()),
        None => lines_of(raw),
    }
}

/// The record that a line decodes to: what the first of the Shadowsocks,
/// VMess, VLess and Trojan decoders that accepts the line makes of it.
pub open spec fn link_record(line: Seq<char>) -> Option<ProxyRecordView> {
    match shadowsocks_link(line) {
        Some(r) => Some(ProxyRecordView::Shadowsocks(r)),
        None => match vmess_link(line) {
            Some(r) => Some(ProxyRecordView::Vmess(r)),
            None => match vless_link(line) {
                Some(r) => Some(ProxyRecordView::Vless(r)),
                None => match trojan_link(line) {
                    Some(r) => Some(ProxyRecordView::Trojan(r)),
                    None => None,
                },
            },
        },
    }
}

/// The records of the lines that decode, in order.
pub open spec fn line_records(lines: Seq<Seq<char>>) -> Seq<ProxyRecordView> {
    lines.filter_map(|line: Seq<char>| link_record(line))
}

/// True when every record has a name.
pub open spec fn all_named(records: Seq<ProxyRecordView>) -> bool {
    forall|i: int| 0 <= i < records.len() ==> (#[trigger] records[i]).well_formed()
}

/// Decodes one line by the first decoder that accepts it.
pub fn decode_link(line: &str) -> (record: Option<ProxyRecord>)
    ensures
        match record {
            Some(r) => link_record(line@) == Some(r@) && r@.well_formed(),
            None => link_record(line@) is None,
        },
{
    if let Some(r) = parse_ss_url(line) {
        return Some(ProxyRecord::Shadowsocks(r));
    }
    if let Some(r) = parse_vmess_url(line) {
        return Some(ProxyRecord::Vmess(r));
    }
    if let Some(r) = parse_vless_url(line) {
        return Some(ProxyRecord::Vless(r));
    }
    if let Some(r) = parse_trojan_url(line) {
        return Some(ProxyRecord::Trojan(r));
    }
    None
}

/// Decodes each line, leaving out those that no decoder accepts.
pub fn decode_lines(lines: &Vec<String>) -> (records: Vec<ProxyRecord>)
    ensures
        record_views(records@) == line_records(texts(lines@)),
        all_named(record_views(records@)),
{
    let ghost decode = |line: Seq<char>| link_record(line);
    let mut records: Vec<ProxyRecord> = Vec::new();
    let mut i: usize = 0;
    assert(texts(lines@).take(0) =~= Seq::<Seq<char>>::empty());
    while i < lines.len()
        invariant
            i <= lines.len(),
            decode == (|line: Seq<char>| link_record(line)),
            record_views(records@) == texts(lines@).take(i as int).filter_map(decode),
            all_named(record_views(records@)),
        decreases lines.len() - i,
    {
        proof {
            texts(lines@).lemma_filter_map_take_succ(decode, i as int);
        }
        let ghost earlier = record_views(records@);
        match decode_link(lines[i].as_str()) {
            Some(r) => {
                records.push(r);
                assert(record_views(records@) =~= earlier.push(r@));
                assert(record_views(records@) =~= earlier + seq![r@]);
            },
            None => {
                assert(earlier + Seq::<ProxyRecordView>::empty() =~= earlier);
            },
        }
        i += 1;
    }
    assert(texts(lines@).take(lines.len() as int) =~= texts(lines@));
    records
}

/// The records of a payload of share links.
pub open spec fn subscription_records(bytes: Seq<u8>) -> Seq<ProxyRecordView> {
    line_records(subscription_lines(bytes))
}

/// Decodes a payload of share links. Lines that no decoder accepts are left
/// out, so a payload without any link gives no record.
pub fn parse_raw_subscription(bytes: &[u8]) -> (records: Vec<ProxyRecord>)
    ensures
        record_views(records@) == subscription_records(bytes@),
        all_named(record_views(records@)),
{
    let lines = extract_subscription_lines(bytes);
    decode_lines(&lines)
}

} // verus!
