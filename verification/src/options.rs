//! Rules that the link decoders share: boolean words, display names, ALPN
//! lists and transport options.

use crate::codec::{percent_decode, percent_decoded_text};
use crate::record::{opt_texts, Transport, TransportView};
use crate::text::{
    ascii_lowered, chars_of, decimal_text, opt_str, opt_text, push_decimal, runs, spells, split,
    split_on, string_of, texts, to_ascii_lower, trim, trimmed,
};
use vstd::prelude::*;

verus! {

/// The truth value that a word stands for, letter case aside: `1`, `true`,
/// `yes` and `on` are true, `0`, `false`, `no` and `off` are false, and any
/// other word is not recognized.
pub open spec fn bool_word(word: Seq<char>) -> Option<bool> {
    let w = ascii_lowered(word);
    if w == "1"@ || w == "true"@ || w == "yes"@ || w == "on"@ {
        Some(true)
    } else if w == "0"@ || w == "false"@ || w == "no"@ || w == "off"@ {
        Some(false)
    } else {
        None
    }
}

/// Reads a boolean word.
pub fn parse_bool(value: &str) -> (flag: Option<bool>)
    ensures
        flag == bool_word(value@),
{
    let chars = chars_of(value);
    let lowered = to_ascii_lower(chars.as_slice());
    let w = lowered.as_slice();
    if spells(w, "1") || spells(w, "true") || spells(w, "yes") || spells(w, "on") {
        Some(true)
    } else if spells(w, "0") || spells(w, "false") || spells(w, "no") || spells(w, "off") {
        Some(false)
    } else {
        None
    }
}

/// True for an option that is present and a word for "true".
pub open spec fn is_set(value: Option<Seq<char>>) -> bool {
    match value {
        Some(word) => bool_word(word) == Some(true),
        None => false,
    }
}

/// Whether an option is present and a word for "true".
pub fn flag_of(value: &Option<String>) -> (flag: bool)
    ensures
        flag == is_set(opt_text(*value)),
{
    match value {
        Some(word) => match parse_bool(word.as_str()) {
            Some(b) => b,
            None => false,
        },
        None => false,
    }
}

/// An optional text, taken as absent where it is empty.
pub open spec fn non_empty(value: Option<Seq<char>>) -> Option<Seq<char>> {
    match value {
        Some(t) => if t.len() > 0 {
            Some(t)
        } else {
            None
        },
        None => None,
    }
}

/// Drops an empty text.
pub fn keep_non_empty(value: Option<String>) -> (kept: Option<String>)
    ensures
        opt_text(kept) == non_empty(opt_text(value)),
{
    match value {
        Some(t) => if t.as_str().is_empty() {
            None
        } else {
            Some(t)
        },
        None => None,
    }
}

/// The name `host:port` that a proxy without a name of its own is given.
pub open spec fn endpoint_name(server: Seq<char>, port: u16) -> Seq<char> {
    server + seq![':'] + decimal_text(port as nat)
}

/// The display name: the percent-decoded fragment where that is not empty,
/// else `host:port`.
pub open spec fn display_name(fragment: Option<Seq<char>>, server: Seq<char>, port: u16) -> Seq<
    char,
> {
    match fragment {
        Some(f) => if percent_decoded_text(f).len() > 0 {
            percent_decoded_text(f)
        } else {
            endpoint_name(server, port)
        },
        None => endpoint_name(server, port),
    }
}

/// Writes `host:port`.
pub fn name_endpoint(server: &str, port: u16) -> (name: String)
    ensures
        name@ == endpoint_name(server@, port),
        name@.len() > 0,
{
    let mut chars = chars_of(server);
    chars.push(':');
    push_decimal(&mut chars, port as u64);
    assert(chars@ =~= endpoint_name(server@, port));
    string_of(chars.as_slice())
}

/// Chooses the display name of a proxy.
pub fn name_proxy(fragment: Option<&str>, server: &str, port: u16) -> (name: String)
    ensures
        name@ == display_name(opt_str(fragment), server@, port),
        name@.len() > 0,
{
    match fragment {
        Some(f) => {
            let decoded = percent_decode(f);
            if decoded.as_str().is_empty() {
                name_endpoint(server, port)
            } else {
                decoded
            }
        },
        None => name_endpoint(server, port),
    }
}

/// The protocols of a comma-separated ALPN list, each without the white
/// space around it.
pub open spec fn alpn_items(list: Seq<char>) -> Seq<Seq<char>> {
    split_on(list, ',').map_values(|piece: Seq<char>| trimmed(piece))
}

/// Splits a comma-separated ALPN list.
pub fn alpn_list(list: &str) -> (items: Vec<String>)
    ensures
        texts(items@) == alpn_items(list@),
{
    let chars = chars_of(list);
    let pieces = split(chars.as_slice(), ',');
    let mut items: Vec<String> = Vec::new();
    let mut i: usize = 0;
    while i < pieces.len()
        invariant
            i <= pieces.len(),
            items@.len() == i,
            forall|k: int| 0 <= k < i ==> items@[k]@ == trimmed(pieces@[k]@),
        decreases pieces.len() - i,
    {
        let item = string_of(trim(pieces[i].as_slice()));
        items.push(item);
        i += 1;
    }
    assert(texts(items@) =~= runs(pieces@).map_values(|piece: Seq<char>| trimmed(piece)));
    items
}

/// The ALPN list of an option that may be absent.
pub open spec fn opt_alpn(value: Option<Seq<char>>) -> Option<Seq<Seq<char>>> {
    match value {
        Some(list) => Some(alpn_items(list)),
        None => None,
    }
}

/// Splits an optional ALPN list.
pub fn alpn_of(value: &Option<String>) -> (items: Option<Vec<String>>)
    ensures
        opt_texts(items) == opt_alpn(opt_text(*value)),
{
    match value {
        Some(list) => Some(alpn_list(list.as_str())),
        None => None,
    }
}

/// The transport options of a link: for the network `ws` the path and the
/// host, for `grpc` the service name, for any other network none.
pub open spec fn transport_for(
    network: Option<Seq<char>>,
    path: Option<Seq<char>>,
    host: Option<Seq<char>>,
    service_name: Option<Seq<char>>,
) -> TransportView {
    if network == Some("ws"@) {
        TransportView::Ws { path, host }
    } else if network == Some("grpc"@) {
        TransportView::Grpc { service_name }
    } else {
        TransportView::Plain
    }
}

/// Chooses the transport options by the network.
pub fn choose_transport(
    network: &Option<String>,
    path: Option<String>,
    host: Option<String>,
    service_name: Option<String>,
) -> (transport: Transport)
    ensures
        transport@ == transport_for(
            opt_text(*network),
            opt_text(path),
            opt_text(host),
            opt_text(service_name),
        ),
{
    match network {
        Some(n) => {
            let chars = chars_of(n.as_str());
            if spells(chars.as_slice(), "ws") {
                Transport::Ws { path, host }
            } else if spells(chars.as_slice(), "grpc") {
                Transport::Grpc { service_name }
            } else {
                Transport::Plain
            }
        },
        None => Transport::Plain,
    }
}

} // verus!
