//! Shadowsocks links: `ss://userinfo@host:port?plugin=..#name`, the user
//! information or the whole authority optionally in base64.

use crate::codec::{base64_decoded, decode_base64_chars, strict_text};
use crate::options::{display_name, name_proxy};
use crate::record::{ShadowsocksRecord, ShadowsocksView};
use crate::text::{
    chars_of, cut_at_first, cut_at_last, cut_first, cut_last, decimal_u16, find, opt_text,
    parse_u16, same_chars, starts_with, string_of, trim, trimmed,
};
use crate::uri::{form_pairs, pair_texts, parse_form};
use vstd::prelude::*;
use vstd::utf8::{decode_utf8, encode_utf8, valid_utf8};

verus! {

/// The text that a base64 text holds, where it decodes to well-formed UTF-8.
pub open spec fn base64_text(input: Seq<char>) -> Option<Seq<char>> {
    match base64_decoded(input) {
        Some(bytes) => if valid_utf8(bytes) {
            Some(decode_utf8(bytes))
        } else {
            None
        },
        None => None,
    }
}

/// Decodes a base64 text that holds text.
pub fn decode_base64_text(input: &[char]) -> (out: Option<Vec<char>>)
    ensures
        match out {
            Some(t) => base64_text(input@) == Some(t@),
            None => base64_text(input@) is None,
        },
{
    match decode_base64_chars(input) {
        Some(bytes) => match strict_text(bytes) {
            Some(t) => Some(chars_of(t.as_str())),
            None => None,
        },
        None => None,
    }
}

/// The plugin and the plugin options that the pairs of a query name. Of a
/// `plugin` value the part before the first `;` is the plugin, unless it is
/// empty, and the part after it the options; a later pair replaces what an
/// earlier one gave.
pub open spec fn plugin_of(pairs: Seq<(Seq<char>, Seq<char>)>) -> (
    Option<Seq<char>>,
    Option<Seq<char>>,
)
    decreases pairs.len(),
{
    if pairs.len() == 0 {
        (None, None)
    } else {
        let earlier = plugin_of(pairs.drop_last());
        if pairs.last().0 == "plugin"@ {
            let (first, rest) = cut_first(pairs.last().1, ';');
            (
                if first.len() > 0 {
                    Some(first)
                } else {
                    earlier.0
                },
                if rest is Some {
                    rest
                } else {
                    earlier.1
                },
            )
        } else {
            earlier
        }
    }
}

/// Reads the plugin and its options from the pairs of a query.
pub fn read_plugin(pairs: &Vec<(String, String)>) -> (found: (Option<String>, Option<String>))
    ensures
        (opt_text(found.0), opt_text(found.1)) == plugin_of(pair_texts(pairs@)),
{
    let mut plugin: Option<String> = None;
    let mut options: Option<String> = None;
    let key = chars_of("plugin");
    let mut i: usize = 0;
    assert(pair_texts(pairs@).take(0) =~= Seq::<(Seq<char>, Seq<char>)>::empty());
    while i < pairs.len()
        invariant
            i <= pairs.len(),
            key@ == "plugin"@,
            (opt_text(plugin), opt_text(options)) == plugin_of(pair_texts(pairs@).take(i as int)),
        decreases pairs.len() - i,
    {
        let ghost upto = pair_texts(pairs@).take(i + 1);
        assert(upto.drop_last() =~= pair_texts(pairs@).take(i as int));
        assert(upto.last() == (pairs@[i as int].0@, pairs@[i as int].1@));
        let name = chars_of(pairs[i].0.as_str());
        if same_chars(name.as_slice(), key.as_slice()) {
            let value = chars_of(pairs[i].1.as_str());
            let (first, rest) = cut_at_first(value.as_slice(), ';');
            if first.len() > 0 {
                plugin = Some(string_of(first));
            }
            match rest {
                Some(r) => {
                    options = Some(string_of(r));
                },
                None => {},
            }
        }
        i += 1;
    }
    assert(pair_texts(pairs@).take(pairs.len() as int) =~= pair_texts(pairs@));
    (plugin, options)
}

/// The user information and the host with its port: the parts around the
/// last `@`, looked for in the text itself and else in what the text holds
/// in base64.
pub open spec fn authority_of(content: Seq<char>) -> Option<(Seq<char>, Seq<char>)> {
    match cut_last(content, '@') {
        Some(parts) => Some(parts),
        None => match base64_text(content) {
            Some(decoded) => cut_last(decoded, '@'),
            None => None,
        },
    }
}

/// The cipher and the password: the parts around the first `:`, looked for
/// in the user information itself and else in what it holds in base64.
pub open spec fn credentials_of(userinfo: Seq<char>) -> Option<(Seq<char>, Seq<char>)> {
    if userinfo.contains(':') {
        Some((cut_first(userinfo, ':').0, cut_first(userinfo, ':').1->0))
    } else {
        match base64_text(userinfo) {
            Some(decoded) => if decoded.contains(':') {
                Some((cut_first(decoded, ':').0, cut_first(decoded, ':').1->0))
            } else {
                None
            },
            None => None,
        }
    }
}

/// The server and the port. An address in brackets ends at the first `]`,
/// one ASCII character is passed over, and the rest is the port; any other
/// host ends at the last `:`.
pub open spec fn endpoint_of(hostport: Seq<char>) -> Option<(Seq<char>, u16)> {
    if hostport.len() > 0 && hostport[0] == '[' {
        match hostport.index_of_first(']') {
            Some(end) => if 0 < end && end + 1 < hostport.len() && (hostport[end + 1] as u32)
                < 0x80 {
                match decimal_u16(hostport.skip(end + 2)) {
                    Some(port) => Some((hostport.subrange(1, end), port)),
                    None => None,
                }
            } else {
                None
            },
            None => None,
        }
    } else {
        match cut_last(hostport, ':') {
            Some((host, digits)) => match decimal_u16(digits) {
                Some(port) => Some((host, port)),
                None => None,
            },
            None => None,
        }
    }
}

/// The record that a Shadowsocks link decodes to, `None` for a text that is
/// no such link.
pub open spec fn shadowsocks_link(line: Seq<char>) -> Option<ShadowsocksView> {
    let link = trimmed(line);
    if "ss://"@.is_prefix_of(link) {
        let (rest, fragment) = cut_first(link.skip("ss://"@.len() as int), '#');
        let (content, query) = cut_first(rest, '?');
        let plugin = match query {
            Some(q) => plugin_of(form_pairs(encode_utf8(q))),
            None => (None, None),
        };
        match authority_of(content) {
            Some((userinfo, hostport)) => match (
                credentials_of(userinfo),
                endpoint_of(hostport),
            ) {
                (Some((cipher, password)), Some((server, port))) => Some(
                    ShadowsocksView {
                        name: display_name(fragment, server, port),
                        server,
                        port,
                        cipher,
                        password,
                        plugin: plugin.0,
                        plugin_opts: plugin.1,
                    },
                ),
                _ => None,
            },
            None => None,
        }
    } else {
        None
    }
}

fn read_authority(content: &[char]) -> (parts: Option<(Vec<char>, Vec<char>)>)
    ensures
        match parts {
            Some((user, host)) => authority_of(content@) == Some((user@, host@)),
            None => authority_of(content@) is None,
        },
{
    match cut_at_last(content, '@') {
        Some((user, host)) => Some((vstd::slice::slice_to_vec(user), vstd::slice::slice_to_vec(host))),
        None => match decode_base64_text(content) {
            Some(decoded) => match cut_at_last(decoded.as_slice(), '@') {
                Some((user, host)) => Some(
                    (vstd::slice::slice_to_vec(user), vstd::slice::slice_to_vec(host)),
                ),
                None => None,
            },
            None => None,
        },
    }
}

fn split_credentials(text: &[char]) -> (parts: Option<(String, String)>)
    ensures
        match parts {
            Some((cipher, password)) => text@.contains(':') && cipher@ == cut_first(
                text@,
                ':',
            ).0 && Some(password@) == cut_first(text@, ':').1,
            None => !text@.contains(':'),
        },
{
    proof {
        text@.index_of_first_ensures(':');
    }
    match cut_at_first(text, ':') {
        (cipher, Some(password)) => Some((string_of(cipher), string_of(password))),
        (_, None) => None,
    }
}

fn read_credentials(userinfo: &[char]) -> (parts: Option<(String, String)>)
    ensures
        match parts {
            Some((cipher, password)) => credentials_of(userinfo@) == Some(
                (cipher@, password@),
            ),
            None => credentials_of(userinfo@) is None,
        },
{
    match split_credentials(userinfo) {
        Some(parts) => Some(parts),
        None => match decode_base64_text(userinfo) {
            Some(decoded) => split_credentials(decoded.as_slice()),
            None => None,
        },
    }
}

fn read_endpoint(hostport: &[char]) -> (parts: Option<(String, u16)>)
    ensures
        match parts {
            Some((server, port)) => endpoint_of(hostport@) == Some((server@, port)),
            None => endpoint_of(hostport@) is None,
        },
{
    if hostport.len() > 0 && hostport[0] == '[' {
        proof {
            hostport@.index_of_first_ensures(']');
        }
        match find(hostport, ']') {
            Some(end) => {
                if end + 1 < hostport.len() && (hostport[end + 1] as u32) < 0x80 {
                    match parse_u16(&hostport[end + 2..hostport.len()]) {
                        Some(port) => Some((string_of(&hostport[1..end]), port)),
                        None => None,
                    }
                } else {
                    None
                }
            },
            None => None,
        }
    } else {
        match cut_at_last(hostport, ':') {
            Some((host, digits)) => match parse_u16(digits) {
                Some(port) => Some((string_of(host), port)),
                None => None,
            },
            None => None,
        }
    }
}

/// Decodes a Shadowsocks link.
pub fn parse_ss_url(line: &str) -> (record: Option<ShadowsocksRecord>)
    ensures
        match record {
            Some(r) => shadowsocks_link(line@) == Some(r@) && r@.name.len() > 0,
            None => shadowsocks_link(line@) is None,
        },
{
    let chars = chars_of(line);
    let link = trim(chars.as_slice());
    let scheme = chars_of("ss://");
    proof {
        reveal_strlit("ss://");
    }
    if !starts_with(link, scheme.as_slice()) {
        return None;
    }
    let (rest, fragment) = cut_at_first(&link[5..link.len()], '#');
    let (content, query) = cut_at_first(rest, '?');
    let plugin = match query {
        Some(q) => {
            let text = string_of(q);
            let pairs = parse_form(text.as_str().as_bytes());
            read_plugin(&pairs)
        },
        None => (None, None),
    };
    let (userinfo, hostport) = match read_authority(content) {
        Some(parts) => parts,
        None => {
            return None;
        },
    };
    let (cipher, password) = match read_credentials(userinfo.as_slice()) {
        Some(parts) => parts,
        None => {
            return None;
        },
    };
    let (server, port) = match read_endpoint(hostport.as_slice()) {
        Some(parts) => parts,
        None => {
            return None;
        },
    };
    let name = match fragment {
        Some(f) => {
            let text = string_of(f);
            name_proxy(Some(text.as_str()), server.as_str(), port)
        },
        None => name_proxy(None, server.as_str(), port),
    };
    Some(
        ShadowsocksRecord {
            name,
            server,
            port,
            cipher,
            password,
            plugin: plugin.0,
            plugin_opts: plugin.1,
        },
    )
}

} // verus!
