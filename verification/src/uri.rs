//! What the decoders read of a URL and of a query string.

use crate::text::{chars_of, opt_text, same_chars};
use vstd::prelude::*;

verus! {

/// The components of an absolute URL that the link decoders read.
#[derive(Debug, Clone)]
pub struct UrlParts {
    pub scheme: String,
    pub username: String,
    pub host: Option<String>,
    pub port: Option<u16>,
    pub query: Option<String>,
    pub fragment: Option<String>,
}

/// The mathematical value of [`UrlParts`].
pub struct UrlPartsView {
    pub scheme: Seq<char>,
    pub username: Seq<char>,
    pub host: Option<Seq<char>>,
    pub port: Option<u16>,
    pub query: Option<Seq<char>>,
    pub fragment: Option<Seq<char>>,
}

impl View for UrlParts {
    type V = UrlPartsView;

    open spec fn view(&self) -> UrlPartsView {
        UrlPartsView {
            scheme: self.scheme@,
            username: self.username@,
            host: opt_text(self.host),
            port: self.port,
            query: opt_text(self.query),
            fragment: opt_text(self.fragment),
        }
    }
}

/// The components that `url::Url::parse` finds in a text, as its accessors
/// `scheme`, `username`, `host_str`, `port`, `query` and `fragment` give
/// them, or `None` where it reports an error.
pub uninterp spec fn url_parts(input: Seq<char>) -> Option<UrlPartsView>;

/// The name and value pairs that `form_urlencoded::parse` yields for a byte
/// text, in order.
pub uninterp spec fn form_pairs(input: Seq<u8>) -> Seq<(Seq<char>, Seq<char>)>;

/// The texts of a list of pairs of strings.
pub open spec fn pair_texts(pairs: Seq<(String, String)>) -> Seq<(Seq<char>, Seq<char>)> {
    pairs.map_values(|p: (String, String)| (p.0@, p.1@))
}

/// `url::Url::parse`, with the accessors' results moved into [`UrlParts`].
#[verifier::external_body]
pub(crate) fn parse_url(input: &str) -> (parts: Option<UrlParts>)
    ensures
        match parts {
            Some(p) => url_parts(input@) == Some(p@),
            None => url_parts(input@) is None,
        },
{
    let url = url::Url::parse(input).ok()?;
    Some(
        UrlParts {
            scheme: url.scheme().to_owned(),
            username: url.username().to_owned(),
            host: url.host_str().map(str::to_owned),
            port: url.port(),
            query: url.query().map(str::to_owned),
            fragment: url.fragment().map(str::to_owned),
        },
    )
}

/// `form_urlencoded::parse`, with the pairs collected in order.
#[verifier::external_body]
pub(crate) fn parse_form(input: &[u8]) -> (pairs: Vec<(String, String)>)
    ensures
        pair_texts(pairs@) == form_pairs(input@),
{
    url::form_urlencoded::parse(input).into_owned().collect()
}

/// The value of the last pair named `key`.
pub open spec fn last_value(pairs: Seq<(Seq<char>, Seq<char>)>, key: Seq<char>) -> Option<
    Seq<char>,
>
    decreases pairs.len(),
{
    if pairs.len() == 0 {
        None
    } else if pairs.last().0 == key {
        Some(pairs.last().1)
    } else {
        last_value(pairs.drop_last(), key)
    }
}

/// The value of the last pair named `key`: what a map filled from the pairs
/// in order holds under `key`.
pub fn lookup(pairs: &Vec<(String, String)>, key: &str) -> (value: Option<String>)
    ensures
        opt_text(value) == last_value(pair_texts(pairs@), key@),
{
    let wanted = chars_of(key);
    let mut i: usize = pairs.len();
    assert(pair_texts(pairs@).take(i as int) =~= pair_texts(pairs@));
    while i > 0
        invariant
            i <= pairs.len(),
            wanted@ == key@,
            last_value(pair_texts(pairs@), key@) == last_value(
                pair_texts(pairs@).take(i as int),
                key@,
            ),
        decreases i,
    {
        let ghost prefix = pair_texts(pairs@).take(i as int);
        i -= 1;
        let name = chars_of(pairs[i].0.as_str());
        assert(prefix.last() == (pairs@[i as int].0@, pairs@[i as int].1@));
        assert(prefix.drop_last() =~= pair_texts(pairs@).take(i as int));
        if same_chars(name.as_slice(), wanted.as_slice()) {
            return Some(pairs[i].1.clone());
        }
    }
    None
}

/// The first of two optional values that is present.
pub open spec fn or_else(first: Option<Seq<char>>, second: Option<Seq<char>>) -> Option<
    Seq<char>,
> {
    if first is Some {
        first
    } else {
        second
    }
}

/// The value under `key`, or else the value under `alias`.
pub fn lookup_either(pairs: &Vec<(String, String)>, key: &str, alias: &str) -> (value: Option<
    String,
>)
    ensures
        opt_text(value) == or_else(
            last_value(pair_texts(pairs@), key@),
            last_value(pair_texts(pairs@), alias@),
        ),
{
    match lookup(pairs, key) {
        Some(v) => Some(v),
        None => lookup(pairs, alias),
    }
}

} // verus!
