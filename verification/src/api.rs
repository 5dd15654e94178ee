//! How the daemon's control interface is addressed, and where the
//! application keeps its own trace.

use crate::text::{
    ascii_lowered, chars_of, decimal_text, opt_str, opt_text, push_decimal, push_word, same_text,
    spells, string_of, to_ascii_lower, trim, trimmed,
};
use vstd::prelude::*;
use vstd::string::StringExecFns;

verus! {

/// The address that the application talks to unless it is told another.
pub open spec fn default_address() -> Seq<char> {
    "http://127.0.0.1:9090"@
}

/// The address that the command line asks for: none where it names the
/// default one.
pub fn cli_address(given: &str) -> (address: Option<String>)
    ensures
        opt_text(address) == if given@ == default_address() {
            None
        } else {
            Some(given@)
        },
{
    if same_text(given, "http://127.0.0.1:9090") {
        None
    } else {
        Some(given.to_owned())
    }
}

/// The value of the `Authorization` header: the secret as a bearer token,
/// and nothing without a secret.
pub fn auth_header(secret: &Option<String>) -> (header: Option<String>)
    ensures
        opt_text(header) == match secret {
            Some(s) => Some("Bearer "@ + s@),
            None => None,
        },
{
    match secret {
        Some(s) => Some("Bearer ".to_owned().concat(s.as_str())),
        None => None,
    }
}

/// The address of a path of the control interface.
pub fn endpoint(base_url: &str, path: &str) -> (url: String)
    ensures
        url@ == base_url@ + path@,
{
    base_url.to_owned().concat(path)
}

/// The parameters of a delay test, as they follow the `?`.
pub open spec fn delay_params(test_url: Option<Seq<char>>, timeout: Option<u32>) -> Seq<char> {
    match (test_url, timeout) {
        (Some(url), Some(t)) => "url="@ + url + "&timeout="@ + decimal_text(t as nat),
        (Some(url), None) => "url="@ + url,
        (None, Some(t)) => "timeout="@ + decimal_text(t as nat),
        (None, None) => Seq::empty(),
    }
}

/// The path that a delay test of a proxy is asked for under.
pub open spec fn delay_request(
    proxy_name: Seq<char>,
    test_url: Option<Seq<char>>,
    timeout: Option<u32>,
) -> Seq<char> {
    let path = "/proxies/"@ + proxy_name + "/delay"@;
    if test_url is None && timeout is None {
        path
    } else {
        path + "?"@ + delay_params(test_url, timeout)
    }
}

/// Writes the path that a delay test of a proxy is asked for under.
pub fn delay_path(proxy_name: &str, test_url: Option<&str>, timeout: Option<u32>) -> (path: String)
    ensures
        path@ == delay_request(proxy_name@, opt_str(test_url), timeout),
{
    let mut out: Vec<char> = Vec::new();
    push_word(&mut out, "/proxies/");
    push_word(&mut out, proxy_name);
    push_word(&mut out, "/delay");
    let ghost head = out@;
    assert(head =~= "/proxies/"@ + proxy_name@ + "/delay"@);
    if test_url.is_some() || timeout.is_some() {
        push_word(&mut out, "?");
    }
    if let Some(url) = test_url {
        push_word(&mut out, "url=");
        push_word(&mut out, url);
        if timeout.is_some() {
            push_word(&mut out, "&");
        }
    }
    if let Some(t) = timeout {
        push_word(&mut out, "timeout=");
        push_decimal(&mut out, t as u64);
    }
    proof {
        reveal_strlit("&timeout=");
        reveal_strlit("&");
        reveal_strlit("timeout=");
        assert("&timeout="@ =~= "&"@ + "timeout="@);
        assert(out@ =~= delay_request(proxy_name@, opt_str(test_url), timeout));
    }
    string_of(out.as_slice())
}

/// Where the trace goes: to the file that is named, white space around
/// the name aside, or, where the switch is `1`, `true` or `yes` in any
/// case of letters, to `/tmp/clashctl-debug.log`.
pub open spec fn trace_path(file: Option<Seq<char>>, switch: Option<Seq<char>>) -> Option<
    Seq<char>,
> {
    if file is Some && trimmed(file->0).len() > 0 {
        file
    } else {
        match switch {
            Some(word) => {
                let w = ascii_lowered(word);
                if w == "1"@ || w == "true"@ || w == "yes"@ {
                    Some("/tmp/clashctl-debug.log"@)
                } else {
                    None
                }
            },
            None => None,
        }
    }
}

/// Chooses where the trace goes, from the two settings of the environment.
pub fn debug_log_path(file: Option<&str>, switch: Option<&str>) -> (path: Option<String>)
    ensures
        opt_text(path) == trace_path(opt_str(file), opt_str(switch)),
{
    if let Some(name) = file {
        let chars = chars_of(name);
        if trim(chars.as_slice()).len() > 0 {
            return Some(name.to_owned());
        }
    }
    match switch {
        Some(word) => {
            let chars = chars_of(word);
            let lowered = to_ascii_lower(chars.as_slice());
            let w = lowered.as_slice();
            if spells(w, "1") || spells(w, "true") || spells(w, "yes") {
                Some("/tmp/clashctl-debug.log".to_owned())
            } else {
                None
            }
        },
        None => None,
    }
}

} // verus!
