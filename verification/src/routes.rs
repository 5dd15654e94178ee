//! Routes: the groups of the daemon among whose members a choice is made,
//! as the interface lists them.

use crate::clash_types::{Proxy, ProxyType};
use crate::mode::Mode;
use crate::order::{arranged, lemma_arranged, lemma_slot, ordered, precedes, slot, text_before};
use crate::text::{opt_text, same_text, texts};
use vstd::prelude::*;
use vstd::string::StringExecFns;
use vstd::string::StringSliceAdditionalSpecFns;
use vstd::utf8::{decode_utf8, encode_utf8, is_char_boundary};

verus! {

/// A group as the interface lists it.
#[derive(Debug, Clone)]
pub struct HumanRoute {
    pub name: String,
    pub proxy_type: ProxyType,
    /// The member that the group routes through.
    pub current_node: Option<String>,
    pub all_nodes: Vec<String>,
    pub node_count: usize,
}

pub struct HumanRouteView {
    pub name: Seq<char>,
    pub proxy_type: ProxyType,
    pub current_node: Option<Seq<char>>,
    pub all_nodes: Seq<Seq<char>>,
    pub node_count: usize,
}

impl View for HumanRoute {
    type V = HumanRouteView;

    open spec fn view(&self) -> HumanRouteView {
        HumanRouteView {
            name: self.name@,
            proxy_type: self.proxy_type,
            current_node: opt_text(self.current_node),
            all_nodes: texts(self.all_nodes@),
            node_count: self.node_count,
        }
    }
}

/// The views of a list of routes.
pub open spec fn route_views(routes: Seq<HumanRoute>) -> Seq<HumanRouteView> {
    routes.map_values(|r: HumanRoute| r@)
}

/// The members of a proxy; none where it names none.
pub open spec fn members_of(proxy: Proxy) -> Seq<Seq<char>> {
    match proxy.all {
        Some(all) => texts(all@),
        None => Seq::empty(),
    }
}

/// The route that a named proxy is listed as: a group among whose members a
/// choice is made, unless it has no member and routes through nothing.
pub open spec fn route_of(entry: (String, Proxy)) -> Option<HumanRouteView> {
    let proxy = entry.1;
    if proxy.proxy_type.is_route() && !(members_of(proxy).len() == 0 && proxy.now is None) {
        Some(
            HumanRouteView {
                name: entry.0@,
                proxy_type: proxy.proxy_type,
                current_node: opt_text(proxy.now),
                all_nodes: members_of(proxy),
                node_count: members_of(proxy).len() as usize,
            },
        )
    } else {
        None
    }
}

/// The key that routes are ordered by: `GLOBAL` first, the others by name.
pub open spec fn route_key(name: Seq<char>) -> Seq<char> {
    if name == "GLOBAL"@ {
        seq!['\0']
    } else {
        seq!['\u{1}'] + name
    }
}

/// The key of a route.
pub open spec fn by_route() -> spec_fn(HumanRouteView) -> Seq<char> {
    |r: HumanRouteView| route_key(r.name)
}

/// The routes of the proxies, `GLOBAL` first and the others by name.
pub open spec fn routes_of(proxies: Seq<(String, Proxy)>) -> Seq<HumanRouteView> {
    arranged(proxies.filter_map(|e: (String, Proxy)| route_of(e)), by_route())
}

/// `GLOBAL` stands before every other route, and two others stand as their
/// names do.
pub proof fn lemma_route_key(a: Seq<char>, b: Seq<char>)
    ensures
        text_before(route_key(a), route_key(b)) == if a == "GLOBAL"@ {
            b != "GLOBAL"@
        } else {
            b != "GLOBAL"@ && text_before(a, b)
        },
{
    reveal_with_fuel(text_before, 3);
    let x = route_key(a);
    let y = route_key(b);
    assert('\0' < '\u{1}');
    if a != "GLOBAL"@ && b != "GLOBAL"@ {
        assert(x.drop_first() =~= a);
        assert(y.drop_first() =~= b);
    } else if a == "GLOBAL"@ && b == "GLOBAL"@ {
        assert(x.drop_first() =~= Seq::<char>::empty());
    } else if a == "GLOBAL"@ {
        assert(x[0] < y[0]);
    } else {
        assert(y[0] < x[0]);
    }
}

/// Whether the route called `a` stands before the route called `b`.
fn route_precedes(a: &str, b: &str) -> (yes: bool)
    ensures
        yes == text_before(route_key(a@), route_key(b@)),
{
    proof {
        lemma_route_key(a@, b@);
    }
    if same_text(a, "GLOBAL") {
        !same_text(b, "GLOBAL")
    } else if same_text(b, "GLOBAL") {
        false
    } else {
        precedes(a, b)
    }
}

/// Puts a route into a list in order, behind the routes that do not stand
/// after it.
fn insert_route(list: &mut Vec<HumanRoute>, route: HumanRoute)
    ensures
        route_views(final(list)@) == route_views(old(list)@).insert(
            slot(route_views(old(list)@), by_route(), route@),
            route@,
        ),
{
    let mut at: usize = 0;
    while at < list.len() && !route_precedes(route.name.as_str(), list[at].name.as_str())
        invariant
            at <= list.len(),
            *list == *old(list),
            forall|k: int|
                0 <= k < at ==> !text_before(
                    by_route()(route@),
                    by_route()(#[trigger] route_views(list@)[k]),
                ),
        decreases list.len() - at,
    {
        at += 1;
    }
    proof {
        lemma_slot(route_views(list@), by_route(), route@, at as int);
    }
    let ghost before = route_views(list@);
    list.insert(at, route);
    assert(route_views(list@) =~= before.insert(at as int, route@));
}

/// The first bytes of a text, read as text.
pub open spec fn byte_prefix(text: Seq<char>, bytes: int) -> Seq<char> {
    decode_utf8(encode_utf8(text).subrange(0, bytes))
}

/// A text cut for display: as it is where it takes at most `limit` bytes,
/// else its first `limit - 3` bytes and three dots.
pub open spec fn shortened(text: Seq<char>, limit: int) -> Seq<char> {
    if encode_utf8(text).len() > limit {
        byte_prefix(text, limit - 3) + "..."@
    } else {
        text
    }
}

/// True when a text can be cut for display: it is short enough, or no
/// character straddles the cut.
pub open spec fn can_shorten(text: Seq<char>, limit: int) -> bool {
    encode_utf8(text).len() > limit ==> is_char_boundary(encode_utf8(text), limit - 3)
}

/// Cuts a text for display.
fn shorten(text: &str, limit: usize) -> (out: String)
    requires
        limit >= 3,
        can_shorten(text@, limit as int),
    ensures
        out@ == shortened(text@, limit as int),
{
    if text.as_bytes().len() > limit {
        let parts = text.split_at(limit - 3);
        let head = parts.0;
        proof {
            vstd::utf8::encode_utf8_decode_utf8(head@);
            assert(head.spec_bytes() == encode_utf8(head@));
            assert(head.spec_bytes() == encode_utf8(text@).subrange(0, limit - 3));
        }
        let out = head.to_owned().concat("...");
        assert(out@ == byte_prefix(text@, limit - 3) + "..."@);
        out
    } else {
        text.to_owned()
    }
}

impl HumanRoute {
    /// The routes of the proxies of the daemon: every group among whose
    /// members a choice is made, `GLOBAL` first and the others by name.
    pub fn from_proxies(proxies: &Vec<(String, Proxy)>, _mode: Mode) -> (routes: Vec<HumanRoute>)
        ensures
            route_views(routes@) == routes_of(proxies@),
            ordered(route_views(routes@), by_route()),
    {
        let ghost pick = |e: (String, Proxy)| route_of(e);
        let mut routes: Vec<HumanRoute> = Vec::new();
        let mut i: usize = 0;
        assert(proxies@.take(0) =~= Seq::<(String, Proxy)>::empty());
        assert(route_views(routes@) =~= Seq::<HumanRouteView>::empty());
        while i < proxies.len()
            invariant
                i <= proxies.len(),
                pick == (|e: (String, Proxy)| route_of(e)),
                route_views(routes@) == arranged(
                    proxies@.take(i as int).filter_map(pick),
                    by_route(),
                ),
            decreases proxies.len() - i,
        {
            proof {
                proxies@.lemma_filter_map_take_succ(pick, i as int);
            }
            let ghost listed = proxies@.take(i as int).filter_map(pick);
            let name = &proxies[i].0;
            let proxy = &proxies[i].1;
            if proxy.proxy_type.routes() {
                let all_nodes: Vec<String> = match &proxy.all {
                    Some(all) => all.clone(),
                    None => Vec::new(),
                };
                assert(texts(all_nodes@) =~= members_of(*proxy));
                if !(all_nodes.len() == 0 && proxy.now.is_none()) {
                    let route = HumanRoute {
                        name: name.clone(),
                        proxy_type: proxy.proxy_type,
                        current_node: proxy.now.clone(),
                        node_count: all_nodes.len(),
                        all_nodes,
                    };
                    assert(Some(route@) == route_of(proxies@[i as int]));
                    assert((listed + seq![route@]).drop_last() =~= listed);
                    insert_route(&mut routes, route);
                } else {
                    assert(listed + Seq::<HumanRouteView>::empty() =~= listed);
                }
            } else {
                assert(listed + Seq::<HumanRouteView>::empty() =~= listed);
            }
            i += 1;
        }
        proof {
            assert(proxies@.take(proxies.len() as int) =~= proxies@);
            lemma_arranged(proxies@.filter_map(pick), by_route());
        }
        routes
    }

    /// The name as shown: cut to 37 bytes and three dots where it takes
    /// more than 40.
    pub fn display_name(&self) -> (text: String)
        requires
            can_shorten(self@.name, 40),
        ensures
            text@ == shortened(self@.name, 40),
    {
        shorten(self.name.as_str(), 40)
    }

    /// The current node as shown: cut to 27 bytes and three dots where it
    /// takes more than 30, and `None` where there is no current node.
    pub fn current_display(&self) -> (text: String)
        requires
            self@.current_node matches Some(node) ==> can_shorten(node, 30),
        ensures
            text@ == match self@.current_node {
                Some(node) => shortened(node, 30),
                None => "None"@,
            },
    {
        match &self.current_node {
            Some(node) => shorten(node.as_str(), 30),
            None => "None".to_owned(),
        }
    }
}

} // verus!
