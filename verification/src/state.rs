//! The state of the application, as far as it does not depend on a
//! connection: what is known of the daemon, which delays were measured, and
//! what the status line says.

use crate::clash_types::{ClashMode, Proxy, ProxyType};
use crate::mode::Mode;
use crate::pages::Page;
use crate::preset::Preset;
use crate::routes::{route_views, routes_of, HumanRoute, HumanRouteView};
use crate::settings::{remove_name, without};
use crate::synth::{holds_name, push_once, with_once};
use crate::text::{
    chars_of, decimal_text, opt_text, push_decimal, push_word, same_text, string_of, texts,
};
use crate::theme::Color;
use std::time::Instant;
use vstd::prelude::*;

verus! {

/// `std::time::Instant`, carried through as the time of a measurement.
#[verifier::external_type_specification]
#[verifier::external_body]
pub struct ExInstant(Instant);

/// `Instant` is `Copy`: its clone is the same instant.
pub assume_specification[ <Instant as Clone>::clone ](instant: &Instant) -> (copy: Instant)
    ensures
        copy == *instant,
;

/// The outcome of a delay test, as the background task reports it.
#[derive(Debug, Clone)]
pub struct DelayTestResult {
    pub node: String,
    /// The delay in milliseconds, or nothing for a test that failed.
    pub delay: Option<u32>,
}

/// A measured delay.
#[derive(Debug, Clone)]
pub struct DelayResult {
    /// The delay in milliseconds.
    pub delay: u32,
    pub tested_at: Instant,
}

/// How well the daemon is doing.
#[derive(Debug, Clone, Copy, PartialEq, Eq, Structural)]
pub enum HealthStatus {
    Good,
    Fair,
    Bad,
    Error,
    Unknown,
}

impl HealthStatus {
    /// The label of the status.
    pub open spec fn label(self) -> Seq<char> {
        match self {
            HealthStatus::Good => "Good"@,
            HealthStatus::Fair => "Fair"@,
            HealthStatus::Bad => "Bad"@,
            HealthStatus::Error => "Error"@,
            HealthStatus::Unknown => "Unknown"@,
        }
    }

    /// The colour of the status: green for good, yellow for fair, red for
    /// bad, magenta for an error and gray for what is not known.
    pub open spec fn tint(self) -> Color {
        match self {
            HealthStatus::Good => Color::Green,
            HealthStatus::Fair => Color::Yellow,
            HealthStatus::Bad => Color::Red,
            HealthStatus::Error => Color::Magenta,
            HealthStatus::Unknown => Color::Gray,
        }
    }

    /// The colour of the status.
    pub fn color(&self) -> (color: Color)
        ensures
            color == self.tint(),
    {
        match self {
            HealthStatus::Good => Color::Green,
            HealthStatus::Fair => Color::Yellow,
            HealthStatus::Bad => Color::Red,
            HealthStatus::Error => Color::Magenta,
            HealthStatus::Unknown => Color::Gray,
        }
    }

    /// The label of the status.
    pub fn as_str(&self) -> (label: &'static str)
        ensures
            label@ == self.label(),
    {
        match self {
            HealthStatus::Good => "Good",
            HealthStatus::Fair => "Fair",
            HealthStatus::Bad => "Bad",
            HealthStatus::Error => "Error",
            HealthStatus::Unknown => "Unknown",
        }
    }
}

/// What is known of the daemon.
#[derive(Debug, Clone)]
pub struct ClashState {
    pub mode: ClashMode,
    /// The proxies, each under its name.
    pub proxies: Vec<(String, Proxy)>,
    /// The group that the home page switches.
    pub current_selector: Option<String>,
    /// The member that this group routes through.
    pub current_proxy: Option<String>,
    pub last_update: Instant,
    /// Why the last refresh failed.
    pub error: Option<String>,
}

/// The index of the first proxy called `name`.
pub open spec fn proxy_index(proxies: Seq<(String, Proxy)>, name: Seq<char>) -> Option<int>
    decreases proxies.len(),
{
    if proxies.len() == 0 {
        None
    } else {
        match proxy_index(proxies.drop_last(), name) {
            Some(i) => Some(i),
            None => if proxies.last().0@ == name {
                Some(proxies.len() - 1)
            } else {
                None
            },
        }
    }
}

/// The index of the first proxy that is a selector.
pub open spec fn selector_index(proxies: Seq<(String, Proxy)>) -> Option<int>
    decreases proxies.len(),
{
    if proxies.len() == 0 {
        None
    } else {
        match selector_index(proxies.drop_last()) {
            Some(i) => Some(i),
            None => if proxies.last().1.proxy_type == ProxyType::Selector {
                Some(proxies.len() - 1)
            } else {
                None
            },
        }
    }
}

/// The index of the group that the home page switches: `GLOBAL`, or else
/// the first selector.
pub open spec fn main_selector(proxies: Seq<(String, Proxy)>) -> Option<int> {
    match proxy_index(proxies, "GLOBAL"@) {
        Some(i) => Some(i),
        None => selector_index(proxies),
    }
}

/// The index of the first proxy called `name`.
pub fn find_proxy(proxies: &Vec<(String, Proxy)>, name: &str) -> (at: Option<usize>)
    ensures
        match at {
            Some(i) => proxy_index(proxies@, name@) == Some(i as int) && i < proxies@.len(),
            None => proxy_index(proxies@, name@) is None,
        },
{
    let mut i: usize = 0;
    assert(proxies@.take(0) =~= Seq::<(String, Proxy)>::empty());
    while i < proxies.len()
        invariant
            i <= proxies.len(),
            proxy_index(proxies@.take(i as int), name@) is None,
        decreases proxies.len() - i,
    {
        assert(proxies@.take(i + 1).drop_last() =~= proxies@.take(i as int));
        if same_text(proxies[i].0.as_str(), name) {
            proof {
                lemma_index_of_prefix(proxies@, name@, i + 1);
            }
            return Some(i);
        }
        i += 1;
    }
    assert(proxies@.take(proxies.len() as int) =~= proxies@);
    None
}

/// What a prefix finds, the whole list finds.
proof fn lemma_index_of_prefix(proxies: Seq<(String, Proxy)>, name: Seq<char>, upto: int)
    requires
        0 <= upto <= proxies.len(),
        proxy_index(proxies.take(upto), name) is Some,
    ensures
        proxy_index(proxies, name) == proxy_index(proxies.take(upto), name),
    decreases proxies.len() - upto,
{
    if upto < proxies.len() {
        assert(proxies.take(upto + 1).drop_last() =~= proxies.take(upto));
        lemma_index_of_prefix(proxies, name, upto + 1);
    } else {
        assert(proxies.take(upto) =~= proxies);
    }
}

/// What a prefix finds, the whole list finds.
proof fn lemma_selector_of_prefix(proxies: Seq<(String, Proxy)>, upto: int)
    requires
        0 <= upto <= proxies.len(),
        selector_index(proxies.take(upto)) is Some,
    ensures
        selector_index(proxies) == selector_index(proxies.take(upto)),
    decreases proxies.len() - upto,
{
    if upto < proxies.len() {
        assert(proxies.take(upto + 1).drop_last() =~= proxies.take(upto));
        lemma_selector_of_prefix(proxies, upto + 1);
    } else {
        assert(proxies.take(upto) =~= proxies);
    }
}

/// The index of the first proxy that is a selector.
pub fn find_selector(proxies: &Vec<(String, Proxy)>) -> (at: Option<usize>)
    ensures
        match at {
            Some(i) => selector_index(proxies@) == Some(i as int) && i < proxies@.len(),
            None => selector_index(proxies@) is None,
        },
{
    let mut i: usize = 0;
    assert(proxies@.take(0) =~= Seq::<(String, Proxy)>::empty());
    while i < proxies.len()
        invariant
            i <= proxies.len(),
            selector_index(proxies@.take(i as int)) is None,
        decreases proxies.len() - i,
    {
        assert(proxies@.take(i + 1).drop_last() =~= proxies@.take(i as int));
        if proxies[i].1.proxy_type == ProxyType::Selector {
            proof {
                lemma_selector_of_prefix(proxies@, i + 1);
            }
            return Some(i);
        }
        i += 1;
    }
    assert(proxies@.take(proxies.len() as int) =~= proxies@);
    None
}

impl ClashState {
    /// A state in which nothing is known yet.
    pub fn new(now: Instant) -> (state: ClashState)
        ensures
            state.mode == ClashMode::Rule,
            state.proxies@.len() == 0,
            state.current_selector is None,
            state.current_proxy is None,
            state.last_update == now,
            state.error is None,
    {
        ClashState {
            mode: ClashMode::Rule,
            proxies: Vec::new(),
            current_selector: None,
            current_proxy: None,
            last_update: now,
            error: None,
        }
    }

    /// Chooses the group that the home page switches: `GLOBAL`, or else the
    /// first selector. Where there is neither, the choice stays as it is.
    pub fn find_main_selector(&mut self)
        ensures
            final(self).mode == old(self).mode,
            final(self).proxies == old(self).proxies,
            final(self).last_update == old(self).last_update,
            final(self).error == old(self).error,
            match main_selector(old(self).proxies@) {
                Some(i) => opt_text(final(self).current_selector) == Some(
                    old(self).proxies@[i].0@,
                ) && opt_text(final(self).current_proxy) == opt_text(old(self).proxies@[i].1.now),
                None => final(self).current_selector == old(self).current_selector && final(self).current_proxy == old(self).current_proxy,
            },
    {
        let at = match find_proxy(&self.proxies, "GLOBAL") {
            Some(i) => Some(i),
            None => find_selector(&self.proxies),
        };
        if let Some(i) = at {
            self.current_selector = Some(self.proxies[i].0.clone());
            self.current_proxy = self.proxies[i].1.now.clone();
        }
    }

    /// The health of the daemon: an error where the last refresh failed,
    /// unknown where nothing is routed through, else good.
    pub fn get_health_status(&self) -> (status: HealthStatus)
        ensures
            status == if self.error is Some {
                HealthStatus::Error
            } else if self.current_proxy is None {
                HealthStatus::Unknown
            } else {
                HealthStatus::Good
            },
    {
        if self.error.is_some() {
            HealthStatus::Error
        } else if self.current_proxy.is_none() {
            HealthStatus::Unknown
        } else {
            HealthStatus::Good
        }
    }
}

/// The word for a delay: fast below 200 ms, good below 500 ms, else slow.
pub open spec fn delay_word(delay: u32) -> Seq<char> {
    if delay < 200 {
        "Fast"@
    } else if delay < 500 {
        "Good"@
    } else {
        "Slow"@
    }
}

/// The status line for the outcome of a delay test.
pub open spec fn delay_message(node: Seq<char>, delay: Option<u32>) -> Seq<char> {
    match delay {
        Some(d) => node + ": "@ + decimal_text(d as nat) + "ms ("@ + delay_word(d) + ")"@,
        None => node + ": Test failed"@,
    }
}

/// Writes the status line for the outcome of a delay test.
pub fn describe_delay(node: &str, delay: Option<u32>) -> (text: String)
    ensures
        text@ == delay_message(node@, delay),
{
    let mut out = chars_of(node);
    match delay {
        Some(d) => {
            push_word(&mut out, ": ");
            push_decimal(&mut out, d as u64);
            push_word(&mut out, "ms (");
            if d < 200 {
                push_word(&mut out, "Fast");
            } else if d < 500 {
                push_word(&mut out, "Good");
            } else {
                push_word(&mut out, "Slow");
            }
            push_word(&mut out, ")");
        },
        None => {
            push_word(&mut out, ": Test failed");
        },
    }
    string_of(out.as_slice())
}

/// The application's state.
#[derive(Debug, Clone)]
pub struct AppState {
    pub clash_state: ClashState,
    pub current_page: Page,
    pub mode: Mode,
    pub preset: Preset,
    /// What the status line says.
    pub status_message: Option<String>,
    /// The delay that was last measured for each node.
    pub delay_cache: Vec<(String, DelayResult)>,
    /// The nodes whose delay is being measured.
    pub testing_nodes: Vec<String>,
}

/// The index of the first cached delay of a node.
pub open spec fn cache_index(cache: Seq<(String, DelayResult)>, node: Seq<char>) -> Option<int>
    decreases cache.len(),
{
    if cache.len() == 0 {
        None
    } else {
        match cache_index(cache.drop_last(), node) {
            Some(i) => Some(i),
            None => if cache.last().0@ == node {
                Some(cache.len() - 1)
            } else {
                None
            },
        }
    }
}

proof fn lemma_cache_of_prefix(cache: Seq<(String, DelayResult)>, node: Seq<char>, upto: int)
    requires
        0 <= upto <= cache.len(),
        cache_index(cache.take(upto), node) is Some,
    ensures
        cache_index(cache, node) == cache_index(cache.take(upto), node),
    decreases cache.len() - upto,
{
    if upto < cache.len() {
        assert(cache.take(upto + 1).drop_last() =~= cache.take(upto));
        lemma_cache_of_prefix(cache, node, upto + 1);
    } else {
        assert(cache.take(upto) =~= cache);
    }
}

/// The index of the first cached delay of a node.
pub fn find_cached(cache: &Vec<(String, DelayResult)>, node: &str) -> (at: Option<usize>)
    ensures
        match at {
            Some(i) => cache_index(cache@, node@) == Some(i as int) && i < cache@.len(),
            None => cache_index(cache@, node@) is None,
        },
{
    let mut i: usize = 0;
    assert(cache@.take(0) =~= Seq::<(String, DelayResult)>::empty());
    while i < cache.len()
        invariant
            i <= cache.len(),
            cache_index(cache@.take(i as int), node@) is None,
        decreases cache.len() - i,
    {
        assert(cache@.take(i + 1).drop_last() =~= cache@.take(i as int));
        if same_text(cache[i].0.as_str(), node) {
            proof {
                lemma_cache_of_prefix(cache@, node@, i + 1);
            }
            return Some(i);
        }
        i += 1;
    }
    assert(cache@.take(cache.len() as int) =~= cache@);
    None
}

impl AppState {
    /// The state that the application starts in: on the home page, in the
    /// mode of the preset, with nothing measured.
    pub fn new(preset: Preset, now: Instant) -> (state: AppState)
        ensures
            state.current_page == Page::Home,
            state.mode == if preset == Preset::Expert {
                Mode::Expert
            } else {
                Mode::Simple
            },
            state.preset == preset,
            state.status_message is None,
            state.delay_cache@.len() == 0,
            state.testing_nodes@.len() == 0,
            state.clash_state.proxies@.len() == 0,
    {
        AppState {
            clash_state: ClashState::new(now),
            current_page: Page::Home,
            mode: preset.default_mode(),
            preset,
            status_message: None,
            delay_cache: Vec::new(),
            testing_nodes: Vec::new(),
        }
    }

    /// Notes that the delay of a node is being measured.
    pub fn start_test_delay(&mut self, proxy: &String)
        ensures
            texts(final(self).testing_nodes@) == with_once(
                texts(old(self).testing_nodes@),
                proxy@,
            ),
            final(self).clash_state == old(self).clash_state,
            final(self).delay_cache == old(self).delay_cache,
            final(self).status_message == old(self).status_message,
    {
        push_once(&mut self.testing_nodes, proxy);
    }

    /// Takes in the outcome of a delay test: the node is no longer being
    /// measured, a delay is remembered in place of an earlier one, and the
    /// status line tells the outcome.
    pub fn process_delay_results(&mut self, result: DelayTestResult, now: Instant)
        ensures
            final(self).clash_state == old(self).clash_state,
            texts(final(self).testing_nodes@) == without(
                texts(old(self).testing_nodes@),
                result.node@,
            ),
            opt_text(final(self).status_message) == Some(
                delay_message(result.node@, result.delay),
            ),
            match result.delay {
                Some(d) => {
                    let entry = (result.node, DelayResult { delay: d, tested_at: now });
                    final(self).delay_cache@ == match cache_index(
                        old(self).delay_cache@,
                        result.node@,
                    ) {
                        Some(i) => old(self).delay_cache@.update(i, entry),
                        None => old(self).delay_cache@.push(entry),
                    }
                },
                None => final(self).delay_cache == old(self).delay_cache,
            },
    {
        self.testing_nodes = remove_name(&self.testing_nodes, result.node.as_str());
        self.status_message = Some(describe_delay(result.node.as_str(), result.delay));
        if let Some(d) = result.delay {
            let at = find_cached(&self.delay_cache, result.node.as_str());
            let entry = (result.node, DelayResult { delay: d, tested_at: now });
            match at {
                Some(i) => {
                    self.delay_cache.set(i, entry);
                },
                None => {
                    self.delay_cache.push(entry);
                },
            }
        }
    }

    /// Whether the delay of a node is being measured.
    pub fn is_testing(&self, node: &str) -> (yes: bool)
        ensures
            yes == texts(self.testing_nodes@).contains(node@),
    {
        holds_name(&self.testing_nodes, node)
    }

    /// The delay that was last measured for a node.
    pub fn get_delay(&self, node: &str) -> (found: Option<&DelayResult>)
        ensures
            match found {
                Some(r) => match cache_index(self.delay_cache@, node@) {
                    Some(i) => *r == self.delay_cache@[i].1,
                    None => false,
                },
                None => cache_index(self.delay_cache@, node@) is None,
            },
    {
        match find_cached(&self.delay_cache, node) {
            Some(i) => Some(&self.delay_cache[i].1),
            None => None,
        }
    }

    /// The node in use: the current node of the first route that has one.
    #[verifier::loop_isolation(false)]
    pub fn get_current_node(&self) -> (node: Option<String>)
        ensures
            opt_text(node) == first_current(routes_of(self.clash_state.proxies@)),
    {
        let routes = HumanRoute::from_proxies(&self.clash_state.proxies, self.mode);
        let mut i: usize = 0;
        assert(route_views(routes@).skip(0) =~= route_views(routes@));
        while i < routes.len()
            invariant
                i <= routes.len(),
                first_current(route_views(routes@)) == first_current(
                    route_views(routes@).skip(i as int),
                ),
            decreases routes.len() - i,
        {
            assert(route_views(routes@).skip(i as int).drop_first() =~= route_views(routes@).skip(
                i + 1,
            ));
            assert(route_views(routes@).skip(i as int)[0] == routes@[i as int]@);
            if let Some(node) = &routes[i].current_node {
                return Some(node.clone());
            }
            i += 1;
        }
        None
    }

    /// Whether the delay of a node can be measured: not that of a built-in
    /// target. A node that is not known counts as one that can.
    pub fn is_node_testable(&self, node_name: &str) -> (yes: bool)
        ensures
            yes == match proxy_index(self.clash_state.proxies@, node_name@) {
                Some(i) => self.clash_state.proxies@[i].1.proxy_type.is_testable(),
                None => true,
            },
    {
        match find_proxy(&self.clash_state.proxies, node_name) {
            Some(i) => self.clash_state.proxies[i].1.proxy_type.testable(),
            None => true,
        }
    }
}

/// The current node of the first route that has one.
pub open spec fn first_current(routes: Seq<HumanRouteView>) -> Option<Seq<char>>
    decreases routes.len(),
{
    if routes.len() == 0 {
        None
    } else if routes[0].current_node is Some {
        routes[0].current_node
    } else {
        first_current(routes.drop_first())
    }
}

} // verus!
