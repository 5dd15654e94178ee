//! The application's own settings: where the daemon is reached, the lists
//! that the user keeps, and the groups of nodes.

use crate::order::{
    ascending, by_name, lemma_arranged, lemma_strictly_ascending, sorted_names, strictly_ascending,
};
use crate::preset::Preset;
use crate::synth::{holds_name, push_once, with_once};
use crate::text::{opt_text, same_text, texts};
use crate::theme::{theme_named, Theme};
use vstd::prelude::*;
use vstd::string::StringExecFns;

verus! {

/// A named group of nodes.
#[derive(Debug, Clone)]
pub struct NodeGroup {
    pub name: String,
    pub nodes: Vec<String>,
}

pub struct NodeGroupView {
    pub name: Seq<char>,
    pub nodes: Seq<Seq<char>>,
}

impl View for NodeGroup {
    type V = NodeGroupView;

    open spec fn view(&self) -> NodeGroupView {
        NodeGroupView { name: self.name@, nodes: texts(self.nodes@) }
    }
}

/// The views of a list of groups.
pub open spec fn group_views(groups: Seq<NodeGroup>) -> Seq<NodeGroupView> {
    groups.map_values(|g: NodeGroup| g@)
}

/// The application's settings.
#[derive(Debug, Clone)]
pub struct AppConfig {
    /// Where the daemon's control interface is reached.
    pub api_url: String,
    /// The secret that the control interface asks for.
    pub secret: Option<String>,
    /// The mode to start in.
    pub default_mode: String,
    /// The preset in use, by its keyword.
    pub current_preset: String,
    /// Domains that are always proxied.
    pub whitelist: Vec<String>,
    /// Domains that are never proxied.
    pub blacklist: Vec<String>,
    /// Nodes kept at hand.
    pub favorite_nodes: Vec<String>,
    /// The user's groups of nodes.
    pub node_groups: Vec<NodeGroup>,
    /// The theme in use, by its keyword.
    pub theme: String,
    /// Where the daemon's configuration was last found.
    pub clash_config_path: Option<String>,
}

pub struct AppConfigView {
    pub api_url: Seq<char>,
    pub secret: Option<Seq<char>>,
    pub default_mode: Seq<char>,
    pub current_preset: Seq<char>,
    pub whitelist: Seq<Seq<char>>,
    pub blacklist: Seq<Seq<char>>,
    pub favorite_nodes: Seq<Seq<char>>,
    pub node_groups: Seq<NodeGroupView>,
    pub theme: Seq<char>,
    pub clash_config_path: Option<Seq<char>>,
}

impl View for AppConfig {
    type V = AppConfigView;

    open spec fn view(&self) -> AppConfigView {
        AppConfigView {
            api_url: self.api_url@,
            secret: opt_text(self.secret),
            default_mode: self.default_mode@,
            current_preset: self.current_preset@,
            whitelist: texts(self.whitelist@),
            blacklist: texts(self.blacklist@),
            favorite_nodes: texts(self.favorite_nodes@),
            node_groups: group_views(self.node_groups@),
            theme: self.theme@,
            clash_config_path: opt_text(self.clash_config_path),
        }
    }
}

/// Why a change to the groups was refused.
#[derive(Debug, Clone)]
pub enum GroupError {
    /// There is a group of that name already.
    AlreadyExists(String),
    /// There is no group of that name.
    NotFound(String),
}

impl GroupError {
    /// The message shown to the user.
    pub fn message(&self) -> (text: String)
        ensures
            text@ == match self {
                GroupError::AlreadyExists(name) => "Group '"@ + name@ + "' already exists"@,
                GroupError::NotFound(name) => "Group '"@ + name@ + "' not found"@,
            },
    {
        match self {
            GroupError::AlreadyExists(name) => "Group '".to_owned().concat(name.as_str()).concat(
                "' already exists",
            ),
            GroupError::NotFound(name) => "Group '".to_owned().concat(name.as_str()).concat(
                "' not found",
            ),
        }
    }
}

/// The list without every occurrence of `name`.
pub open spec fn without(list: Seq<Seq<char>>, name: Seq<char>) -> Seq<Seq<char>> {
    list.filter(|item: Seq<char>| item != name)
}

/// The index of the first group called `name`.
pub open spec fn group_index(groups: Seq<NodeGroupView>, name: Seq<char>) -> Option<int>
    decreases groups.len(),
{
    if groups.len() == 0 {
        None
    } else {
        match group_index(groups.drop_last(), name) {
            Some(i) => Some(i),
            None => if groups.last().name == name {
                Some(groups.len() - 1)
            } else {
                None
            },
        }
    }
}

/// What [`group_index`] finds: the least index of a group with the name.
pub proof fn lemma_group_index(groups: Seq<NodeGroupView>, name: Seq<char>)
    ensures
        match group_index(groups, name) {
            Some(i) => 0 <= i < groups.len() && groups[i].name == name && forall|k: int|
                0 <= k < i ==> (#[trigger] groups[k]).name != name,
            None => forall|k: int| 0 <= k < groups.len() ==> (#[trigger] groups[k]).name != name,
        },
    decreases groups.len(),
{
    if groups.len() > 0 {
        lemma_group_index(groups.drop_last(), name);
        let front = groups.drop_last();
        assert forall|k: int| 0 <= k < front.len() implies front[k] == groups[k] by {}
        match group_index(front, name) {
            Some(i) => {
                assert forall|k: int| 0 <= k < i implies (#[trigger] groups[k]).name != name by {
                    assert(front[k] == groups[k]);
                }
            },
            None => {
                assert forall|k: int| 0 <= k < front.len() implies (#[trigger] groups[k]).name
                    != name by {
                    assert(front[k] == groups[k]);
                }
            },
        }
    }
}

/// True when no two groups of the list have the same name.
pub open spec fn distinct_names(groups: Seq<NodeGroupView>) -> bool {
    forall|i: int, j: int| 0 <= i < j < groups.len() ==> groups[i].name != groups[j].name
}

/// The groups chosen from a list by a property are groups of the list, and
/// where the names of the list are distinct, so are theirs.
pub proof fn lemma_chosen_distinct(groups: Seq<NodeGroupView>, keep: spec_fn(NodeGroupView) -> bool)
    ensures
        forall|g: NodeGroupView| groups.filter(keep).contains(g) ==> groups.contains(g),
        distinct_names(groups) ==> distinct_names(groups.filter(keep)),
    decreases groups.len(),
{
    reveal(Seq::filter);
    if groups.len() > 0 {
        let front = groups.drop_last();
        let last = groups.last();
        let chosen = front.filter(keep);
        lemma_chosen_distinct(front, keep);
        assert forall|g: NodeGroupView| front.contains(g) implies groups.contains(g) by {
            let k = choose|k: int| 0 <= k < front.len() && front[k] == g;
            assert(groups[k] == g);
        }
        assert(groups.contains(last)) by {
            assert(groups[groups.len() - 1] == last);
        }
        assert forall|g: NodeGroupView| groups.filter(keep).contains(g) implies groups.contains(
            g,
        ) by {
            let k = choose|k: int| 0 <= k < groups.filter(keep).len() && groups.filter(keep)[k] == g;
            if keep(last) && k == chosen.len() {
                assert(g == last);
            } else {
                assert(chosen[k] == g);
                assert(chosen.contains(g));
            }
        }
        if distinct_names(groups) {
            assert forall|i: int, j: int| 0 <= i < j < front.len() implies front[i].name
                != front[j].name by {
                assert(front[i] == groups[i] && front[j] == groups[j]);
            }
            if keep(last) {
                let all = chosen.push(last);
                assert forall|i: int, j: int| 0 <= i < j < all.len() implies all[i].name
                    != all[j].name by {
                    if j == chosen.len() {
                        assert(chosen.contains(chosen[i]));
                        assert(front.filter(keep).contains(chosen[i]));
                        assert(front.contains(chosen[i]));
                        let k = choose|k: int| 0 <= k < front.len() && front[k] == chosen[i];
                        assert(groups[k] == chosen[i]);
                        assert(groups[k].name != groups[groups.len() - 1].name);
                    } else {
                        assert(all[i] == chosen[i] && all[j] == chosen[j]);
                    }
                }
            }
        }
    }
}

/// The list without every occurrence of `name`.
pub fn remove_name(list: &Vec<String>, name: &str) -> (out: Vec<String>)
    ensures
        texts(out@) == without(texts(list@), name@),
{
    let ghost keep = |item: Seq<char>| item != name@;
    let mut out: Vec<String> = Vec::new();
    let mut i: usize = 0;
    assert(texts(list@).take(0) =~= Seq::<Seq<char>>::empty());
    assert(texts(out@) =~= Seq::<Seq<char>>::empty());
    while i < list.len()
        invariant
            i <= list.len(),
            keep == (|item: Seq<char>| item != name@),
            texts(out@) == texts(list@).take(i as int).filter(keep),
        decreases list.len() - i,
    {
        proof {
            assert(texts(list@).take(i + 1) =~= texts(list@).take(i as int).push(list@[i as int]@));
            texts(list@).take(i as int).lemma_filter_push(list@[i as int]@, keep);
        }
        if !same_text(list[i].as_str(), name) {
            let ghost before = texts(out@);
            out.push(list[i].clone());
            assert(texts(out@) =~= before.push(list@[i as int]@));
        }
        i += 1;
    }
    assert(texts(list@).take(list.len() as int) =~= texts(list@));
    out
}

impl Default for AppConfig {
    fn default() -> (config: AppConfig)
        ensures
            config@ == (AppConfigView {
                api_url: "http://127.0.0.1:9090"@,
                secret: None,
                default_mode: "simple"@,
                current_preset: "default"@,
                whitelist: Seq::empty(),
                blacklist: Seq::empty(),
                favorite_nodes: Seq::empty(),
                node_groups: Seq::empty(),
                theme: "dark"@,
                clash_config_path: None,
            }),
            config.has_distinct_groups(),
    {
        let config = AppConfig {
            api_url: "http://127.0.0.1:9090".to_owned(),
            secret: None,
            default_mode: "simple".to_owned(),
            current_preset: "default".to_owned(),
            whitelist: Vec::new(),
            blacklist: Vec::new(),
            favorite_nodes: Vec::new(),
            node_groups: Vec::new(),
            theme: "dark".to_owned(),
            clash_config_path: None,
        };
        assert(config@.whitelist =~= Seq::<Seq<char>>::empty());
        assert(config@.blacklist =~= Seq::<Seq<char>>::empty());
        assert(config@.favorite_nodes =~= Seq::<Seq<char>>::empty());
        assert(config@.node_groups =~= Seq::<NodeGroupView>::empty());
        config
    }
}

impl AppConfig {
    /// True when no two groups have the same name: what the settings begin
    /// with, and what every change to the groups made here keeps.
    pub open spec fn has_distinct_groups(&self) -> bool {
        distinct_names(self@.node_groups)
    }

    /// Takes over what the command line gives: an address replaces the
    /// stored one, and so does a secret.
    pub fn merge_cli(&mut self, api_url: Option<String>, secret: Option<String>)
        ensures
            final(self)@ == (AppConfigView {
                api_url: match api_url {
                    Some(url) => url@,
                    None => old(self)@.api_url,
                },
                secret: match secret {
                    Some(s) => Some(s@),
                    None => old(self)@.secret,
                },
                ..old(self)@
            }),
    {
        if let Some(url) = api_url {
            self.api_url = url;
        }
        if let Some(s) = secret {
            self.secret = Some(s);
        }
    }

    /// Makes `preset` the preset in use.
    pub fn set_preset(&mut self, preset: &Preset)
        ensures
            final(self)@ == (AppConfigView { current_preset: preset.keyword(), ..old(self)@ }),
    {
        self.current_preset = preset.as_str().to_owned();
    }

    /// Puts a domain on the list of those that are always proxied, unless it
    /// is there. Tells whether the list changed.
    pub fn add_to_whitelist(&mut self, domain: String) -> (added: bool)
        ensures
            added == !old(self)@.whitelist.contains(domain@),
            final(self)@ == (AppConfigView {
                whitelist: with_once(old(self)@.whitelist, domain@),
                ..old(self)@
            }),
    {
        let added = !holds_name(&self.whitelist, domain.as_str());
        push_once(&mut self.whitelist, &domain);
        added
    }

    /// Puts a domain on the list of those that are never proxied, unless it
    /// is there. Tells whether the list changed.
    pub fn add_to_blacklist(&mut self, domain: String) -> (added: bool)
        ensures
            added == !old(self)@.blacklist.contains(domain@),
            final(self)@ == (AppConfigView {
                blacklist: with_once(old(self)@.blacklist, domain@),
                ..old(self)@
            }),
    {
        let added = !holds_name(&self.blacklist, domain.as_str());
        push_once(&mut self.blacklist, &domain);
        added
    }

    /// Takes a domain off the list of those that are always proxied.
    pub fn remove_from_whitelist(&mut self, domain: &str)
        ensures
            final(self)@ == (AppConfigView {
                whitelist: without(old(self)@.whitelist, domain@),
                ..old(self)@
            }),
    {
        self.whitelist = remove_name(&self.whitelist, domain);
    }

    /// Takes a domain off the list of those that are never proxied.
    pub fn remove_from_blacklist(&mut self, domain: &str)
        ensures
            final(self)@ == (AppConfigView {
                blacklist: without(old(self)@.blacklist, domain@),
                ..old(self)@
            }),
    {
        self.blacklist = remove_name(&self.blacklist, domain);
    }

    /// Makes a node a favorite, unless it is one. Tells whether the list
    /// changed.
    pub fn add_favorite(&mut self, node: String) -> (added: bool)
        ensures
            added == !old(self)@.favorite_nodes.contains(node@),
            final(self)@ == (AppConfigView {
                favorite_nodes: with_once(old(self)@.favorite_nodes, node@),
                ..old(self)@
            }),
    {
        let added = !holds_name(&self.favorite_nodes, node.as_str());
        push_once(&mut self.favorite_nodes, &node);
        added
    }

    /// Makes a node no favorite.
    pub fn remove_favorite(&mut self, node: &str)
        ensures
            final(self)@ == (AppConfigView {
                favorite_nodes: without(old(self)@.favorite_nodes, node@),
                ..old(self)@
            }),
    {
        self.favorite_nodes = remove_name(&self.favorite_nodes, node);
    }

    /// Whether a node is a favorite.
    pub fn is_favorite(&self, node: &str) -> (yes: bool)
        ensures
            yes == self@.favorite_nodes.contains(node@),
    {
        holds_name(&self.favorite_nodes, node)
    }

    /// The index of the first group called `name`.
    pub fn find_group(&self, name: &str) -> (at: Option<usize>)
        ensures
            match at {
                Some(i) => group_index(self@.node_groups, name@) == Some(i as int) && i
                    < self.node_groups@.len(),
                None => group_index(self@.node_groups, name@) is None,
            },
    {
        let mut i: usize = 0;
        while i < self.node_groups.len()
            invariant
                i <= self.node_groups.len(),
                forall|k: int| 0 <= k < i ==> (#[trigger] self@.node_groups[k]).name != name@,
            decreases self.node_groups.len() - i,
        {
            if same_text(self.node_groups[i].name.as_str(), name) {
                proof {
                    lemma_group_index(self@.node_groups, name@);
                    assert(self@.node_groups[i as int].name == name@);
                }
                return Some(i);
            }
            i += 1;
        }
        proof {
            lemma_group_index(self@.node_groups, name@);
        }
        None
    }

    /// Adds a group. A name that is taken is refused, and nothing changes.
    pub fn create_group(&mut self, name: String, nodes: Vec<String>) -> (done: Result<
        (),
        GroupError,
    >)
        ensures
            match done {
                Ok(_) => group_index(old(self)@.node_groups, name@) is None && final(self)@ == (
                AppConfigView {
                    node_groups: old(self)@.node_groups.push(
                        NodeGroupView { name: name@, nodes: texts(nodes@) },
                    ),
                    ..old(self)@
                }),
                Err(e) => group_index(old(self)@.node_groups, name@) is Some && e
                    is AlreadyExists && e->AlreadyExists_0@ == name@ && final(self)@ == old(
                    self,
                )@,
            },
            old(self).has_distinct_groups() ==> final(self).has_distinct_groups(),
    {
        if self.find_group(name.as_str()).is_some() {
            return Err(GroupError::AlreadyExists(name));
        }
        proof {
            lemma_group_index(self@.node_groups, name@);
        }
        self.node_groups.push(NodeGroup { name, nodes });
        assert(self@.node_groups =~= old(self)@.node_groups.push(
            NodeGroupView { name: name@, nodes: texts(nodes@) },
        ));
        Ok(())
    }

    /// Adds a node to a group, unless the group holds it. Tells whether the
    /// group changed; a group that does not exist is an error.
    pub fn add_node_to_group(&mut self, group_name: &str, node: String) -> (done: Result<
        bool,
        GroupError,
    >)
        ensures
            match done {
                Ok(added) => match group_index(old(self)@.node_groups, group_name@) {
                    Some(i) => added == !old(self)@.node_groups[i].nodes.contains(node@)
                        && final(self)@ == (AppConfigView {
                        node_groups: old(self)@.node_groups.update(
                            i,
                            NodeGroupView {
                                name: old(self)@.node_groups[i].name,
                                nodes: with_once(old(self)@.node_groups[i].nodes, node@),
                            },
                        ),
                        ..old(self)@
                    }),
                    None => false,
                },
                Err(e) => group_index(old(self)@.node_groups, group_name@) is None && e
                    is NotFound && e->NotFound_0@ == group_name@ && final(self)@ == old(self)@,
            },
            old(self).has_distinct_groups() ==> final(self).has_distinct_groups(),
    {
        match self.find_group(group_name) {
            Some(i) => {
                let mut nodes = self.node_groups[i].nodes.clone();
                assert(nodes@ == self.node_groups@[i as int].nodes@);
                let added = !holds_name(&nodes, node.as_str());
                push_once(&mut nodes, &node);
                let name = self.node_groups[i].name.clone();
                self.node_groups.set(i, NodeGroup { name, nodes });
                assert(self@.node_groups =~= old(self)@.node_groups.update(
                    i as int,
                    NodeGroupView {
                        name: old(self)@.node_groups[i as int].name,
                        nodes: with_once(old(self)@.node_groups[i as int].nodes, node@),
                    },
                ));
                Ok(added)
            },
            None => Err(GroupError::NotFound(group_name.to_owned())),
        }
    }

    /// Takes a node out of a group; a group that does not exist is an error.
    pub fn remove_node_from_group(&mut self, group_name: &str, node: &str) -> (done: Result<
        (),
        GroupError,
    >)
        ensures
            match done {
                Ok(_) => match group_index(old(self)@.node_groups, group_name@) {
                    Some(i) => final(self)@ == (AppConfigView {
                        node_groups: old(self)@.node_groups.update(
                            i,
                            NodeGroupView {
                                name: old(self)@.node_groups[i].name,
                                nodes: without(old(self)@.node_groups[i].nodes, node@),
                            },
                        ),
                        ..old(self)@
                    }),
                    None => false,
                },
                Err(e) => group_index(old(self)@.node_groups, group_name@) is None && e
                    is NotFound && e->NotFound_0@ == group_name@ && final(self)@ == old(self)@,
            },
            old(self).has_distinct_groups() ==> final(self).has_distinct_groups(),
    {
        match self.find_group(group_name) {
            Some(i) => {
                let nodes = remove_name(&self.node_groups[i].nodes, node);
                let name = self.node_groups[i].name.clone();
                self.node_groups.set(i, NodeGroup { name, nodes });
                assert(self@.node_groups =~= old(self)@.node_groups.update(
                    i as int,
                    NodeGroupView {
                        name: old(self)@.node_groups[i as int].name,
                        nodes: without(old(self)@.node_groups[i as int].nodes, node@),
                    },
                ));
                Ok(())
            },
            None => Err(GroupError::NotFound(group_name.to_owned())),
        }
    }

    /// Removes every group called `name`.
    pub fn delete_group(&mut self, name: &str)
        ensures
            final(self)@ == (AppConfigView {
                node_groups: old(self)@.node_groups.filter(|g: NodeGroupView| g.name != name@),
                ..old(self)@
            }),
            old(self).has_distinct_groups() ==> final(self).has_distinct_groups(),
            group_index(final(self)@.node_groups, name@) is None,
    {
        let ghost keep = |g: NodeGroupView| g.name != name@;
        let mut kept: Vec<NodeGroup> = Vec::new();
        let mut i: usize = 0;
        assert(group_views(self.node_groups@).take(0) =~= Seq::<NodeGroupView>::empty());
        assert(group_views(kept@) =~= Seq::<NodeGroupView>::empty());
        while i < self.node_groups.len()
            invariant
                i <= self.node_groups.len(),
                *self == *old(self),
                keep == (|g: NodeGroupView| g.name != name@),
                group_views(kept@) == group_views(self.node_groups@).take(i as int).filter(keep),
            decreases self.node_groups.len() - i,
        {
            let ghost all = group_views(self.node_groups@);
            proof {
                assert(all.take(i + 1) =~= all.take(i as int).push(self.node_groups@[i as int]@));
                all.take(i as int).lemma_filter_push(self.node_groups@[i as int]@, keep);
            }
            if !same_text(self.node_groups[i].name.as_str(), name) {
                let ghost before = group_views(kept@);
                let group = NodeGroup {
                    name: self.node_groups[i].name.clone(),
                    nodes: self.node_groups[i].nodes.clone(),
                };
                kept.push(group);
                assert(group_views(kept@) =~= before.push(self.node_groups@[i as int]@));
            }
            i += 1;
        }
        assert(group_views(self.node_groups@).take(self.node_groups.len() as int) =~= group_views(
            self.node_groups@,
        ));
        proof {
            let left = group_views(self.node_groups@).filter(keep);
            lemma_chosen_distinct(group_views(self.node_groups@), keep);
            assert forall|k: int| 0 <= k < left.len() implies (#[trigger] left[k]).name
                != name@ by {
                group_views(self.node_groups@).lemma_filter_pred(keep, k);
            }
            lemma_group_index(left, name@);
        }
        self.node_groups = kept;
    }

    /// The names of the groups.
    pub open spec fn group_names(self) -> Seq<Seq<char>> {
        self@.node_groups.map_values(|g: NodeGroupView| g.name)
    }

    /// The names of the groups, in ascending order: each name as often as
    /// there are groups with it. Where no two groups have the same name, each
    /// name stands before every one that comes later.
    pub fn get_group_names(&self) -> (names: Vec<String>)
        ensures
            names@.len() == self.node_groups@.len(),
            ascending(texts(names@)),
            texts(names@).to_multiset() == self.group_names().to_multiset(),
            self.has_distinct_groups() ==> strictly_ascending(texts(names@)),
    {
        let mut names: Vec<String> = Vec::new();
        let mut i: usize = 0;
        while i < self.node_groups.len()
            invariant
                i <= self.node_groups.len(),
                names@.len() == i,
                forall|k: int| 0 <= k < i ==> (#[trigger] names@[k])@ == self.node_groups@[k].name@,
            decreases self.node_groups.len() - i,
        {
            names.push(self.node_groups[i].name.clone());
            i += 1;
        }
        assert(texts(names@) =~= self.group_names());
        let sorted = sorted_names(&names);
        proof {
            let given = self.group_names();
            lemma_arranged(given, by_name());
            if self.has_distinct_groups() {
                assert forall|i: int, j: int|
                    0 <= i < given.len() && 0 <= j < given.len() && i != j implies given[i]
                    != given[j] by {
                    if i < j {
                        assert(self@.node_groups[i].name != self@.node_groups[j].name);
                    } else {
                        assert(self@.node_groups[j].name != self@.node_groups[i].name);
                    }
                }
                given.lemma_multiset_has_no_duplicates();
                texts(sorted@).lemma_multiset_has_no_duplicates_conv();
                lemma_strictly_ascending(texts(sorted@));
            }
        }
        sorted
    }

    /// The nodes of the first group called `name`.
    pub fn get_group_nodes(&self, name: &str) -> (nodes: Option<&Vec<String>>)
        ensures
            match nodes {
                Some(list) => match group_index(self@.node_groups, name@) {
                    Some(i) => texts(list@) == self@.node_groups[i].nodes,
                    None => false,
                },
                None => group_index(self@.node_groups, name@) is None,
            },
    {
        match self.find_group(name) {
            Some(i) => Some(&self.node_groups[i].nodes),
            None => None,
        }
    }

    /// The theme in use.
    pub fn get_theme(&self) -> (theme: Theme)
        ensures
            theme == theme_named(self@.theme),
    {
        Theme::from_str(self.theme.as_str())
    }

    /// Makes `theme` the theme in use.
    pub fn set_theme(&mut self, theme: Theme)
        ensures
            final(self)@ == (AppConfigView { theme: theme.keyword(), ..old(self)@ }),
    {
        self.theme = theme.as_str().to_owned();
    }
}

} // verus!
