//! Configuration synthesis: installing decoded proxies in a base document
//! and bringing the members of its proxy groups up to date.

use crate::record::{record_views, ProxyRecord, ProxyRecordView};
use crate::subscription::{
    full_config, looks_like_clash_config, parse_raw_subscription, subscription_records,
};
use crate::text::{same_text, texts};
use crate::yaml::{
    as_text, entries_named, entries_of, error_text, find_key, items_named, lemma_list_named,
    lemma_list_value, lemma_mapping_named, lemma_mapping_value, mapping_keys_once, plain,
    read_document, tags_named,
    text_list, value_at, values_of, with_value, write_document, yaml_document, yaml_text, Yaml,
    YamlView,
};
use vstd::string::StrSliceExecFns;
use vstd::string::StringExecFns;
use vstd::utf8::encode_utf8;
use vstd::prelude::*;

verus! {

/// True for the pseudo-targets that every daemon knows: `DIRECT`, `REJECT`,
/// `REJECT-DROP`, `PASS` and `GLOBAL`.
pub open spec fn is_special(name: Seq<char>) -> bool {
    name == "DIRECT"@ || name == "REJECT"@ || name == "REJECT-DROP"@ || name == "PASS"@ || name
        == "GLOBAL"@
}

/// True for a member that is part of the routing structure: the name of a
/// group, or a pseudo-target.
pub open spec fn is_structural(name: Seq<char>, groups: Seq<Seq<char>>) -> bool {
    groups.contains(name) || is_special(name)
}

/// The name of a group: the text under `name` of a mapping.
pub open spec fn group_name(group: YamlView) -> Option<Seq<char>> {
    match plain(group) {
        YamlView::Mapping(entries) => match value_at(entries, "name"@) {
            Some(v) => as_text(v),
            None => None,
        },
        _ => None,
    }
}

/// The names of the groups that have one, in order.
pub open spec fn group_names(groups: Seq<YamlView>) -> Seq<Seq<char>> {
    groups.filter_map(|g: YamlView| group_name(g))
}

/// The name of a member that is a text and structural.
pub open spec fn structural_member(member: YamlView, groups: Seq<Seq<char>>) -> Option<
    Seq<char>,
> {
    match as_text(member) {
        Some(name) => if is_structural(name, groups) {
            Some(name)
        } else {
            None
        },
        None => None,
    }
}

/// The structural members of a list, in order.
pub open spec fn structural_members(members: Seq<YamlView>, groups: Seq<Seq<char>>) -> Seq<
    Seq<char>,
> {
    members.filter_map(|m: YamlView| structural_member(m, groups))
}

/// True when some member is a text that is not structural: a leaf proxy.
pub open spec fn has_leaf(members: Seq<YamlView>, groups: Seq<Seq<char>>) -> bool {
    exists|i: int|
        0 <= i < members.len() && as_text(#[trigger] members[i]) is Some && !is_structural(
            as_text(members[i])->0,
            groups,
        )
}

/// `seen` with `name` at its end, unless it holds `name` already.
pub open spec fn with_once(seen: Seq<Seq<char>>, name: Seq<char>) -> Seq<Seq<char>> {
    if seen.contains(name) {
        seen
    } else {
        seen.push(name)
    }
}

/// `seen` followed by the names of `extra` that do not stand before, each
/// once, in the order they first come.
pub open spec fn appended_once(seen: Seq<Seq<char>>, extra: Seq<Seq<char>>) -> Seq<Seq<char>>
    decreases extra.len(),
{
    if extra.len() == 0 {
        seen
    } else {
        with_once(appended_once(seen, extra.drop_last()), extra.last())
    }
}

/// The members of a rebuilt group: its structural members, each once and in
/// their order, and then the names of the records that are not among them,
/// each once and in their order.
pub open spec fn rebuilt_members(
    members: Seq<YamlView>,
    groups: Seq<Seq<char>>,
    names: Seq<Seq<char>>,
) -> Seq<Seq<char>> {
    appended_once(appended_once(Seq::empty(), structural_members(members, groups)), names)
}

/// A group after synthesis. A mapping whose `proxies` is a list with a leaf
/// proxy gets the rebuilt members; anything else stays as it is.
pub open spec fn rewritten_group(
    group: YamlView,
    groups: Seq<Seq<char>>,
    names: Seq<Seq<char>>,
) -> YamlView
    decreases group,
{
    match group {
        YamlView::Tagged(tag, inner) => YamlView::Tagged(
            tag,
            Box::new(rewritten_group(*inner, groups, names)),
        ),
        YamlView::Mapping(entries) => match value_at(entries, "proxies"@) {
            Some(YamlView::List(members)) => if has_leaf(members, groups) {
                YamlView::Mapping(
                    with_value(
                        entries,
                        "proxies"@,
                        text_list(rebuilt_members(members, groups, names)),
                    ),
                )
            } else {
                group
            },
            _ => group,
        },
        _ => group,
    }
}

/// The groups after synthesis.
pub open spec fn rewritten_groups(groups: Seq<YamlView>, names: Seq<Seq<char>>) -> Seq<YamlView> {
    groups.map_values(|g: YamlView| rewritten_group(g, group_names(groups), names))
}

/// The entries of the top-level mapping after synthesis: `proxies` holds the
/// new list, the groups under `proxy-groups` are rewritten, and every other
/// entry is as before.
pub open spec fn merged_entries(
    entries: Seq<(YamlView, YamlView)>,
    proxies: YamlView,
    names: Seq<Seq<char>>,
) -> Seq<(YamlView, YamlView)> {
    let listed = with_value(entries, "proxies"@, proxies);
    match value_at(listed, "proxy-groups"@) {
        Some(YamlView::List(groups)) => with_value(
            listed,
            "proxy-groups"@,
            YamlView::List(rewritten_groups(groups, names)),
        ),
        _ => listed,
    }
}

/// Synthesis on a mapping that may stand under tags.
pub open spec fn merged_under_tags(
    node: YamlView,
    proxies: YamlView,
    names: Seq<Seq<char>>,
) -> YamlView
    decreases node,
{
    match node {
        YamlView::Tagged(tag, inner) => YamlView::Tagged(
            tag,
            Box::new(merged_under_tags(*inner, proxies, names)),
        ),
        YamlView::Mapping(entries) => YamlView::Mapping(merged_entries(entries, proxies, names)),
        _ => node,
    }
}

/// The list that the records are written as.
pub open spec fn proxy_list(records: Seq<ProxyRecordView>) -> YamlView {
    YamlView::List(records.map_values(|r: ProxyRecordView| r.document()))
}

/// The names of the records, in order.
pub open spec fn names_of(records: Seq<ProxyRecordView>) -> Seq<Seq<char>> {
    records.map_values(|r: ProxyRecordView| r.name())
}

/// The document that synthesis makes of a base document and the records. A
/// base that is no mapping counts as an empty one.
pub open spec fn merged(base: YamlView, records: Seq<ProxyRecordView>) -> YamlView {
    if plain(base) is Mapping {
        merged_under_tags(base, proxy_list(records), names_of(records))
    } else {
        YamlView::Mapping(merged_entries(Seq::empty(), proxy_list(records), names_of(records)))
    }
}

/// The list that the records are written as.
pub fn proxy_specs_to_yaml(records: &Vec<ProxyRecord>) -> (node: Yaml)
    ensures
        node@ == proxy_list(record_views(records@)),
        tags_named(node@),
{
    let mut items: Vec<Yaml> = Vec::new();
    let mut i: usize = 0;
    while i < records.len()
        invariant
            i <= records.len(),
            items@.len() == i,
            forall|k: int| 0 <= k < i ==> (#[trigger] items@[k])@ == records@[k]@.document(),
            forall|k: int| 0 <= k < i ==> tags_named((#[trigger] items@[k])@),
        decreases records.len() - i,
    {
        let item = records[i].to_yaml();
        items.push(item);
        i += 1;
    }
    proof {
        lemma_list_value(items);
        assert(values_of(items@) =~= record_views(records@).map_values(
            |r: ProxyRecordView| r.document(),
        ));
        lemma_list_named(values_of(items@));
    }
    Yaml::List(items)
}

/// The names of the records, in order.
pub fn record_names(records: &Vec<ProxyRecord>) -> (names: Vec<String>)
    ensures
        texts(names@) == names_of(record_views(records@)),
{
    let mut names: Vec<String> = Vec::new();
    let mut i: usize = 0;
    while i < records.len()
        invariant
            i <= records.len(),
            names@.len() == i,
            forall|k: int| 0 <= k < i ==> (#[trigger] names@[k])@ == records@[k]@.name(),
        decreases records.len() - i,
    {
        names.push(records[i].name().clone());
        i += 1;
    }
    assert(texts(names@) =~= names_of(record_views(records@)));
    names
}

/// Whether a list of names holds `name`.
pub fn holds_name(list: &Vec<String>, name: &str) -> (yes: bool)
    ensures
        yes == texts(list@).contains(name@),
{
    let mut i: usize = 0;
    while i < list.len()
        invariant
            i <= list.len(),
            forall|k: int| 0 <= k < i ==> texts(list@)[k] != name@,
        decreases list.len() - i,
    {
        if same_text(list[i].as_str(), name) {
            assert(texts(list@)[i as int] == name@);
            return true;
        }
        i += 1;
    }
    false
}

/// Whether a name is a pseudo-target.
pub fn is_special_name(name: &str) -> (yes: bool)
    ensures
        yes == is_special(name@),
{
    same_text(name, "DIRECT") || same_text(name, "REJECT") || same_text(name, "REJECT-DROP")
        || same_text(name, "PASS") || same_text(name, "GLOBAL")
}

/// Whether a name is the name of a group or a pseudo-target.
pub fn is_structural_name(name: &str, groups: &Vec<String>) -> (yes: bool)
    ensures
        yes == is_structural(name@, texts(groups@)),
{
    holds_name(groups, name) || is_special_name(name)
}

/// Appends `name` unless the list holds it.
pub fn push_once(list: &mut Vec<String>, name: &String)
    ensures
        texts(final(list)@) == with_once(texts(old(list)@), name@),
{
    if !holds_name(list, name.as_str()) {
        list.push(name.clone());
        assert(texts(list@) =~= texts(old(list)@).push(name@));
    }
}

/// The name of a group.
pub fn name_of_group(group: &Yaml) -> (name: Option<&String>)
    ensures
        match name {
            Some(n) => group_name(group@) == Some(n@),
            None => group_name(group@) is None,
        },
{
    match group.untagged() {
        Yaml::Mapping(entries) => {
            proof {
                lemma_mapping_value(*entries);
            }
            match find_key(entries, "name") {
                Some(i) => entries[i].1.as_str(),
                None => None,
            }
        },
        _ => None,
    }
}

/// The names of the groups of a document.
pub fn collect_group_names(groups: &Vec<Yaml>) -> (names: Vec<String>)
    ensures
        texts(names@) == group_names(values_of(groups@)),
{
    let ghost name = |g: YamlView| group_name(g);
    let mut names: Vec<String> = Vec::new();
    let mut i: usize = 0;
    assert(values_of(groups@).take(0) =~= Seq::<YamlView>::empty());
    while i < groups.len()
        invariant
            i <= groups.len(),
            name == (|g: YamlView| group_name(g)),
            texts(names@) == values_of(groups@).take(i as int).filter_map(name),
        decreases groups.len() - i,
    {
        proof {
            values_of(groups@).lemma_filter_map_take_succ(name, i as int);
        }
        let ghost earlier = texts(names@);
        match name_of_group(&groups[i]) {
            Some(n) => {
                names.push(n.clone());
                assert(texts(names@) =~= earlier + seq![n@]);
            },
            None => {
                assert(earlier + Seq::<Seq<char>>::empty() =~= earlier);
            },
        }
        i += 1;
    }
    assert(values_of(groups@).take(groups.len() as int) =~= values_of(groups@));
    names
}

/// Whether a member list holds a leaf proxy.
pub fn holds_leaf(members: &Vec<Yaml>, groups: &Vec<String>) -> (yes: bool)
    ensures
        yes == has_leaf(values_of(members@), texts(groups@)),
{
    let mut i: usize = 0;
    while i < members.len()
        invariant
            i <= members.len(),
            forall|k: int|
                0 <= k < i ==> !(as_text(#[trigger] values_of(members@)[k]) is Some
                    && !is_structural(as_text(values_of(members@)[k])->0, texts(groups@))),
        decreases members.len() - i,
    {
        match members[i].as_str() {
            Some(name) => {
                if !is_structural_name(name.as_str(), groups) {
                    assert(as_text(values_of(members@)[i as int]) == Some(name@));
                    return true;
                }
            },
            None => {},
        }
        i += 1;
    }
    false
}

/// The members of a rebuilt group.
pub fn rebuild_members(members: &Vec<Yaml>, groups: &Vec<String>, names: &Vec<String>) -> (list:
    Vec<String>)
    ensures
        texts(list@) == rebuilt_members(values_of(members@), texts(groups@), texts(names@)),
{
    let ghost keep = |m: YamlView| structural_member(m, texts(groups@));
    let mut list: Vec<String> = Vec::new();
    let mut i: usize = 0;
    assert(values_of(members@).take(0) =~= Seq::<YamlView>::empty());
    assert(texts(list@) =~= Seq::<Seq<char>>::empty());
    while i < members.len()
        invariant
            i <= members.len(),
            keep == (|m: YamlView| structural_member(m, texts(groups@))),
            texts(list@) == appended_once(
                Seq::empty(),
                values_of(members@).take(i as int).filter_map(keep),
            ),
        decreases members.len() - i,
    {
        proof {
            values_of(members@).lemma_filter_map_take_succ(keep, i as int);
        }
        let ghost before = values_of(members@).take(i as int).filter_map(keep);
        match members[i].as_str() {
            Some(name) => {
                if is_structural_name(name.as_str(), groups) {
                    push_once(&mut list, name);
                    assert((before + seq![name@]).drop_last() =~= before);
                } else {
                    assert(before + Seq::<Seq<char>>::empty() =~= before);
                }
            },
            None => {
                assert(before + Seq::<Seq<char>>::empty() =~= before);
            },
        }
        i += 1;
    }
    assert(values_of(members@).take(members.len() as int) =~= values_of(members@));
    let ghost kept = texts(list@);
    let mut j: usize = 0;
    assert(texts(names@).take(0) =~= Seq::<Seq<char>>::empty());
    while j < names.len()
        invariant
            j <= names.len(),
            texts(list@) == appended_once(kept, texts(names@).take(j as int)),
        decreases names.len() - j,
    {
        push_once(&mut list, &names[j]);
        assert(texts(names@).take(j + 1).drop_last() =~= texts(names@).take(j as int));
        j += 1;
    }
    assert(texts(names@).take(names.len() as int) =~= texts(names@));
    list
}

/// The entries with `value` under the text `key`.
pub fn put(entries: &Vec<(Yaml, Yaml)>, key: &str, value: Yaml) -> (out: Vec<(Yaml, Yaml)>)
    ensures
        entries_of(out@) == with_value(entries_of(entries@), key@, value@),
        entries_named(entries_of(entries@)) && tags_named(value@) ==> entries_named(
            entries_of(out@),
        ),
{
    let mut out: Vec<(Yaml, Yaml)> = Vec::new();
    let mut i: usize = 0;
    while i < entries.len()
        invariant
            i <= entries.len(),
            out@.len() == i,
            forall|k: int| 0 <= k < i ==> (#[trigger] entries_of(out@)[k]) == entries_of(entries@)[k],
        decreases entries.len() - i,
    {
        let ghost earlier = entries_of(out@);
        let pair = (entries[i].0.clone(), entries[i].1.clone());
        out.push(pair);
        assert(entries_of(out@) =~= earlier.push(entries_of(entries@)[i as int]));
        i += 1;
    }
    assert(entries_of(out@) =~= entries_of(entries@));
    match find_key(entries, key) {
        Some(at) => {
            out.set(at, (Yaml::text(key), value));
            assert(entries_of(out@) =~= entries_of(entries@).update(
                at as int,
                (YamlView::Text(key@), value@),
            ));
        },
        None => {
            out.push((Yaml::text(key), value));
            assert(entries_of(out@) =~= entries_of(entries@).push(
                (YamlView::Text(key@), value@),
            ));
        },
    }
    out
}

/// A group after synthesis.
pub fn rewrite_group(group: &Yaml, groups: &Vec<String>, names: &Vec<String>) -> (out: Yaml)
    ensures
        out@ == rewritten_group(group@, texts(groups@), texts(names@)),
        tags_named(group@) ==> tags_named(out@),
    decreases group,
{
    match group {
        Yaml::Tagged(tag, inner) => Yaml::Tagged(
            tag.clone(),
            Box::new(rewrite_group(inner, groups, names)),
        ),
        Yaml::Mapping(entries) => {
            proof {
                lemma_mapping_value(*entries);
            }
            match find_key(entries, "proxies") {
                Some(at) => match &entries[at].1 {
                    Yaml::List(members) => {
                        proof {
                            lemma_list_value(*members);
                        }
                        if holds_leaf(members, groups) {
                            let list = rebuild_members(members, groups, names);
                            let node = Yaml::texts(&list);
                            proof {
                                lemma_mapping_named(entries_of(entries@));
                            }
                            Yaml::mapping(put(entries, "proxies", node))
                        } else {
                            group.clone()
                        }
                    },
                    _ => group.clone(),
                },
                None => group.clone(),
            }
        },
        _ => group.clone(),
    }
}

/// The groups after synthesis.
pub fn rewrite_groups(groups: &Vec<Yaml>, names: &Vec<String>) -> (node: Yaml)
    ensures
        node@ == YamlView::List(rewritten_groups(values_of(groups@), texts(names@))),
        tags_named(YamlView::List(values_of(groups@))) ==> tags_named(node@),
{
    let known = collect_group_names(groups);
    let mut out: Vec<Yaml> = Vec::new();
    let mut i: usize = 0;
    while i < groups.len()
        invariant
            i <= groups.len(),
            out@.len() == i,
            texts(known@) == group_names(values_of(groups@)),
            forall|k: int|
                0 <= k < i ==> (#[trigger] out@[k])@ == rewritten_group(
                    groups@[k]@,
                    texts(known@),
                    texts(names@),
                ),
            forall|k: int| 0 <= k < i ==> (tags_named(groups@[k]@) ==> tags_named((#[trigger] out@[k])@)),
        decreases groups.len() - i,
    {
        let group = rewrite_group(&groups[i], &known, names);
        out.push(group);
        i += 1;
    }
    proof {
        lemma_list_value(out);
        assert(values_of(out@) =~= rewritten_groups(values_of(groups@), texts(names@)));
        lemma_list_named(values_of(groups@));
        lemma_list_named(values_of(out@));
        if items_named(values_of(groups@)) {
            assert forall|k: int| 0 <= k < out@.len() implies tags_named(
                #[trigger] values_of(out@)[k],
            ) by {
                assert(tags_named(values_of(groups@)[k]));
            }
        }
    }
    Yaml::List(out)
}

/// The entries of the top-level mapping after synthesis.
pub fn merge_entries(entries: &Vec<(Yaml, Yaml)>, proxies: Yaml, names: &Vec<String>) -> (out:
    Vec<(Yaml, Yaml)>)
    ensures
        entries_of(out@) == merged_entries(entries_of(entries@), proxies@, texts(names@)),
        entries_named(entries_of(entries@)) && tags_named(proxies@) ==> entries_named(
            entries_of(out@),
        ),
{
    let listed = put(entries, "proxies", proxies);
    match find_key(&listed, "proxy-groups") {
        Some(at) => match &listed[at].1 {
            Yaml::List(groups) => {
                proof {
                    lemma_list_value(*groups);
                }
                let rewritten = rewrite_groups(groups, names);
                put(&listed, "proxy-groups", rewritten)
            },
            _ => listed,
        },
        None => listed,
    }
}

/// Synthesis on a mapping that may stand under tags.
pub fn merge_under_tags(node: &Yaml, proxies: Yaml, names: &Vec<String>) -> (out: Yaml)
    ensures
        out@ == merged_under_tags(node@, proxies@, texts(names@)),
        tags_named(node@) && tags_named(proxies@) ==> tags_named(out@),
    decreases node,
{
    match node {
        Yaml::Tagged(tag, inner) => Yaml::Tagged(
            tag.clone(),
            Box::new(merge_under_tags(inner, proxies, names)),
        ),
        Yaml::Mapping(entries) => {
            proof {
                lemma_mapping_value(*entries);
                lemma_mapping_named(entries_of(entries@));
            }
            Yaml::mapping(merge_entries(entries, proxies, names))
        },
        _ => node.clone(),
    }
}

/// Installs the records in a base document: `proxies` is replaced by the
/// list of the records, each group under `proxy-groups` that holds a leaf
/// proxy gets its structural members followed by the names of the records,
/// and everything else stays as it is. A base that is no mapping counts as
/// an empty one.
pub fn merge(base: &Yaml, records: &Vec<ProxyRecord>) -> (out: Yaml)
    ensures
        out@ == merged(base@, record_views(records@)),
        tags_named(base@) ==> tags_named(out@),
{
    let proxies = proxy_specs_to_yaml(records);
    let names = record_names(records);
    match base.untagged() {
        Yaml::Mapping(_) => merge_under_tags(base, proxies, &names),
        _ => {
            let empty: Vec<(Yaml, Yaml)> = Vec::new();
            assert(entries_of(empty@) =~= Seq::<(YamlView, YamlView)>::empty());
            Yaml::mapping(merge_entries(&empty, proxies, &names))
        },
    }
}

/// Why a subscription could not be turned into a configuration.
#[derive(Debug, Clone)]
pub enum SynthesisError {
    /// No line of the payload is a supported share link.
    NoSupportedEntries,
    /// The synthesized document could not be written as text; the emitter's
    /// message is kept.
    Serialize(String),
}

impl SynthesisError {
    /// The message shown to the user.
    pub fn message(&self) -> (text: String)
        ensures
            text@ == match self {
                SynthesisError::NoSupportedEntries => "Unsupported raw subscription format"@,
                SynthesisError::Serialize(detail) => "Failed to serialize config: "@ + detail@,
            },
    {
        match self {
            SynthesisError::NoSupportedEntries => "Unsupported raw subscription format".to_owned(),
            SynthesisError::Serialize(detail) => "Failed to serialize config: ".to_owned().concat(
                detail.as_str(),
            ),
        }
    }
}

/// The document that a base configuration text stands for: what it reads
/// as, or an empty mapping where it does not read as YAML.
pub open spec fn base_document(bytes: Seq<u8>) -> YamlView {
    match yaml_document(bytes) {
        Some(doc) => doc,
        None => YamlView::Mapping(Seq::empty()),
    }
}

/// The text of the configuration that synthesis makes of a base text and
/// the records, `None` where the emitter does not write the document.
pub open spec fn synthesized_text(base: Seq<u8>, records: Seq<ProxyRecordView>) -> Option<
    Seq<char>,
> {
    yaml_text(merged(base_document(base), records))
}

/// Reads a base configuration, with an empty mapping for a text that does
/// not read as YAML.
pub fn read_base(bytes: &[u8]) -> (doc: Yaml)
    ensures
        doc@ == base_document(bytes@),
        tags_named(doc@),
        mapping_keys_once(doc@),
{
    match read_document(bytes) {
        Some(doc) => doc,
        None => {
            let empty: Vec<(Yaml, Yaml)> = Vec::new();
            assert(entries_of(empty@) =~= Seq::<(YamlView, YamlView)>::empty());
            let doc = Yaml::mapping(empty);
            assert(plain(doc@) == doc@);
            doc
        },
    }
}

/// Installs the records in a base configuration text and writes the result
/// as YAML. Never fails on the base: one that does not read as YAML, or is
/// no mapping, counts as empty.
pub fn apply_proxies_to_config(base_bytes: &[u8], proxies: &Vec<ProxyRecord>) -> (out: Result<
    Vec<u8>,
    SynthesisError,
>)
    ensures
        match synthesized_text(base_bytes@, record_views(proxies@)) {
            Some(text) => out is Ok && out->Ok_0@ == encode_utf8(text),
            None => out is Err && out->Err_0 is Serialize,
        },
{
    let base = read_base(base_bytes);
    let doc = merge(&base, proxies);
    match write_document(&doc) {
        Ok(text) => Ok(text.as_str().as_bytes_vec()),
        Err(e) => Err(SynthesisError::Serialize(error_text(&e))),
    }
}

/// Turns a payload of share links into a configuration on top of a base
/// configuration text, and counts the proxies. A payload without any
/// supported link is an error, not an empty configuration.
pub fn convert_raw_subscription_to_config(raw_bytes: &[u8], base_bytes: &[u8]) -> (out: Result<
    (Vec<u8>, usize),
    SynthesisError,
>)
    ensures
        subscription_records(raw_bytes@).len() == 0 ==> out is Err && out->Err_0
            is NoSupportedEntries,
        subscription_records(raw_bytes@).len() > 0 ==> match synthesized_text(
            base_bytes@,
            subscription_records(raw_bytes@),
        ) {
            Some(text) => out is Ok && out->Ok_0.0@ == encode_utf8(text) && out->Ok_0.1
                == subscription_records(raw_bytes@).len(),
            None => out is Err && out->Err_0 is Serialize,
        },
{
    let proxies = parse_raw_subscription(raw_bytes);
    if proxies.len() == 0 {
        return Err(SynthesisError::NoSupportedEntries);
    }
    match apply_proxies_to_config(base_bytes, &proxies) {
        Ok(output) => Ok((output, proxies.len())),
        Err(e) => Err(e),
    }
}

/// True for a payload that is a full daemon configuration.
pub open spec fn is_full_payload(payload: Seq<u8>) -> bool {
    match yaml_document(payload) {
        Some(doc) => full_config(doc),
        None => false,
    }
}

/// The content of a profile that is put in use, with the number of proxies
/// where the profile was made from share links.
#[derive(Debug, Clone)]
pub struct AppliedProfile {
    pub content: Vec<u8>,
    pub proxies: Option<usize>,
}

/// Makes the configuration that a payload stands for: a full configuration
/// is taken as it is, and a list of share links is installed in the base
/// configuration. A payload that is neither is an error.
pub fn apply_profile(payload: &[u8], base_bytes: &[u8]) -> (out: Result<
    AppliedProfile,
    SynthesisError,
>)
    ensures
        is_full_payload(payload@) ==> out is Ok && out->Ok_0.content@ == payload@
            && out->Ok_0.proxies is None,
        !is_full_payload(payload@) && subscription_records(payload@).len() == 0 ==> out is Err
            && out->Err_0 is NoSupportedEntries,
        !is_full_payload(payload@) && subscription_records(payload@).len() > 0
            ==> match synthesized_text(base_bytes@, subscription_records(payload@)) {
            Some(text) => out is Ok && out->Ok_0.content@ == encode_utf8(text)
                && out->Ok_0.proxies == Some(subscription_records(payload@).len() as usize),
            None => out is Err && out->Err_0 is Serialize,
        },
{
    if looks_like_clash_config(payload) {
        return Ok(AppliedProfile { content: vstd::slice::slice_to_vec(payload), proxies: None });
    }
    match convert_raw_subscription_to_config(payload, base_bytes) {
        Ok((content, count)) => Ok(AppliedProfile { content, proxies: Some(count) }),
        Err(e) => Err(e),
    }
}

/// The content that a fetched payload is stored as: the configuration that
/// it stands for where there is a base configuration and one can be made,
/// else the payload as it came.
pub fn stored_profile(payload: &[u8], base_bytes: Option<&[u8]>) -> (content: Vec<u8>)
    ensures
        content@ == match base_bytes {
            Some(base) => if !is_full_payload(payload@) && subscription_records(payload@).len()
                > 0 && synthesized_text(base@, subscription_records(payload@)) is Some {
                encode_utf8(synthesized_text(base@, subscription_records(payload@))->0)
            } else {
                payload@
            },
            None => payload@,
        },
{
    match base_bytes {
        Some(base) => match apply_profile(payload, base) {
            Ok(applied) => applied.content,
            Err(_) => vstd::slice::slice_to_vec(payload),
        },
        None => vstd::slice::slice_to_vec(payload),
    }
}

} // verus!
