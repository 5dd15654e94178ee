//! The profile list of the profile manager: which profiles there are, and
//! when each was last updated.

use crate::subscription::{parse_raw_subscription, subscription_records};
use crate::text::same_text;
use crate::yaml::{
    find_key, lemma_list_value, lemma_mapping_value, plain, read_document, value_at, yaml_document,
    Yaml, YamlView,
};
use vstd::prelude::*;

verus! {

/// A profile of the list.
#[derive(Debug)]
pub struct MihomoPartyProfileItem {
    pub id: String,
    pub name: String,
    pub profile_type: String,
    /// Where the profile is fetched from.
    pub url: Option<String>,
    /// When the profile was last updated, in milliseconds since the Unix
    /// epoch.
    pub updated: Option<i64>,
    /// The entries that the application does not read.
    pub extra: Vec<(String, Yaml)>,
}

/// The profile list.
#[derive(Debug)]
pub struct MihomoPartyProfileList {
    pub items: Vec<MihomoPartyProfileItem>,
    /// The profile in use, by its id.
    pub current: Option<String>,
    /// The entries that the application does not read.
    pub extra: Vec<(String, Yaml)>,
}

/// The index of the first profile with the id.
pub open spec fn profile_index(items: Seq<MihomoPartyProfileItem>, id: Seq<char>) -> Option<int>
    decreases items.len(),
{
    if items.len() == 0 {
        None
    } else {
        match profile_index(items.drop_last(), id) {
            Some(i) => Some(i),
            None => if items.last().id@ == id {
                Some(items.len() - 1)
            } else {
                None
            },
        }
    }
}

/// What [`profile_index`] finds: the least index of a profile with the id.
pub proof fn lemma_profile_index(items: Seq<MihomoPartyProfileItem>, id: Seq<char>)
    ensures
        match profile_index(items, id) {
            Some(i) => 0 <= i < items.len() && items[i].id@ == id && forall|k: int|
                0 <= k < i ==> (#[trigger] items[k]).id@ != id,
            None => forall|k: int| 0 <= k < items.len() ==> (#[trigger] items[k]).id@ != id,
        },
    decreases items.len(),
{
    if items.len() > 0 {
        lemma_profile_index(items.drop_last(), id);
        let front = items.drop_last();
        match profile_index(front, id) {
            Some(i) => {
                assert forall|k: int| 0 <= k < i implies (#[trigger] items[k]).id@ != id by {
                    assert(front[k] == items[k]);
                }
                assert(front[i] == items[i]);
            },
            None => {
                assert forall|k: int| 0 <= k < front.len() implies (#[trigger] items[k]).id@
                    != id by {
                    assert(front[k] == items[k]);
                }
            },
        }
    }
}

/// The profile as it is after an update at the given time.
pub open spec fn stamped(item: MihomoPartyProfileItem, updated_at_ms: i64) -> MihomoPartyProfileItem {
    MihomoPartyProfileItem { updated: Some(updated_at_ms), ..item }
}

/// Notes that the first profile with the id was updated at the given time.
/// Tells whether there is such a profile; the list is as before where there
/// is none.
pub fn update_profile_updated_at(
    list: &mut MihomoPartyProfileList,
    id: &str,
    updated_at_ms: i64,
) -> (found: bool)
    ensures
        final(list).current == old(list).current,
        final(list).extra == old(list).extra,
        match profile_index(old(list).items@, id@) {
            Some(i) => found && final(list).items@ == old(list).items@.update(
                i,
                stamped(old(list).items@[i], updated_at_ms),
            ),
            None => !found && final(list).items@ == old(list).items@,
        },
{
    let mut i: usize = 0;
    while i < list.items.len()
        invariant
            i <= list.items.len(),
            *list == *old(list),
            forall|k: int| 0 <= k < i ==> (#[trigger] list.items@[k]).id@ != id@,
        decreases list.items.len() - i,
    {
        if same_text(list.items[i].id.as_str(), id) {
            proof {
                lemma_profile_index(list.items@, id@);
            }
            let mut item = list.items.remove(i);
            item.updated = Some(updated_at_ms);
            list.items.insert(i, item);
            assert(list.items@ =~= old(list).items@.update(
                i as int,
                stamped(old(list).items@[i as int], updated_at_ms),
            ));
            return true;
        }
        i += 1;
    }
    proof {
        lemma_profile_index(list.items@, id@);
    }
    false
}

/// How many proxies a profile declares: the length of the list under
/// `proxies` of a mapping. `None` for a document without such a list.
pub open spec fn proxy_count(doc: YamlView) -> Option<nat> {
    match plain(doc) {
        YamlView::Mapping(entries) => match value_at(entries, "proxies"@) {
            Some(v) => match plain(v) {
                YamlView::List(items) => Some(items.len()),
                _ => None,
            },
            None => None,
        },
        _ => None,
    }
}

/// Counts the proxies that a profile declares.
pub fn count_proxies(doc: &Yaml) -> (count: Option<usize>)
    ensures
        match count {
            Some(n) => proxy_count(doc@) == Some(n as nat),
            None => proxy_count(doc@) is None,
        },
{
    match doc.untagged() {
        Yaml::Mapping(entries) => {
            proof {
                lemma_mapping_value(*entries);
            }
            match find_key(entries, "proxies") {
                Some(i) => match entries[i].1.untagged() {
                    Yaml::List(items) => {
                        proof {
                            lemma_list_value(*items);
                        }
                        Some(items.len())
                    },
                    _ => None,
                },
                None => None,
            }
        },
        _ => None,
    }
}

/// Counts the proxies that the text of a profile declares. `None` for a
/// text that does not read as YAML or declares no list of proxies.
pub fn count_proxies_in_profile(content: &[u8]) -> (count: Option<usize>)
    ensures
        match yaml_document(content@) {
            Some(doc) => match count {
                Some(n) => proxy_count(doc) == Some(n as nat),
                None => proxy_count(doc) is None,
            },
            None => count is None,
        },
{
    match read_document(content) {
        Some(doc) => count_proxies(&doc),
        None => None,
    }
}

/// How many proxies the content of a profile holds: those that it declares
/// as a configuration, or else the share links that decode.
pub fn profile_proxy_count(content: &[u8]) -> (count: usize)
    ensures
        count == match yaml_document(content@) {
            Some(doc) => match proxy_count(doc) {
                Some(n) => n,
                None => subscription_records(content@).len(),
            },
            None => subscription_records(content@).len(),
        },
{
    match count_proxies_in_profile(content) {
        Some(n) => n,
        None => parse_raw_subscription(content).len(),
    }
}

} // verus!
