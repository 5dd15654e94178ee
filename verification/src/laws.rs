//! What holds of synthesis whatever the document and the records are.

use crate::json::{field_text, JsonDocumentView};
use crate::options::endpoint_name;
use crate::record::{ProxyRecordView, ShadowsocksView};
use crate::shadowsocks::{authority_of, credentials_of, endpoint_of, shadowsocks_link};
use crate::subscription::{
    full_config, has_key, line_records, link_record, subscription_lines, subscription_records,
};
use crate::synth::{
    appended_once, group_name, group_names, has_leaf, is_structural, merged, merged_entries,
    merged_under_tags, names_of, proxy_list, rebuilt_members, rewritten_group, rewritten_groups,
    structural_member, structural_members,
};
use crate::text::{
    cut_first, decimal_text, is_digit, leading_space, lemma_cut_first_absent, lemma_cut_first_at,
    lemma_cut_last_at, lemma_decimal_round_trip, lemma_decimal_text, lemma_trimmed_same,
    trailing_space,
};
use crate::trojan::trojan_record;
use crate::uri::UrlPartsView;
use crate::vless::vless_record;
use crate::vmess::{opt_u16, vmess_record};
use crate::yaml::{
    as_text, key_index, keys_once, lemma_key_index, lemma_key_index_is,
    lemma_with_value_keys_once, mapping_keys_once, plain, text_list, value_at, with_value,
    YamlView,
};
use vstd::prelude::*;

verus! {

/// Appending once holds a name exactly when it was there or is appended.
pub proof fn lemma_appended_member(seen: Seq<Seq<char>>, extra: Seq<Seq<char>>, name: Seq<char>)
    ensures
        appended_once(seen, extra).contains(name) <==> seen.contains(name) || extra.contains(name),
    decreases extra.len(),
{
    if extra.len() > 0 {
        let front = extra.drop_last();
        let before = appended_once(seen, front);
        lemma_appended_member(seen, front, name);
        let after = appended_once(seen, extra);
        if after.contains(name) {
            let i = after.lemma_contains_to_index(name);
            if i < before.len() {
                assert(before[i] == name);
                assert(before.contains(name));
                if front.contains(name) {
                    let j = front.lemma_contains_to_index(name);
                    assert(extra[j] == name);
                }
            } else {
                assert(extra[extra.len() - 1] == name);
            }
        }
        if seen.contains(name) {
            assert(before.contains(name));
            let i = before.lemma_contains_to_index(name);
            assert(after[i] == name);
        }
        if extra.contains(name) {
            let j = extra.lemma_contains_to_index(name);
            if j < front.len() {
                assert(front[j] == name);
                assert(front.contains(name));
                assert(before.contains(name));
                let i = before.lemma_contains_to_index(name);
                assert(after[i] == name);
            } else if before.contains(name) {
                let i = before.lemma_contains_to_index(name);
                assert(after[i] == name);
            } else {
                assert(after[after.len() - 1] == name);
            }
        }
    }
}

/// Appending once keeps what was there, in place, and adds nothing twice.
pub proof fn lemma_appended_once(seen: Seq<Seq<char>>, extra: Seq<Seq<char>>)
    ensures
        seen.is_prefix_of(appended_once(seen, extra)),
        seen.no_duplicates() ==> appended_once(seen, extra).no_duplicates(),
    decreases extra.len(),
{
    if extra.len() > 0 {
        let front = extra.drop_last();
        let before = appended_once(seen, front);
        lemma_appended_once(seen, front);
        let after = appended_once(seen, extra);
        if seen.no_duplicates() && !before.contains(extra.last()) {
            assert forall|i: int, j: int| 0 <= i < after.len() && 0 <= j < after.len() && i
                != j implies after[i] != after[j] by {
                if i < before.len() && j < before.len() {
                } else if i < before.len() {
                    assert(before.contains(before[i]));
                } else {
                    assert(before.contains(before[j]));
                }
            }
        }
    }
}

/// Appending names that are all there changes nothing.
pub proof fn lemma_appended_known(seen: Seq<Seq<char>>, extra: Seq<Seq<char>>)
    requires
        forall|i: int| 0 <= i < extra.len() ==> seen.contains(#[trigger] extra[i]),
    ensures
        appended_once(seen, extra) == seen,
    decreases extra.len(),
{
    if extra.len() > 0 {
        let front = extra.drop_last();
        assert forall|i: int| 0 <= i < front.len() implies seen.contains(#[trigger] front[i]) by {
            assert(front[i] == extra[i]);
        }
        lemma_appended_known(seen, front);
        assert(seen.contains(extra[extra.len() - 1]));
    }
}

/// Appending two runs of names one after the other is appending both.
pub proof fn lemma_appended_twice(seen: Seq<Seq<char>>, a: Seq<Seq<char>>, b: Seq<Seq<char>>)
    ensures
        appended_once(seen, a + b) == appended_once(appended_once(seen, a), b),
    decreases b.len(),
{
    if b.len() == 0 {
        assert(a + b =~= a);
    } else {
        lemma_appended_twice(seen, a, b.drop_last());
        assert((a + b).drop_last() =~= a + b.drop_last());
        assert((a + b).last() == b.last());
    }
}

/// A list without duplicates, appended once to nothing, is itself.
pub proof fn lemma_appended_distinct(list: Seq<Seq<char>>)
    requires
        list.no_duplicates(),
    ensures
        appended_once(Seq::empty(), list) == list,
    decreases list.len(),
{
    if list.len() > 0 {
        let front = list.drop_last();
        lemma_appended_distinct(front);
        if front.contains(list.last()) {
            let i = front.lemma_contains_to_index(list.last());
            assert(list[i] == list[list.len() - 1]);
        }
        assert(front.push(list.last()) =~= list);
    }
}

/// What is chosen of a list by a property: the items of the list that have
/// the property.
pub proof fn lemma_filter_member(list: Seq<Seq<char>>, keep: spec_fn(Seq<char>) -> bool, name: Seq<char>)
    ensures
        list.filter(keep).contains(name) <==> list.contains(name) && keep(name),
    decreases list.len(),
{
    reveal(Seq::filter);
    if list.len() > 0 {
        let front = list.drop_last();
        lemma_filter_member(front, keep, name);
        assert(front.push(list.last()) =~= list);
        front.lemma_filter_push(list.last(), keep);
        let chosen = list.filter(keep);
        if chosen.contains(name) {
            let i = chosen.lemma_contains_to_index(name);
            if keep(list.last()) && i == chosen.len() - 1 {
                assert(list[list.len() - 1] == name);
            } else {
                assert(front.filter(keep)[i] == name);
                assert(front.filter(keep).contains(name));
                let j = front.lemma_contains_to_index(name);
                assert(list[j] == name);
            }
        }
        if list.contains(name) && keep(name) {
            let j = list.lemma_contains_to_index(name);
            if j < front.len() {
                assert(front[j] == name);
                assert(front.contains(name));
                let i = front.filter(keep).lemma_contains_to_index(name);
                assert(chosen[i] == name);
            } else {
                assert(chosen[chosen.len() - 1] == name);
            }
        }
    }
}

/// A list all of whose items have a property is chosen whole.
pub proof fn lemma_filter_whole(list: Seq<Seq<char>>, keep: spec_fn(Seq<char>) -> bool)
    requires
        forall|i: int| 0 <= i < list.len() ==> keep(#[trigger] list[i]),
    ensures
        list.filter(keep) == list,
    decreases list.len(),
{
    reveal(Seq::filter);
    if list.len() > 0 {
        let front = list.drop_last();
        assert forall|i: int| 0 <= i < front.len() implies keep(#[trigger] front[i]) by {
            assert(front[i] == list[i]);
        }
        lemma_filter_whole(front, keep);
        assert(front.push(list.last()) =~= list);
        front.lemma_filter_push(list.last(), keep);
    }
}

/// Of a list none of whose items has a property nothing is chosen.
pub proof fn lemma_filter_nothing(list: Seq<Seq<char>>, keep: spec_fn(Seq<char>) -> bool)
    requires
        forall|i: int| 0 <= i < list.len() ==> !keep(#[trigger] list[i]),
    ensures
        list.filter(keep) == Seq::<Seq<char>>::empty(),
    decreases list.len(),
{
    reveal(Seq::filter);
    if list.len() > 0 {
        let front = list.drop_last();
        assert forall|i: int| 0 <= i < front.len() implies !keep(#[trigger] front[i]) by {
            assert(front[i] == list[i]);
        }
        lemma_filter_nothing(front, keep);
        assert(front.push(list.last()) =~= list);
        front.lemma_filter_push(list.last(), keep);
    }
}

/// Choosing by a property commutes with appending once to names that all
/// have the property.
pub proof fn lemma_appended_filter(
    seen: Seq<Seq<char>>,
    extra: Seq<Seq<char>>,
    keep: spec_fn(Seq<char>) -> bool,
)
    requires
        forall|i: int| 0 <= i < seen.len() ==> keep(#[trigger] seen[i]),
    ensures
        appended_once(seen, extra).filter(keep) == appended_once(seen, extra.filter(keep)),
    decreases extra.len(),
{
    if extra.len() == 0 {
        lemma_filter_nothing(extra, keep);
        lemma_filter_whole(seen, keep);
    } else {
        let front = extra.drop_last();
        let last = extra.last();
        lemma_appended_filter(seen, front, keep);
        lemma_appended_member(seen, front, last);
        lemma_appended_member(seen, front.filter(keep), last);
        lemma_filter_member(front, keep, last);
        let before = appended_once(seen, front);
        assert(front.push(last) =~= extra);
        front.lemma_filter_push(last, keep);
        before.lemma_filter_push(last, keep);
        if keep(last) {
            assert(extra.filter(keep).drop_last() =~= front.filter(keep));
            assert(extra.filter(keep).last() == last);
        }
    }
}

/// True when every name that is structural comes before every name that is
/// not.
#[verifier::opaque]
pub open spec fn structure_first(names: Seq<Seq<char>>, groups: Seq<Seq<char>>) -> bool {
    forall|i: int, j: int|
        0 <= i < j < names.len() && is_structural(#[trigger] names[j], groups) ==> is_structural(
            #[trigger] names[i],
            groups,
        )
}

/// The names that are structural, in order.
#[verifier::opaque]
pub open spec fn structural_part(names: Seq<Seq<char>>, groups: Seq<Seq<char>>) -> Seq<Seq<char>> {
    names.filter(|n: Seq<char>| is_structural(n, groups))
}

/// The names that are not structural, in order.
#[verifier::opaque]
pub open spec fn leaf_part(names: Seq<Seq<char>>, groups: Seq<Seq<char>>) -> Seq<Seq<char>> {
    names.filter(|n: Seq<char>| !is_structural(n, groups))
}

/// Names of which the structural come first are the structural ones
/// followed by the others.
pub proof fn lemma_structure_first_splits(names: Seq<Seq<char>>, groups: Seq<Seq<char>>)
    requires
        structure_first(names, groups),
    ensures
        names == structural_part(names, groups) + leaf_part(names, groups),
    decreases names.len(),
{
    let st = |n: Seq<char>| is_structural(n, groups);
    let leaf = |n: Seq<char>| !is_structural(n, groups);
    reveal(Seq::filter);
    reveal(structure_first);
    reveal(structural_part);
    reveal(leaf_part);
    if names.len() == 0 {
        assert(names.filter(st) + names.filter(leaf) =~= names);
    } else {
        let front = names.drop_last();
        let last = names.last();
        assert(front.push(last) =~= names);
        front.lemma_filter_push(last, st);
        front.lemma_filter_push(last, leaf);
        assert forall|i: int| 0 <= i < front.len() implies front[i] == names[i] by {}
        if is_structural(last, groups) {
            assert forall|i: int| 0 <= i < front.len() implies st(#[trigger] front[i]) by {
                assert(is_structural(names[names.len() - 1], groups));
                assert(is_structural(names[i], groups));
            }
            assert forall|i: int| 0 <= i < front.len() implies !leaf(#[trigger] front[i]) by {
                assert(st(front[i]));
            }
            lemma_filter_whole(front, st);
            lemma_filter_nothing(front, leaf);
            assert(names.filter(st) + names.filter(leaf) =~= names);
        } else {
            assert(structure_first(front, groups)) by {
                assert forall|i: int, j: int|
                    0 <= i < j < front.len() && is_structural(
                        #[trigger] front[j],
                        groups,
                    ) implies is_structural(#[trigger] front[i], groups) by {
                    assert(is_structural(names[j], groups));
                    assert(is_structural(names[i], groups));
                }
            }
            lemma_structure_first_splits(front, groups);
            assert(names.filter(st) + names.filter(leaf) =~= (front.filter(st) + front.filter(
                leaf,
            )).push(last));
        }
    }
}

/// The structural members of a list of text nodes are the texts that are
/// structural.
pub proof fn lemma_structural_of_texts(list: Seq<Seq<char>>, groups: Seq<Seq<char>>)
    ensures
        structural_members(list.map_values(|t: Seq<char>| YamlView::Text(t)), groups)
            == list.filter(|n: Seq<char>| is_structural(n, groups)),
    decreases list.len(),
{
    let nodes = list.map_values(|t: Seq<char>| YamlView::Text(t));
    let pick = |m: YamlView| structural_member(m, groups);
    let st = |n: Seq<char>| is_structural(n, groups);
    reveal(Seq::filter);
    if list.len() > 0 {
        let front = list.drop_last();
        lemma_structural_of_texts(front, groups);
        assert(nodes.drop_last() =~= front.map_values(|t: Seq<char>| YamlView::Text(t)));
        assert(front.push(list.last()) =~= list);
        front.lemma_filter_push(list.last(), st);
        assert(as_text(nodes.last()) == Some(list.last()));
        if is_structural(list.last(), groups) {
            assert(nodes.filter_map(pick) =~= nodes.drop_last().filter_map(pick) + seq![
                list.last(),
            ]);
        }
    }
}

/// Every structural member is structural.
pub proof fn lemma_structural_members(members: Seq<YamlView>, groups: Seq<Seq<char>>)
    ensures
        forall|i: int|
            0 <= i < structural_members(members, groups).len() ==> is_structural(
                #[trigger] structural_members(members, groups)[i],
                groups,
            ),
        forall|name: Seq<char>| #[trigger]
            structural_members(members, groups).contains(name) <==> exists|k: int|
                0 <= k < members.len() && structural_member(#[trigger] members[k], groups)
                    == Some(name),
    decreases members.len(),
{
    let pick = |m: YamlView| structural_member(m, groups);
    let all = structural_members(members, groups);
    if members.len() > 0 {
        let front = members.drop_last();
        lemma_structural_members(front, groups);
        let earlier = structural_members(front, groups);
        assert forall|i: int| 0 <= i < all.len() implies is_structural(
            #[trigger] all[i],
            groups,
        ) by {
            if i < earlier.len() {
                assert(all[i] == earlier[i]);
            }
        }
        assert forall|name: Seq<char>| #[trigger] all.contains(name) <==> exists|k: int|
            0 <= k < members.len() && structural_member(#[trigger] members[k], groups) == Some(
                name,
            ) by {
            if all.contains(name) {
                let i = all.lemma_contains_to_index(name);
                if i < earlier.len() {
                    assert(earlier[i] == name);
                    assert(earlier.contains(name));
                    let k = choose|k: int|
                        0 <= k < front.len() && structural_member(#[trigger] front[k], groups)
                            == Some(name);
                    assert(members[k] == front[k]);
                } else {
                    assert(structural_member(members[members.len() - 1], groups) == Some(name));
                }
            }
            if exists|k: int|
                0 <= k < members.len() && structural_member(#[trigger] members[k], groups)
                    == Some(name) {
                let k = choose|k: int|
                    0 <= k < members.len() && structural_member(#[trigger] members[k], groups)
                        == Some(name);
                if k < front.len() {
                    assert(front[k] == members[k]);
                    assert(earlier.contains(name));
                    let i = earlier.lemma_contains_to_index(name);
                    assert(all[i] == name);
                } else {
                    assert(all[all.len() - 1] == name);
                }
            }
        }
    }
}

/// The members of a rebuilt group begin with its structural members, each
/// once and in the order they first come; none of them occurs twice; and
/// they are the structural members and the names of the records, no more
/// and no less.
pub proof fn lemma_rebuilt_members(
    members: Seq<YamlView>,
    groups: Seq<Seq<char>>,
    names: Seq<Seq<char>>,
)
    ensures
        appended_once(Seq::empty(), structural_members(members, groups)).is_prefix_of(
            rebuilt_members(members, groups, names),
        ),
        rebuilt_members(members, groups, names).no_duplicates(),
        forall|i: int|
            0 <= i < names.len() ==> rebuilt_members(members, groups, names).contains(
                #[trigger] names[i],
            ),
{
    let kept = appended_once(Seq::empty(), structural_members(members, groups));
    lemma_appended_once(Seq::empty(), structural_members(members, groups));
    lemma_appended_once(kept, names);
    assert forall|i: int| 0 <= i < names.len() implies rebuilt_members(
        members,
        groups,
        names,
    ).contains(#[trigger] names[i]) by {
        lemma_rebuilt_member(members, groups, names, names[i]);
        assert(names.contains(names[i]));
    }
}

/// The members of a rebuilt group are its structural members and the names
/// of the records, no more and no less.
pub proof fn lemma_rebuilt_member(
    members: Seq<YamlView>,
    groups: Seq<Seq<char>>,
    names: Seq<Seq<char>>,
    name: Seq<char>,
)
    ensures
        rebuilt_members(members, groups, names).contains(name) <==> structural_members(
            members,
            groups,
        ).contains(name) || names.contains(name),
{
    let kept = appended_once(Seq::empty(), structural_members(members, groups));
    lemma_appended_member(Seq::empty(), structural_members(members, groups), name);
    lemma_appended_member(kept, names, name);
    assert(!Seq::<Seq<char>>::empty().contains(name));
}

/// Where every leaf proxy of a group is among the records, rebuilding the
/// group drops none of its members.
pub proof fn lemma_rebuilt_keeps_members(
    members: Seq<YamlView>,
    groups: Seq<Seq<char>>,
    names: Seq<Seq<char>>,
)
    requires
        forall|i: int|
            0 <= i < members.len() && as_text(#[trigger] members[i]) is Some ==> is_structural(
                as_text(members[i])->0,
                groups,
            ) || names.contains(as_text(members[i])->0),
    ensures
        forall|i: int|
            0 <= i < members.len() && as_text(#[trigger] members[i]) is Some
                ==> rebuilt_members(members, groups, names).contains(as_text(members[i])->0),
{
    let rebuilt = rebuilt_members(members, groups, names);
    let kept = structural_members(members, groups);
    assert forall|i: int|
        0 <= i < members.len() && as_text(#[trigger] members[i]) is Some implies rebuilt.contains(
        as_text(members[i])->0,
    ) by {
        let name = as_text(members[i])->0;
        lemma_rebuilt_member(members, groups, names, name);
        if is_structural(name, groups) {
            assert(structural_member(members[i], groups) == Some(name));
            lemma_structural_members(members, groups);
            assert(kept.contains(name));
        }
        assert(kept.contains(name) || names.contains(name));
        assert(rebuilt.contains(name) <==> kept.contains(name) || names.contains(name));
    }
}

/// The structural members of a group, each once, are structural and
/// differ from one another.
pub proof fn lemma_kept_members(members: Seq<YamlView>, groups: Seq<Seq<char>>)
    ensures
        appended_once(Seq::empty(), structural_members(members, groups)).no_duplicates(),
        forall|i: int|
            0 <= i < appended_once(Seq::empty(), structural_members(members, groups)).len()
                ==> is_structural(
                #[trigger] appended_once(Seq::empty(), structural_members(members, groups))[i],
                groups,
            ),
{
    let all = structural_members(members, groups);
    let kept = appended_once(Seq::empty(), all);
    lemma_appended_once(Seq::empty(), all);
    lemma_structural_members(members, groups);
    assert forall|i: int| 0 <= i < kept.len() implies is_structural(
        #[trigger] kept[i],
        groups,
    ) by {
        assert(kept.contains(kept[i]));
        lemma_appended_member(Seq::empty(), all, kept[i]);
        assert(!Seq::<Seq<char>>::empty().contains(kept[i]));
        let k = all.lemma_contains_to_index(kept[i]);
        assert(is_structural(all[k], groups));
    }
}

/// Names appended once to a list that stands between the list first
/// appended to and the outcome give the same outcome.
pub proof fn lemma_prefix_settles(
    seen: Seq<Seq<char>>,
    longer: Seq<Seq<char>>,
    extra: Seq<Seq<char>>,
)
    requires
        seen.is_prefix_of(longer),
        longer.is_prefix_of(appended_once(seen, extra)),
    ensures
        appended_once(longer, extra) == appended_once(seen, extra),
    decreases extra.len(),
{
    let once = appended_once(seen, extra);
    if extra.len() == 0 {
        assert(longer =~= seen);
    } else {
        let front = extra.drop_last();
        let before = appended_once(seen, front);
        if longer.len() <= before.len() {
            assert(longer =~= before.subrange(0, longer.len() as int)) by {
                assert forall|i: int| 0 <= i < longer.len() implies longer[i] == before[i] by {
                    assert(longer[i] == once.subrange(0, longer.len() as int)[i]);
                    assert(once[i] == before[i]);
                }
            }
            lemma_prefix_settles(seen, longer, front);
        } else {
            assert(longer =~= once);
            assert forall|i: int| 0 <= i < extra.len() implies once.contains(
                #[trigger] extra[i],
            ) by {
                lemma_appended_member(seen, extra, extra[i]);
                assert(extra.contains(extra[i]));
            }
            lemma_appended_known(once, extra);
        }
    }
}

/// The structural names of a list come before the others exactly when,
/// taken by themselves, they are how the list begins.
pub proof fn lemma_structure_first_begins(names: Seq<Seq<char>>, groups: Seq<Seq<char>>)
    ensures
        structure_first(names, groups) <==> structural_part(names, groups).is_prefix_of(names),
{
    let st = |n: Seq<char>| is_structural(n, groups);
    let chosen = structural_part(names, groups);
    if structure_first(names, groups) {
        lemma_structure_first_splits(names, groups);
        let rest = leaf_part(names, groups);
        assert(chosen =~= (chosen + rest).subrange(0, chosen.len() as int));
    }
    if chosen.is_prefix_of(names) {
        reveal(structural_part);
        reveal(structure_first);
        let m = chosen.len() as int;
        let head = names.take(m);
        let tail = names.skip(m);
        assert(head =~= chosen);
        assert(head + tail =~= names);
        assert forall|i: int| 0 <= i < head.len() implies st(#[trigger] head[i]) by {
            assert(chosen.contains(chosen[i]));
            lemma_filter_member(names, st, chosen[i]);
        }
        lemma_filter_whole(head, st);
        Seq::filter_distributes_over_add(head, tail, st);
        assert(tail.filter(st).len() == 0);
        assert forall|i: int, j: int|
            0 <= i < j < names.len() && is_structural(
                #[trigger] names[j],
                groups,
            ) implies is_structural(#[trigger] names[i], groups) by {
            if j >= m {
                assert(tail[j - m] == names[j]);
                assert(tail.contains(names[j]));
                lemma_filter_member(tail, st, names[j]);
                let k = tail.filter(st).lemma_contains_to_index(names[j]);
            }
            assert(head[i] == names[i]);
        }
    }
}

/// Names of which the structural come first, appended once to structural
/// names, give a list in which the structural names come first.
pub proof fn lemma_appended_structure_first(
    seen: Seq<Seq<char>>,
    names: Seq<Seq<char>>,
    groups: Seq<Seq<char>>,
)
    requires
        forall|i: int| 0 <= i < seen.len() ==> is_structural(#[trigger] seen[i], groups),
        structure_first(names, groups),
    ensures
        structure_first(appended_once(seen, names), groups),
    decreases names.len(),
{
    reveal(structure_first);
    if names.len() > 0 {
        let front = names.drop_last();
        let last = names.last();
        let before = appended_once(seen, front);
        assert forall|i: int| 0 <= i < front.len() implies front[i] == names[i] by {}
        lemma_appended_structure_first(seen, front, groups);
        if !before.contains(last) && is_structural(last, groups) {
            assert forall|i: int| 0 <= i < before.len() implies is_structural(
                #[trigger] before[i],
                groups,
            ) by {
                assert(before.contains(before[i]));
                lemma_appended_member(seen, front, before[i]);
                if seen.contains(before[i]) {
                    let k = seen.lemma_contains_to_index(before[i]);
                } else {
                    let k = front.lemma_contains_to_index(before[i]);
                    assert(is_structural(names[names.len() - 1], groups));
                    assert(is_structural(names[k], groups));
                }
            }
        }
    }
}

/// Rebuilding the members of a rebuilt group gives the same members
/// exactly when, in the rebuilt group, the structural members come before
/// the others.
pub proof fn lemma_rebuild_settles(
    members: Seq<YamlView>,
    groups: Seq<Seq<char>>,
    names: Seq<Seq<char>>,
)
    ensures
        rebuilt_members(
            rebuilt_members(members, groups, names).map_values(|t: Seq<char>| YamlView::Text(t)),
            groups,
            names,
        ) == rebuilt_members(members, groups, names) <==> structure_first(
            rebuilt_members(members, groups, names),
            groups,
        ),
{
    let st = |n: Seq<char>| is_structural(n, groups);
    let kept = appended_once(Seq::empty(), structural_members(members, groups));
    let once = rebuilt_members(members, groups, names);
    let nodes = once.map_values(|t: Seq<char>| YamlView::Text(t));
    let chosen = structural_part(once, groups);
    lemma_kept_members(members, groups);
    assert(structural_members(nodes, groups) == chosen) by {
        lemma_structural_of_texts(once, groups);
        reveal(structural_part);
    }
    assert(chosen == appended_once(kept, names.filter(st))) by {
        lemma_appended_filter(kept, names, st);
        reveal(structural_part);
    }
    lemma_appended_once(kept, names.filter(st));
    lemma_appended_distinct(chosen);
    assert(rebuilt_members(nodes, groups, names) == appended_once(chosen, names));
    lemma_structure_first_begins(once, groups);
    if structure_first(once, groups) {
        lemma_prefix_settles(kept, chosen, names);
    }
    if rebuilt_members(nodes, groups, names) == once {
        lemma_appended_once(chosen, names);
    }
}

/// The value under a key, once put there, is found there.
pub proof fn lemma_with_value_found(
    entries: Seq<(YamlView, YamlView)>,
    key: Seq<char>,
    value: YamlView,
)
    ensures
        value_at(with_value(entries, key, value), key) == Some(value),
        with_value(with_value(entries, key, value), key, value) == with_value(entries, key, value),
{
    lemma_key_index(entries, key);
    let put = with_value(entries, key, value);
    match key_index(entries, key) {
        Some(i) => {
            lemma_key_index_is(put, key, i);
            assert(put.update(i, (YamlView::Text(key), value)) =~= put);
        },
        None => {
            lemma_key_index_is(put, key, entries.len() as int);
            assert(put.update(entries.len() as int, (YamlView::Text(key), value)) =~= put);
        },
    }
}

/// Putting a value under a key that holds it changes nothing.
pub proof fn lemma_with_value_same(
    entries: Seq<(YamlView, YamlView)>,
    key: Seq<char>,
    value: YamlView,
)
    requires
        value_at(entries, key) == Some(value),
    ensures
        with_value(entries, key, value) == entries,
{
    lemma_key_index(entries, key);
    let i = key_index(entries, key)->0;
    assert(entries.update(i, (YamlView::Text(key), value)) =~= entries);
}

/// Putting a value under one key leaves what stands under another.
pub proof fn lemma_with_value_other(
    entries: Seq<(YamlView, YamlView)>,
    key: Seq<char>,
    value: YamlView,
    other: Seq<char>,
)
    requires
        key != other,
    ensures
        key_index(with_value(entries, key, value), other) == key_index(entries, other),
        value_at(with_value(entries, key, value), other) == value_at(entries, other),
{
    lemma_key_index(entries, key);
    lemma_key_index(entries, other);
    let put = with_value(entries, key, value);
    match key_index(entries, other) {
        Some(j) => {
            assert forall|k: int| 0 <= k < j implies put[k].0 != YamlView::Text(other) by {
                if key_index(entries, key) == Some(k) {
                } else {
                    assert(put[k] == entries[k]);
                }
            }
            assert(put[j] == entries[j]);
            lemma_key_index_is(put, other, j);
        },
        None => {
            lemma_key_index(put, other);
            if key_index(put, other) is Some {
                let j = key_index(put, other)->0;
                if j < entries.len() {
                    if key_index(entries, key) == Some(j) {
                    } else {
                        assert(put[j] == entries[j]);
                    }
                }
            }
        },
    }
}

/// Rewriting a group leaves its name.
pub proof fn lemma_rewrite_keeps_name(
    group: YamlView,
    groups: Seq<Seq<char>>,
    names: Seq<Seq<char>>,
)
    ensures
        group_name(rewritten_group(group, groups, names)) == group_name(group),
    decreases group,
{
    match group {
        YamlView::Tagged(tag, inner) => {
            lemma_rewrite_keeps_name(*inner, groups, names);
        },
        YamlView::Mapping(entries) => {
            reveal_strlit("proxies");
            reveal_strlit("name");
            assert("proxies"@.len() != "name"@.len());
            match value_at(entries, "proxies"@) {
                Some(YamlView::List(members)) => {
                    lemma_with_value_other(
                        entries,
                        "proxies"@,
                        text_list(rebuilt_members(members, groups, names)),
                        "name"@,
                    );
                },
                _ => {},
            }
        },
        _ => {},
    }
}

/// Rewriting the groups leaves their names.
pub proof fn lemma_rewrite_keeps_names(groups: Seq<YamlView>, names: Seq<Seq<char>>)
    ensures
        group_names(rewritten_groups(groups, names)) == group_names(groups),
{
    assert forall|i: int| 0 <= i < groups.len() implies group_name(
        #[trigger] rewritten_groups(groups, names)[i],
    ) == group_name(groups[i]) by {
        lemma_rewrite_keeps_name(groups[i], group_names(groups), names);
    }
    lemma_same_names(groups, rewritten_groups(groups, names), groups.len() as int);
    assert(groups.take(groups.len() as int) =~= groups);
    assert(rewritten_groups(groups, names).take(groups.len() as int) =~= rewritten_groups(
        groups,
        names,
    ));
}

/// Groups that are named alike, one by one, have the same names.
proof fn lemma_same_names(a: Seq<YamlView>, b: Seq<YamlView>, upto: int)
    requires
        a.len() == b.len(),
        0 <= upto <= a.len(),
        forall|i: int| 0 <= i < a.len() ==> group_name(#[trigger] b[i]) == group_name(a[i]),
    ensures
        group_names(b.take(upto)) == group_names(a.take(upto)),
    decreases upto,
{
    let name = |g: YamlView| group_name(g);
    if upto > 0 {
        lemma_same_names(a, b, upto - 1);
        a.lemma_filter_map_take_succ(name, upto - 1);
        b.lemma_filter_map_take_succ(name, upto - 1);
    } else {
        assert(a.take(0) =~= b.take(0));
    }
}

/// True when a group that synthesis rebuilds has, once rebuilt, its
/// structural members before the others. Of a group that synthesis leaves
/// as it is nothing is asked.
pub open spec fn group_settled(group: YamlView, groups: Seq<Seq<char>>, names: Seq<Seq<char>>) -> bool
    decreases group,
{
    match group {
        YamlView::Tagged(tag, inner) => group_settled(*inner, groups, names),
        YamlView::Mapping(entries) => match value_at(entries, "proxies"@) {
            Some(YamlView::List(members)) => has_leaf(members, groups) ==> structure_first(
                rebuilt_members(members, groups, names),
                groups,
            ),
            _ => true,
        },
        _ => true,
    }
}

/// True when every group of a list is settled.
pub open spec fn all_settled(groups: Seq<YamlView>, names: Seq<Seq<char>>) -> bool {
    forall|i: int|
        0 <= i < groups.len() ==> group_settled(#[trigger] groups[i], group_names(groups), names)
}

/// Lists of texts that are written as the same list are the same.
pub proof fn lemma_text_list_same(a: Seq<Seq<char>>, b: Seq<Seq<char>>)
    requires
        text_list(a) == text_list(b),
    ensures
        a == b,
{
    let x = a.map_values(|t: Seq<char>| YamlView::Text(t));
    let y = b.map_values(|t: Seq<char>| YamlView::Text(t));
    assert(x == y);
    assert(a.len() == x.len() && b.len() == y.len());
    assert forall|i: int| 0 <= i < a.len() implies a[i] == b[i] by {
        assert(x[i] == YamlView::Text(a[i]));
        assert(y[i] == YamlView::Text(b[i]));
    }
    assert(a =~= b);
}

/// Rewriting a rewritten group changes nothing exactly when the group is
/// settled.
pub proof fn lemma_rewrite_settles(group: YamlView, groups: Seq<Seq<char>>, names: Seq<Seq<char>>)
    ensures
        rewritten_group(rewritten_group(group, groups, names), groups, names) == rewritten_group(
            group,
            groups,
            names,
        ) <==> group_settled(group, groups, names),
    decreases group,
{
    match group {
        YamlView::Tagged(tag, inner) => {
            lemma_rewrite_settles(*inner, groups, names);
        },
        YamlView::Mapping(entries) => {
            match value_at(entries, "proxies"@) {
                Some(YamlView::List(members)) => {
                    if has_leaf(members, groups) {
                        let once = rebuilt_members(members, groups, names);
                        let put = with_value(entries, "proxies"@, text_list(once));
                        lemma_with_value_found(entries, "proxies"@, text_list(once));
                        lemma_rebuild_settles(members, groups, names);
                        let nodes = once.map_values(|t: Seq<char>| YamlView::Text(t));
                        assert(text_list(once) == YamlView::List(nodes));
                        if has_leaf(nodes, groups) {
                            let twice = rebuilt_members(nodes, groups, names);
                            lemma_with_value_found(put, "proxies"@, text_list(twice));
                            if twice == once {
                                lemma_with_value_same(put, "proxies"@, text_list(once));
                            }
                            if with_value(put, "proxies"@, text_list(twice)) == put {
                                lemma_text_list_same(twice, once);
                            }
                        } else {
                            assert forall|i: int| 0 <= i < once.len() implies is_structural(
                                #[trigger] once[i],
                                groups,
                            ) by {
                                assert(as_text(nodes[i]) == Some(once[i]));
                            }
                            reveal(structure_first);
                        }
                    }
                },
                _ => {},
            }
        },
        _ => {},
    }
}

/// True when every group that the base document lists is settled: where
/// synthesis rebuilds a group, the structural members of the rebuilt group
/// come before the others. A base without a list of groups asks for
/// nothing.
pub open spec fn groups_settled(base: YamlView, records: Seq<ProxyRecordView>) -> bool {
    match plain(base) {
        YamlView::Mapping(entries) => match value_at(entries, "proxy-groups"@) {
            Some(YamlView::List(groups)) => all_settled(groups, names_of(records)),
            _ => true,
        },
        _ => true,
    }
}

/// True when, of the names of the records, those that are structural in the
/// base document come first. A base without a list of groups asks for
/// nothing.
pub open spec fn structure_named_first(base: YamlView, records: Seq<ProxyRecordView>) -> bool {
    match plain(base) {
        YamlView::Mapping(entries) => match value_at(entries, "proxy-groups"@) {
            Some(YamlView::List(groups)) => structure_first(
                names_of(records),
                group_names(groups),
            ),
            _ => true,
        },
        _ => true,
    }
}

/// A group is settled where the structural names among the records come
/// first.
pub proof fn lemma_ordered_names_settle_group(
    group: YamlView,
    groups: Seq<Seq<char>>,
    names: Seq<Seq<char>>,
)
    requires
        structure_first(names, groups),
    ensures
        group_settled(group, groups, names),
    decreases group,
{
    match group {
        YamlView::Tagged(tag, inner) => {
            lemma_ordered_names_settle_group(*inner, groups, names);
        },
        YamlView::Mapping(entries) => {
            match value_at(entries, "proxies"@) {
                Some(YamlView::List(members)) => {
                    lemma_kept_members(members, groups);
                    lemma_appended_structure_first(
                        appended_once(Seq::empty(), structural_members(members, groups)),
                        names,
                        groups,
                    );
                },
                _ => {},
            }
        },
        _ => {},
    }
}

/// Every group of the base document is settled where, of the names of the
/// records, those that are also names of its groups or pseudo-targets come
/// first.
pub proof fn lemma_ordered_names_settle(base: YamlView, records: Seq<ProxyRecordView>)
    requires
        structure_named_first(base, records),
    ensures
        groups_settled(base, records),
{
    match plain(base) {
        YamlView::Mapping(entries) => match value_at(entries, "proxy-groups"@) {
            Some(YamlView::List(groups)) => {
                assert forall|i: int| 0 <= i < groups.len() implies group_settled(
                    #[trigger] groups[i],
                    group_names(groups),
                    names_of(records),
                ) by {
                    lemma_ordered_names_settle_group(
                        groups[i],
                        group_names(groups),
                        names_of(records),
                    );
                }
            },
            _ => {},
        },
        _ => {},
    }
}

/// Synthesis on the entries of a synthesized mapping changes nothing
/// exactly when the groups that the mapping lists are settled.
pub proof fn lemma_entries_settle(
    entries: Seq<(YamlView, YamlView)>,
    proxies: YamlView,
    names: Seq<Seq<char>>,
)
    ensures
        merged_entries(merged_entries(entries, proxies, names), proxies, names) == merged_entries(
            entries,
            proxies,
            names,
        ) <==> match value_at(entries, "proxy-groups"@) {
            Some(YamlView::List(groups)) => all_settled(groups, names),
            _ => true,
        },
{
    reveal_strlit("proxies");
    reveal_strlit("proxy-groups");
    assert("proxies"@.len() != "proxy-groups"@.len());
    let listed = with_value(entries, "proxies"@, proxies);
    lemma_with_value_found(entries, "proxies"@, proxies);
    lemma_with_value_other(entries, "proxies"@, proxies, "proxy-groups"@);
    match value_at(listed, "proxy-groups"@) {
        Some(YamlView::List(groups)) => {
            let once = rewritten_groups(groups, names);
            let first = with_value(listed, "proxy-groups"@, YamlView::List(once));
            lemma_with_value_found(listed, "proxy-groups"@, YamlView::List(once));
            lemma_with_value_other(listed, "proxy-groups"@, YamlView::List(once), "proxies"@);
            lemma_with_value_same(first, "proxies"@, proxies);
            lemma_rewrite_keeps_names(groups, names);
            let twice = rewritten_groups(once, names);
            lemma_with_value_found(first, "proxy-groups"@, YamlView::List(twice));
            assert forall|i: int| 0 <= i < once.len() implies (#[trigger] twice[i] == once[i]
                <==> group_settled(groups[i], group_names(groups), names)) by {
                lemma_rewrite_settles(groups[i], group_names(groups), names);
            }
            if all_settled(groups, names) {
                assert(twice =~= once);
                lemma_with_value_same(first, "proxy-groups"@, YamlView::List(once));
            }
            if with_value(first, "proxy-groups"@, YamlView::List(twice)) == first {
                assert(twice == once);
                assert forall|i: int| 0 <= i < groups.len() implies group_settled(
                    #[trigger] groups[i],
                    group_names(groups),
                    names,
                ) by {
                    assert(twice[i] == once[i]);
                }
            }
        },
        _ => {
            lemma_with_value_same(listed, "proxies"@, proxies);
        },
    }
}

/// Synthesis on a synthesized document changes nothing exactly when the
/// groups that the document lists are settled, for a mapping that may
/// stand under tags.
pub proof fn lemma_under_tags_settles(node: YamlView, proxies: YamlView, names: Seq<Seq<char>>)
    requires
        plain(node) is Mapping,
    ensures
        plain(merged_under_tags(node, proxies, names)) is Mapping,
        merged_under_tags(merged_under_tags(node, proxies, names), proxies, names)
            == merged_under_tags(node, proxies, names) <==> match value_at(
            plain(node)->Mapping_0,
            "proxy-groups"@,
        ) {
            Some(YamlView::List(groups)) => all_settled(groups, names),
            _ => true,
        },
    decreases node,
{
    match node {
        YamlView::Tagged(tag, inner) => {
            lemma_under_tags_settles(*inner, proxies, names);
        },
        YamlView::Mapping(entries) => {
            lemma_entries_settle(entries, proxies, names);
        },
        _ => {},
    }
}

/// Running the synthesis a second time with the same records changes
/// nothing exactly when every group that the base document lists is
/// settled: where a group is rebuilt, the names of groups and the
/// pseudo-targets among its new members come before the other members.
pub proof fn lemma_merge_settles(base: YamlView, records: Seq<ProxyRecordView>)
    ensures
        merged(merged(base, records), records) == merged(base, records) <==> groups_settled(
            base,
            records,
        ),
{
    let proxies = proxy_list(records);
    let names = names_of(records);
    if plain(base) is Mapping {
        lemma_under_tags_settles(base, proxies, names);
    } else {
        let entries = Seq::<(YamlView, YamlView)>::empty();
        assert(key_index(entries, "proxy-groups"@) is None);
        lemma_entries_settle(entries, proxies, names);
        let once = YamlView::Mapping(merged_entries(entries, proxies, names));
        assert(plain(once) == once);
    }
}

/// Running the synthesis a second time with the same records changes
/// nothing: no member of a group is appended twice. This holds where every
/// group that the base document lists is settled, and so where, of the
/// names of the records, those that are also names of groups of the base
/// document or pseudo-targets come first.
pub proof fn lemma_merge_idempotent(base: YamlView, records: Seq<ProxyRecordView>)
    requires
        groups_settled(base, records) || structure_named_first(base, records),
    ensures
        merged(merged(base, records), records) == merged(base, records),
{
    if structure_named_first(base, records) {
        lemma_ordered_names_settle(base, records);
    }
    lemma_merge_settles(base, records);
}

/// After synthesis `proxies` holds the list of the records, and every key
/// but `proxies` and `proxy-groups` holds what it held before.
pub proof fn lemma_merge_keeps_other_keys(
    entries: Seq<(YamlView, YamlView)>,
    proxies: YamlView,
    names: Seq<Seq<char>>,
    key: Seq<char>,
)
    ensures
        value_at(merged_entries(entries, proxies, names), "proxies"@) == Some(proxies),
        key != "proxies"@ && key != "proxy-groups"@ ==> value_at(
            merged_entries(entries, proxies, names),
            key,
        ) == value_at(entries, key),
{
    reveal_strlit("proxies");
    reveal_strlit("proxy-groups");
    assert("proxies"@.len() != "proxy-groups"@.len());
    let listed = with_value(entries, "proxies"@, proxies);
    lemma_with_value_found(entries, "proxies"@, proxies);
    match value_at(listed, "proxy-groups"@) {
        Some(YamlView::List(groups)) => {
            let rewritten = YamlView::List(rewritten_groups(groups, names));
            lemma_with_value_other(listed, "proxy-groups"@, rewritten, "proxies"@);
            if key != "proxies"@ && key != "proxy-groups"@ {
                lemma_with_value_other(listed, "proxy-groups"@, rewritten, key);
                lemma_with_value_other(entries, "proxies"@, proxies, key);
            }
        },
        _ => {
            if key != "proxies"@ {
                lemma_with_value_other(entries, "proxies"@, proxies, key);
            }
        },
    }
}

/// Synthesis keeps every entry of the base in its place: no entry is
/// dropped or moved, and at most `proxies` is added at the end.
pub proof fn lemma_merge_keeps_places(
    entries: Seq<(YamlView, YamlView)>,
    proxies: YamlView,
    names: Seq<Seq<char>>,
)
    ensures
        merged_entries(entries, proxies, names).len() == if key_index(entries, "proxies"@)
            is Some {
            entries.len()
        } else {
            entries.len() + 1
        },
        forall|i: int|
            0 <= i < entries.len() ==> (#[trigger] merged_entries(entries, proxies, names)[i]).0
                == entries[i].0,
{
    let listed = with_value(entries, "proxies"@, proxies);
    lemma_key_index(entries, "proxies"@);
    lemma_key_index(listed, "proxy-groups"@);
    lemma_with_value_found(entries, "proxies"@, proxies);
}

/// What synthesis makes is a mapping, whatever the base is.
pub proof fn lemma_merged_is_mapping(base: YamlView, records: Seq<ProxyRecordView>)
    ensures
        plain(merged(base, records)) is Mapping,
{
    if plain(base) is Mapping {
        lemma_under_tags_is_mapping(base, proxy_list(records), names_of(records));
    }
}

/// Synthesis on a mapping under tags gives a mapping under the same tags.
proof fn lemma_under_tags_is_mapping(node: YamlView, proxies: YamlView, names: Seq<Seq<char>>)
    requires
        plain(node) is Mapping,
    ensures
        plain(merged_under_tags(node, proxies, names)) is Mapping,
    decreases node,
{
    match node {
        YamlView::Tagged(tag, inner) => {
            lemma_under_tags_is_mapping(*inner, proxies, names);
        },
        _ => {},
    }
}

/// Synthesis on the entries of a mapping leaves each key once.
pub proof fn lemma_entries_keep_keys_once(
    entries: Seq<(YamlView, YamlView)>,
    proxies: YamlView,
    names: Seq<Seq<char>>,
)
    requires
        keys_once(entries),
    ensures
        keys_once(merged_entries(entries, proxies, names)),
{
    let listed = with_value(entries, "proxies"@, proxies);
    lemma_with_value_keys_once(entries, "proxies"@, proxies);
    match value_at(listed, "proxy-groups"@) {
        Some(YamlView::List(groups)) => {
            lemma_with_value_keys_once(
                listed,
                "proxy-groups"@,
                YamlView::List(rewritten_groups(groups, names)),
            );
        },
        _ => {},
    }
}

/// A group in which each key stands once is rewritten to one in which each
/// key stands once.
pub proof fn lemma_rewrite_keeps_keys_once(
    group: YamlView,
    groups: Seq<Seq<char>>,
    names: Seq<Seq<char>>,
)
    requires
        mapping_keys_once(group),
    ensures
        mapping_keys_once(rewritten_group(group, groups, names)),
    decreases group,
{
    match group {
        YamlView::Tagged(tag, inner) => {
            lemma_rewrite_keeps_keys_once(*inner, groups, names);
        },
        YamlView::Mapping(entries) => {
            match value_at(entries, "proxies"@) {
                Some(YamlView::List(members)) => {
                    lemma_with_value_keys_once(
                        entries,
                        "proxies"@,
                        text_list(rebuilt_members(members, groups, names)),
                    );
                },
                _ => {},
            }
        },
        _ => {},
    }
}

/// Synthesis leaves each key of the document once: a base in which no key
/// stands twice gives a document in which none does, and a base that is no
/// mapping gives one with the keys that synthesis puts there.
pub proof fn lemma_merge_keeps_keys_once(base: YamlView, records: Seq<ProxyRecordView>)
    requires
        mapping_keys_once(base),
    ensures
        mapping_keys_once(merged(base, records)),
{
    if plain(base) is Mapping {
        lemma_under_tags_keep_keys_once(base, proxy_list(records), names_of(records));
    } else {
        let entries = Seq::<(YamlView, YamlView)>::empty();
        lemma_entries_keep_keys_once(entries, proxy_list(records), names_of(records));
        let once = YamlView::Mapping(merged_entries(entries, proxy_list(records), names_of(records)));
        assert(plain(once) == once);
    }
}

/// Synthesis on a mapping under tags leaves each key once.
proof fn lemma_under_tags_keep_keys_once(node: YamlView, proxies: YamlView, names: Seq<Seq<char>>)
    requires
        mapping_keys_once(node),
    ensures
        mapping_keys_once(merged_under_tags(node, proxies, names)),
    decreases node,
{
    match node {
        YamlView::Tagged(tag, inner) => {
            lemma_under_tags_keep_keys_once(*inner, proxies, names);
        },
        YamlView::Mapping(entries) => {
            lemma_entries_keep_keys_once(entries, proxies, names);
        },
        _ => {},
    }
}

/// A document that holds the key `rule-providers` at its top level is a
/// full configuration, whatever else it holds.
pub proof fn lemma_rule_providers_mark_full_config(doc: YamlView)
    requires
        plain(doc) is Mapping,
        has_key(plain(doc)->Mapping_0, "rule-providers"@),
    ensures
        full_config(doc),
{
}

/// A payload gives no record exactly when none of its lines is a share
/// link that a decoder accepts.
pub proof fn lemma_no_link_no_record(bytes: Seq<u8>)
    ensures
        subscription_records(bytes).len() == 0 <==> forall|i: int|
            0 <= i < subscription_lines(bytes).len() ==> link_record(
                #[trigger] subscription_lines(bytes)[i],
            ) is None,
{
    lemma_no_record(subscription_lines(bytes));
}

/// Lines give no record exactly when no decoder accepts any of them.
pub proof fn lemma_no_record(lines: Seq<Seq<char>>)
    ensures
        line_records(lines).len() == 0 <==> forall|i: int|
            0 <= i < lines.len() ==> link_record(#[trigger] lines[i]) is None,
    decreases lines.len(),
{
    if lines.len() > 0 {
        let front = lines.drop_last();
        lemma_no_record(front);
        if line_records(lines).len() == 0 {
            assert forall|i: int| 0 <= i < lines.len() implies link_record(
                #[trigger] lines[i],
            ) is None by {
                if i < front.len() {
                    assert(front[i] == lines[i]);
                }
            }
        }
        if forall|i: int| 0 <= i < lines.len() ==> link_record(#[trigger] lines[i]) is None {
            assert forall|i: int| 0 <= i < front.len() implies link_record(
                #[trigger] front[i],
            ) is None by {
                assert(front[i] == lines[i]);
            }
            assert(link_record(lines[lines.len() - 1]) is None);
        }
    }
}

/// The record of a VMess document has the address, the port and the id that
/// the document gives.
pub proof fn lemma_vmess_keeps_members(doc: JsonDocumentView)
    ensures
        match vmess_record(doc) {
            Some(r) => field_text(doc, "add"@) == Some(r.server) && opt_u16(
                field_text(doc, "port"@),
            ) == Some(r.port) && field_text(doc, "id"@) == Some(r.uuid),
            None => field_text(doc, "add"@) is None || opt_u16(field_text(doc, "port"@)) is None
                || field_text(doc, "id"@) is None,
        },
{
}

/// The record of a VLess link has the host, the port and the user name of
/// the link, and there is one exactly when the scheme is `vless` and all
/// three are given.
pub proof fn lemma_vless_keeps_parts(parts: UrlPartsView, pairs: Seq<(Seq<char>, Seq<char>)>)
    ensures
        match vless_record(parts, pairs) {
            Some(r) => parts.scheme == "vless"@ && parts.host == Some(r.server) && parts.port
                == Some(r.port) && parts.username == r.uuid && r.uuid.len() > 0,
            None => parts.scheme != "vless"@ || parts.username.len() == 0 || parts.host is None
                || parts.port is None,
        },
{
}

/// The record of a Trojan link has the host, the port and the user name of
/// the link, and there is one exactly when the scheme is `trojan` and all
/// three are given.
pub proof fn lemma_trojan_keeps_parts(parts: UrlPartsView, pairs: Seq<(Seq<char>, Seq<char>)>)
    ensures
        match trojan_record(parts, pairs) {
            Some(r) => parts.scheme == "trojan"@ && parts.host == Some(r.server) && parts.port
                == Some(r.port) && parts.username == r.password && r.password.len() > 0,
            None => parts.scheme != "trojan"@ || parts.username.len() == 0 || parts.host is None
                || parts.port is None,
        },
{
}

/// True when a text holds none of the characters that end the part of a link
/// in which it stands: `@`, `#` and `?`.
pub open spec fn plain_part(text: Seq<char>) -> bool {
    forall|i: int|
        0 <= i < text.len() ==> (#[trigger] text[i]) != '@' && text[i] != '#' && text[i] != '?'
}

/// True when a text holds no `:`.
pub open spec fn colon_free(text: Seq<char>) -> bool {
    forall|i: int| 0 <= i < text.len() ==> (#[trigger] text[i]) != ':'
}

/// The link `ss://cipher:password@host:port`.
pub open spec fn plain_shadowsocks_link(
    cipher: Seq<char>,
    password: Seq<char>,
    host: Seq<char>,
    port: u16,
) -> Seq<char> {
    "ss://"@ + (cipher + seq![':'] + password + seq!['@'] + host + seq![':'] + decimal_text(
        port as nat,
    ))
}

/// A link written as `ss://cipher:password@host:port` decodes to a record
/// with exactly this cipher, password, host and port, named `host:port`.
/// This holds where none of the parts holds `@`, `#` or `?`, cipher and
/// host hold no `:`, and the host does not begin with `[`.
pub proof fn lemma_plain_shadowsocks_link(
    cipher: Seq<char>,
    password: Seq<char>,
    host: Seq<char>,
    port: u16,
)
    requires
        plain_part(cipher),
        plain_part(password),
        plain_part(host),
        colon_free(cipher),
        colon_free(host),
        host.len() > 0 ==> host[0] != '[',
    ensures
        shadowsocks_link(plain_shadowsocks_link(cipher, password, host, port)) == Some(
            ShadowsocksView {
                name: endpoint_name(host, port),
                server: host,
                port,
                cipher,
                password,
                plugin: None,
                plugin_opts: None,
            },
        ),
{
    reveal_strlit("ss://");
    let digits = decimal_text(port as nat);
    let userinfo = cipher + seq![':'] + password;
    let hostport = host + seq![':'] + digits;
    let content = userinfo + seq!['@'] + hostport;
    let line = plain_shadowsocks_link(cipher, password, host, port);
    assert(line =~= "ss://"@ + content);
    lemma_decimal_text(port as nat);
    assert(line[0] == 's');
    assert(line.last() == digits.last());
    assert(is_digit(digits.last()));
    assert(leading_space(line) == 0);
    assert(trailing_space(line) == 0);
    lemma_trimmed_same(line);
    assert(line.skip(5) =~= content);
    assert("ss://"@.is_prefix_of(line));
    lemma_plain_content(cipher, password, host, port);
    lemma_plain_credentials(cipher, password);
    lemma_plain_endpoint(host, port);
}

/// The digits of a port hold none of the characters that part a link.
proof fn lemma_plain_digits(port: u16)
    ensures
        plain_part(decimal_text(port as nat)),
        colon_free(decimal_text(port as nat)),
{
    let digits = decimal_text(port as nat);
    lemma_decimal_text(port as nat);
    assert forall|i: int| 0 <= i < digits.len() implies (#[trigger] digits[i]) != '@'
        && digits[i] != '#' && digits[i] != '?' && digits[i] != ':' by {
        assert(is_digit(digits[i]));
    }
}

/// The content of a plain link has neither fragment nor query, and its
/// authority is parted at the `@` between password and host.
proof fn lemma_plain_content(cipher: Seq<char>, password: Seq<char>, host: Seq<char>, port: u16)
    requires
        plain_part(cipher),
        plain_part(password),
        plain_part(host),
    ensures
        ({
            let userinfo = cipher + seq![':'] + password;
            let hostport = host + seq![':'] + decimal_text(port as nat);
            let content = userinfo + seq!['@'] + hostport;
            &&& cut_first(content, '#') == (content, None::<Seq<char>>)
            &&& cut_first(content, '?') == (content, None::<Seq<char>>)
            &&& authority_of(content) == Some((userinfo, hostport))
        }),
{
    let digits = decimal_text(port as nat);
    let userinfo = cipher + seq![':'] + password;
    let hostport = host + seq![':'] + digits;
    let content = userinfo + seq!['@'] + hostport;
    lemma_plain_digits(port);
    assert forall|j: int| 0 <= j < content.len() implies content[j] != '#' && content[j]
        != '?' by {
        lemma_part_at(cipher, password, host, digits, j);
    }
    lemma_cut_first_absent(content, '#');
    lemma_cut_first_absent(content, '?');
    let at = userinfo.len() as int;
    assert(content[at] == '@');
    assert forall|j: int| at < j < content.len() implies content[j] != '@' by {
        lemma_part_at(cipher, password, host, digits, j);
    }
    lemma_cut_last_at(content, '@', at);
    assert(content.take(at) =~= userinfo);
    assert(content.skip(at + 1) =~= hostport);
}

/// The user information of a plain link is parted at the `:` behind the
/// cipher.
proof fn lemma_plain_credentials(cipher: Seq<char>, password: Seq<char>)
    requires
        colon_free(cipher),
    ensures
        credentials_of(cipher + seq![':'] + password) == Some((cipher, password)),
{
    let userinfo = cipher + seq![':'] + password;
    let colon = cipher.len() as int;
    assert(userinfo[colon] == ':');
    assert(userinfo.contains(':'));
    assert forall|j: int| 0 <= j < colon implies userinfo[j] != ':' by {
        assert(userinfo[j] == cipher[j]);
    }
    lemma_cut_first_at(userinfo, ':', colon);
    assert(userinfo.take(colon) =~= cipher);
    assert(userinfo.skip(colon + 1) =~= password);
}

/// The host and the port of a plain link are parted at the `:` before the
/// digits.
proof fn lemma_plain_endpoint(host: Seq<char>, port: u16)
    requires
        colon_free(host),
        host.len() > 0 ==> host[0] != '[',
    ensures
        endpoint_of(host + seq![':'] + decimal_text(port as nat)) == Some((host, port)),
{
    let digits = decimal_text(port as nat);
    let hostport = host + seq![':'] + digits;
    lemma_plain_digits(port);
    lemma_decimal_round_trip(port);
    let last = host.len() as int;
    assert(hostport[last] == ':');
    assert forall|j: int| last < j < hostport.len() implies hostport[j] != ':' by {
        assert(hostport[j] == digits[j - last - 1]);
    }
    lemma_cut_last_at(hostport, ':', last);
    assert(hostport.take(last) =~= host);
    assert(hostport.skip(last + 1) =~= digits);
    assert(hostport[0] != '[') by {
        if host.len() > 0 {
            assert(hostport[0] == host[0]);
        }
    }
}

/// Which part of a plain link a character of it stands in.
proof fn lemma_part_at(
    cipher: Seq<char>,
    password: Seq<char>,
    host: Seq<char>,
    digits: Seq<char>,
    j: int,
)
    requires
        0 <= j < (cipher + seq![':'] + password + seq!['@'] + (host + seq![':'] + digits)).len(),
    ensures
        ({
            let content = cipher + seq![':'] + password + seq!['@'] + (host + seq![':'] + digits);
            let a = cipher.len();
            let b = a + 1 + password.len();
            let c = b + 1 + host.len();
            if j < a {
                content[j] == cipher[j]
            } else if j == a {
                content[j] == ':'
            } else if j < b {
                content[j] == password[j - a - 1]
            } else if j == b {
                content[j] == '@'
            } else if j < c {
                content[j] == host[j - b - 1]
            } else if j == c {
                content[j] == ':'
            } else {
                content[j] == digits[j - c - 1]
            }
        }),
{
}

} // verus!
