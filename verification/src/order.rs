//! The order of texts, and lists of names kept in that order.

use crate::text::{chars_of, texts};
use vstd::prelude::*;

verus! {

/// True when `a` stands before `b` in the order of texts: character by
/// character, and a text before any that it begins.
pub open spec fn text_before(a: Seq<char>, b: Seq<char>) -> bool
    decreases a.len(),
{
    if b.len() == 0 {
        false
    } else if a.len() == 0 {
        true
    } else if a[0] != b[0] {
        a[0] < b[0]
    } else {
        text_before(a.drop_first(), b.drop_first())
    }
}

/// No text stands before itself.
pub proof fn lemma_text_before_irreflexive(a: Seq<char>)
    ensures
        !text_before(a, a),
    decreases a.len(),
{
    if a.len() > 0 {
        lemma_text_before_irreflexive(a.drop_first());
    }
}

/// The order of texts is transitive.
pub proof fn lemma_text_before_transitive(a: Seq<char>, b: Seq<char>, c: Seq<char>)
    requires
        text_before(a, b),
        text_before(b, c),
    ensures
        text_before(a, c),
    decreases a.len(),
{
    if a.len() > 0 && b.len() > 0 && c.len() > 0 && a[0] == b[0] && b[0] == c[0] {
        lemma_text_before_transitive(a.drop_first(), b.drop_first(), c.drop_first());
    }
}

/// Of two different texts one stands before the other.
pub proof fn lemma_text_before_total(a: Seq<char>, b: Seq<char>)
    ensures
        text_before(a, b) || text_before(b, a) || a == b,
    decreases a.len(),
{
    if a.len() > 0 && b.len() > 0 && a[0] == b[0] {
        lemma_text_before_total(a.drop_first(), b.drop_first());
        if a.drop_first() == b.drop_first() {
            assert(a.len() == a.drop_first().len() + 1);
            assert(b.len() == b.drop_first().len() + 1);
            assert forall|i: int| 0 <= i < a.len() implies a[i] == b[i] by {
                if i > 0 {
                    assert(a[i] == a.drop_first()[i - 1]);
                    assert(b[i] == b.drop_first()[i - 1]);
                }
            }
            assert(a =~= b);
        }
    } else if a.len() == 0 && b.len() == 0 {
        assert(a =~= b);
    }
}

/// Whether `a` stands before `b` in the order of texts.
pub fn chars_before(a: &[char], b: &[char]) -> (yes: bool)
    ensures
        yes == text_before(a@, b@),
{
    let mut i: usize = 0;
    assert(a@.skip(0) =~= a@);
    assert(b@.skip(0) =~= b@);
    while i < a.len() && i < b.len()
        invariant
            i <= a.len(),
            i <= b.len(),
            text_before(a@, b@) == text_before(a@.skip(i as int), b@.skip(i as int)),
        decreases a.len() - i,
    {
        assert(a@.skip(i as int).drop_first() =~= a@.skip(i + 1));
        assert(b@.skip(i as int).drop_first() =~= b@.skip(i + 1));
        if a[i] != b[i] {
            return a[i] < b[i];
        }
        i += 1;
    }
    i < b.len()
}

/// Whether `a` stands before `b` in the order of texts.
pub fn precedes(a: &str, b: &str) -> (yes: bool)
    ensures
        yes == text_before(a@, b@),
{
    let x = chars_of(a);
    let y = chars_of(b);
    chars_before(x.as_slice(), y.as_slice())
}

/// True when no item of the list has a key that stands before the key of
/// an item that comes earlier.
pub open spec fn ordered<T>(list: Seq<T>, key: spec_fn(T) -> Seq<char>) -> bool {
    forall|i: int, j: int| 0 <= i < j < list.len() ==> !text_before(key(list[j]), key(list[i]))
}

/// Where an item goes in a list: before the first item whose key stands
/// after its own, and so behind the items with the same key.
pub open spec fn slot<T>(list: Seq<T>, key: spec_fn(T) -> Seq<char>, item: T) -> int
    decreases list.len(),
{
    if list.len() == 0 {
        0
    } else if text_before(key(item), key(list[0])) {
        0
    } else {
        1 + slot(list.drop_first(), key, item)
    }
}

/// The items put in order one after the other, each in its slot.
pub open spec fn arranged<T>(items: Seq<T>, key: spec_fn(T) -> Seq<char>) -> Seq<T>
    decreases items.len(),
{
    if items.len() == 0 {
        items
    } else {
        let earlier = arranged(items.drop_last(), key);
        earlier.insert(slot(earlier, key, items.last()), items.last())
    }
}

/// An index is the slot of an item exactly when no item before it has a key
/// after the item's, and the item at it has.
pub proof fn lemma_slot<T>(list: Seq<T>, key: spec_fn(T) -> Seq<char>, item: T, at: int)
    requires
        0 <= at <= list.len(),
        forall|k: int| 0 <= k < at ==> !text_before(key(item), key(#[trigger] list[k])),
        at < list.len() ==> text_before(key(item), key(list[at])),
    ensures
        slot(list, key, item) == at,
    decreases list.len(),
{
    if list.len() > 0 && at > 0 {
        let rest = list.drop_first();
        assert forall|k: int| 0 <= k < at - 1 implies !text_before(
            key(item),
            key(#[trigger] rest[k]),
        ) by {
            assert(rest[k] == list[k + 1]);
        }
        assert(!text_before(key(item), key(list[0])));
        if at < list.len() {
            assert(rest[at - 1] == list[at]);
        }
        lemma_slot(rest, key, item, at - 1);
    }
}

/// The slot of an item lies in the list or at its end; no item before it
/// has a key after the item's, and the item at it has.
pub proof fn lemma_slot_is_first_after<T>(list: Seq<T>, key: spec_fn(T) -> Seq<char>, item: T)
    ensures
        0 <= slot(list, key, item) <= list.len(),
        forall|k: int|
            0 <= k < slot(list, key, item) ==> !text_before(key(item), key(#[trigger] list[k])),
        slot(list, key, item) < list.len() ==> text_before(
            key(item),
            key(list[slot(list, key, item)]),
        ),
    decreases list.len(),
{
    if list.len() > 0 && !text_before(key(item), key(list[0])) {
        let rest = list.drop_first();
        lemma_slot_is_first_after(rest, key, item);
        let at = slot(list, key, item);
        assert forall|k: int| 0 <= k < at implies !text_before(
            key(item),
            key(#[trigger] list[k]),
        ) by {
            if k > 0 {
                assert(list[k] == rest[k - 1]);
            }
        }
        if at < list.len() {
            assert(list[at] == rest[at - 1]);
        }
    }
}

/// An item put in its slot leaves an ordered list ordered.
pub proof fn lemma_insert_ordered<T>(list: Seq<T>, key: spec_fn(T) -> Seq<char>, item: T)
    requires
        ordered(list, key),
    ensures
        ordered(list.insert(slot(list, key, item), item), key),
{
    lemma_slot_is_first_after(list, key, item);
    let at = slot(list, key, item);
    let after = list.insert(at, item);
    assert forall|i: int, j: int| 0 <= i < j < after.len() implies !text_before(
        key(after[j]),
        key(after[i]),
    ) by {
        if j == at {
            assert(after[i] == list[i]);
        } else if i == at {
            assert(after[j] == list[j - 1]);
            if text_before(key(list[j - 1]), key(item)) {
                lemma_text_before_transitive(key(list[j - 1]), key(item), key(list[at]));
                if j - 1 == at {
                    lemma_text_before_irreflexive(key(list[at]));
                }
            }
        } else if i < at && j < at {
            assert(after[i] == list[i] && after[j] == list[j]);
        } else if i < at {
            assert(after[i] == list[i] && after[j] == list[j - 1]);
        } else {
            assert(after[i] == list[i - 1] && after[j] == list[j - 1]);
        }
    }
}

/// Arranging gives an ordered list of the same items.
pub proof fn lemma_arranged<T>(items: Seq<T>, key: spec_fn(T) -> Seq<char>)
    ensures
        ordered(arranged(items, key), key),
        arranged(items, key).len() == items.len(),
        arranged(items, key).to_multiset() == items.to_multiset(),
    decreases items.len(),
{
    if items.len() > 0 {
        let front = items.drop_last();
        lemma_arranged(front, key);
        let earlier = arranged(front, key);
        lemma_slot_is_first_after(earlier, key, items.last());
        lemma_insert_ordered(earlier, key, items.last());
        vstd::seq_lib::to_multiset_insert(earlier, slot(earlier, key, items.last()), items.last());
        assert(front.push(items.last()) =~= items);
        vstd::seq_lib::to_multiset_build(front, items.last());
    }
}

/// The key of a name: the name itself.
pub open spec fn by_name() -> spec_fn(Seq<char>) -> Seq<char> {
    |name: Seq<char>| name
}

/// True when no text of the list stands before one that comes earlier.
pub open spec fn ascending(list: Seq<Seq<char>>) -> bool {
    ordered(list, by_name())
}

/// True when each text of the list stands before every one that comes
/// later.
pub open spec fn strictly_ascending(list: Seq<Seq<char>>) -> bool {
    forall|i: int, j: int| 0 <= i < j < list.len() ==> text_before(list[i], list[j])
}

/// An ascending list in which no text occurs twice is strictly ascending.
pub proof fn lemma_strictly_ascending(list: Seq<Seq<char>>)
    requires
        ascending(list),
        list.no_duplicates(),
    ensures
        strictly_ascending(list),
{
    assert forall|i: int, j: int| 0 <= i < j < list.len() implies text_before(
        list[i],
        list[j],
    ) by {
        lemma_text_before_total(list[i], list[j]);
        assert(!text_before(by_name()(list[j]), by_name()(list[i])));
    }
}

/// A strictly ascending list holds no text twice.
pub proof fn lemma_strict_order_has_no_repeats(list: Seq<Seq<char>>)
    requires
        strictly_ascending(list),
    ensures
        list.no_duplicates(),
{
    assert forall|i: int, j: int| 0 <= i < list.len() && 0 <= j < list.len() && i != j implies list[i]
        != list[j] by {
        lemma_text_before_irreflexive(list[i]);
        if i < j {
            assert(text_before(list[i], list[j]));
        } else {
            assert(text_before(list[j], list[i]));
        }
    }
}

/// Puts `name` into a list in ascending order, behind the names that do
/// not stand after it.
pub fn insert_in_order(list: &mut Vec<String>, name: String)
    ensures
        texts(final(list)@) == texts(old(list)@).insert(
            slot(texts(old(list)@), by_name(), name@),
            name@,
        ),
{
    let mut at: usize = 0;
    while at < list.len() && !precedes(name.as_str(), list[at].as_str())
        invariant
            at <= list.len(),
            *list == *old(list),
            forall|k: int| 0 <= k < at ==> !text_before(name@, #[trigger] texts(list@)[k]),
        decreases list.len() - at,
    {
        at += 1;
    }
    proof {
        lemma_slot(texts(list@), by_name(), name@, at as int);
    }
    let ghost before = texts(list@);
    list.insert(at, name);
    assert(texts(list@) =~= before.insert(at as int, name@));
}

/// The names in ascending order, names that are alike in the order they
/// came in.
pub fn sorted_names(names: &Vec<String>) -> (sorted: Vec<String>)
    ensures
        texts(sorted@) == arranged(texts(names@), by_name()),
        ascending(texts(sorted@)),
        texts(sorted@).to_multiset() == texts(names@).to_multiset(),
{
    let mut sorted: Vec<String> = Vec::new();
    let mut i: usize = 0;
    assert(texts(names@).take(0) =~= Seq::<Seq<char>>::empty());
    assert(texts(sorted@) =~= Seq::<Seq<char>>::empty());
    while i < names.len()
        invariant
            i <= names.len(),
            texts(sorted@) == arranged(texts(names@).take(i as int), by_name()),
        decreases names.len() - i,
    {
        proof {
            assert(texts(names@).take(i + 1).drop_last() =~= texts(names@).take(i as int));
        }
        insert_in_order(&mut sorted, names[i].clone());
        i += 1;
    }
    proof {
        assert(texts(names@).take(names.len() as int) =~= texts(names@));
        lemma_arranged(texts(names@), by_name());
    }
    sorted
}

} // verus!
