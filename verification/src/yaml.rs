use serde_yaml::value::{Tag, TaggedValue};
use serde_yaml::Value;
use crate::text::{decimal_text, push_decimal, same_text, string_of, texts};
use vstd::prelude::*;

verus! {

/// A YAML value as a plain, order-preserving tree.
///
/// Mappings keep their entries in document order. A number is kept as the
/// text that stands for it in YAML, a tag with its leading `!`.
#[derive(Debug)]
pub enum Yaml {
    Null,
    Bool(bool),
    Number(String),
    Text(String),
    List(Vec<Yaml>),
    Mapping(Vec<(Yaml, Yaml)>),
    Tagged(String, Box<Yaml>),
}

/// The mathematical value of a [`Yaml`] tree.
pub enum YamlView {
    Null,
    Bool(bool),
    Number(Seq<char>),
    Text(Seq<char>),
    List(Seq<YamlView>),
    Mapping(Seq<(YamlView, YamlView)>),
    Tagged(Seq<char>, Box<YamlView>),
}

/// The value that a tree stands for.
pub open spec fn yaml_value(node: Yaml) -> YamlView
    decreases node,
{
    match node {
        Yaml::Null => YamlView::Null,
        Yaml::Bool(b) => YamlView::Bool(b),
        Yaml::Number(t) => YamlView::Number(t@),
        Yaml::Text(t) => YamlView::Text(t@),
        Yaml::List(items) => YamlView::List(
            Seq::new(
                items@.len(),
                |i: int|
                    if 0 <= i < items@.len() {
                        yaml_value(items@[i])
                    } else {
                        YamlView::Null
                    },
            ),
        ),
        Yaml::Mapping(entries) => YamlView::Mapping(
            Seq::new(
                entries@.len(),
                |i: int|
                    if 0 <= i < entries@.len() {
                        (yaml_value(entries@[i].0), yaml_value(entries@[i].1))
                    } else {
                        (YamlView::Null, YamlView::Null)
                    },
            ),
        ),
        Yaml::Tagged(tag, inner) => YamlView::Tagged(tag@, Box::new(yaml_value(*inner))),
    }
}

impl View for Yaml {
    type V = YamlView;

    open spec fn view(&self) -> YamlView {
        yaml_value(*self)
    }
}

/// The values of the items of a list, in order.
pub open spec fn values_of(items: Seq<Yaml>) -> Seq<YamlView> {
    Seq::new(items.len(), |i: int| yaml_value(items[i]))
}

/// The values of the entries of a mapping, in order.
pub open spec fn entries_of(entries: Seq<(Yaml, Yaml)>) -> Seq<(YamlView, YamlView)> {
    Seq::new(entries.len(), |i: int| (yaml_value(entries[i].0), yaml_value(entries[i].1)))
}

/// A list stands for the list of what its items stand for.
pub proof fn lemma_list_value(items: Vec<Yaml>)
    ensures
        Yaml::List(items)@ == YamlView::List(values_of(items@)),
{
    assert(yaml_value(Yaml::List(items))->List_0 =~= values_of(items@));
}

/// A mapping stands for the entries that its pairs stand for.
pub proof fn lemma_mapping_value(entries: Vec<(Yaml, Yaml)>)
    ensures
        Yaml::Mapping(entries)@ == YamlView::Mapping(entries_of(entries@)),
{
    assert(yaml_value(Yaml::Mapping(entries))->Mapping_0 =~= entries_of(entries@));
}

impl Clone for Yaml {
    #[verifier::loop_isolation(false)]
    fn clone(&self) -> (copy: Yaml)
        ensures
            copy@ == self@,
        decreases self,
    {
        match self {
            Yaml::Null => Yaml::Null,
            Yaml::Bool(b) => Yaml::Bool(*b),
            Yaml::Number(t) => Yaml::Number(t.clone()),
            Yaml::Text(t) => Yaml::Text(t.clone()),
            Yaml::List(items) => {
                let mut out: Vec<Yaml> = Vec::new();
                let mut i: usize = 0;
                while i < items.len()
                    invariant
                        i <= items.len(),
                        out@.len() == i,
                        forall|k: int| 0 <= k < i ==> yaml_value(out@[k]) == yaml_value(items@[k]),
                    decreases items.len() - i,
                {
                    let item = items[i].clone();
                    out.push(item);
                    i += 1;
                }
                proof {
                    lemma_list_value(out);
                    lemma_list_value(*items);
                    assert(values_of(out@) =~= values_of(items@));
                }
                Yaml::List(out)
            },
            Yaml::Mapping(entries) => {
                let mut out: Vec<(Yaml, Yaml)> = Vec::new();
                let mut i: usize = 0;
                while i < entries.len()
                    invariant
                        i <= entries.len(),
                        out@.len() == i,
                        forall|k: int|
                            0 <= k < i ==> yaml_value(out@[k].0) == yaml_value(entries@[k].0)
                                && yaml_value(out@[k].1) == yaml_value(entries@[k].1),
                    decreases entries.len() - i,
                {
                    let key = entries[i].0.clone();
                    let value = entries[i].1.clone();
                    out.push((key, value));
                    i += 1;
                }
                proof {
                    lemma_mapping_value(out);
                    lemma_mapping_value(*entries);
                    assert(entries_of(out@) =~= entries_of(entries@));
                }
                Yaml::Mapping(out)
            },
            Yaml::Tagged(tag, inner) => Yaml::Tagged(tag.clone(), Box::new((**inner).clone())),
        }
    }
}

/// True when no tag in the tree is the empty text.
///
/// YAML has no syntax for an empty tag, and the emitter does not accept one.
pub open spec fn tags_named(node: YamlView) -> bool
    decreases node,
{
    match node {
        YamlView::List(items) => forall|i: int|
            0 <= i < items.len() ==> tags_named(#[trigger] items[i]),
        YamlView::Mapping(entries) => forall|i: int|
            0 <= i < entries.len() ==> tags_named((#[trigger] entries[i]).0) && tags_named(
                entries[i].1,
            ),
        YamlView::Tagged(tag, inner) => tag.len() > 0 && tags_named(*inner),
        _ => true,
    }
}

/// True when every key and every value of the entries has its tags named.
pub open spec fn entries_named(entries: Seq<(YamlView, YamlView)>) -> bool {
    forall|i: int|
        0 <= i < entries.len() ==> tags_named((#[trigger] entries[i]).0) && tags_named(
            entries[i].1,
        )
}

/// True when every item has its tags named.
pub open spec fn items_named(items: Seq<YamlView>) -> bool {
    forall|i: int| 0 <= i < items.len() ==> tags_named(#[trigger] items[i])
}

/// The tags of a list are named exactly when those of its items are.
pub proof fn lemma_list_named(items: Seq<YamlView>)
    ensures
        tags_named(YamlView::List(items)) == items_named(items),
{
    let node = YamlView::List(items);
    assert(node->List_0 == items);
    if tags_named(node) {
        assert forall|i: int| 0 <= i < items.len() implies tags_named(#[trigger] items[i]) by {
            assert(tags_named(node->List_0[i]));
        }
    }
}

/// The tags of a mapping are named exactly when those of its entries are.
pub proof fn lemma_mapping_named(entries: Seq<(YamlView, YamlView)>)
    ensures
        tags_named(YamlView::Mapping(entries)) == entries_named(entries),
{
    let node = YamlView::Mapping(entries);
    assert(node->Mapping_0 == entries);
    if tags_named(node) {
        assert forall|i: int| 0 <= i < entries.len() implies tags_named(
            (#[trigger] entries[i]).0,
        ) && tags_named(entries[i].1) by {
            assert(tags_named(node->Mapping_0[i].0));
        }
    }
}

/// The tree that `serde_yaml::from_slice` reads from a byte text as a generic
/// value, or `None` where it reports an error.
pub uninterp spec fn yaml_document(bytes: Seq<u8>) -> Option<YamlView>;

/// The text that `serde_yaml::to_string` writes for a tree, or `None` where
/// it reports an error.
pub uninterp spec fn yaml_text(doc: YamlView) -> Option<Seq<char>>;

/// `serde_yaml::Error`, carried from the emitter to where its message is
/// read.
#[verifier::external_type_specification]
#[verifier::external_body]
pub struct ExYamlError(serde_yaml::Error);

/// `serde_yaml::Value`, which stands only between the reader or the emitter
/// and the plain tree.
#[verifier::external_type_specification]
#[verifier::external_body]
pub struct ExYamlValue(Value);

/// Moves a `serde_yaml::Value` into the plain tree, variant by variant. A
/// number and a tag are kept as the text that their `Display` writes.
#[verifier::external_body]
fn tree_from_value(value: Value) -> Yaml {
    match value {
        Value::Null => Yaml::Null,
        Value::Bool(b) => Yaml::Bool(b),
        Value::Number(n) => Yaml::Number(n.to_string()),
        Value::String(s) => Yaml::Text(s),
        Value::Sequence(items) => Yaml::List(items.into_iter().map(tree_from_value).collect()),
        Value::Mapping(m) => Yaml::Mapping(
            m.into_iter().map(|(k, v)| (tree_from_value(k), tree_from_value(v))).collect(),
        ),
        Value::Tagged(t) => Yaml::Tagged(t.tag.to_string(), Box::new(tree_from_value(t.value))),
    }
}

/// Builds the `serde_yaml::Value` that a plain tree stands for, variant by
/// variant. The text of a number goes through `Number::from_str`; text that
/// it does not read is handed on as a string. `Tag::new` panics on an empty
/// tag, which the precondition leaves out.
#[verifier::external_body]
fn value_from_tree(node: &Yaml) -> Value
    requires
        tags_named(node@),
{
    match node {
        Yaml::Null => Value::Null,
        Yaml::Bool(b) => Value::Bool(*b),
        Yaml::Number(t) => t.parse().map_or_else(|_| Value::String(t.clone()), Value::Number),
        Yaml::Text(t) => Value::String(t.clone()),
        Yaml::List(items) => Value::Sequence(items.iter().map(value_from_tree).collect()),
        Yaml::Mapping(entries) => Value::Mapping(
            entries.iter().map(|(k, v)| (value_from_tree(k), value_from_tree(v))).collect(),
        ),
        Yaml::Tagged(tag, inner) => {
            let value = value_from_tree(inner);
            Value::Tagged(Box::new(TaggedValue { tag: Tag::new(tag.clone()), value }))
        },
    }
}

/// `serde_yaml::from_slice`, read as a generic value: the result is the tree
/// named by [`yaml_document`]. A tag that the reader accepts is never empty,
/// and a `serde_yaml::Mapping` holds each key once.
#[verifier::external_body]
pub(crate) fn read_document(bytes: &[u8]) -> (doc: Option<Yaml>)
    ensures
        match doc {
            Some(tree) => yaml_document(bytes@) == Some(tree@) && tags_named(tree@)
                && mapping_keys_once(tree@),
            None => yaml_document(bytes@) is None,
        },
{
    serde_yaml::from_slice::<Value>(bytes).ok().map(tree_from_value)
}

/// The message of a `serde_yaml::Error`, as its `Display` writes it.
#[verifier::external_body]
pub(crate) fn error_text(error: &serde_yaml::Error) -> String {
    error.to_string()
}

/// `serde_yaml::to_string` on the value that the tree stands for: the text
/// named by [`yaml_text`], or the error that the emitter reports.
#[verifier::external_body]
pub(crate) fn write_document(doc: &Yaml) -> (text: Result<String, serde_yaml::Error>)
    requires
        tags_named(doc@),
    ensures
        match text {
            Ok(t) => yaml_text(doc@) == Some(t@),
            Err(_) => yaml_text(doc@) is None,
        },
{
    serde_yaml::to_string(&value_from_tree(doc))
}

/// The list of text scalars that stands for a list of texts.
pub open spec fn text_list(items: Seq<Seq<char>>) -> YamlView {
    YamlView::List(items.map_values(|t: Seq<char>| YamlView::Text(t)))
}

impl Yaml {
    /// A text scalar.
    pub fn text(value: &str) -> (node: Yaml)
        ensures
            node@ == YamlView::Text(value@),
            tags_named(node@),
    {
        Yaml::Text(value.to_owned())
    }

    /// The number `n`, written in decimal.
    pub fn number(n: u64) -> (node: Yaml)
        ensures
            node@ == YamlView::Number(decimal_text(n as nat)),
            tags_named(node@),
    {
        let mut digits: Vec<char> = Vec::new();
        push_decimal(&mut digits, n);
        Yaml::Number(string_of(digits.as_slice()))
    }

    /// A list of text scalars.
    pub fn texts(items: &Vec<String>) -> (node: Yaml)
        ensures
            node@ == text_list(texts(items@)),
            tags_named(node@),
    {
        let mut out: Vec<Yaml> = Vec::new();
        let mut i: usize = 0;
        while i < items.len()
            invariant
                i <= items.len(),
                out@.len() == i,
                forall|k: int| 0 <= k < i ==> yaml_value(out@[k]) == YamlView::Text(items@[k]@),
            decreases items.len() - i,
        {
            out.push(Yaml::Text(items[i].clone()));
            i += 1;
        }
        proof {
            lemma_list_value(out);
            assert(values_of(out@) =~= texts(items@).map_values(
                |t: Seq<char>| YamlView::Text(t),
            ));
            lemma_list_named(values_of(out@));
        }
        Yaml::List(out)
    }

    /// A mapping with the given entries.
    pub fn mapping(entries: Vec<(Yaml, Yaml)>) -> (node: Yaml)
        ensures
            node@ == YamlView::Mapping(entries_of(entries@)),
            entries_named(entries_of(entries@)) ==> tags_named(node@),
    {
        proof {
            lemma_mapping_value(entries);
            lemma_mapping_named(entries_of(entries@));
        }
        Yaml::Mapping(entries)
    }
}

/// Appends the entry `key: value` to the entries of a mapping.
pub fn push_entry(entries: &mut Vec<(Yaml, Yaml)>, key: &str, value: Yaml)
    ensures
        entries_of(final(entries)@) == entries_of(old(entries)@).push(
            (YamlView::Text(key@), value@),
        ),
        entries_named(entries_of(old(entries)@)) && tags_named(value@) ==> entries_named(
            entries_of(final(entries)@),
        ),
{
    entries.push((Yaml::text(key), value));
    assert(entries_of(entries@) =~= entries_of(old(entries)@).push(
        (YamlView::Text(key@), value@),
    ));
}

/// The value under the tags of a node: the node itself where it has none.
pub open spec fn plain(node: YamlView) -> YamlView
    decreases node,
{
    match node {
        YamlView::Tagged(_, inner) => plain(*inner),
        _ => node,
    }
}

/// The text of a node that is, under its tags, a text scalar.
pub open spec fn as_text(node: YamlView) -> Option<Seq<char>> {
    match plain(node) {
        YamlView::Text(t) => Some(t),
        _ => None,
    }
}

/// The index of the first entry whose key is the text `key`.
pub open spec fn key_index(entries: Seq<(YamlView, YamlView)>, key: Seq<char>) -> Option<int>
    decreases entries.len(),
{
    if entries.len() == 0 {
        None
    } else if entries[0].0 == YamlView::Text(key) {
        Some(0)
    } else {
        match key_index(entries.drop_first(), key) {
            Some(i) => Some(i + 1),
            None => None,
        }
    }
}

/// The value of the first entry whose key is the text `key`.
pub open spec fn value_at(entries: Seq<(YamlView, YamlView)>, key: Seq<char>) -> Option<
    YamlView,
> {
    match key_index(entries, key) {
        Some(i) => Some(entries[i].1),
        None => None,
    }
}

/// The entries with `value` under the text `key`: in place of the first
/// value under that key, or at the end where no entry has the key.
pub open spec fn with_value(
    entries: Seq<(YamlView, YamlView)>,
    key: Seq<char>,
    value: YamlView,
) -> Seq<(YamlView, YamlView)> {
    match key_index(entries, key) {
        Some(i) => entries.update(i, (YamlView::Text(key), value)),
        None => entries.push((YamlView::Text(key), value)),
    }
}

/// True when each key stands once among the entries: what a mapping that
/// is read holds, and what putting a value under a key keeps.
pub open spec fn keys_once(entries: Seq<(YamlView, YamlView)>) -> bool {
    forall|i: int, j: int| 0 <= i < j < entries.len() ==> entries[i].0 != entries[j].0
}

/// True when each key of a mapping, which may stand under tags, stands
/// once. Of a node that is no mapping nothing is asked.
pub open spec fn mapping_keys_once(node: YamlView) -> bool {
    match plain(node) {
        YamlView::Mapping(entries) => keys_once(entries),
        _ => true,
    }
}

/// Putting a value under a key leaves each key once.
pub proof fn lemma_with_value_keys_once(
    entries: Seq<(YamlView, YamlView)>,
    key: Seq<char>,
    value: YamlView,
)
    requires
        keys_once(entries),
    ensures
        keys_once(with_value(entries, key, value)),
{
    lemma_key_index(entries, key);
    let put = with_value(entries, key, value);
    assert forall|i: int, j: int| 0 <= i < j < put.len() implies put[i].0 != put[j].0 by {
        match key_index(entries, key) {
            Some(at) => {
                assert(put[i].0 == entries[i].0);
                assert(put[j].0 == entries[j].0);
            },
            None => {
                if j < entries.len() {
                    assert(put[i] == entries[i] && put[j] == entries[j]);
                } else {
                    assert(put[i] == entries[i]);
                    assert(entries[i].0 != YamlView::Text(key));
                }
            },
        }
    }
}

/// What [`key_index`] finds: the least index with the key, if any.
pub proof fn lemma_key_index(entries: Seq<(YamlView, YamlView)>, key: Seq<char>)
    ensures
        match key_index(entries, key) {
            Some(i) => 0 <= i < entries.len() && entries[i].0 == YamlView::Text(key)
                && forall|k: int| 0 <= k < i ==> entries[k].0 != YamlView::Text(key),
            None => forall|k: int| 0 <= k < entries.len() ==> entries[k].0 != YamlView::Text(key),
        },
    decreases entries.len(),
{
    if entries.len() > 0 && entries[0].0 != YamlView::Text(key) {
        lemma_key_index(entries.drop_first(), key);
        let rest = entries.drop_first();
        match key_index(rest, key) {
            Some(i) => {
                assert forall|k: int| 0 <= k < i + 1 implies entries[k].0 != YamlView::Text(
                    key,
                ) by {
                    if k > 0 {
                        assert(entries[k] == rest[k - 1]);
                    }
                }
            },
            None => {
                assert forall|k: int| 0 <= k < entries.len() implies entries[k].0
                    != YamlView::Text(key) by {
                    if k > 0 {
                        assert(entries[k] == rest[k - 1]);
                    }
                }
            },
        }
    }
}

/// An index with the key and none before it is what [`key_index`] finds.
pub proof fn lemma_key_index_is(entries: Seq<(YamlView, YamlView)>, key: Seq<char>, at: int)
    requires
        0 <= at < entries.len(),
        entries[at].0 == YamlView::Text(key),
        forall|k: int| 0 <= k < at ==> entries[k].0 != YamlView::Text(key),
    ensures
        key_index(entries, key) == Some(at),
{
    lemma_key_index(entries, key);
}

impl Yaml {
    /// Reads a YAML text. `None` for a text that does not read as YAML.
    pub fn parse(bytes: &[u8]) -> (doc: Option<Yaml>)
        ensures
            match doc {
                Some(tree) => yaml_document(bytes@) == Some(tree@) && tags_named(tree@)
                    && mapping_keys_once(tree@),
                None => yaml_document(bytes@) is None,
            },
    {
        read_document(bytes)
    }

    /// Whether no tag of the tree is the empty text.
    #[verifier::loop_isolation(false)]
    pub fn has_named_tags(&self) -> (yes: bool)
        ensures
            yes == tags_named(self@),
        decreases self,
    {
        match self {
            Yaml::List(items) => {
                proof {
                    lemma_list_value(*items);
                    lemma_list_named(values_of(items@));
                }
                let mut i: usize = 0;
                while i < items.len()
                    invariant
                        i <= items.len(),
                        forall|k: int| 0 <= k < i ==> tags_named(#[trigger] values_of(items@)[k]),
                    decreases items.len() - i,
                {
                    if !items[i].has_named_tags() {
                        assert(!tags_named(values_of(items@)[i as int]));
                        return false;
                    }
                    i += 1;
                }
                true
            },
            Yaml::Mapping(entries) => {
                proof {
                    lemma_mapping_value(*entries);
                    lemma_mapping_named(entries_of(entries@));
                }
                let mut i: usize = 0;
                while i < entries.len()
                    invariant
                        i <= entries.len(),
                        forall|k: int|
                            0 <= k < i ==> tags_named((#[trigger] entries_of(entries@)[k]).0)
                                && tags_named(entries_of(entries@)[k].1),
                    decreases entries.len() - i,
                {
                    if !entries[i].0.has_named_tags() || !entries[i].1.has_named_tags() {
                        assert(!(tags_named(entries_of(entries@)[i as int].0) && tags_named(
                            entries_of(entries@)[i as int].1,
                        )));
                        return false;
                    }
                    i += 1;
                }
                true
            },
            Yaml::Tagged(tag, inner) => !tag.as_str().is_empty() && inner.has_named_tags(),
            _ => true,
        }
    }

    /// Writes the tree as YAML text. `None` for a tree with an empty tag
    /// and for one that the emitter does not write.
    pub fn to_text(&self) -> (text: Option<String>)
        ensures
            match text {
                Some(t) => tags_named(self@) && yaml_text(self@) == Some(t@),
                None => !tags_named(self@) || yaml_text(self@) is None,
            },
    {
        if !self.has_named_tags() {
            return None;
        }
        match write_document(self) {
            Ok(t) => Some(t),
            Err(_) => None,
        }
    }

    /// The node under the tags.
    pub fn untagged(&self) -> (inner: &Yaml)
        ensures
            inner@ == plain(self@),
            !(inner is Tagged),
        decreases self,
    {
        match self {
            Yaml::Tagged(_, inner) => inner.untagged(),
            _ => self,
        }
    }

    /// The text of a node that is, under its tags, a text scalar.
    pub fn as_str(&self) -> (text: Option<&String>)
        ensures
            match text {
                Some(t) => as_text(self@) == Some(t@),
                None => as_text(self@) is None,
            },
    {
        match self.untagged() {
            Yaml::Text(t) => Some(t),
            _ => None,
        }
    }

    /// Whether the node is the text scalar `key`, with no tag.
    pub fn is_key(&self, key: &str) -> (yes: bool)
        ensures
            yes == (self@ == YamlView::Text(key@)),
    {
        match self {
            Yaml::Text(t) => same_text(t.as_str(), key),
            _ => false,
        }
    }
}

/// The index of the first entry whose key is the text `key`.
pub fn find_key(entries: &Vec<(Yaml, Yaml)>, key: &str) -> (at: Option<usize>)
    ensures
        match at {
            Some(i) => key_index(entries_of(entries@), key@) == Some(i as int) && i
                < entries.len(),
            None => key_index(entries_of(entries@), key@) is None,
        },
{
    let mut i: usize = 0;
    while i < entries.len()
        invariant
            i <= entries.len(),
            forall|k: int| 0 <= k < i ==> entries_of(entries@)[k].0 != YamlView::Text(key@),
        decreases entries.len() - i,
    {
        if entries[i].0.is_key(key) {
            proof {
                lemma_key_index_is(entries_of(entries@), key@, i as int);
            }
            return Some(i);
        }
        i += 1;
    }
    proof {
        lemma_key_index(entries_of(entries@), key@);
    }
    None
}

} // verus!
