//! What the VMess decoder reads of a JSON document: the members of the
//! top-level object that are strings or numbers.

use crate::text::{chars_of, opt_text, same_chars};
use serde_json::Value;
use vstd::prelude::*;

verus! {

/// A member of a JSON object, as far as the decoder tells members apart.
#[derive(Debug, Clone)]
pub enum JsonField {
    /// A string.
    Text(String),
    /// A number, as the text that stands for it.
    Number(String),
    /// Anything else.
    Other,
}

pub enum JsonFieldView {
    Text(Seq<char>),
    Number(Seq<char>),
    Other,
}

impl View for JsonField {
    type V = JsonFieldView;

    open spec fn view(&self) -> JsonFieldView {
        match self {
            JsonField::Text(t) => JsonFieldView::Text(t@),
            JsonField::Number(t) => JsonFieldView::Number(t@),
            JsonField::Other => JsonFieldView::Other,
        }
    }
}

/// A JSON document: an object with its members, or any other value.
#[derive(Debug, Clone)]
pub enum JsonDocument {
    Object(Vec<(String, JsonField)>),
    Other,
}

pub enum JsonDocumentView {
    Object(Seq<(Seq<char>, JsonFieldView)>),
    Other,
}

/// The views of the members of an object.
pub open spec fn member_views(members: Seq<(String, JsonField)>) -> Seq<
    (Seq<char>, JsonFieldView),
> {
    members.map_values(|m: (String, JsonField)| (m.0@, m.1@))
}

impl View for JsonDocument {
    type V = JsonDocumentView;

    open spec fn view(&self) -> JsonDocumentView {
        match self {
            JsonDocument::Object(members) => JsonDocumentView::Object(member_views(members@)),
            JsonDocument::Other => JsonDocumentView::Other,
        }
    }
}

/// The document that `serde_json::from_slice` reads from a byte text as a
/// generic value, or `None` where it reports an error. A number is taken as
/// the text that its `Display` writes.
pub uninterp spec fn json_document(bytes: Seq<u8>) -> Option<JsonDocumentView>;

/// `serde_json::from_slice`, read as a generic value, with the members of a
/// top-level object moved into [`JsonDocument`].
#[verifier::external_body]
pub(crate) fn read_json(bytes: &[u8]) -> (doc: Option<JsonDocument>)
    ensures
        match doc {
            Some(d) => json_document(bytes@) == Some(d@),
            None => json_document(bytes@) is None,
        },
{
    let field = |value: Value| match value {
        Value::String(s) => JsonField::Text(s),
        Value::Number(n) => JsonField::Number(n.to_string()),
        _ => JsonField::Other,
    };
    match serde_json::from_slice::<Value>(bytes).ok()? {
        Value::Object(map) => Some(
            JsonDocument::Object(map.into_iter().map(|(k, v)| (k, field(v))).collect()),
        ),
        _ => Some(JsonDocument::Other),
    }
}

/// The first member named `key`.
pub open spec fn member(members: Seq<(Seq<char>, JsonFieldView)>, key: Seq<char>) -> Option<
    JsonFieldView,
>
    decreases members.len(),
{
    if members.len() == 0 {
        None
    } else if members[0].0 == key {
        Some(members[0].1)
    } else {
        member(members.drop_first(), key)
    }
}

/// The text of the member `key` of a document: a string as it is, a number
/// as it is written. `None` for a document that is no object, a member that
/// is missing and a member of another kind.
pub open spec fn field_text(doc: JsonDocumentView, key: Seq<char>) -> Option<Seq<char>> {
    match doc {
        JsonDocumentView::Object(members) => match member(members, key) {
            Some(JsonFieldView::Text(t)) => Some(t),
            Some(JsonFieldView::Number(t)) => Some(t),
            _ => None,
        },
        JsonDocumentView::Other => None,
    }
}

impl JsonDocument {
    /// The text of the member `key`.
    #[verifier::loop_isolation(false)]
    pub fn text(&self, key: &str) -> (value: Option<String>)
        ensures
            opt_text(value) == field_text(self@, key@),
    {
        match self {
            JsonDocument::Object(members) => {
                let wanted = chars_of(key);
                let mut i: usize = 0;
                assert(member_views(members@).skip(0) =~= member_views(members@));
                while i < members.len()
                    invariant
                        i <= members.len(),
                        wanted@ == key@,
                        member(member_views(members@), key@) == member(
                            member_views(members@).skip(i as int),
                            key@,
                        ),
                    decreases members.len() - i,
                {
                    let ghost rest = member_views(members@).skip(i as int);
                    assert(rest[0] == (members@[i as int].0@, members@[i as int].1@));
                    assert(rest.drop_first() =~= member_views(members@).skip(i + 1));
                    let name = chars_of(members[i].0.as_str());
                    if same_chars(name.as_slice(), wanted.as_slice()) {
                        return match &members[i].1 {
                            JsonField::Text(t) => Some(t.clone()),
                            JsonField::Number(t) => Some(t.clone()),
                            JsonField::Other => None,
                        };
                    }
                    i += 1;
                }
                None
            },
            JsonDocument::Other => None,
        }
    }
}

} // verus!
