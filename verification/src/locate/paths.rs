//! Paths as texts, taken apart and put together by `std::path`, and the
//! words that a path mentions.

use crate::text::{ascii_lowered, chars_of, contains_word, has_run, opt_text, texts, to_ascii_lower};
use std::path::Path;
use vstd::prelude::*;

verus! {

/// What `Path::file_name` gives for a path: its last component, if it ends
/// in one.
pub uninterp spec fn file_name_of(path: Seq<char>) -> Option<Seq<char>>;

/// What `Path::parent` gives for a path: the path without its last
/// component, if it has one.
pub uninterp spec fn parent_of(path: Seq<char>) -> Option<Seq<char>>;

/// What `Path::join` gives for a directory and a path to add to it.
pub uninterp spec fn joined(dir: Seq<char>, name: Seq<char>) -> Seq<char>;

/// What `Path::ancestors` gives for a path: the path, its parent, the
/// parent of that, and so on.
pub uninterp spec fn ancestors_of(path: Seq<char>) -> Seq<Seq<char>>;

/// `Path::file_name` on the path that a text spells: the result is the one
/// that [`file_name_of`] names, as a text.
#[verifier::external_body]
pub(crate) fn file_name(path: &str) -> (name: Option<String>)
    ensures
        opt_text(name) == file_name_of(path@),
{
    Path::new(path).file_name().map(|name| name.to_string_lossy().into_owned())
}

/// `Path::parent` on the path that a text spells: the result is the one
/// that [`parent_of`] names, as a text.
#[verifier::external_body]
pub(crate) fn parent(path: &str) -> (dir: Option<String>)
    ensures
        opt_text(dir) == parent_of(path@),
{
    Path::new(path).parent().map(|dir| dir.to_string_lossy().into_owned())
}

/// `Path::join` on the paths that two texts spell: the result is the one
/// that [`joined`] names, as a text.
#[verifier::external_body]
pub(crate) fn join(dir: &str, name: &str) -> (path: String)
    ensures
        path@ == joined(dir@, name@),
{
    Path::new(dir).join(name).to_string_lossy().into_owned()
}

/// `Path::ancestors` on the path that a text spells: the results are those
/// that [`ancestors_of`] names, in the order in which they come, as texts.
#[verifier::external_body]
pub(crate) fn ancestors(path: &str) -> (list: Vec<String>)
    ensures
        texts(list@) == ancestors_of(path@),
{
    Path::new(path).ancestors().map(|dir| dir.to_string_lossy().into_owned()).collect()
}

/// True when the lower-case form of `text` holds `word`, going by ASCII
/// letters.
pub open spec fn mentions(text: Seq<char>, word: Seq<char>) -> bool {
    has_run(ascii_lowered(text), word)
}

/// Whether the lower-case form of `text` holds `word`.
pub fn mentions_word(text: &str, word: &str) -> (yes: bool)
    ensures
        yes == mentions(text@, word@),
{
    let chars = chars_of(text);
    let lowered = to_ascii_lower(chars.as_slice());
    contains_word(lowered.as_slice(), word)
}

} // verus!
