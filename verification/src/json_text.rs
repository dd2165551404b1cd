//! JSON values held as their text, and what the library reads of them.

use vstd::prelude::*;

use crate::wfg_ast::views;

verus! {

/// The outline of a JSON text: an object's entries (key, value text), an
/// array's items (as texts), a string's contents, a number (its value when it
/// is an unsigned integer that fits `u64`), a boolean, `null`, or no JSON at
/// all (with the parser's message).
pub enum JsonLayoutModel {
    Object(Seq<(Seq<char>, Seq<char>)>),
    Array(Seq<Seq<char>>),
    Str(Seq<char>),
    Number(Option<u64>),
    Bool(bool),
    Null,
    Invalid(Seq<char>),
}

/// The outline of a JSON text (see [`JsonLayoutModel`]); object entries come in
/// the order `serde_json` keeps them (sorted by key), values as compact JSON text.
pub enum JsonLayout {
    Object(Vec<(String, String)>),
    Array(Vec<String>),
    Str(String),
    Number(Option<u64>),
    Bool(bool),
    Null,
    Invalid(String),
}

impl View for JsonLayout {
    type V = JsonLayoutModel;

    open spec fn view(&self) -> JsonLayoutModel {
        match self {
            JsonLayout::Object(es) => JsonLayoutModel::Object(views(es@)),
            JsonLayout::Array(items) => JsonLayoutModel::Array(views(items@)),
            JsonLayout::Str(t) => JsonLayoutModel::Str(t@),
            JsonLayout::Number(n) => JsonLayoutModel::Number(*n),
            JsonLayout::Bool(b) => JsonLayoutModel::Bool(*b),
            JsonLayout::Null => JsonLayoutModel::Null,
            JsonLayout::Invalid(e) => JsonLayoutModel::Invalid(e@),
        }
    }
}

/// What `serde_json` reads in a text, outlined as [`JsonLayoutModel`].
pub uninterp spec fn json_layout_of(text: Seq<char>) -> JsonLayoutModel;

/// Parses `text` with `serde_json::from_str` into a `serde_json::Value` and
/// outlines it (object entries with their values re-serialised by
/// `to_string`, numbers through `as_u64`, the error through `to_string`): the
/// contract claims only that the outline is a function of the text (named
/// [`json_layout_of`]).
#[verifier::external_body]
pub(crate) fn json_layout(text: &str) -> (r: JsonLayout)
    ensures
        r@ == json_layout_of(text@),
{
    match serde_json::from_str::<serde_json::Value>(text) {
        Ok(serde_json::Value::Object(map)) => JsonLayout::Object(
            map.iter().map(|(k, v)| (k.clone(), v.to_string())).collect(),
        ),
        Ok(serde_json::Value::Array(items)) => JsonLayout::Array(
            items.iter().map(|v| v.to_string()).collect(),
        ),
        Ok(serde_json::Value::String(t)) => JsonLayout::Str(t),
        Ok(serde_json::Value::Number(n)) => JsonLayout::Number(n.as_u64()),
        Ok(serde_json::Value::Bool(b)) => JsonLayout::Bool(b),
        Ok(serde_json::Value::Null) => JsonLayout::Null,
        Err(e) => JsonLayout::Invalid(e.to_string()),
    }
}

/// Whether `text` is one JSON value.
pub open spec fn json_text_is_valid(text: Seq<char>) -> bool {
    !(json_layout_of(text) is Invalid)
}

/// Whether `text` is one JSON value.
pub fn json_is_valid(text: &str) -> (ok: bool)
    ensures
        ok == json_text_is_valid(text@),
{
    match json_layout(text) {
        JsonLayout::Invalid(_) => false,
        _ => true,
    }
}

/// An entry whose key starts with `_` is internal to the generator.
pub open spec fn is_internal_key(k: Seq<char>) -> bool {
    k.len() > 0 && k[0] == '_'
}

/// The entries of an object that are not internal, in order.
pub open spec fn visible_entries(es: Seq<(Seq<char>, Seq<char>)>) -> Seq<(Seq<char>, Seq<char>)>
    decreases es.len(),
{
    if es.len() == 0 {
        Seq::empty()
    } else {
        let rest = visible_entries(es.drop_last());
        if is_internal_key(es.last().0) {
            rest
        } else {
            rest.push(es.last())
        }
    }
}

/// The top-level entries of a JSON object text, internal keys left out;
/// `None` when the text is not an object.
pub open spec fn top_level_entries(text: Seq<char>) -> Option<Seq<(Seq<char>, Seq<char>)>> {
    match json_layout_of(text) {
        JsonLayoutModel::Object(es) => Some(visible_entries(es)),
        _ => None,
    }
}

/// The entries of an object whose key does not start with `_`.
pub fn visible_entries_of(es: &Vec<(String, String)>) -> (r: Vec<(String, String)>)
    ensures
        views(r@) == visible_entries(views(es@)),
{
    let mut out: Vec<(String, String)> = Vec::new();
    let mut i: usize = 0;
    assert(views(es@).take(0) =~= Seq::<(Seq<char>, Seq<char>)>::empty());
    while i < es.len()
        invariant
            i <= es.len(),
            views(out@) == visible_entries(views(es@).take(i as int)),
        decreases es.len() - i,
    {
        proof {
            let t = views(es@).take(i as int + 1);
            assert(t.drop_last() =~= views(es@).take(i as int));
            assert(t.last() == es@[i as int]@);
        }
        let k = &es[i].0;
        let internal = k.as_str().unicode_len() > 0 && k.as_str().get_char(0) == '_';
        if !internal {
            let e = (es[i].0.clone(), es[i].1.clone());
            assert(views(out@.push(e)) =~= views(out@).push(e@));
            out.push(e);
        }
        i = i + 1;
    }
    assert(views(es@).take(i as int) =~= views(es@));
    out
}

/// The top-level entries of a JSON object, as (key, value text) pairs; keys
/// that start with `_` (the generator's own fields) are left out. `None` when
/// the text is not a JSON object.
pub fn json_top_level_entries(text: &str) -> (r: Option<Vec<(String, String)>>)
    ensures
        match r {
            Some(v) => top_level_entries(text@) == Some(views(v@)),
            None => top_level_entries(text@) is None,
        },
{
    match json_layout(text) {
        JsonLayout::Object(es) => Some(visible_entries_of(&es)),
        _ => None,
    }
}


/// The value text of the first entry named `key`.
pub open spec fn entry_value(es: Seq<(Seq<char>, Seq<char>)>, key: Seq<char>) -> Option<Seq<char>>
    decreases es.len(),
{
    if es.len() == 0 {
        None
    } else if es[0].0 == key {
        Some(es[0].1)
    } else {
        entry_value(es.drop_first(), key)
    }
}

/// The value of `key` in a JSON text, when the text is an object that has it
/// (`serde_json::Value::get`).
pub open spec fn json_get(text: Seq<char>, key: Seq<char>) -> Option<Seq<char>> {
    match json_layout_of(text) {
        JsonLayoutModel::Object(es) => entry_value(es, key),
        _ => None,
    }
}

/// The value text of the first entry named `key`.
pub fn entry_value_of(es: &Vec<(String, String)>, key: &str) -> (r: Option<String>)
    ensures
        opt_text(r) == entry_value(views(es@), key@),
{
    let mut i: usize = 0;
    assert(views(es@).skip(0) =~= views(es@));
    while i < es.len()
        invariant
            i <= es.len(),
            entry_value(views(es@), key@) == entry_value(views(es@).skip(i as int), key@),
        decreases es.len() - i,
    {
        proof {
            let t = views(es@).skip(i as int);
            assert(t.drop_first() =~= views(es@).skip(i as int + 1));
            assert(t[0] == es@[i as int]@);
        }
        if crate::text::str_is(es[i].0.as_str(), key) {
            return Some(es[i].1.clone());
        }
        i = i + 1;
    }
    assert(views(es@).skip(i as int) =~= Seq::<(Seq<char>, Seq<char>)>::empty());
    None
}

/// The value of `key` in a JSON text, when the text is an object that has it.
pub fn json_get_of(text: &str, key: &str) -> (r: Option<String>)
    ensures
        opt_text(r) == json_get(text@, key@),
{
    match json_layout(text) {
        JsonLayout::Object(es) => entry_value_of(&es, key),
        _ => None,
    }
}

/// The model of an optional string.
pub open spec fn opt_text(o: Option<String>) -> Option<Seq<char>> {
    match o {
        Some(s) => Some(s@),
        None => None,
    }
}

} // verus!
