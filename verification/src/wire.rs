//! Reading and writing the members of JSON objects, as the records of this
//! crate need them.
//!
//! A member that must be there is missing when the object lacks it, when it
//! is null, or when it has another type. An optional member may be absent
//! or null, and reads as `None` then; with any other type it is a fault.

use vstd::prelude::*;
use vstd::string::*;
use crate::error::{ErrorView, GlobleError};
use crate::json::{list_views, lemma_json_view, member, rendered, Json, JsonView};

verus! {

/// The views of a sequence of texts.
pub open spec fn text_views(texts: Seq<String>) -> Seq<Seq<char>> {
    Seq::new(texts.len(), |i: int| texts[i]@)
}

/// The view of an optional text.
pub open spec fn opt_text_view(text: Option<String>) -> Option<Seq<char>> {
    match text {
        Some(s) => Some(s@),
        None => None,
    }
}

/// The view of an optional sequence of texts.
pub open spec fn opt_texts_view(texts: Option<Vec<String>>) -> Option<Seq<Seq<char>>> {
    match texts {
        Some(v) => Some(text_views(v@)),
        None => None,
    }
}

/// A number that may be whole or real. A real one is held as the text of its
/// literal, which this crate passes on but never computes with.
#[derive(Debug, PartialEq)]
pub enum Number {
    Int(i64),
    Real(String),
}

/// What a [`Number`] holds.
pub enum NumberView {
    Int(i64),
    Real(Seq<char>),
}

impl View for Number {
    type V = NumberView;

    open spec fn view(&self) -> NumberView {
        match self {
            Number::Int(i) => NumberView::Int(*i),
            Number::Real(text) => NumberView::Real(text@),
        }
    }
}

impl Number {
    /// A copy of the number.
    pub fn duplicate(&self) -> (r: Number)
        ensures
            r@ == self@,
    {
        match self {
            Number::Int(i) => Number::Int(*i),
            Number::Real(text) => Number::Real(text.clone()),
        }
    }
}

/// The view of an optional number.
pub open spec fn opt_number_view(number: Option<Number>) -> Option<NumberView> {
    match number {
        Some(n) => Some(n@),
        None => None,
    }
}

/// The optional number under `key`, whole or real; the outer `None` marks
/// a fault.
pub open spec fn opt_number_at(j: JsonView, key: Seq<char>) -> Option<Option<NumberView>> {
    match member(j, key) {
        None => Some(None),
        Some(JsonView::Null) => Some(None),
        Some(JsonView::Int(i)) => Some(Some(NumberView::Int(i))),
        Some(JsonView::Real(text)) => Some(Some(NumberView::Real(text))),
        _ => None,
    }
}

/// The JSON form of a number.
pub open spec fn json_of_number(v: NumberView) -> JsonView {
    match v {
        NumberView::Int(i) => JsonView::Int(i),
        NumberView::Real(text) => JsonView::Real(text),
    }
}

/// The JSON form of an optional number: the number, or null.
pub open spec fn json_of_opt_number(v: Option<NumberView>) -> JsonView {
    match v {
        Some(n) => json_of_number(n),
        None => JsonView::Null,
    }
}

/// Reads the optional number under `key`.
pub fn read_opt_number(j: &Json, key: &str) -> (r: Option<Option<Number>>)
    ensures
        match r {
            Some(o) => opt_number_at(j@, key@) == Some(opt_number_view(o)),
            None => opt_number_at(j@, key@) is None,
        },
{
    match j.get(key) {
        None => Some(None),
        Some(Json::Null) => Some(None),
        Some(Json::Int(i)) => Some(Some(Number::Int(*i))),
        Some(Json::Real(text)) => Some(Some(Number::Real(text.clone()))),
        _ => None,
    }
}

/// Writes a number.
pub fn write_number(v: &Number) -> (r: Json)
    ensures
        r@ == json_of_number(v@),
{
    match v {
        Number::Int(i) => Json::Int(*i),
        Number::Real(text) => Json::Real(text.clone()),
    }
}

/// Writes an optional number.
pub fn write_opt_number(v: &Option<Number>) -> (r: Json)
    ensures
        r@ == json_of_opt_number(opt_number_view(*v)),
{
    match v {
        Some(n) => write_number(n),
        None => Json::Null,
    }
}

/// A copy of an optional number.
pub fn copy_opt_number(v: &Option<Number>) -> (r: Option<Number>)
    ensures
        opt_number_view(r) == opt_number_view(*v),
{
    match v {
        Some(n) => Some(n.duplicate()),
        None => None,
    }
}

/// The text under `key`.
pub open spec fn text_at(j: JsonView, key: Seq<char>) -> Option<Seq<char>> {
    match member(j, key) {
        Some(JsonView::Text(s)) => Some(s),
        _ => None,
    }
}

/// The integer under `key`.
pub open spec fn int_at(j: JsonView, key: Seq<char>) -> Option<i64> {
    match member(j, key) {
        Some(JsonView::Int(i)) => Some(i),
        _ => None,
    }
}

/// The truth value under `key`.
pub open spec fn bool_at(j: JsonView, key: Seq<char>) -> Option<bool> {
    match member(j, key) {
        Some(JsonView::Bool(b)) => Some(b),
        _ => None,
    }
}

/// The optional integer under `key`; the outer `None` marks a fault.
pub open spec fn opt_int_at(j: JsonView, key: Seq<char>) -> Option<Option<i64>> {
    match member(j, key) {
        None => Some(None),
        Some(JsonView::Null) => Some(None),
        Some(JsonView::Int(i)) => Some(Some(i)),
        _ => None,
    }
}

/// The optional text under `key`; the outer `None` marks a fault.
pub open spec fn opt_text_at(j: JsonView, key: Seq<char>) -> Option<Option<Seq<char>>> {
    match member(j, key) {
        None => Some(None),
        Some(JsonView::Null) => Some(None),
        Some(JsonView::Text(s)) => Some(Some(s)),
        _ => None,
    }
}

/// Whether every item is a text.
pub open spec fn all_texts(items: Seq<JsonView>) -> bool {
    forall|i: int| 0 <= i < items.len() ==> #[trigger] items[i] is Text
}

/// The texts of a list of texts.
pub open spec fn texts_of(j: JsonView) -> Option<Seq<Seq<char>>> {
    match j {
        JsonView::List(items) => if all_texts(items) {
            Some(Seq::new(items.len(), |i: int| items[i]->Text_0))
        } else {
            None
        },
        _ => None,
    }
}

/// The list of texts under `key`.
pub open spec fn texts_at(j: JsonView, key: Seq<char>) -> Option<Seq<Seq<char>>> {
    match member(j, key) {
        Some(v) => texts_of(v),
        None => None,
    }
}

/// The optional list of texts under `key`; the outer `None` marks a fault.
pub open spec fn opt_texts_at(j: JsonView, key: Seq<char>) -> Option<Option<Seq<Seq<char>>>> {
    match member(j, key) {
        None => Some(None),
        Some(JsonView::Null) => Some(None),
        Some(v) => match texts_of(v) {
            Some(t) => Some(Some(t)),
            None => None,
        },
    }
}

/// The JSON form of an optional integer: the integer, or null.
pub open spec fn json_of_opt_int(v: Option<i64>) -> JsonView {
    match v {
        Some(i) => JsonView::Int(i),
        None => JsonView::Null,
    }
}

/// The JSON form of an optional text: the text, or null.
pub open spec fn json_of_opt_text(v: Option<Seq<char>>) -> JsonView {
    match v {
        Some(s) => JsonView::Text(s),
        None => JsonView::Null,
    }
}

/// The JSON form of a sequence of texts: the list of them.
pub open spec fn json_of_texts(v: Seq<Seq<char>>) -> JsonView {
    JsonView::List(Seq::new(v.len(), |i: int| JsonView::Text(v[i])))
}

/// The JSON form of an optional sequence of texts: the list, or null.
pub open spec fn json_of_opt_texts(v: Option<Seq<Seq<char>>>) -> JsonView {
    match v {
        Some(t) => json_of_texts(t),
        None => JsonView::Null,
    }
}

/// The fault that a value of the wrong shape gives: it holds the value's
/// text, and no position.
pub open spec fn shape_fault(j: JsonView) -> ErrorView {
    ErrorView::SerdeError(rendered(j, false), 0, 0)
}

/// The fault for a value of the wrong shape.
pub fn decode_failure(j: &Json) -> (e: GlobleError)
    ensures
        e@ == shape_fault(j@),
{
    GlobleError::SerdeError(j.to_text(), 0, 0)
}

/// Reads the text under `key`.
pub fn read_text(j: &Json, key: &str) -> (r: Option<String>)
    ensures
        opt_text_view(r) == text_at(j@, key@),
{
    match j.get(key) {
        Some(Json::Text(s)) => Some(s.clone()),
        _ => None,
    }
}

/// Reads the integer under `key`.
pub fn read_int(j: &Json, key: &str) -> (r: Option<i64>)
    ensures
        r == int_at(j@, key@),
{
    match j.get(key) {
        Some(Json::Int(i)) => Some(*i),
        _ => None,
    }
}

/// Reads the truth value under `key`.
pub fn read_bool(j: &Json, key: &str) -> (r: Option<bool>)
    ensures
        r == bool_at(j@, key@),
{
    match j.get(key) {
        Some(Json::Bool(b)) => Some(*b),
        _ => None,
    }
}

/// Reads the optional integer under `key`.
pub fn read_opt_int(j: &Json, key: &str) -> (r: Option<Option<i64>>)
    ensures
        r == opt_int_at(j@, key@),
{
    match j.get(key) {
        None => Some(None),
        Some(Json::Null) => Some(None),
        Some(Json::Int(i)) => Some(Some(*i)),
        _ => None,
    }
}

/// Reads the optional text under `key`.
pub fn read_opt_text(j: &Json, key: &str) -> (r: Option<Option<String>>)
    ensures
        match r {
            Some(o) => opt_text_at(j@, key@) == Some(opt_text_view(o)),
            None => opt_text_at(j@, key@) is None,
        },
{
    match j.get(key) {
        None => Some(None),
        Some(Json::Null) => Some(None),
        Some(Json::Text(s)) => Some(Some(s.clone())),
        _ => None,
    }
}

/// Reads a list of texts.
pub fn texts_from(j: &Json) -> (r: Option<Vec<String>>)
    ensures
        match r {
            Some(v) => texts_of(j@) == Some(text_views(v@)),
            None => texts_of(j@) is None,
        },
{
    match j {
        Json::List(items) => {
            proof {
                lemma_json_view(*j);
            }
            let ghost views = list_views(items@);
            let mut out: Vec<String> = Vec::new();
            let mut i: usize = 0;
            while i < items.len()
                invariant
                    i <= items.len(),
                    views == list_views(items@),
                    j@ == JsonView::List(views),
                    out@.len() == i,
                    forall|k: int| 0 <= k < i ==> #[trigger] views[k] == JsonView::Text(out@[k]@),
                decreases items.len() - i,
            {
                match &items[i] {
                    Json::Text(s) => out.push(s.clone()),
                    _ => {
                        assert(!(views[i as int] is Text));
                        return None;
                    },
                }
                i += 1;
            }
            proof {
                assert(all_texts(views));
                assert(texts_of(j@).unwrap() =~= text_views(out@));
            }
            Some(out)
        },
        _ => None,
    }
}

/// Reads the list of texts under `key`.
pub fn read_texts(j: &Json, key: &str) -> (r: Option<Vec<String>>)
    ensures
        match r {
            Some(v) => texts_at(j@, key@) == Some(text_views(v@)),
            None => texts_at(j@, key@) is None,
        },
{
    match j.get(key) {
        Some(v) => texts_from(v),
        None => None,
    }
}

/// Reads the optional list of texts under `key`.
pub fn read_opt_texts(j: &Json, key: &str) -> (r: Option<Option<Vec<String>>>)
    ensures
        match r {
            Some(o) => opt_texts_at(j@, key@) == Some(opt_texts_view(o)),
            None => opt_texts_at(j@, key@) is None,
        },
{
    match j.get(key) {
        None => Some(None),
        Some(Json::Null) => Some(None),
        Some(v) => match texts_from(v) {
            Some(t) => Some(Some(t)),
            None => None,
        },
    }
}

/// Writes an optional integer.
pub fn write_opt_int(v: &Option<i64>) -> (r: Json)
    ensures
        r@ == json_of_opt_int(*v),
{
    match v {
        Some(i) => Json::Int(*i),
        None => Json::Null,
    }
}

/// Writes an optional text.
pub fn write_opt_text(v: &Option<String>) -> (r: Json)
    ensures
        r@ == json_of_opt_text(opt_text_view(*v)),
{
    match v {
        Some(s) => Json::Text(s.clone()),
        None => Json::Null,
    }
}

/// Writes a list of texts.
pub fn write_texts(v: &Vec<String>) -> (r: Json)
    ensures
        r@ == json_of_texts(text_views(v@)),
{
    let mut items: Vec<Json> = Vec::new();
    let mut i: usize = 0;
    while i < v.len()
        invariant
            i <= v.len(),
            items@.len() == i,
            forall|k: int| 0 <= k < i ==> (#[trigger] items@[k])@ == JsonView::Text(v@[k]@),
        decreases v.len() - i,
    {
        items.push(Json::Text(v[i].clone()));
        i += 1;
    }
    let r = Json::List(items);
    proof {
        lemma_json_view(r);
        assert(list_views(items@) =~= Seq::new(
            text_views(v@).len(),
            |i: int| JsonView::Text(text_views(v@)[i]),
        ));
    }
    r
}

/// Writes an optional list of texts.
pub fn write_opt_texts(v: &Option<Vec<String>>) -> (r: Json)
    ensures
        r@ == json_of_opt_texts(opt_texts_view(*v)),
{
    match v {
        Some(t) => write_texts(t),
        None => Json::Null,
    }
}

/// Reading back what was written gives the same texts.
pub proof fn lemma_texts_round_trip(v: Seq<Seq<char>>)
    ensures
        texts_of(json_of_texts(v)) == Some(v),
{
    let items = Seq::new(v.len(), |i: int| JsonView::Text(v[i]));
    assert(all_texts(items));
    assert(Seq::new(items.len(), |i: int| items[i]->Text_0) =~= v);
}

} // verus!
