//! JSON values as trees, and their text form.
//!
//! The tree is this crate's own; reading and writing the text form is left
//! to `serde_json`, behind the few functions at the end of this module.

use vstd::prelude::*;
use vstd::string::*;
use crate::error::GlobleError;

verus! {

/// A JSON value. A number that is no 64-bit integer is kept as the text of
/// its literal.
#[derive(Debug, PartialEq)]
pub enum Json {
    Null,
    Bool(bool),
    Int(i64),
    Real(String),
    Text(String),
    List(Vec<Json>),
    Object(Vec<(String, Json)>),
}

/// What a [`Json`] holds.
pub enum JsonView {
    Null,
    Bool(bool),
    Int(i64),
    Real(Seq<char>),
    Text(Seq<char>),
    List(Seq<JsonView>),
    Object(Seq<(Seq<char>, JsonView)>),
}

impl View for Json {
    type V = JsonView;

    open spec fn view(&self) -> JsonView
        decreases self,
    {
        match self {
            Json::Null => JsonView::Null,
            Json::Bool(b) => JsonView::Bool(*b),
            Json::Int(i) => JsonView::Int(*i),
            Json::Real(r) => JsonView::Real(r@),
            Json::Text(s) => JsonView::Text(s@),
            Json::List(items) => JsonView::List(
                Seq::new(
                    items@.len(),
                    |i: int|
                        if 0 <= i < items@.len() {
                            items@[i]@
                        } else {
                            JsonView::Null
                        },
                ),
            ),
            Json::Object(entries) => JsonView::Object(
                Seq::new(
                    entries@.len(),
                    |i: int|
                        if 0 <= i < entries@.len() {
                            (entries@[i].0@, entries@[i].1@)
                        } else {
                            (Seq::empty(), JsonView::Null)
                        },
                ),
            ),
        }
    }
}

/// The views of a sequence of values.
pub open spec fn list_views(items: Seq<Json>) -> Seq<JsonView> {
    Seq::new(items.len(), |i: int| items[i]@)
}

/// The views of a sequence of keyed values.
pub open spec fn entry_views(entries: Seq<(String, Json)>) -> Seq<(Seq<char>, JsonView)> {
    Seq::new(entries.len(), |i: int| (entries[i].0@, entries[i].1@))
}

/// A list is viewed item by item, an object entry by entry.
pub proof fn lemma_json_view(j: Json)
    ensures
        j matches Json::List(items) ==> j@ == JsonView::List(list_views(items@)),
        j matches Json::Object(entries) ==> j@ == JsonView::Object(entry_views(entries@)),
{
    reveal_with_fuel(<Json as View>::view, 2);
    match j {
        Json::List(items) => {
            assert(j@->List_0 =~= list_views(items@));
        },
        Json::Object(entries) => {
            assert(j@->Object_0 =~= entry_views(entries@));
        },
        _ => {},
    }
}

/// The value that the last entry with this key holds, as a repeated key in
/// JSON text overrides the earlier one.
pub open spec fn entry_of(entries: Seq<(Seq<char>, JsonView)>, key: Seq<char>) -> Option<JsonView>
    decreases entries.len(),
{
    if entries.len() == 0 {
        None
    } else if entries.last().0 == key {
        Some(entries.last().1)
    } else {
        entry_of(entries.drop_last(), key)
    }
}

/// An entry that is appended decides the lookup of its own key and leaves
/// the other keys as they were.
pub proof fn lemma_entry_of_push(entries: Seq<(Seq<char>, JsonView)>, key: Seq<char>, value: JsonView)
    ensures
        forall|wanted: Seq<char>| #[trigger]
            entry_of(entries.push((key, value)), wanted) == (if key == wanted {
                Some(value)
            } else {
                entry_of(entries, wanted)
            }),
{
    assert(entries.push((key, value)).drop_last() =~= entries);
}

/// The member of an object under a key; `None` for other values and for
/// objects without the key.
pub open spec fn member(j: JsonView, key: Seq<char>) -> Option<JsonView> {
    match j {
        JsonView::Object(entries) => entry_of(entries, key),
        _ => None,
    }
}

/// The member under a key, or null where [`member`] finds none.
pub open spec fn member_or_null(j: JsonView, key: Seq<char>) -> JsonView {
    match member(j, key) {
        Some(v) => v,
        None => JsonView::Null,
    }
}

impl Json {
    /// A copy of the value.
    pub fn duplicate(&self) -> (r: Json)
        ensures
            r@ == self@,
        decreases self,
    {
        match self {
            Json::Null => Json::Null,
            Json::Bool(b) => Json::Bool(*b),
            Json::Int(i) => Json::Int(*i),
            Json::Real(r) => Json::Real(r.clone()),
            Json::Text(s) => Json::Text(s.clone()),
            Json::List(items) => {
                let mut out: Vec<Json> = Vec::new();
                let mut i: usize = 0;
                while i < items.len()
                    invariant
                        i <= items.len(),
                        out.len() == i,
                        *self == Json::List(*items),
                        forall|j: int| 0 <= j < i ==> (#[trigger] out@[j])@ == items@[j]@,
                    decreases items.len() - i,
                {
                    proof {
                        assert(decreases_to!(*self => self->List_0));
                        vstd::std_specs::vec::axiom_vec_index_decreases(*items, i as int);
                    }
                    out.push(items[i].duplicate());
                    i += 1;
                }
                let r = Json::List(out);
                proof {
                    lemma_json_view(r);
                    lemma_json_view(*self);
                    assert(list_views(out@) =~= list_views(items@));
                }
                r
            },
            Json::Object(entries) => {
                let mut out: Vec<(String, Json)> = Vec::new();
                let mut i: usize = 0;
                while i < entries.len()
                    invariant
                        i <= entries.len(),
                        out.len() == i,
                        *self == Json::Object(*entries),
                        forall|j: int|
                            0 <= j < i ==> (#[trigger] out@[j]).0@ == entries@[j].0@ && out@[j].1@
                                == entries@[j].1@,
                    decreases entries.len() - i,
                {
                    proof {
                        assert(decreases_to!(*self => self->Object_0));
                        vstd::std_specs::vec::axiom_vec_index_decreases(*entries, i as int);
                    }
                    out.push((entries[i].0.clone(), entries[i].1.duplicate()));
                    i += 1;
                }
                let r = Json::Object(out);
                proof {
                    lemma_json_view(r);
                    lemma_json_view(*self);
                    assert(entry_views(out@) =~= entry_views(entries@));
                }
                r
            },
        }
    }

    /// The member of an object under a key.
    pub fn get(&self, key: &str) -> (r: Option<&Json>)
        ensures
            match r {
                Some(v) => member(self@, key@) == Some(v@),
                None => member(self@, key@) is None,
            },
    {
        match self {
            Json::Object(entries) => {
                let wanted = String::from_str(key);
                let ghost all = entry_views(entries@);
                let mut i: usize = entries.len();
                proof {
                    lemma_json_view(*self);
                    assert(all.take(i as int) =~= all);
                }
                while i > 0
                    invariant
                        i <= entries.len(),
                        wanted@ == key@,
                        all.len() == entries@.len(),
                        forall|j: int|
                            0 <= j < all.len() ==> #[trigger] all[j] == (entries@[j].0@, entries@[j].1@),
                        member(self@, key@) == entry_of(all.take(i as int), key@),
                    decreases i,
                {
                    proof {
                        assert(all.take(i as int).drop_last() =~= all.take(i - 1));
                        assert(all.take(i as int).last() == all[i - 1]);
                    }
                    if entries[i - 1].0 == wanted {
                        return Some(&entries[i - 1].1);
                    }
                    i -= 1;
                }
                None
            },
            _ => None,
        }
    }

    /// The member under a key, or null where there is none.
    pub fn field(&self, key: &str) -> (r: Json)
        ensures
            r@ == member_or_null(self@, key@),
    {
        match self.get(key) {
            Some(v) => v.duplicate(),
            None => Json::Null,
        }
    }
}

/// `serde_json::Value`, of which nothing is known here but what the
/// functions below say.
#[verifier::external_type_specification]
#[verifier::external_body]
pub struct ExValue(serde_json::Value);

/// `serde_json::Error`, of which only the place of the fault is read.
#[verifier::external_type_specification]
#[verifier::external_body]
pub struct ExSyntaxError(serde_json::Error);

/// The tree that stands for a `serde_json::Value`: variant by variant, a
/// number as `Int` where `Number::as_i64` gives one and else as `Real` with
/// the number's text, an object entry by entry in the order of its map.
pub uninterp spec fn value_tree(v: serde_json::Value) -> JsonView;

/// What `serde_json::from_str` reads from a text: the tree of the value, or
/// nothing where the text is no JSON.
pub uninterp spec fn parsed(text: Seq<char>) -> Option<JsonView>;

/// The text that `serde_json::to_string` writes for a value.
pub uninterp spec fn value_text(v: serde_json::Value) -> Seq<char>;

/// The text that `serde_json::to_string_pretty` writes for a value.
pub uninterp spec fn value_pretty_text(v: serde_json::Value) -> Seq<char>;

/// The one-line JSON text of a tree in which every `Real` is a number:
/// that of the `serde_json::Value` built from it.
pub uninterp spec fn written(tree: JsonView) -> Seq<char>;

/// The indented JSON text of a tree in which every `Real` is a number:
/// that of the `serde_json::Value` built from it.
pub uninterp spec fn written_pretty(tree: JsonView) -> Seq<char>;

/// Whether `serde_json` reads the text as a number.
pub uninterp spec fn number_literal(text: Seq<char>) -> bool;

/// The tree as it is written: a `Real` whose text is no number becomes
/// null; everything else stays.
pub open spec fn normal(j: JsonView) -> JsonView
    decreases j,
{
    match j {
        JsonView::Real(text) => if number_literal(text) {
            j
        } else {
            JsonView::Null
        },
        JsonView::List(items) => JsonView::List(
            Seq::new(
                items.len(),
                |i: int|
                    if 0 <= i < items.len() {
                        normal(items[i])
                    } else {
                        JsonView::Null
                    },
            ),
        ),
        JsonView::Object(entries) => JsonView::Object(
            Seq::new(
                entries.len(),
                |i: int|
                    if 0 <= i < entries.len() {
                        (entries[i].0, normal(entries[i].1))
                    } else {
                        (Seq::empty(), JsonView::Null)
                    },
            ),
        ),
        _ => j,
    }
}

/// The JSON text of a tree, indented where `pretty` is set and else on one
/// line: that of the tree as it is written.
pub open spec fn rendered(tree: JsonView, pretty: bool) -> Seq<char> {
    if pretty {
        written_pretty(normal(tree))
    } else {
        written(normal(tree))
    }
}

/// The line that `serde_json::Error::line` gives for an error.
pub uninterp spec fn fault_line(e: serde_json::Error) -> usize;

/// The column that `serde_json::Error::column` gives for an error.
pub uninterp spec fn fault_column(e: serde_json::Error) -> usize;

/// Where `serde_json::from_str` stops on a text that is no JSON: the line
/// and the column of the error it returns.
pub uninterp spec fn fault_place(text: Seq<char>) -> (usize, usize);

/// `serde_json::from_str` at the type `Value`. Claims only that the outcome
/// is a function of the text: success exactly where [`parsed`] has a tree,
/// and then a value with that tree; else an error at [`fault_place`].
#[verifier::external_body]
fn parse_value(text: &str) -> (r: Result<serde_json::Value, serde_json::Error>)
    ensures
        match r {
            Ok(v) => parsed(text@) == Some(value_tree(v)),
            Err(e) => parsed(text@) is None && (fault_line(e), fault_column(e)) == fault_place(text@),
        },
{
    serde_json::from_str::<serde_json::Value>(text)
}

/// Converts a `serde_json::Value` into a tree, one variant for one. The
/// result is by definition the value's [`value_tree`].
#[verifier::external_body]
fn tree_of_value(v: &serde_json::Value) -> (t: Json)
    ensures
        t@ == value_tree(*v),
{
    match v {
        serde_json::Value::Null => Json::Null,
        serde_json::Value::Bool(b) => Json::Bool(*b),
        serde_json::Value::Number(n) => match n.as_i64() {
            Some(i) => Json::Int(i),
            None => Json::Real(n.to_string()),
        },
        serde_json::Value::String(s) => Json::Text(s.clone()),
        serde_json::Value::Array(a) => Json::List(a.iter().map(tree_of_value).collect()),
        serde_json::Value::Object(m) => Json::Object(
            m.iter().map(|(k, x)| (k.clone(), tree_of_value(x))).collect(),
        ),
    }
}

/// `str::parse` at the type `serde_json::Number`: whether the text reads
/// as a number, which [`number_literal`] names.
#[verifier::external_body]
fn is_number_text(text: &str) -> (r: bool)
    ensures
        r == number_literal(text@),
{
    text.parse::<serde_json::Number>().is_ok()
}

/// Converts a tree into a `serde_json::Value`, one variant for one; of
/// entries with one key the last stays. It takes only trees in which every
/// `Real` is a number. Claims only that the texts of the value are
/// functions of the tree, which [`written`] and [`written_pretty`] name.
#[verifier::external_body]
fn value_of_tree(t: &Json) -> (v: serde_json::Value)
    requires
        normal(t@) == t@,
    ensures
        value_text(v) == written(t@),
        value_pretty_text(v) == written_pretty(t@),
{
    match t {
        Json::Null => serde_json::Value::Null,
        Json::Bool(b) => serde_json::Value::Bool(*b),
        Json::Int(i) => serde_json::Value::from(*i),
        Json::Real(r) => r.parse().map_or(serde_json::Value::Null, serde_json::Value::Number),
        Json::Text(s) => serde_json::Value::String(s.clone()),
        Json::List(a) => serde_json::Value::Array(a.iter().map(value_of_tree).collect()),
        Json::Object(m) => serde_json::Value::Object(
            m.iter().map(|e| (e.0.clone(), value_of_tree(&e.1))).collect(),
        ),
    }
}

/// `serde_json::to_string` on a `Value`, which cannot fail there: the keys
/// of a `Value` are strings.
#[verifier::external_body]
fn compact_text(v: &serde_json::Value) -> (s: String)
    ensures
        s@ == value_text(*v),
{
    serde_json::to_string(v).unwrap_or_default()
}

/// `serde_json::to_string_pretty` on a `Value`, which cannot fail there.
#[verifier::external_body]
fn pretty_text(v: &serde_json::Value) -> (s: String)
    ensures
        s@ == value_pretty_text(*v),
{
    serde_json::to_string_pretty(v).unwrap_or_default()
}

/// `serde_json::Error::line`: the line at which reading failed, which
/// [`fault_line`] names.
pub assume_specification[ serde_json::Error::line ](e: &serde_json::Error) -> (r: usize)
    ensures
        r == fault_line(*e),
;

/// `serde_json::Error::column`: the column at which reading failed, which
/// [`fault_column`] names.
pub assume_specification[ serde_json::Error::column ](e: &serde_json::Error) -> (r: usize)
    ensures
        r == fault_column(*e),
;

/// `serde_json::Error` written with `{:?}`. Nothing is claimed of the
/// words, which may hold those of the operating system.
#[verifier::external_body]
fn error_words(e: &serde_json::Error) -> (r: String) {
    format!("{:?}", e)
}

/// An error of `serde_json` is a decode failure: it holds the error's own
/// words, and the line and the column at which reading failed.
impl From<serde_json::Error> for GlobleError {
    fn from(e: serde_json::Error) -> (r: GlobleError)
        ensures
            r@ matches crate::error::ErrorView::SerdeError(_, line, column) && line == fault_line(e) && column
                == fault_column(e),
    {
        GlobleError::SerdeError(error_words(&e), e.line(), e.column())
    }
}

/// What the conversion gives is stated on `from` itself, over the view.
impl vstd::std_specs::convert::FromSpecImpl<serde_json::Error> for GlobleError {
    open spec fn obeys_from_spec() -> bool {
        false
    }

    open spec fn from_spec(e: serde_json::Error) -> GlobleError {
        arbitrary()
    }
}

/// A tree as it is written stays as it is when written again.
pub proof fn lemma_normal_twice(j: JsonView)
    ensures
        normal(normal(j)) == normal(j),
    decreases j,
{
    match j {
        JsonView::List(items) => {
            let once = normal(j)->List_0;
            assert forall|i: int| 0 <= i < items.len() implies normal(#[trigger] once[i]) == once[i] by {
                lemma_normal_twice(items[i]);
            }
            assert(normal(normal(j))->List_0 =~= once);
        },
        JsonView::Object(entries) => {
            let once = normal(j)->Object_0;
            assert forall|i: int| 0 <= i < entries.len() implies normal((#[trigger] once[i]).1) == once[i].1 by {
                lemma_normal_twice(entries[i].1);
            }
            assert(normal(normal(j))->Object_0 =~= once);
        },
        _ => {},
    }
}

/// The failure of a text that is no JSON: it holds the text, and the line
/// and the column of the fault.
pub open spec fn unreadable(text: Seq<char>) -> crate::error::ErrorView {
    crate::error::ErrorView::SerdeError(text, fault_place(text).0, fault_place(text).1)
}

impl Json {
    /// Reads a JSON text. Fails with `SerdeError`, which holds the text and
    /// the line and column of the fault, exactly where the text is no JSON.
    pub fn parse(text: &str) -> (r: Result<Json, GlobleError>)
        ensures
            match parsed(text@) {
                Some(tree) => r matches Ok(j) && j@ == tree,
                None => r matches Err(e) && e@ == unreadable(text@),
            },
    {
        match parse_value(text) {
            Ok(v) => Ok(tree_of_value(&v)),
            Err(e) => Err(GlobleError::SerdeError(String::from_str(text), e.line(), e.column())),
        }
    }

    /// The value as it is written: see [`normal`].
    pub fn normalised(&self) -> (r: Json)
        ensures
            r@ == normal(self@),
        decreases self,
    {
        match self {
            Json::Null => Json::Null,
            Json::Bool(b) => Json::Bool(*b),
            Json::Int(i) => Json::Int(*i),
            Json::Real(text) => if is_number_text(text.as_str()) {
                Json::Real(text.clone())
            } else {
                Json::Null
            },
            Json::Text(s) => Json::Text(s.clone()),
            Json::List(items) => {
                proof {
                    lemma_json_view(*self);
                }
                let mut out: Vec<Json> = Vec::new();
                let mut i: usize = 0;
                while i < items.len()
                    invariant
                        i <= items.len(),
                        out.len() == i,
                        *self == Json::List(*items),
                        forall|j: int| 0 <= j < i ==> (#[trigger] out@[j])@ == normal(items@[j]@),
                    decreases items.len() - i,
                {
                    proof {
                        assert(decreases_to!(*self => self->List_0));
                        vstd::std_specs::vec::axiom_vec_index_decreases(*items, i as int);
                    }
                    out.push(items[i].normalised());
                    i += 1;
                }
                let r = Json::List(out);
                proof {
                    lemma_json_view(r);
                    assert(list_views(out@) =~= normal(self@)->List_0);
                }
                r
            },
            Json::Object(entries) => {
                proof {
                    lemma_json_view(*self);
                }
                let mut out: Vec<(String, Json)> = Vec::new();
                let mut i: usize = 0;
                while i < entries.len()
                    invariant
                        i <= entries.len(),
                        out.len() == i,
                        *self == Json::Object(*entries),
                        forall|j: int|
                            0 <= j < i ==> (#[trigger] out@[j]).0@ == entries@[j].0@ && out@[j].1@ == normal(
                                entries@[j].1@,
                            ),
                    decreases entries.len() - i,
                {
                    proof {
                        assert(decreases_to!(*self => self->Object_0));
                        vstd::std_specs::vec::axiom_vec_index_decreases(*entries, i as int);
                    }
                    out.push((entries[i].0.clone(), entries[i].1.normalised()));
                    i += 1;
                }
                let r = Json::Object(out);
                proof {
                    lemma_json_view(r);
                    assert(entry_views(out@) =~= normal(self@)->Object_0);
                }
                r
            },
        }
    }

    /// The value as JSON text on one line.
    pub fn to_text(&self) -> (r: String)
        ensures
            r@ == rendered(self@, false),
    {
        let plain = self.normalised();
        proof {
            lemma_normal_twice(self@);
        }
        let v = value_of_tree(&plain);
        compact_text(&v)
    }

    /// The value as indented JSON text.
    pub fn to_pretty_text(&self) -> (r: String)
        ensures
            r@ == rendered(self@, true),
    {
        let plain = self.normalised();
        proof {
            lemma_normal_twice(self@);
        }
        let v = value_of_tree(&plain);
        pretty_text(&v)
    }
}

} // verus!
