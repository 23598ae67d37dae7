//! The records that the marketplace service sends and takes, and their
//! JSON form.

use vstd::prelude::*;
use vstd::string::*;
use crate::error::GlobleError;
use crate::json::{entry_views, lemma_entry_of_push, lemma_json_view, list_views, member, Json, JsonView};
use crate::wire::{
    copy_opt_number, json_of_opt_number, opt_number_at, opt_number_view, read_opt_number, write_opt_number, Number,
    NumberView, bool_at, decode_failure, int_at, json_of_opt_int, json_of_opt_text, json_of_opt_texts, json_of_texts,
    lemma_texts_round_trip, opt_int_at, opt_text_at, opt_text_view, opt_texts_at, opt_texts_view, read_bool,
    read_int, read_opt_int, read_opt_text, read_opt_texts, read_text, read_texts, shape_fault, text_at,
    text_views, texts_at, write_opt_int, write_opt_text, write_opt_texts, write_texts,
};

verus! {

/// A copy of an optional text.
pub fn copy_opt_text(text: &Option<String>) -> (r: Option<String>)
    ensures
        opt_text_view(r) == opt_text_view(*text),
{
    match text {
        Some(s) => Some(s.clone()),
        None => None,
    }
}

/// A copy of a sequence of texts.
pub fn copy_texts(texts: &Vec<String>) -> (r: Vec<String>)
    ensures
        text_views(r@) == text_views(texts@),
{
    let mut out: Vec<String> = Vec::new();
    let mut i: usize = 0;
    while i < texts.len()
        invariant
            i <= texts.len(),
            out@.len() == i,
            forall|k: int| 0 <= k < i ==> (#[trigger] out@[k])@ == texts@[k]@,
        decreases texts.len() - i,
    {
        out.push(texts[i].clone());
        i += 1;
    }
    assert(text_views(out@) =~= text_views(texts@));
    out
}

/// A copy of an optional sequence of texts.
pub fn copy_opt_texts(texts: &Option<Vec<String>>) -> (r: Option<Vec<String>>)
    ensures
        opt_texts_view(r) == opt_texts_view(*texts),
{
    match texts {
        Some(v) => Some(copy_texts(v)),
        None => None,
    }
}

/// The English texts of a listed item.
#[derive(Debug, PartialEq)]
pub struct OrderItemTranslation {
    pub item_name: String,
}

/// What an [`OrderItemTranslation`] holds.
pub struct OrderItemTranslationView {
    pub item_name: Seq<char>,
}

impl View for OrderItemTranslation {
    type V = OrderItemTranslationView;

    open spec fn view(&self) -> OrderItemTranslationView {
        OrderItemTranslationView {
            item_name: self.item_name@,
        }
    }
}

/// The record that a JSON object stands for, if it has the members of
/// an [`OrderItemTranslation`] with their types. Members beyond those are passed over.
pub open spec fn order_item_translation_of_json(j: JsonView) -> Option<OrderItemTranslationView> {
    if text_at(j, "item_name"@) is Some {
        Some(
            OrderItemTranslationView {
                item_name: text_at(j, "item_name"@).unwrap(),
            },
        )
    } else {
        None
    }
}

/// The record under `key`.
pub open spec fn order_item_translation_at(j: JsonView, key: Seq<char>) -> Option<OrderItemTranslationView> {
    match member(j, key) {
        Some(v) => order_item_translation_of_json(v),
        None => None,
    }
}

/// The JSON object that stands for the record: one member for each field,
/// null for an absent one.
pub open spec fn json_of_order_item_translation(v: OrderItemTranslationView) -> JsonView {
    JsonView::Object(
        seq![
            ("item_name"@, JsonView::Text(v.item_name)),
        ],
    )
}

impl OrderItemTranslation {
    /// Reads the record from a JSON object. Fails with `SerdeError`, which
    /// holds the value's text, exactly where a member is missing or has
    /// another type.
    pub fn from_json(j: &Json) -> (r: Result<OrderItemTranslation, GlobleError>)
        ensures
            match order_item_translation_of_json(j@) {
                Some(v) => r matches Ok(x) && x@ == v,
                None => r matches Err(e) && e@ == shape_fault(j@),
            },
    {
        let item_name = match read_text(j, "item_name") {
            Some(v) => v,
            None => {
                return Err(decode_failure(j));
            },
        };
        Ok(OrderItemTranslation { item_name })
    }

    /// Reads the record under `key`.
    pub fn read(j: &Json, key: &str) -> (r: Option<OrderItemTranslation>)
        ensures
            match r {
                Some(x) => order_item_translation_at(j@, key@) == Some(x@),
                None => order_item_translation_at(j@, key@) is None,
            },
    {
        match j.get(key) {
            Some(v) => match OrderItemTranslation::from_json(v) {
                Ok(x) => Some(x),
                Err(_) => None,
            },
            None => None,
        }
    }

    /// Writes the record as a JSON object.
    pub fn to_json(&self) -> (r: Json)
        ensures
            r@ == json_of_order_item_translation(self@),
    {
        let mut entries: Vec<(String, Json)> = Vec::new();
        entries.push((String::from_str("item_name"), Json::Text(self.item_name.clone())));
        let r = Json::Object(entries);
        proof {
            lemma_json_view(r);
            assert(entry_views(entries@) =~= json_of_order_item_translation(self@)->Object_0);
        }
        r
    }

    /// A copy of the record.
    pub fn duplicate(&self) -> (r: OrderItemTranslation)
        ensures
            r@ == self@,
    {
        OrderItemTranslation {
            item_name: self.item_name.clone(),
        }
    }
}

/// Writing a record and reading it back gives the record: every field
/// as it was, an absent one absent.
pub proof fn lemma_order_item_translation_round_trip(v: OrderItemTranslationView)
    ensures
        order_item_translation_of_json(json_of_order_item_translation(v)) == Some(v),
{
    reveal_strlit("item_name");
    assert("item_name"@.len() == 9);
    let s0 = Seq::<(Seq<char>, JsonView)>::empty();
    lemma_entry_of_push(s0, "item_name"@, JsonView::Text(v.item_name));
    let s1 = s0.push(("item_name"@, JsonView::Text(v.item_name)));
    let j = json_of_order_item_translation(v);
    assert(j->Object_0 =~= s1);
    assert(member(j, "item_name"@) == Some(JsonView::Text(v.item_name)));
}

/// The item that a listing is about.
#[derive(Debug, PartialEq)]
pub struct OrderItem {
    pub id: String,
    pub url_name: String,
    pub icon: String,
    pub icon_format: String,
    pub thumb: String,
    pub sub_icon: Option<String>,
    pub mod_max_rank: Option<i64>,
    pub subtypes: Option<Vec<String>>,
    pub tags: Vec<String>,
    pub ducats: Option<i64>,
    pub quantity_for_set: Option<i64>,
    pub en: OrderItemTranslation,
}

/// What an [`OrderItem`] holds.
pub struct OrderItemView {
    pub id: Seq<char>,
    pub url_name: Seq<char>,
    pub icon: Seq<char>,
    pub icon_format: Seq<char>,
    pub thumb: Seq<char>,
    pub sub_icon: Option<Seq<char>>,
    pub mod_max_rank: Option<i64>,
    pub subtypes: Option<Seq<Seq<char>>>,
    pub tags: Seq<Seq<char>>,
    pub ducats: Option<i64>,
    pub quantity_for_set: Option<i64>,
    pub en: OrderItemTranslationView,
}

impl View for OrderItem {
    type V = OrderItemView;

    open spec fn view(&self) -> OrderItemView {
        OrderItemView {
            id: self.id@,
            url_name: self.url_name@,
            icon: self.icon@,
            icon_format: self.icon_format@,
            thumb: self.thumb@,
            sub_icon: opt_text_view(self.sub_icon),
            mod_max_rank: self.mod_max_rank,
            subtypes: opt_texts_view(self.subtypes),
            tags: text_views(self.tags@),
            ducats: self.ducats,
            quantity_for_set: self.quantity_for_set,
            en: self.en@,
        }
    }
}

/// The record that a JSON object stands for, if it has the members of
/// an [`OrderItem`] with their types. Members beyond those are passed over.
pub open spec fn order_item_of_json(j: JsonView) -> Option<OrderItemView> {
    if text_at(j, "id"@) is Some && text_at(j, "url_name"@) is Some && text_at(j, "icon"@) is Some && text_at(j, "icon_format"@) is Some && text_at(j, "thumb"@) is Some && opt_text_at(j, "sub_icon"@) is Some && opt_int_at(j, "mod_max_rank"@) is Some && opt_texts_at(j, "subtypes"@) is Some && texts_at(j, "tags"@) is Some && opt_int_at(j, "ducats"@) is Some && opt_int_at(j, "quantity_for_set"@) is Some && order_item_translation_at(j, "en"@) is Some {
        Some(
            OrderItemView {
                id: text_at(j, "id"@).unwrap(),
                url_name: text_at(j, "url_name"@).unwrap(),
                icon: text_at(j, "icon"@).unwrap(),
                icon_format: text_at(j, "icon_format"@).unwrap(),
                thumb: text_at(j, "thumb"@).unwrap(),
                sub_icon: opt_text_at(j, "sub_icon"@).unwrap(),
                mod_max_rank: opt_int_at(j, "mod_max_rank"@).unwrap(),
                subtypes: opt_texts_at(j, "subtypes"@).unwrap(),
                tags: texts_at(j, "tags"@).unwrap(),
                ducats: opt_int_at(j, "ducats"@).unwrap(),
                quantity_for_set: opt_int_at(j, "quantity_for_set"@).unwrap(),
                en: order_item_translation_at(j, "en"@).unwrap(),
            },
        )
    } else {
        None
    }
}

/// The record under `key`.
pub open spec fn order_item_at(j: JsonView, key: Seq<char>) -> Option<OrderItemView> {
    match member(j, key) {
        Some(v) => order_item_of_json(v),
        None => None,
    }
}

/// The JSON object that stands for the record: one member for each field,
/// null for an absent one.
pub open spec fn json_of_order_item(v: OrderItemView) -> JsonView {
    JsonView::Object(
        seq![
            ("id"@, JsonView::Text(v.id)),
            ("url_name"@, JsonView::Text(v.url_name)),
            ("icon"@, JsonView::Text(v.icon)),
            ("icon_format"@, JsonView::Text(v.icon_format)),
            ("thumb"@, JsonView::Text(v.thumb)),
            ("sub_icon"@, json_of_opt_text(v.sub_icon)),
            ("mod_max_rank"@, json_of_opt_int(v.mod_max_rank)),
            ("subtypes"@, json_of_opt_texts(v.subtypes)),
            ("tags"@, json_of_texts(v.tags)),
            ("ducats"@, json_of_opt_int(v.ducats)),
            ("quantity_for_set"@, json_of_opt_int(v.quantity_for_set)),
            ("en"@, json_of_order_item_translation(v.en)),
        ],
    )
}

impl OrderItem {
    /// Reads the record from a JSON object. Fails with `SerdeError`, which
    /// holds the value's text, exactly where a member is missing or has
    /// another type.
    pub fn from_json(j: &Json) -> (r: Result<OrderItem, GlobleError>)
        ensures
            match order_item_of_json(j@) {
                Some(v) => r matches Ok(x) && x@ == v,
                None => r matches Err(e) && e@ == shape_fault(j@),
            },
    {
        let id = match read_text(j, "id") {
            Some(v) => v,
            None => {
                return Err(decode_failure(j));
            },
        };
        let url_name = match read_text(j, "url_name") {
            Some(v) => v,
            None => {
                return Err(decode_failure(j));
            },
        };
        let icon = match read_text(j, "icon") {
            Some(v) => v,
            None => {
                return Err(decode_failure(j));
            },
        };
        let icon_format = match read_text(j, "icon_format") {
            Some(v) => v,
            None => {
                return Err(decode_failure(j));
            },
        };
        let thumb = match read_text(j, "thumb") {
            Some(v) => v,
            None => {
                return Err(decode_failure(j));
            },
        };
        let sub_icon = match read_opt_text(j, "sub_icon") {
            Some(v) => v,
            None => {
                return Err(decode_failure(j));
            },
        };
        let mod_max_rank = match read_opt_int(j, "mod_max_rank") {
            Some(v) => v,
            None => {
                return Err(decode_failure(j));
            },
        };
        let subtypes = match read_opt_texts(j, "subtypes") {
            Some(v) => v,
            None => {
                return Err(decode_failure(j));
            },
        };
        let tags = match read_texts(j, "tags") {
            Some(v) => v,
            None => {
                return Err(decode_failure(j));
            },
        };
        let ducats = match read_opt_int(j, "ducats") {
            Some(v) => v,
            None => {
                return Err(decode_failure(j));
            },
        };
        let quantity_for_set = match read_opt_int(j, "quantity_for_set") {
            Some(v) => v,
            None => {
                return Err(decode_failure(j));
            },
        };
        let en = match OrderItemTranslation::read(j, "en") {
            Some(v) => v,
            None => {
                return Err(decode_failure(j));
            },
        };
        Ok(OrderItem { id, url_name, icon, icon_format, thumb, sub_icon, mod_max_rank, subtypes, tags, ducats, quantity_for_set, en })
    }

    /// Reads the record under `key`.
    pub fn read(j: &Json, key: &str) -> (r: Option<OrderItem>)
        ensures
            match r {
                Some(x) => order_item_at(j@, key@) == Some(x@),
                None => order_item_at(j@, key@) is None,
            },
    {
        match j.get(key) {
            Some(v) => match OrderItem::from_json(v) {
                Ok(x) => Some(x),
                Err(_) => None,
            },
            None => None,
        }
    }

    /// Writes the record as a JSON object.
    pub fn to_json(&self) -> (r: Json)
        ensures
            r@ == json_of_order_item(self@),
    {
        let mut entries: Vec<(String, Json)> = Vec::new();
        entries.push((String::from_str("id"), Json::Text(self.id.clone())));
        entries.push((String::from_str("url_name"), Json::Text(self.url_name.clone())));
        entries.push((String::from_str("icon"), Json::Text(self.icon.clone())));
        entries.push((String::from_str("icon_format"), Json::Text(self.icon_format.clone())));
        entries.push((String::from_str("thumb"), Json::Text(self.thumb.clone())));
        entries.push((String::from_str("sub_icon"), write_opt_text(&self.sub_icon)));
        entries.push((String::from_str("mod_max_rank"), write_opt_int(&self.mod_max_rank)));
        entries.push((String::from_str("subtypes"), write_opt_texts(&self.subtypes)));
        entries.push((String::from_str("tags"), write_texts(&self.tags)));
        entries.push((String::from_str("ducats"), write_opt_int(&self.ducats)));
        entries.push((String::from_str("quantity_for_set"), write_opt_int(&self.quantity_for_set)));
        entries.push((String::from_str("en"), self.en.to_json()));
        let r = Json::Object(entries);
        proof {
            lemma_json_view(r);
            assert(entry_views(entries@) =~= json_of_order_item(self@)->Object_0);
        }
        r
    }

    /// A copy of the record.
    pub fn duplicate(&self) -> (r: OrderItem)
        ensures
            r@ == self@,
    {
        OrderItem {
            id: self.id.clone(),
            url_name: self.url_name.clone(),
            icon: self.icon.clone(),
            icon_format: self.icon_format.clone(),
            thumb: self.thumb.clone(),
            sub_icon: copy_opt_text(&self.sub_icon),
            mod_max_rank: self.mod_max_rank,
            subtypes: copy_opt_texts(&self.subtypes),
            tags: copy_texts(&self.tags),
            ducats: self.ducats,
            quantity_for_set: self.quantity_for_set,
            en: self.en.duplicate(),
        }
    }
}

/// Writing a record and reading it back gives the record: every field
/// as it was, an absent one absent.
pub proof fn lemma_order_item_round_trip(v: OrderItemView)
    ensures
        order_item_of_json(json_of_order_item(v)) == Some(v),
{
    reveal_strlit("id");
    reveal_strlit("url_name");
    reveal_strlit("icon");
    reveal_strlit("icon_format");
    reveal_strlit("thumb");
    reveal_strlit("sub_icon");
    reveal_strlit("mod_max_rank");
    reveal_strlit("subtypes");
    reveal_strlit("tags");
    reveal_strlit("ducats");
    reveal_strlit("quantity_for_set");
    reveal_strlit("en");
    assert("id"@.len() == 2);
    assert("url_name"@.len() == 8);
    assert("icon"@.len() == 4);
    assert("icon_format"@.len() == 11);
    assert("thumb"@.len() == 5);
    assert("sub_icon"@.len() == 8);
    assert("mod_max_rank"@.len() == 12);
    assert("subtypes"@.len() == 8);
    assert("tags"@.len() == 4);
    assert("ducats"@.len() == 6);
    assert("quantity_for_set"@.len() == 16);
    assert("en"@.len() == 2);
    assert("id"@[0] != "en"@[0]);
    assert("url_name"@[0] != "sub_icon"@[0]);
    assert("url_name"@[0] != "subtypes"@[0]);
    assert("icon"@[0] != "tags"@[0]);
    assert("sub_icon"@[3] != "subtypes"@[3]);
    if v.subtypes is Some {
        lemma_texts_round_trip(v.subtypes.unwrap());
    }
    lemma_texts_round_trip(v.tags);
    lemma_order_item_translation_round_trip(v.en);
    let s0 = Seq::<(Seq<char>, JsonView)>::empty();
    lemma_entry_of_push(s0, "id"@, JsonView::Text(v.id));
    let s1 = s0.push(("id"@, JsonView::Text(v.id)));
    lemma_entry_of_push(s1, "url_name"@, JsonView::Text(v.url_name));
    let s2 = s1.push(("url_name"@, JsonView::Text(v.url_name)));
    lemma_entry_of_push(s2, "icon"@, JsonView::Text(v.icon));
    let s3 = s2.push(("icon"@, JsonView::Text(v.icon)));
    lemma_entry_of_push(s3, "icon_format"@, JsonView::Text(v.icon_format));
    let s4 = s3.push(("icon_format"@, JsonView::Text(v.icon_format)));
    lemma_entry_of_push(s4, "thumb"@, JsonView::Text(v.thumb));
    let s5 = s4.push(("thumb"@, JsonView::Text(v.thumb)));
    lemma_entry_of_push(s5, "sub_icon"@, json_of_opt_text(v.sub_icon));
    let s6 = s5.push(("sub_icon"@, json_of_opt_text(v.sub_icon)));
    lemma_entry_of_push(s6, "mod_max_rank"@, json_of_opt_int(v.mod_max_rank));
    let s7 = s6.push(("mod_max_rank"@, json_of_opt_int(v.mod_max_rank)));
    lemma_entry_of_push(s7, "subtypes"@, json_of_opt_texts(v.subtypes));
    let s8 = s7.push(("subtypes"@, json_of_opt_texts(v.subtypes)));
    lemma_entry_of_push(s8, "tags"@, json_of_texts(v.tags));
    let s9 = s8.push(("tags"@, json_of_texts(v.tags)));
    lemma_entry_of_push(s9, "ducats"@, json_of_opt_int(v.ducats));
    let s10 = s9.push(("ducats"@, json_of_opt_int(v.ducats)));
    lemma_entry_of_push(s10, "quantity_for_set"@, json_of_opt_int(v.quantity_for_set));
    let s11 = s10.push(("quantity_for_set"@, json_of_opt_int(v.quantity_for_set)));
    lemma_entry_of_push(s11, "en"@, json_of_order_item_translation(v.en));
    let s12 = s11.push(("en"@, json_of_order_item_translation(v.en)));
    let j = json_of_order_item(v);
    assert(j->Object_0 =~= s12);
    assert(member(j, "id"@) == Some(JsonView::Text(v.id)));
    assert(member(j, "url_name"@) == Some(JsonView::Text(v.url_name)));
    assert(member(j, "icon"@) == Some(JsonView::Text(v.icon)));
    assert(member(j, "icon_format"@) == Some(JsonView::Text(v.icon_format)));
    assert(member(j, "thumb"@) == Some(JsonView::Text(v.thumb)));
    assert(member(j, "sub_icon"@) == Some(json_of_opt_text(v.sub_icon)));
    assert(member(j, "mod_max_rank"@) == Some(json_of_opt_int(v.mod_max_rank)));
    assert(member(j, "subtypes"@) == Some(json_of_opt_texts(v.subtypes)));
    assert(member(j, "tags"@) == Some(json_of_texts(v.tags)));
    assert(member(j, "ducats"@) == Some(json_of_opt_int(v.ducats)));
    assert(member(j, "quantity_for_set"@) == Some(json_of_opt_int(v.quantity_for_set)));
    assert(member(j, "en"@) == Some(json_of_order_item_translation(v.en)));
}

/// A buy or sell listing of the signed-in trader.
#[derive(Debug, PartialEq)]
pub struct Order {
    pub id: String,
    pub platinum: i64,
    pub visible: bool,
    pub last_update: String,
    pub region: String,
    pub platform: String,
    pub creation_date: String,
    pub order_type: String,
    pub quantity: i64,
    pub item: OrderItem,
}

/// What an [`Order`] holds.
pub struct OrderView {
    pub id: Seq<char>,
    pub platinum: i64,
    pub visible: bool,
    pub last_update: Seq<char>,
    pub region: Seq<char>,
    pub platform: Seq<char>,
    pub creation_date: Seq<char>,
    pub order_type: Seq<char>,
    pub quantity: i64,
    pub item: OrderItemView,
}

impl View for Order {
    type V = OrderView;

    open spec fn view(&self) -> OrderView {
        OrderView {
            id: self.id@,
            platinum: self.platinum,
            visible: self.visible,
            last_update: self.last_update@,
            region: self.region@,
            platform: self.platform@,
            creation_date: self.creation_date@,
            order_type: self.order_type@,
            quantity: self.quantity,
            item: self.item@,
        }
    }
}

/// The record that a JSON object stands for, if it has the members of
/// an [`Order`] with their types. Members beyond those are passed over.
pub open spec fn order_of_json(j: JsonView) -> Option<OrderView> {
    if text_at(j, "id"@) is Some && int_at(j, "platinum"@) is Some && bool_at(j, "visible"@) is Some && text_at(j, "last_update"@) is Some && text_at(j, "region"@) is Some && text_at(j, "platform"@) is Some && text_at(j, "creation_date"@) is Some && text_at(j, "order_type"@) is Some && int_at(j, "quantity"@) is Some && order_item_at(j, "item"@) is Some {
        Some(
            OrderView {
                id: text_at(j, "id"@).unwrap(),
                platinum: int_at(j, "platinum"@).unwrap(),
                visible: bool_at(j, "visible"@).unwrap(),
                last_update: text_at(j, "last_update"@).unwrap(),
                region: text_at(j, "region"@).unwrap(),
                platform: text_at(j, "platform"@).unwrap(),
                creation_date: text_at(j, "creation_date"@).unwrap(),
                order_type: text_at(j, "order_type"@).unwrap(),
                quantity: int_at(j, "quantity"@).unwrap(),
                item: order_item_at(j, "item"@).unwrap(),
            },
        )
    } else {
        None
    }
}

/// The record under `key`.
pub open spec fn order_at(j: JsonView, key: Seq<char>) -> Option<OrderView> {
    match member(j, key) {
        Some(v) => order_of_json(v),
        None => None,
    }
}

/// The views of a sequence of records.
pub open spec fn order_views(records: Seq<Order>) -> Seq<OrderView> {
    Seq::new(records.len(), |i: int| records[i]@)
}

/// Whether every item stands for a record.
pub open spec fn all_order(items: Seq<JsonView>) -> bool {
    forall|i: int| 0 <= i < items.len() ==> order_of_json(#[trigger] items[i]) is Some
}

/// The records that a JSON list stands for, if each item stands for one.
pub open spec fn order_list_of_json(j: JsonView) -> Option<Seq<OrderView>> {
    match j {
        JsonView::List(items) => if all_order(items) {
            Some(Seq::new(items.len(), |i: int| order_of_json(items[i]).unwrap()))
        } else {
            None
        },
        _ => None,
    }
}

/// The records under `key`.
pub open spec fn order_list_at(j: JsonView, key: Seq<char>) -> Option<Seq<OrderView>> {
    match member(j, key) {
        Some(v) => order_list_of_json(v),
        None => None,
    }
}

/// The JSON object that stands for the record: one member for each field,
/// null for an absent one.
pub open spec fn json_of_order(v: OrderView) -> JsonView {
    JsonView::Object(
        seq![
            ("id"@, JsonView::Text(v.id)),
            ("platinum"@, JsonView::Int(v.platinum)),
            ("visible"@, JsonView::Bool(v.visible)),
            ("last_update"@, JsonView::Text(v.last_update)),
            ("region"@, JsonView::Text(v.region)),
            ("platform"@, JsonView::Text(v.platform)),
            ("creation_date"@, JsonView::Text(v.creation_date)),
            ("order_type"@, JsonView::Text(v.order_type)),
            ("quantity"@, JsonView::Int(v.quantity)),
            ("item"@, json_of_order_item(v.item)),
        ],
    )
}

/// The JSON list that stands for a sequence of records.
pub open spec fn json_of_order_list(v: Seq<OrderView>) -> JsonView {
    JsonView::List(Seq::new(v.len(), |i: int| json_of_order(v[i])))
}

impl Order {
    /// Reads the record from a JSON object. Fails with `SerdeError`, which
    /// holds the value's text, exactly where a member is missing or has
    /// another type.
    pub fn from_json(j: &Json) -> (r: Result<Order, GlobleError>)
        ensures
            match order_of_json(j@) {
                Some(v) => r matches Ok(x) && x@ == v,
                None => r matches Err(e) && e@ == shape_fault(j@),
            },
    {
        let id = match read_text(j, "id") {
            Some(v) => v,
            None => {
                return Err(decode_failure(j));
            },
        };
        let platinum = match read_int(j, "platinum") {
            Some(v) => v,
            None => {
                return Err(decode_failure(j));
            },
        };
        let visible = match read_bool(j, "visible") {
            Some(v) => v,
            None => {
                return Err(decode_failure(j));
            },
        };
        let last_update = match read_text(j, "last_update") {
            Some(v) => v,
            None => {
                return Err(decode_failure(j));
            },
        };
        let region = match read_text(j, "region") {
            Some(v) => v,
            None => {
                return Err(decode_failure(j));
            },
        };
        let platform = match read_text(j, "platform") {
            Some(v) => v,
            None => {
                return Err(decode_failure(j));
            },
        };
        let creation_date = match read_text(j, "creation_date") {
            Some(v) => v,
            None => {
                return Err(decode_failure(j));
            },
        };
        let order_type = match read_text(j, "order_type") {
            Some(v) => v,
            None => {
                return Err(decode_failure(j));
            },
        };
        let quantity = match read_int(j, "quantity") {
            Some(v) => v,
            None => {
                return Err(decode_failure(j));
            },
        };
        let item = match OrderItem::read(j, "item") {
            Some(v) => v,
            None => {
                return Err(decode_failure(j));
            },
        };
        Ok(Order { id, platinum, visible, last_update, region, platform, creation_date, order_type, quantity, item })
    }

    /// Reads the record under `key`.
    pub fn read(j: &Json, key: &str) -> (r: Option<Order>)
        ensures
            match r {
                Some(x) => order_at(j@, key@) == Some(x@),
                None => order_at(j@, key@) is None,
            },
    {
        match j.get(key) {
            Some(v) => match Order::from_json(v) {
                Ok(x) => Some(x),
                Err(_) => None,
            },
            None => None,
        }
    }

    /// Reads a list of records. Fails with `SerdeError`, which holds the
    /// value's text, exactly where the value is no list or an item is no
    /// record.
    pub fn list_from_json(j: &Json) -> (r: Result<Vec<Order>, GlobleError>)
        ensures
            match order_list_of_json(j@) {
                Some(v) => r matches Ok(x) && order_views(x@) == v,
                None => r matches Err(e) && e@ == shape_fault(j@),
            },
    {
        match j {
            Json::List(items) => {
                proof {
                    lemma_json_view(*j);
                }
                let ghost views = list_views(items@);
                let mut out: Vec<Order> = Vec::new();
                let mut i: usize = 0;
                while i < items.len()
                    invariant
                        i <= items.len(),
                        views == list_views(items@),
                        j@ == JsonView::List(views),
                        out@.len() == i,
                        forall|k: int| 0 <= k < i ==> order_of_json(#[trigger] views[k]) == Some(out@[k]@),
                    decreases items.len() - i,
                {
                    match Order::from_json(&items[i]) {
                        Ok(x) => out.push(x),
                        Err(_) => {
                            assert(order_of_json(views[i as int]) is None);
                            return Err(decode_failure(j));
                        },
                    }
                    i += 1;
                }
                proof {
                    assert(all_order(views));
                    assert(order_list_of_json(j@).unwrap() =~= order_views(out@));
                }
                Ok(out)
            },
            _ => Err(decode_failure(j)),
        }
    }

    /// Reads the list of records under `key`.
    pub fn read_list(j: &Json, key: &str) -> (r: Option<Vec<Order>>)
        ensures
            match r {
                Some(x) => order_list_at(j@, key@) == Some(order_views(x@)),
                None => order_list_at(j@, key@) is None,
            },
    {
        match j.get(key) {
            Some(v) => match Order::list_from_json(v) {
                Ok(x) => Some(x),
                Err(_) => None,
            },
            None => None,
        }
    }

    /// A copy of a sequence of records.
    pub fn duplicate_list(records: &Vec<Order>) -> (r: Vec<Order>)
        ensures
            order_views(r@) == order_views(records@),
    {
        let mut out: Vec<Order> = Vec::new();
        let mut i: usize = 0;
        while i < records.len()
            invariant
                i <= records.len(),
                out@.len() == i,
                forall|k: int| 0 <= k < i ==> (#[trigger] out@[k])@ == records@[k]@,
            decreases records.len() - i,
        {
            out.push(records[i].duplicate());
            i += 1;
        }
        assert(order_views(out@) =~= order_views(records@));
        out
    }

    /// Writes the record as a JSON object.
    pub fn to_json(&self) -> (r: Json)
        ensures
            r@ == json_of_order(self@),
    {
        let mut entries: Vec<(String, Json)> = Vec::new();
        entries.push((String::from_str("id"), Json::Text(self.id.clone())));
        entries.push((String::from_str("platinum"), Json::Int(self.platinum)));
        entries.push((String::from_str("visible"), Json::Bool(self.visible)));
        entries.push((String::from_str("last_update"), Json::Text(self.last_update.clone())));
        entries.push((String::from_str("region"), Json::Text(self.region.clone())));
        entries.push((String::from_str("platform"), Json::Text(self.platform.clone())));
        entries.push((String::from_str("creation_date"), Json::Text(self.creation_date.clone())));
        entries.push((String::from_str("order_type"), Json::Text(self.order_type.clone())));
        entries.push((String::from_str("quantity"), Json::Int(self.quantity)));
        entries.push((String::from_str("item"), self.item.to_json()));
        let r = Json::Object(entries);
        proof {
            lemma_json_view(r);
            assert(entry_views(entries@) =~= json_of_order(self@)->Object_0);
        }
        r
    }

    /// Writes a sequence of records as a JSON list.
    pub fn list_to_json(records: &Vec<Order>) -> (r: Json)
        ensures
            r@ == json_of_order_list(order_views(records@)),
    {
        let mut items: Vec<Json> = Vec::new();
        let mut i: usize = 0;
        while i < records.len()
            invariant
                i <= records.len(),
                items@.len() == i,
                forall|k: int| 0 <= k < i ==> (#[trigger] items@[k])@ == json_of_order(records@[k]@),
            decreases records.len() - i,
        {
            items.push(records[i].to_json());
            i += 1;
        }
        let r = Json::List(items);
        proof {
            lemma_json_view(r);
            assert(list_views(items@) =~= json_of_order_list(order_views(records@))->List_0);
        }
        r
    }

    /// A copy of the record.
    pub fn duplicate(&self) -> (r: Order)
        ensures
            r@ == self@,
    {
        Order {
            id: self.id.clone(),
            platinum: self.platinum,
            visible: self.visible,
            last_update: self.last_update.clone(),
            region: self.region.clone(),
            platform: self.platform.clone(),
            creation_date: self.creation_date.clone(),
            order_type: self.order_type.clone(),
            quantity: self.quantity,
            item: self.item.duplicate(),
        }
    }
}

/// Writing a record and reading it back gives the record: every field
/// as it was, an absent one absent.
pub proof fn lemma_order_round_trip(v: OrderView)
    ensures
        order_of_json(json_of_order(v)) == Some(v),
{
    reveal_strlit("id");
    reveal_strlit("platinum");
    reveal_strlit("visible");
    reveal_strlit("last_update");
    reveal_strlit("region");
    reveal_strlit("platform");
    reveal_strlit("creation_date");
    reveal_strlit("order_type");
    reveal_strlit("quantity");
    reveal_strlit("item");
    assert("id"@.len() == 2);
    assert("platinum"@.len() == 8);
    assert("visible"@.len() == 7);
    assert("last_update"@.len() == 11);
    assert("region"@.len() == 6);
    assert("platform"@.len() == 8);
    assert("creation_date"@.len() == 13);
    assert("order_type"@.len() == 10);
    assert("quantity"@.len() == 8);
    assert("item"@.len() == 4);
    assert("platinum"@[4] != "platform"@[4]);
    assert("platinum"@[0] != "quantity"@[0]);
    assert("platform"@[0] != "quantity"@[0]);
    lemma_order_item_round_trip(v.item);
    let s0 = Seq::<(Seq<char>, JsonView)>::empty();
    lemma_entry_of_push(s0, "id"@, JsonView::Text(v.id));
    let s1 = s0.push(("id"@, JsonView::Text(v.id)));
    lemma_entry_of_push(s1, "platinum"@, JsonView::Int(v.platinum));
    let s2 = s1.push(("platinum"@, JsonView::Int(v.platinum)));
    lemma_entry_of_push(s2, "visible"@, JsonView::Bool(v.visible));
    let s3 = s2.push(("visible"@, JsonView::Bool(v.visible)));
    lemma_entry_of_push(s3, "last_update"@, JsonView::Text(v.last_update));
    let s4 = s3.push(("last_update"@, JsonView::Text(v.last_update)));
    lemma_entry_of_push(s4, "region"@, JsonView::Text(v.region));
    let s5 = s4.push(("region"@, JsonView::Text(v.region)));
    lemma_entry_of_push(s5, "platform"@, JsonView::Text(v.platform));
    let s6 = s5.push(("platform"@, JsonView::Text(v.platform)));
    lemma_entry_of_push(s6, "creation_date"@, JsonView::Text(v.creation_date));
    let s7 = s6.push(("creation_date"@, JsonView::Text(v.creation_date)));
    lemma_entry_of_push(s7, "order_type"@, JsonView::Text(v.order_type));
    let s8 = s7.push(("order_type"@, JsonView::Text(v.order_type)));
    lemma_entry_of_push(s8, "quantity"@, JsonView::Int(v.quantity));
    let s9 = s8.push(("quantity"@, JsonView::Int(v.quantity)));
    lemma_entry_of_push(s9, "item"@, json_of_order_item(v.item));
    let s10 = s9.push(("item"@, json_of_order_item(v.item)));
    let j = json_of_order(v);
    assert(j->Object_0 =~= s10);
    assert(member(j, "id"@) == Some(JsonView::Text(v.id)));
    assert(member(j, "platinum"@) == Some(JsonView::Int(v.platinum)));
    assert(member(j, "visible"@) == Some(JsonView::Bool(v.visible)));
    assert(member(j, "last_update"@) == Some(JsonView::Text(v.last_update)));
    assert(member(j, "region"@) == Some(JsonView::Text(v.region)));
    assert(member(j, "platform"@) == Some(JsonView::Text(v.platform)));
    assert(member(j, "creation_date"@) == Some(JsonView::Text(v.creation_date)));
    assert(member(j, "order_type"@) == Some(JsonView::Text(v.order_type)));
    assert(member(j, "quantity"@) == Some(JsonView::Int(v.quantity)));
    assert(member(j, "item"@) == Some(json_of_order_item(v.item)));
}

/// Writing a sequence of records and reading it back gives the sequence.
pub proof fn lemma_order_list_round_trip(v: Seq<OrderView>)
    ensures
        order_list_of_json(json_of_order_list(v)) == Some(v),
{
    let items = Seq::new(v.len(), |i: int| json_of_order(v[i]));
    assert forall|i: int| 0 <= i < items.len() implies order_of_json(#[trigger] items[i]) == Some(v[i]) by {
        lemma_order_round_trip(v[i]);
    }
    assert(all_order(items));
    assert(Seq::new(items.len(), |i: int| order_of_json(items[i]).unwrap()) =~= v);
}

/// The listings of the signed-in trader: what is sold and what is sought.
#[derive(Debug, PartialEq)]
pub struct Ordres {
    pub sell_orders: Vec<Order>,
    pub buy_orders: Vec<Order>,
}

/// What an [`Ordres`] holds.
pub struct OrdresView {
    pub sell_orders: Seq<OrderView>,
    pub buy_orders: Seq<OrderView>,
}

impl View for Ordres {
    type V = OrdresView;

    open spec fn view(&self) -> OrdresView {
        OrdresView {
            sell_orders: order_views(self.sell_orders@),
            buy_orders: order_views(self.buy_orders@),
        }
    }
}

/// The record that a JSON object stands for, if it has the members of
/// an [`Ordres`] with their types. Members beyond those are passed over.
pub open spec fn ordres_of_json(j: JsonView) -> Option<OrdresView> {
    if order_list_at(j, "sell_orders"@) is Some && order_list_at(j, "buy_orders"@) is Some {
        Some(
            OrdresView {
                sell_orders: order_list_at(j, "sell_orders"@).unwrap(),
                buy_orders: order_list_at(j, "buy_orders"@).unwrap(),
            },
        )
    } else {
        None
    }
}

/// The record under `key`.
pub open spec fn ordres_at(j: JsonView, key: Seq<char>) -> Option<OrdresView> {
    match member(j, key) {
        Some(v) => ordres_of_json(v),
        None => None,
    }
}

impl Ordres {
    /// Reads the record from a JSON object. Fails with `SerdeError`, which
    /// holds the value's text, exactly where a member is missing or has
    /// another type.
    pub fn from_json(j: &Json) -> (r: Result<Ordres, GlobleError>)
        ensures
            match ordres_of_json(j@) {
                Some(v) => r matches Ok(x) && x@ == v,
                None => r matches Err(e) && e@ == shape_fault(j@),
            },
    {
        let sell_orders = match Order::read_list(j, "sell_orders") {
            Some(v) => v,
            None => {
                return Err(decode_failure(j));
            },
        };
        let buy_orders = match Order::read_list(j, "buy_orders") {
            Some(v) => v,
            None => {
                return Err(decode_failure(j));
            },
        };
        Ok(Ordres { sell_orders, buy_orders })
    }

    /// Reads the record under `key`.
    pub fn read(j: &Json, key: &str) -> (r: Option<Ordres>)
        ensures
            match r {
                Some(x) => ordres_at(j@, key@) == Some(x@),
                None => ordres_at(j@, key@) is None,
            },
    {
        match j.get(key) {
            Some(v) => match Ordres::from_json(v) {
                Ok(x) => Some(x),
                Err(_) => None,
            },
            None => None,
        }
    }

    /// A copy of the record.
    pub fn duplicate(&self) -> (r: Ordres)
        ensures
            r@ == self@,
    {
        Ordres {
            sell_orders: Order::duplicate_list(&self.sell_orders),
            buy_orders: Order::duplicate_list(&self.buy_orders),
        }
    }
}

/// An entry of the catalogue of tradable items.
#[derive(Debug, PartialEq)]
pub struct Item {
    pub item_name: String,
    pub id: String,
    pub url_name: String,
    pub thumb: String,
    pub set_items: Option<Vec<String>>,
    pub tags: Option<Vec<String>>,
    pub mod_max_rank: Option<i64>,
    pub subtypes: Option<Vec<String>>,
}

/// What an [`Item`] holds.
pub struct ItemView {
    pub item_name: Seq<char>,
    pub id: Seq<char>,
    pub url_name: Seq<char>,
    pub thumb: Seq<char>,
    pub set_items: Option<Seq<Seq<char>>>,
    pub tags: Option<Seq<Seq<char>>>,
    pub mod_max_rank: Option<i64>,
    pub subtypes: Option<Seq<Seq<char>>>,
}

impl View for Item {
    type V = ItemView;

    open spec fn view(&self) -> ItemView {
        ItemView {
            item_name: self.item_name@,
            id: self.id@,
            url_name: self.url_name@,
            thumb: self.thumb@,
            set_items: opt_texts_view(self.set_items),
            tags: opt_texts_view(self.tags),
            mod_max_rank: self.mod_max_rank,
            subtypes: opt_texts_view(self.subtypes),
        }
    }
}

/// The record that a JSON object stands for, if it has the members of
/// an [`Item`] with their types. Members beyond those are passed over.
pub open spec fn item_of_json(j: JsonView) -> Option<ItemView> {
    if text_at(j, "item_name"@) is Some && text_at(j, "id"@) is Some && text_at(j, "url_name"@) is Some && text_at(j, "thumb"@) is Some && opt_texts_at(j, "set_items"@) is Some && opt_texts_at(j, "tags"@) is Some && opt_int_at(j, "mod_max_rank"@) is Some && opt_texts_at(j, "subtypes"@) is Some {
        Some(
            ItemView {
                item_name: text_at(j, "item_name"@).unwrap(),
                id: text_at(j, "id"@).unwrap(),
                url_name: text_at(j, "url_name"@).unwrap(),
                thumb: text_at(j, "thumb"@).unwrap(),
                set_items: opt_texts_at(j, "set_items"@).unwrap(),
                tags: opt_texts_at(j, "tags"@).unwrap(),
                mod_max_rank: opt_int_at(j, "mod_max_rank"@).unwrap(),
                subtypes: opt_texts_at(j, "subtypes"@).unwrap(),
            },
        )
    } else {
        None
    }
}

/// The record under `key`.
pub open spec fn item_at(j: JsonView, key: Seq<char>) -> Option<ItemView> {
    match member(j, key) {
        Some(v) => item_of_json(v),
        None => None,
    }
}

/// The views of a sequence of records.
pub open spec fn item_views(records: Seq<Item>) -> Seq<ItemView> {
    Seq::new(records.len(), |i: int| records[i]@)
}

/// Whether every item stands for a record.
pub open spec fn all_item(items: Seq<JsonView>) -> bool {
    forall|i: int| 0 <= i < items.len() ==> item_of_json(#[trigger] items[i]) is Some
}

/// The records that a JSON list stands for, if each item stands for one.
pub open spec fn item_list_of_json(j: JsonView) -> Option<Seq<ItemView>> {
    match j {
        JsonView::List(items) => if all_item(items) {
            Some(Seq::new(items.len(), |i: int| item_of_json(items[i]).unwrap()))
        } else {
            None
        },
        _ => None,
    }
}

/// The records under `key`.
pub open spec fn item_list_at(j: JsonView, key: Seq<char>) -> Option<Seq<ItemView>> {
    match member(j, key) {
        Some(v) => item_list_of_json(v),
        None => None,
    }
}

impl Item {
    /// Reads the record from a JSON object. Fails with `SerdeError`, which
    /// holds the value's text, exactly where a member is missing or has
    /// another type.
    pub fn from_json(j: &Json) -> (r: Result<Item, GlobleError>)
        ensures
            match item_of_json(j@) {
                Some(v) => r matches Ok(x) && x@ == v,
                None => r matches Err(e) && e@ == shape_fault(j@),
            },
    {
        let item_name = match read_text(j, "item_name") {
            Some(v) => v,
            None => {
                return Err(decode_failure(j));
            },
        };
        let id = match read_text(j, "id") {
            Some(v) => v,
            None => {
                return Err(decode_failure(j));
            },
        };
        let url_name = match read_text(j, "url_name") {
            Some(v) => v,
            None => {
                return Err(decode_failure(j));
            },
        };
        let thumb = match read_text(j, "thumb") {
            Some(v) => v,
            None => {
                return Err(decode_failure(j));
            },
        };
        let set_items = match read_opt_texts(j, "set_items") {
            Some(v) => v,
            None => {
                return Err(decode_failure(j));
            },
        };
        let tags = match read_opt_texts(j, "tags") {
            Some(v) => v,
            None => {
                return Err(decode_failure(j));
            },
        };
        let mod_max_rank = match read_opt_int(j, "mod_max_rank") {
            Some(v) => v,
            None => {
                return Err(decode_failure(j));
            },
        };
        let subtypes = match read_opt_texts(j, "subtypes") {
            Some(v) => v,
            None => {
                return Err(decode_failure(j));
            },
        };
        Ok(Item { item_name, id, url_name, thumb, set_items, tags, mod_max_rank, subtypes })
    }

    /// Reads the record under `key`.
    pub fn read(j: &Json, key: &str) -> (r: Option<Item>)
        ensures
            match r {
                Some(x) => item_at(j@, key@) == Some(x@),
                None => item_at(j@, key@) is None,
            },
    {
        match j.get(key) {
            Some(v) => match Item::from_json(v) {
                Ok(x) => Some(x),
                Err(_) => None,
            },
            None => None,
        }
    }

    /// Reads a list of records. Fails with `SerdeError`, which holds the
    /// value's text, exactly where the value is no list or an item is no
    /// record.
    pub fn list_from_json(j: &Json) -> (r: Result<Vec<Item>, GlobleError>)
        ensures
            match item_list_of_json(j@) {
                Some(v) => r matches Ok(x) && item_views(x@) == v,
                None => r matches Err(e) && e@ == shape_fault(j@),
            },
    {
        match j {
            Json::List(items) => {
                proof {
                    lemma_json_view(*j);
                }
                let ghost views = list_views(items@);
                let mut out: Vec<Item> = Vec::new();
                let mut i: usize = 0;
                while i < items.len()
                    invariant
                        i <= items.len(),
                        views == list_views(items@),
                        j@ == JsonView::List(views),
                        out@.len() == i,
                        forall|k: int| 0 <= k < i ==> item_of_json(#[trigger] views[k]) == Some(out@[k]@),
                    decreases items.len() - i,
                {
                    match Item::from_json(&items[i]) {
                        Ok(x) => out.push(x),
                        Err(_) => {
                            assert(item_of_json(views[i as int]) is None);
                            return Err(decode_failure(j));
                        },
                    }
                    i += 1;
                }
                proof {
                    assert(all_item(views));
                    assert(item_list_of_json(j@).unwrap() =~= item_views(out@));
                }
                Ok(out)
            },
            _ => Err(decode_failure(j)),
        }
    }

    /// Reads the list of records under `key`.
    pub fn read_list(j: &Json, key: &str) -> (r: Option<Vec<Item>>)
        ensures
            match r {
                Some(x) => item_list_at(j@, key@) == Some(item_views(x@)),
                None => item_list_at(j@, key@) is None,
            },
    {
        match j.get(key) {
            Some(v) => match Item::list_from_json(v) {
                Ok(x) => Some(x),
                Err(_) => None,
            },
            None => None,
        }
    }

    /// A copy of a sequence of records.
    pub fn duplicate_list(records: &Vec<Item>) -> (r: Vec<Item>)
        ensures
            item_views(r@) == item_views(records@),
    {
        let mut out: Vec<Item> = Vec::new();
        let mut i: usize = 0;
        while i < records.len()
            invariant
                i <= records.len(),
                out@.len() == i,
                forall|k: int| 0 <= k < i ==> (#[trigger] out@[k])@ == records@[k]@,
            decreases records.len() - i,
        {
            out.push(records[i].duplicate());
            i += 1;
        }
        assert(item_views(out@) =~= item_views(records@));
        out
    }

    /// A copy of the record.
    pub fn duplicate(&self) -> (r: Item)
        ensures
            r@ == self@,
    {
        Item {
            item_name: self.item_name.clone(),
            id: self.id.clone(),
            url_name: self.url_name.clone(),
            thumb: self.thumb.clone(),
            set_items: copy_opt_texts(&self.set_items),
            tags: copy_opt_texts(&self.tags),
            mod_max_rank: self.mod_max_rank,
            subtypes: copy_opt_texts(&self.subtypes),
        }
    }
}

/// A member of an item set.
#[derive(Debug, PartialEq)]
pub struct ItemInfo {
    pub id: String,
    pub mod_max_rank: Option<Number>,
}

/// What an [`ItemInfo`] holds.
pub struct ItemInfoView {
    pub id: Seq<char>,
    pub mod_max_rank: Option<NumberView>,
}

impl View for ItemInfo {
    type V = ItemInfoView;

    open spec fn view(&self) -> ItemInfoView {
        ItemInfoView {
            id: self.id@,
            mod_max_rank: opt_number_view(self.mod_max_rank),
        }
    }
}

/// The record that a JSON object stands for, if it has the members of
/// an [`ItemInfo`] with their types. Members beyond those are passed over.
pub open spec fn item_info_of_json(j: JsonView) -> Option<ItemInfoView> {
    if text_at(j, "id"@) is Some && opt_number_at(j, "mod_max_rank"@) is Some {
        Some(
            ItemInfoView {
                id: text_at(j, "id"@).unwrap(),
                mod_max_rank: opt_number_at(j, "mod_max_rank"@).unwrap(),
            },
        )
    } else {
        None
    }
}

/// The record under `key`.
pub open spec fn item_info_at(j: JsonView, key: Seq<char>) -> Option<ItemInfoView> {
    match member(j, key) {
        Some(v) => item_info_of_json(v),
        None => None,
    }
}

/// The views of a sequence of records.
pub open spec fn item_info_views(records: Seq<ItemInfo>) -> Seq<ItemInfoView> {
    Seq::new(records.len(), |i: int| records[i]@)
}

/// Whether every item stands for a record.
pub open spec fn all_item_info(items: Seq<JsonView>) -> bool {
    forall|i: int| 0 <= i < items.len() ==> item_info_of_json(#[trigger] items[i]) is Some
}

/// The records that a JSON list stands for, if each item stands for one.
pub open spec fn item_info_list_of_json(j: JsonView) -> Option<Seq<ItemInfoView>> {
    match j {
        JsonView::List(items) => if all_item_info(items) {
            Some(Seq::new(items.len(), |i: int| item_info_of_json(items[i]).unwrap()))
        } else {
            None
        },
        _ => None,
    }
}

/// The records under `key`.
pub open spec fn item_info_list_at(j: JsonView, key: Seq<char>) -> Option<Seq<ItemInfoView>> {
    match member(j, key) {
        Some(v) => item_info_list_of_json(v),
        None => None,
    }
}

/// The JSON object that stands for the record: one member for each field,
/// null for an absent one.
pub open spec fn json_of_item_info(v: ItemInfoView) -> JsonView {
    JsonView::Object(
        seq![
            ("id"@, JsonView::Text(v.id)),
            ("mod_max_rank"@, json_of_opt_number(v.mod_max_rank)),
        ],
    )
}

/// The JSON list that stands for a sequence of records.
pub open spec fn json_of_item_info_list(v: Seq<ItemInfoView>) -> JsonView {
    JsonView::List(Seq::new(v.len(), |i: int| json_of_item_info(v[i])))
}

impl ItemInfo {
    /// Reads the record from a JSON object. Fails with `SerdeError`, which
    /// holds the value's text, exactly where a member is missing or has
    /// another type.
    pub fn from_json(j: &Json) -> (r: Result<ItemInfo, GlobleError>)
        ensures
            match item_info_of_json(j@) {
                Some(v) => r matches Ok(x) && x@ == v,
                None => r matches Err(e) && e@ == shape_fault(j@),
            },
    {
        let id = match read_text(j, "id") {
            Some(v) => v,
            None => {
                return Err(decode_failure(j));
            },
        };
        let mod_max_rank = match read_opt_number(j, "mod_max_rank") {
            Some(v) => v,
            None => {
                return Err(decode_failure(j));
            },
        };
        Ok(ItemInfo { id, mod_max_rank })
    }

    /// Reads the record under `key`.
    pub fn read(j: &Json, key: &str) -> (r: Option<ItemInfo>)
        ensures
            match r {
                Some(x) => item_info_at(j@, key@) == Some(x@),
                None => item_info_at(j@, key@) is None,
            },
    {
        match j.get(key) {
            Some(v) => match ItemInfo::from_json(v) {
                Ok(x) => Some(x),
                Err(_) => None,
            },
            None => None,
        }
    }

    /// Reads a list of records. Fails with `SerdeError`, which holds the
    /// value's text, exactly where the value is no list or an item is no
    /// record.
    pub fn list_from_json(j: &Json) -> (r: Result<Vec<ItemInfo>, GlobleError>)
        ensures
            match item_info_list_of_json(j@) {
                Some(v) => r matches Ok(x) && item_info_views(x@) == v,
                None => r matches Err(e) && e@ == shape_fault(j@),
            },
    {
        match j {
            Json::List(items) => {
                proof {
                    lemma_json_view(*j);
                }
                let ghost views = list_views(items@);
                let mut out: Vec<ItemInfo> = Vec::new();
                let mut i: usize = 0;
                while i < items.len()
                    invariant
                        i <= items.len(),
                        views == list_views(items@),
                        j@ == JsonView::List(views),
                        out@.len() == i,
                        forall|k: int| 0 <= k < i ==> item_info_of_json(#[trigger] views[k]) == Some(out@[k]@),
                    decreases items.len() - i,
                {
                    match ItemInfo::from_json(&items[i]) {
                        Ok(x) => out.push(x),
                        Err(_) => {
                            assert(item_info_of_json(views[i as int]) is None);
                            return Err(decode_failure(j));
                        },
                    }
                    i += 1;
                }
                proof {
                    assert(all_item_info(views));
                    assert(item_info_list_of_json(j@).unwrap() =~= item_info_views(out@));
                }
                Ok(out)
            },
            _ => Err(decode_failure(j)),
        }
    }

    /// Reads the list of records under `key`.
    pub fn read_list(j: &Json, key: &str) -> (r: Option<Vec<ItemInfo>>)
        ensures
            match r {
                Some(x) => item_info_list_at(j@, key@) == Some(item_info_views(x@)),
                None => item_info_list_at(j@, key@) is None,
            },
    {
        match j.get(key) {
            Some(v) => match ItemInfo::list_from_json(v) {
                Ok(x) => Some(x),
                Err(_) => None,
            },
            None => None,
        }
    }

    /// A copy of a sequence of records.
    pub fn duplicate_list(records: &Vec<ItemInfo>) -> (r: Vec<ItemInfo>)
        ensures
            item_info_views(r@) == item_info_views(records@),
    {
        let mut out: Vec<ItemInfo> = Vec::new();
        let mut i: usize = 0;
        while i < records.len()
            invariant
                i <= records.len(),
                out@.len() == i,
                forall|k: int| 0 <= k < i ==> (#[trigger] out@[k])@ == records@[k]@,
            decreases records.len() - i,
        {
            out.push(records[i].duplicate());
            i += 1;
        }
        assert(item_info_views(out@) =~= item_info_views(records@));
        out
    }

    /// Writes the record as a JSON object.
    pub fn to_json(&self) -> (r: Json)
        ensures
            r@ == json_of_item_info(self@),
    {
        let mut entries: Vec<(String, Json)> = Vec::new();
        entries.push((String::from_str("id"), Json::Text(self.id.clone())));
        entries.push((String::from_str("mod_max_rank"), write_opt_number(&self.mod_max_rank)));
        let r = Json::Object(entries);
        proof {
            lemma_json_view(r);
            assert(entry_views(entries@) =~= json_of_item_info(self@)->Object_0);
        }
        r
    }

    /// Writes a sequence of records as a JSON list.
    pub fn list_to_json(records: &Vec<ItemInfo>) -> (r: Json)
        ensures
            r@ == json_of_item_info_list(item_info_views(records@)),
    {
        let mut items: Vec<Json> = Vec::new();
        let mut i: usize = 0;
        while i < records.len()
            invariant
                i <= records.len(),
                items@.len() == i,
                forall|k: int| 0 <= k < i ==> (#[trigger] items@[k])@ == json_of_item_info(records@[k]@),
            decreases records.len() - i,
        {
            items.push(records[i].to_json());
            i += 1;
        }
        let r = Json::List(items);
        proof {
            lemma_json_view(r);
            assert(list_views(items@) =~= json_of_item_info_list(item_info_views(records@))->List_0);
        }
        r
    }

    /// A copy of the record.
    pub fn duplicate(&self) -> (r: ItemInfo)
        ensures
            r@ == self@,
    {
        ItemInfo {
            id: self.id.clone(),
            mod_max_rank: copy_opt_number(&self.mod_max_rank),
        }
    }
}

/// Writing a record and reading it back gives the record: every field
/// as it was, an absent one absent.
pub proof fn lemma_item_info_round_trip(v: ItemInfoView)
    ensures
        item_info_of_json(json_of_item_info(v)) == Some(v),
{
    reveal_strlit("id");
    reveal_strlit("mod_max_rank");
    assert("id"@.len() == 2);
    assert("mod_max_rank"@.len() == 12);
    let s0 = Seq::<(Seq<char>, JsonView)>::empty();
    lemma_entry_of_push(s0, "id"@, JsonView::Text(v.id));
    let s1 = s0.push(("id"@, JsonView::Text(v.id)));
    lemma_entry_of_push(s1, "mod_max_rank"@, json_of_opt_number(v.mod_max_rank));
    let s2 = s1.push(("mod_max_rank"@, json_of_opt_number(v.mod_max_rank)));
    let j = json_of_item_info(v);
    assert(j->Object_0 =~= s2);
    assert(member(j, "id"@) == Some(JsonView::Text(v.id)));
    assert(member(j, "mod_max_rank"@) == Some(json_of_opt_number(v.mod_max_rank)));
}

/// Writing a sequence of records and reading it back gives the sequence.
pub proof fn lemma_item_info_list_round_trip(v: Seq<ItemInfoView>)
    ensures
        item_info_list_of_json(json_of_item_info_list(v)) == Some(v),
{
    let items = Seq::new(v.len(), |i: int| json_of_item_info(v[i]));
    assert forall|i: int| 0 <= i < items.len() implies item_info_of_json(#[trigger] items[i]) == Some(v[i]) by {
        lemma_item_info_round_trip(v[i]);
    }
    assert(all_item_info(items));
    assert(Seq::new(items.len(), |i: int| item_info_of_json(items[i]).unwrap()) =~= v);
}

/// An item with the members of its set.
#[derive(Debug, PartialEq)]
pub struct ItemDetails {
    pub id: String,
    pub items_in_set: Vec<ItemInfo>,
}

/// What an [`ItemDetails`] holds.
pub struct ItemDetailsView {
    pub id: Seq<char>,
    pub items_in_set: Seq<ItemInfoView>,
}

impl View for ItemDetails {
    type V = ItemDetailsView;

    open spec fn view(&self) -> ItemDetailsView {
        ItemDetailsView {
            id: self.id@,
            items_in_set: item_info_views(self.items_in_set@),
        }
    }
}

/// The record that a JSON object stands for, if it has the members of
/// an [`ItemDetails`] with their types. Members beyond those are passed over.
pub open spec fn item_details_of_json(j: JsonView) -> Option<ItemDetailsView> {
    if text_at(j, "id"@) is Some && item_info_list_at(j, "items_in_set"@) is Some {
        Some(
            ItemDetailsView {
                id: text_at(j, "id"@).unwrap(),
                items_in_set: item_info_list_at(j, "items_in_set"@).unwrap(),
            },
        )
    } else {
        None
    }
}

/// The record under `key`.
pub open spec fn item_details_at(j: JsonView, key: Seq<char>) -> Option<ItemDetailsView> {
    match member(j, key) {
        Some(v) => item_details_of_json(v),
        None => None,
    }
}

/// The JSON object that stands for the record: one member for each field,
/// null for an absent one.
pub open spec fn json_of_item_details(v: ItemDetailsView) -> JsonView {
    JsonView::Object(
        seq![
            ("id"@, JsonView::Text(v.id)),
            ("items_in_set"@, json_of_item_info_list(v.items_in_set)),
        ],
    )
}

impl ItemDetails {
    /// Reads the record from a JSON object. Fails with `SerdeError`, which
    /// holds the value's text, exactly where a member is missing or has
    /// another type.
    pub fn from_json(j: &Json) -> (r: Result<ItemDetails, GlobleError>)
        ensures
            match item_details_of_json(j@) {
                Some(v) => r matches Ok(x) && x@ == v,
                None => r matches Err(e) && e@ == shape_fault(j@),
            },
    {
        let id = match read_text(j, "id") {
            Some(v) => v,
            None => {
                return Err(decode_failure(j));
            },
        };
        let items_in_set = match ItemInfo::read_list(j, "items_in_set") {
            Some(v) => v,
            None => {
                return Err(decode_failure(j));
            },
        };
        Ok(ItemDetails { id, items_in_set })
    }

    /// Reads the record under `key`.
    pub fn read(j: &Json, key: &str) -> (r: Option<ItemDetails>)
        ensures
            match r {
                Some(x) => item_details_at(j@, key@) == Some(x@),
                None => item_details_at(j@, key@) is None,
            },
    {
        match j.get(key) {
            Some(v) => match ItemDetails::from_json(v) {
                Ok(x) => Some(x),
                Err(_) => None,
            },
            None => None,
        }
    }

    /// Writes the record as a JSON object.
    pub fn to_json(&self) -> (r: Json)
        ensures
            r@ == json_of_item_details(self@),
    {
        let mut entries: Vec<(String, Json)> = Vec::new();
        entries.push((String::from_str("id"), Json::Text(self.id.clone())));
        entries.push((String::from_str("items_in_set"), ItemInfo::list_to_json(&self.items_in_set)));
        let r = Json::Object(entries);
        proof {
            lemma_json_view(r);
            assert(entry_views(entries@) =~= json_of_item_details(self@)->Object_0);
        }
        r
    }

    /// A copy of the record.
    pub fn duplicate(&self) -> (r: ItemDetails)
        ensures
            r@ == self@,
    {
        ItemDetails {
            id: self.id.clone(),
            items_in_set: ItemInfo::duplicate_list(&self.items_in_set),
        }
    }
}

/// Writing a record and reading it back gives the record: every field
/// as it was, an absent one absent.
pub proof fn lemma_item_details_round_trip(v: ItemDetailsView)
    ensures
        item_details_of_json(json_of_item_details(v)) == Some(v),
{
    reveal_strlit("id");
    reveal_strlit("items_in_set");
    assert("id"@.len() == 2);
    assert("items_in_set"@.len() == 12);
    lemma_item_info_list_round_trip(v.items_in_set);
    let s0 = Seq::<(Seq<char>, JsonView)>::empty();
    lemma_entry_of_push(s0, "id"@, JsonView::Text(v.id));
    let s1 = s0.push(("id"@, JsonView::Text(v.id)));
    lemma_entry_of_push(s1, "items_in_set"@, json_of_item_info_list(v.items_in_set));
    let s2 = s1.push(("items_in_set"@, json_of_item_info_list(v.items_in_set)));
    let j = json_of_item_details(v);
    assert(j->Object_0 =~= s2);
    assert(member(j, "id"@) == Some(JsonView::Text(v.id)));
    assert(member(j, "items_in_set"@) == Some(json_of_item_info_list(v.items_in_set)));
}

/// The trader behind a listing.
#[derive(Debug, PartialEq)]
pub struct User {
    pub reputation: i64,
    pub ingame_name: String,
    pub id: String,
    pub status: String,
}

/// What an [`User`] holds.
pub struct UserView {
    pub reputation: i64,
    pub ingame_name: Seq<char>,
    pub id: Seq<char>,
    pub status: Seq<char>,
}

impl View for User {
    type V = UserView;

    open spec fn view(&self) -> UserView {
        UserView {
            reputation: self.reputation,
            ingame_name: self.ingame_name@,
            id: self.id@,
            status: self.status@,
        }
    }
}

/// The record that a JSON object stands for, if it has the members of
/// an [`User`] with their types. Members beyond those are passed over.
pub open spec fn user_of_json(j: JsonView) -> Option<UserView> {
    if int_at(j, "reputation"@) is Some && text_at(j, "ingame_name"@) is Some && text_at(j, "id"@) is Some && text_at(j, "status"@) is Some {
        Some(
            UserView {
                reputation: int_at(j, "reputation"@).unwrap(),
                ingame_name: text_at(j, "ingame_name"@).unwrap(),
                id: text_at(j, "id"@).unwrap(),
                status: text_at(j, "status"@).unwrap(),
            },
        )
    } else {
        None
    }
}

/// The record under `key`.
pub open spec fn user_at(j: JsonView, key: Seq<char>) -> Option<UserView> {
    match member(j, key) {
        Some(v) => user_of_json(v),
        None => None,
    }
}

impl User {
    /// Reads the record from a JSON object. Fails with `SerdeError`, which
    /// holds the value's text, exactly where a member is missing or has
    /// another type.
    pub fn from_json(j: &Json) -> (r: Result<User, GlobleError>)
        ensures
            match user_of_json(j@) {
                Some(v) => r matches Ok(x) && x@ == v,
                None => r matches Err(e) && e@ == shape_fault(j@),
            },
    {
        let reputation = match read_int(j, "reputation") {
            Some(v) => v,
            None => {
                return Err(decode_failure(j));
            },
        };
        let ingame_name = match read_text(j, "ingame_name") {
            Some(v) => v,
            None => {
                return Err(decode_failure(j));
            },
        };
        let id = match read_text(j, "id") {
            Some(v) => v,
            None => {
                return Err(decode_failure(j));
            },
        };
        let status = match read_text(j, "status") {
            Some(v) => v,
            None => {
                return Err(decode_failure(j));
            },
        };
        Ok(User { reputation, ingame_name, id, status })
    }

    /// Reads the record under `key`.
    pub fn read(j: &Json, key: &str) -> (r: Option<User>)
        ensures
            match r {
                Some(x) => user_at(j@, key@) == Some(x@),
                None => user_at(j@, key@) is None,
            },
    {
        match j.get(key) {
            Some(v) => match User::from_json(v) {
                Ok(x) => Some(x),
                Err(_) => None,
            },
            None => None,
        }
    }

    /// A copy of the record.
    pub fn duplicate(&self) -> (r: User)
        ensures
            r@ == self@,
    {
        User {
            reputation: self.reputation,
            ingame_name: self.ingame_name.clone(),
            id: self.id.clone(),
            status: self.status.clone(),
        }
    }
}

/// Another trader's listing of an item.
#[derive(Debug, PartialEq)]
pub struct OrderByItem {
    pub order_type: String,
    pub quantity: i64,
    pub platinum: i64,
    pub mod_rank: Option<i64>,
    pub user: User,
    pub platform: String,
    pub creation_date: String,
    pub last_update: String,
    pub visible: bool,
    pub id: String,
    pub region: String,
}

/// What an [`OrderByItem`] holds.
pub struct OrderByItemView {
    pub order_type: Seq<char>,
    pub quantity: i64,
    pub platinum: i64,
    pub mod_rank: Option<i64>,
    pub user: UserView,
    pub platform: Seq<char>,
    pub creation_date: Seq<char>,
    pub last_update: Seq<char>,
    pub visible: bool,
    pub id: Seq<char>,
    pub region: Seq<char>,
}

impl View for OrderByItem {
    type V = OrderByItemView;

    open spec fn view(&self) -> OrderByItemView {
        OrderByItemView {
            order_type: self.order_type@,
            quantity: self.quantity,
            platinum: self.platinum,
            mod_rank: self.mod_rank,
            user: self.user@,
            platform: self.platform@,
            creation_date: self.creation_date@,
            last_update: self.last_update@,
            visible: self.visible,
            id: self.id@,
            region: self.region@,
        }
    }
}

/// The record that a JSON object stands for, if it has the members of
/// an [`OrderByItem`] with their types. Members beyond those are passed over.
pub open spec fn order_by_item_of_json(j: JsonView) -> Option<OrderByItemView> {
    if text_at(j, "order_type"@) is Some && int_at(j, "quantity"@) is Some && int_at(j, "platinum"@) is Some && opt_int_at(j, "mod_rank"@) is Some && user_at(j, "user"@) is Some && text_at(j, "platform"@) is Some && text_at(j, "creation_date"@) is Some && text_at(j, "last_update"@) is Some && bool_at(j, "visible"@) is Some && text_at(j, "id"@) is Some && text_at(j, "region"@) is Some {
        Some(
            OrderByItemView {
                order_type: text_at(j, "order_type"@).unwrap(),
                quantity: int_at(j, "quantity"@).unwrap(),
                platinum: int_at(j, "platinum"@).unwrap(),
                mod_rank: opt_int_at(j, "mod_rank"@).unwrap(),
                user: user_at(j, "user"@).unwrap(),
                platform: text_at(j, "platform"@).unwrap(),
                creation_date: text_at(j, "creation_date"@).unwrap(),
                last_update: text_at(j, "last_update"@).unwrap(),
                visible: bool_at(j, "visible"@).unwrap(),
                id: text_at(j, "id"@).unwrap(),
                region: text_at(j, "region"@).unwrap(),
            },
        )
    } else {
        None
    }
}

/// The record under `key`.
pub open spec fn order_by_item_at(j: JsonView, key: Seq<char>) -> Option<OrderByItemView> {
    match member(j, key) {
        Some(v) => order_by_item_of_json(v),
        None => None,
    }
}

/// The views of a sequence of records.
pub open spec fn order_by_item_views(records: Seq<OrderByItem>) -> Seq<OrderByItemView> {
    Seq::new(records.len(), |i: int| records[i]@)
}

/// Whether every item stands for a record.
pub open spec fn all_order_by_item(items: Seq<JsonView>) -> bool {
    forall|i: int| 0 <= i < items.len() ==> order_by_item_of_json(#[trigger] items[i]) is Some
}

/// The records that a JSON list stands for, if each item stands for one.
pub open spec fn order_by_item_list_of_json(j: JsonView) -> Option<Seq<OrderByItemView>> {
    match j {
        JsonView::List(items) => if all_order_by_item(items) {
            Some(Seq::new(items.len(), |i: int| order_by_item_of_json(items[i]).unwrap()))
        } else {
            None
        },
        _ => None,
    }
}

/// The records under `key`.
pub open spec fn order_by_item_list_at(j: JsonView, key: Seq<char>) -> Option<Seq<OrderByItemView>> {
    match member(j, key) {
        Some(v) => order_by_item_list_of_json(v),
        None => None,
    }
}

impl OrderByItem {
    /// Reads the record from a JSON object. Fails with `SerdeError`, which
    /// holds the value's text, exactly where a member is missing or has
    /// another type.
    pub fn from_json(j: &Json) -> (r: Result<OrderByItem, GlobleError>)
        ensures
            match order_by_item_of_json(j@) {
                Some(v) => r matches Ok(x) && x@ == v,
                None => r matches Err(e) && e@ == shape_fault(j@),
            },
    {
        let order_type = match read_text(j, "order_type") {
            Some(v) => v,
            None => {
                return Err(decode_failure(j));
            },
        };
        let quantity = match read_int(j, "quantity") {
            Some(v) => v,
            None => {
                return Err(decode_failure(j));
            },
        };
        let platinum = match read_int(j, "platinum") {
            Some(v) => v,
            None => {
                return Err(decode_failure(j));
            },
        };
        let mod_rank = match read_opt_int(j, "mod_rank") {
            Some(v) => v,
            None => {
                return Err(decode_failure(j));
            },
        };
        let user = match User::read(j, "user") {
            Some(v) => v,
            None => {
                return Err(decode_failure(j));
            },
        };
        let platform = match read_text(j, "platform") {
            Some(v) => v,
            None => {
                return Err(decode_failure(j));
            },
        };
        let creation_date = match read_text(j, "creation_date") {
            Some(v) => v,
            None => {
                return Err(decode_failure(j));
            },
        };
        let last_update = match read_text(j, "last_update") {
            Some(v) => v,
            None => {
                return Err(decode_failure(j));
            },
        };
        let visible = match read_bool(j, "visible") {
            Some(v) => v,
            None => {
                return Err(decode_failure(j));
            },
        };
        let id = match read_text(j, "id") {
            Some(v) => v,
            None => {
                return Err(decode_failure(j));
            },
        };
        let region = match read_text(j, "region") {
            Some(v) => v,
            None => {
                return Err(decode_failure(j));
            },
        };
        Ok(OrderByItem { order_type, quantity, platinum, mod_rank, user, platform, creation_date, last_update, visible, id, region })
    }

    /// Reads the record under `key`.
    pub fn read(j: &Json, key: &str) -> (r: Option<OrderByItem>)
        ensures
            match r {
                Some(x) => order_by_item_at(j@, key@) == Some(x@),
                None => order_by_item_at(j@, key@) is None,
            },
    {
        match j.get(key) {
            Some(v) => match OrderByItem::from_json(v) {
                Ok(x) => Some(x),
                Err(_) => None,
            },
            None => None,
        }
    }

    /// Reads a list of records. Fails with `SerdeError`, which holds the
    /// value's text, exactly where the value is no list or an item is no
    /// record.
    pub fn list_from_json(j: &Json) -> (r: Result<Vec<OrderByItem>, GlobleError>)
        ensures
            match order_by_item_list_of_json(j@) {
                Some(v) => r matches Ok(x) && order_by_item_views(x@) == v,
                None => r matches Err(e) && e@ == shape_fault(j@),
            },
    {
        match j {
            Json::List(items) => {
                proof {
                    lemma_json_view(*j);
                }
                let ghost views = list_views(items@);
                let mut out: Vec<OrderByItem> = Vec::new();
                let mut i: usize = 0;
                while i < items.len()
                    invariant
                        i <= items.len(),
                        views == list_views(items@),
                        j@ == JsonView::List(views),
                        out@.len() == i,
                        forall|k: int| 0 <= k < i ==> order_by_item_of_json(#[trigger] views[k]) == Some(out@[k]@),
                    decreases items.len() - i,
                {
                    match OrderByItem::from_json(&items[i]) {
                        Ok(x) => out.push(x),
                        Err(_) => {
                            assert(order_by_item_of_json(views[i as int]) is None);
                            return Err(decode_failure(j));
                        },
                    }
                    i += 1;
                }
                proof {
                    assert(all_order_by_item(views));
                    assert(order_by_item_list_of_json(j@).unwrap() =~= order_by_item_views(out@));
                }
                Ok(out)
            },
            _ => Err(decode_failure(j)),
        }
    }

    /// Reads the list of records under `key`.
    pub fn read_list(j: &Json, key: &str) -> (r: Option<Vec<OrderByItem>>)
        ensures
            match r {
                Some(x) => order_by_item_list_at(j@, key@) == Some(order_by_item_views(x@)),
                None => order_by_item_list_at(j@, key@) is None,
            },
    {
        match j.get(key) {
            Some(v) => match OrderByItem::list_from_json(v) {
                Ok(x) => Some(x),
                Err(_) => None,
            },
            None => None,
        }
    }

    /// A copy of a sequence of records.
    pub fn duplicate_list(records: &Vec<OrderByItem>) -> (r: Vec<OrderByItem>)
        ensures
            order_by_item_views(r@) == order_by_item_views(records@),
    {
        let mut out: Vec<OrderByItem> = Vec::new();
        let mut i: usize = 0;
        while i < records.len()
            invariant
                i <= records.len(),
                out@.len() == i,
                forall|k: int| 0 <= k < i ==> (#[trigger] out@[k])@ == records@[k]@,
            decreases records.len() - i,
        {
            out.push(records[i].duplicate());
            i += 1;
        }
        assert(order_by_item_views(out@) =~= order_by_item_views(records@));
        out
    }

    /// A copy of the record.
    pub fn duplicate(&self) -> (r: OrderByItem)
        ensures
            r@ == self@,
    {
        OrderByItem {
            order_type: self.order_type.clone(),
            quantity: self.quantity,
            platinum: self.platinum,
            mod_rank: self.mod_rank,
            user: self.user.duplicate(),
            platform: self.platform.clone(),
            creation_date: self.creation_date.clone(),
            last_update: self.last_update.clone(),
            visible: self.visible,
            id: self.id.clone(),
            region: self.region.clone(),
        }
    }
}

/// A trade that was made, as the local ledger records it.
#[derive(Debug, PartialEq)]
pub struct Transaction {
    pub id: i64,
    pub item_name: String,
    pub item_id: String,
    pub item_url: String,
    pub item_type: String,
    pub rank: i64,
    pub price: i64,
    pub datetime: String,
    pub transaction_type: String,
    pub quantity: i64,
}

} // verus!
