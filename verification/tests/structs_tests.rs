use quantframe::auth::AuthState;
use quantframe::error::GlobleError;
use quantframe::json::Json;
use quantframe::wire::Number;
use quantframe::structs::{
    Item, ItemDetails, ItemInfo, Order, OrderByItem, OrderItem, OrderItemTranslation, Ordres, Transaction, User,
};

fn text(s: &str) -> String {
    s.to_string()
}

fn sample_item() -> OrderItem {
    OrderItem {
        id: text("54e644ffe779897594fa68d2"),
        url_name: text("lex_prime_set"),
        icon: text("items/images/en/lex_prime_set.png"),
        icon_format: text("land"),
        thumb: text("items/images/en/thumbs/lex_prime_set.128x128.png"),
        sub_icon: None,
        mod_max_rank: Some(5),
        subtypes: None,
        tags: vec![text("prime"), text("set")],
        ducats: None,
        quantity_for_set: Some(1),
        en: OrderItemTranslation { item_name: text("Lex Prime Set") },
    }
}

fn sample_order() -> Order {
    Order {
        id: text("5f1b2c3d4e5f6a7b8c9d0e1f"),
        platinum: 45,
        visible: true,
        last_update: text("2023-08-01T10:00:00.000+00:00"),
        region: text("en"),
        platform: text("pc"),
        creation_date: text("2023-07-30T09:30:00.000+00:00"),
        order_type: text("sell"),
        quantity: 2,
        item: sample_item(),
    }
}

const ORDER_TEXT: &str = r#"{
    "id": "5f1b2c3d4e5f6a7b8c9d0e1f",
    "platinum": 45,
    "visible": true,
    "last_update": "2023-08-01T10:00:00.000+00:00",
    "region": "en",
    "platform": "pc",
    "creation_date": "2023-07-30T09:30:00.000+00:00",
    "order_type": "sell",
    "quantity": 2,
    "item": {
        "id": "54e644ffe779897594fa68d2",
        "url_name": "lex_prime_set",
        "icon": "items/images/en/lex_prime_set.png",
        "icon_format": "land",
        "thumb": "items/images/en/thumbs/lex_prime_set.128x128.png",
        "sub_icon": null,
        "mod_max_rank": 5,
        "tags": ["prime", "set"],
        "quantity_for_set": 1,
        "en": {"item_name": "Lex Prime Set", "wiki": "ignored"}
    }
}"#;

#[test]
fn order_survives_writing_and_reading() {
    let order = sample_order();
    assert_eq!(Order::from_json(&order.to_json()), Ok(sample_order()));
    let bare = Order {
        item: OrderItem {
            sub_icon: None,
            mod_max_rank: None,
            subtypes: None,
            tags: vec![],
            ducats: None,
            quantity_for_set: None,
            ..sample_item()
        },
        ..sample_order()
    };
    let read = Order::from_json(&bare.to_json()).unwrap();
    assert_eq!(read.item.sub_icon, None);
    assert_eq!(read.item.mod_max_rank, None);
    assert_eq!(read.item.subtypes, None);
    assert_eq!(read.item.ducats, None);
    assert_eq!(read.item.quantity_for_set, None);
    assert_eq!(read, bare);
    let full = Order {
        item: OrderItem {
            sub_icon: Some(text("sub.png")),
            subtypes: Some(vec![text("intact"), text("radiant")]),
            ducats: Some(100),
            ..sample_item()
        },
        ..sample_order()
    };
    assert_eq!(Order::from_json(&full.to_json()), Ok(full.duplicate()));
}

#[test]
fn order_survives_the_text_form_too() {
    let order = sample_order();
    let sent = order.to_json().to_text();
    assert_eq!(Order::from_json(&Json::parse(&sent).unwrap()), Ok(order));
}

#[test]
fn order_is_written_member_by_member() {
    let written = sample_order().to_json();
    assert_eq!(written.get("platinum"), Some(&Json::Int(45)));
    assert_eq!(written.get("visible"), Some(&Json::Bool(true)));
    assert_eq!(written.get("order_type"), Some(&Json::Text(text("sell"))));
    let item = written.get("item").unwrap();
    assert_eq!(item.get("sub_icon"), Some(&Json::Null));
    assert_eq!(item.get("mod_max_rank"), Some(&Json::Int(5)));
    assert_eq!(item.get("tags"), Some(&Json::List(vec![Json::Text(text("prime")), Json::Text(text("set"))])));
    assert_eq!(item.get("en").unwrap().get("item_name"), Some(&Json::Text(text("Lex Prime Set"))));
}

#[test]
fn order_is_read_from_what_the_service_sends() {
    let sent = Json::parse(ORDER_TEXT).unwrap();
    assert_eq!(Order::from_json(&sent), Ok(sample_order()));
}

#[test]
fn order_without_a_member_is_a_shape_fault() {
    let sent = Json::parse(r#"{"id": "x", "platinum": 1}"#).unwrap();
    assert_eq!(
        Order::from_json(&sent),
        Err(GlobleError::SerdeError(text(r#"{"id":"x","platinum":1}"#), 0, 0)),
    );
}

#[test]
fn order_with_a_member_of_another_type_is_a_shape_fault() {
    let good = Json::parse(ORDER_TEXT).unwrap();
    let entries = match good {
        Json::Object(entries) => entries,
        other => panic!("no object: {:?}", other),
    };
    let mut wrong = entries;
    wrong.push((text("platinum"), Json::Text(text("45"))));
    let sent = Json::Object(wrong);
    assert!(matches!(Order::from_json(&sent), Err(GlobleError::SerdeError(_, 0, 0))));
    let mut real = match Json::parse(ORDER_TEXT).unwrap() {
        Json::Object(entries) => entries,
        other => panic!("no object: {:?}", other),
    };
    real.push((text("quantity"), Json::Real(text("2.5"))));
    assert!(matches!(Order::from_json(&Json::Object(real)), Err(GlobleError::SerdeError(_, 0, 0))));
    assert!(matches!(Order::from_json(&Json::Null), Err(GlobleError::SerdeError(raw, 0, 0)) if raw == "null"));
}

#[test]
fn a_member_that_must_be_there_may_not_be_null() {
    let sent = Json::parse(r#"{"item_name": null}"#).unwrap();
    assert!(OrderItemTranslation::from_json(&sent).is_err());
    let sent = Json::parse(r#"{"item_name": "Lex"}"#).unwrap();
    assert_eq!(OrderItemTranslation::from_json(&sent), Ok(OrderItemTranslation { item_name: text("Lex") }));
}

#[test]
fn item_reads_optional_members() {
    let sent = Json::parse(
        r#"{"item_name": "Lex Prime Set", "id": "1", "url_name": "lex_prime_set", "thumb": "t.png",
            "tags": ["prime"], "mod_max_rank": null}"#,
    ).unwrap();
    assert_eq!(
        Item::from_json(&sent),
        Ok(
            Item {
                item_name: text("Lex Prime Set"),
                id: text("1"),
                url_name: text("lex_prime_set"),
                thumb: text("t.png"),
                set_items: None,
                tags: Some(vec![text("prime")]),
                mod_max_rank: None,
                subtypes: None,
            },
        ),
    );
    let wrong = Json::parse(
        r#"{"item_name": "L", "id": "1", "url_name": "l", "thumb": "t", "tags": ["prime", 3]}"#,
    ).unwrap();
    assert!(Item::from_json(&wrong).is_err());
}

#[test]
fn lists_of_records_are_read_item_by_item() {
    let sent = Json::parse(r#"[{"id": "a", "mod_max_rank": 3}, {"id": "b"}, {"id": "c", "mod_max_rank": 5.0}]"#)
        .unwrap();
    let read = ItemInfo::list_from_json(&sent).unwrap();
    assert_eq!(
        read,
        vec![
            ItemInfo { id: text("a"), mod_max_rank: Some(Number::Int(3)) },
            ItemInfo { id: text("b"), mod_max_rank: None },
            ItemInfo { id: text("c"), mod_max_rank: Some(Number::Real(text("5.0"))) },
        ],
    );
    assert_eq!(ItemInfo::list_from_json(&ItemInfo::list_to_json(&read)), Ok(read));
    let wrong = Json::parse(r#"[{"id": "a", "mod_max_rank": "3"}]"#).unwrap();
    assert!(ItemInfo::list_from_json(&wrong).is_err());
    assert_eq!(ItemInfo::list_from_json(&Json::List(vec![])), Ok(vec![]));
    let wrong = Json::parse(r#"[{"id": "a"}, {"mod_max_rank": 3}]"#).unwrap();
    assert_eq!(
        ItemInfo::list_from_json(&wrong),
        Err(GlobleError::SerdeError(text(r#"[{"id":"a"},{"mod_max_rank":3}]"#), 0, 0)),
    );
    assert!(ItemInfo::list_from_json(&Json::Object(vec![])).is_err());
}

#[test]
fn item_details_hold_the_set() {
    let sent = Json::parse(r#"{"id": "set", "items_in_set": [{"id": "a", "mod_max_rank": 3}]}"#).unwrap();
    assert_eq!(
        ItemDetails::from_json(&sent),
        Ok(
            ItemDetails {
                id: text("set"),
                items_in_set: vec![ItemInfo { id: text("a"), mod_max_rank: Some(Number::Int(3)) }],
            },
        ),
    );
}

#[test]
fn listings_of_a_trader_are_read_as_two_lists() {
    let sent = Json::parse(&format!(r#"{{"sell_orders": [{}], "buy_orders": []}}"#, ORDER_TEXT)).unwrap();
    assert_eq!(Ordres::from_json(&sent), Ok(Ordres { sell_orders: vec![sample_order()], buy_orders: vec![] }));
    let half = Json::parse(r#"{"sell_orders": []}"#).unwrap();
    assert!(Ordres::from_json(&half).is_err());
}

#[test]
fn listing_of_another_trader_is_read() {
    let sent = Json::parse(
        r#"{"order_type": "sell", "quantity": 1, "platinum": 12, "mod_rank": 3,
            "user": {"reputation": 5, "ingame_name": "Tenno", "id": "u1", "status": "ingame", "region": "en"},
            "platform": "pc", "creation_date": "c", "last_update": "l", "visible": true, "id": "o1",
            "region": "en"}"#,
    ).unwrap();
    assert_eq!(
        OrderByItem::from_json(&sent),
        Ok(
            OrderByItem {
                order_type: text("sell"),
                quantity: 1,
                platinum: 12,
                mod_rank: Some(3),
                user: User { reputation: 5, ingame_name: text("Tenno"), id: text("u1"), status: text("ingame") },
                platform: text("pc"),
                creation_date: text("c"),
                last_update: text("l"),
                visible: true,
                id: text("o1"),
                region: text("en"),
            },
        ),
    );
}

#[test]
fn copies_of_records_equal_them() {
    let order = sample_order();
    assert_eq!(order.duplicate(), order);
    let listed = Ordres { sell_orders: vec![sample_order()], buy_orders: vec![sample_order(), sample_order()] };
    assert_eq!(listed.duplicate(), listed);
}

#[test]
fn transaction_holds_a_trade() {
    let trade = Transaction {
        id: 1,
        item_name: text("Lex Prime Set"),
        item_id: text("1"),
        item_url: text("lex_prime_set"),
        item_type: text("set"),
        rank: 0,
        price: 45,
        datetime: text("2023-08-01"),
        transaction_type: text("sell"),
        quantity: 1,
    };
    assert_eq!(trade.price, 45);
}

#[test]
fn credentials_survive_writing_and_reading() {
    let auth = AuthState {
        banned: false,
        id: text("u1"),
        access_token: Some(text("abc.def")),
        avatar: text("a.png"),
        ingame_name: text("Tenno"),
        locale: text("en"),
        platform: text("pc"),
        region: text("en"),
        role: text("user"),
    };
    assert_eq!(AuthState::from_json(&auth.to_json()), Ok(auth.duplicate()));
    assert_eq!(AuthState::read_from_text(&auth.save_text()), Ok(auth.duplicate()));
    let signed_out = AuthState { access_token: None, ..auth };
    assert_eq!(AuthState::read_from_text(&signed_out.save_text()), Ok(signed_out));
}

#[test]
fn credentials_before_signing_in_are_empty() {
    let auth = AuthState::default();
    assert_eq!(auth.access_token, None);
    assert!(!auth.banned);
    assert_eq!(auth.id, "");
    assert_eq!(auth.ingame_name, "");
    assert_eq!(auth.avatar, "");
}

#[test]
fn start_up_without_a_stored_record_takes_the_empty_one_and_stores_it() {
    let setup = AuthState::setup(None).unwrap();
    assert_eq!(setup.auth, AuthState::default());
    let stored = setup.to_store.unwrap();
    assert!(stored.starts_with("{\n  \"access_token\": null,\n  \"avatar\": \"\","));
    assert_eq!(AuthState::read_from_text(&stored), Ok(AuthState::default()));
}

#[test]
fn start_up_reads_the_stored_record() {
    let stored = r#"{"banned": true, "id": "u1", "access_token": "tok", "avatar": "a.png", "ingame_name": "Tenno",
        "locale": "en", "platform": "pc", "region": "en", "role": "user"}"#;
    let setup = AuthState::setup(Some(text(stored))).unwrap();
    assert_eq!(setup.to_store, None);
    assert!(setup.auth.banned);
    assert_eq!(setup.auth.access_token, Some(text("tok")));
    assert_eq!(setup.auth.ingame_name, "Tenno");
}

#[test]
fn start_up_with_a_record_that_cannot_be_read_fails() {
    let broken = AuthState::setup(Some(text("{")));
    assert_eq!(broken, Err(GlobleError::IoError(text("the stored credential record cannot be read"))));
    let partial = AuthState::setup(Some(text(r#"{"banned": false}"#)));
    assert_eq!(partial, Err(GlobleError::IoError(text("the stored credential record cannot be read"))));
}
