use quantframe::auth::AuthState;
use quantframe::error::GlobleError;
use quantframe::json::Json;
use quantframe::pipeline::{Action, Event, Exchange, Method, Outgoing, Reply};
use quantframe::structs::{Order, OrderByItem, OrderItem, OrderItemTranslation, Ordres, User};
use quantframe::table::{Cell, Column, Table};
use quantframe::wire::Number;
use quantframe::wfm_client::{
    competing_frame, orders_frame, token_of_cookie, Finished, Level, LogRecord, WFMClientState,
};

fn text(s: &str) -> String {
    s.to_string()
}

fn texts(items: &[&str]) -> Vec<String> {
    items.iter().map(|s| s.to_string()).collect()
}

fn trader(token: Option<&str>) -> AuthState {
    AuthState {
        banned: false,
        id: text("u1"),
        access_token: token.map(text),
        avatar: text("user/avatar/u1.png"),
        ingame_name: text("Tenno"),
        locale: text("en"),
        platform: text("pc"),
        region: text("en"),
        role: text("user"),
    }
}

fn client() -> WFMClientState {
    WFMClientState::new(trader(Some("tok")))
}

fn sent(begun: (Exchange, Action)) -> Outgoing {
    let (exchange, first) = begun;
    assert_eq!(first, Action::Sleep(1000));
    match exchange.step(Event::Slept).1 {
        Action::Send(outgoing) => outgoing,
        other => panic!("nothing sent: {:?}", other),
    }
}

fn reply(payload: &str) -> Result<Reply, GlobleError> {
    Ok(Reply { payload: Json::parse(payload).unwrap(), headers: vec![] })
}

fn reply_with_cookie(payload: Json, cookie: &str) -> Result<Reply, GlobleError> {
    Ok(Reply { payload, headers: vec![(text("date"), text("today")), (text("set-cookie"), text(cookie))] })
}

fn info(scope: &str, message: &str, file: Option<&str>) -> Option<LogRecord> {
    Some(LogRecord { level: Level::Info, scope: text(scope), message: text(message), persist: true, file: file.map(text) })
}

fn error(scope: &str, message: &str, file: Option<&str>) -> Option<LogRecord> {
    Some(LogRecord { level: Level::Error, scope: text(scope), message: text(message), persist: true, file: file.map(text) })
}

fn listing(id: &str, url_name: &str, order_type: &str, platinum: i64) -> Order {
    Order {
        id: text(id),
        platinum,
        visible: true,
        last_update: text("2023-08-01"),
        region: text("en"),
        platform: text("pc"),
        creation_date: text("2023-07-30"),
        order_type: text(order_type),
        quantity: 1,
        item: OrderItem {
            id: text("i1"),
            url_name: text(url_name),
            icon: text("icon.png"),
            icon_format: text("land"),
            thumb: text("thumb.png"),
            sub_icon: None,
            mod_max_rank: None,
            subtypes: None,
            tags: vec![],
            ducats: None,
            quantity_for_set: None,
            en: OrderItemTranslation { item_name: text("Item") },
        },
    }
}

fn competitor(name: &str, status: &str, rank: Option<i64>, platinum: i64) -> OrderByItem {
    OrderByItem {
        order_type: text("sell"),
        quantity: 1,
        platinum,
        mod_rank: rank,
        user: User { reputation: 0, ingame_name: text(name), id: text("u"), status: text(status) },
        platform: text("pc"),
        creation_date: text("c"),
        last_update: text("l"),
        visible: true,
        id: text("o"),
        region: text("en"),
    }
}

fn competitor_text(name: &str, status: &str, rank: &str, platinum: i64) -> String {
    format!(
        r#"{{"order_type": "sell", "quantity": 1, "platinum": {}, "mod_rank": {},
            "user": {{"reputation": 0, "ingame_name": "{}", "id": "u", "status": "{}"}},
            "platform": "pc", "creation_date": "c", "last_update": "l", "visible": true, "id": "o",
            "region": "en"}}"#,
        platinum, rank, name, status,
    )
}

#[test]
fn requests_go_to_the_service_with_the_token() {
    let outgoing = sent(client().send_request(Method::Get, "items", Some("items"), None));
    assert_eq!(
        outgoing,
        Outgoing {
            method: Method::Get,
            url: text("https://api.warframe.market/v1/items"),
            authorization: text("JWT tok"),
            language: text("en"),
            body: None,
        },
    );
}

#[test]
fn requests_without_a_token_carry_an_empty_one() {
    let signed_out = WFMClientState::new(AuthState::default());
    let outgoing = sent(signed_out.get("items", None));
    assert_eq!(outgoing.authorization, "JWT ");
    assert_eq!(signed_out.credentials(), &AuthState::default());
}

#[test]
fn each_verb_is_sent_as_itself() {
    let body = Json::Object(vec![(text("a"), Json::Int(1))]);
    assert_eq!(sent(client().get("x", None)).method, Method::Get);
    assert_eq!(sent(client().delete("x", None)).method, Method::Delete);
    let posted = sent(client().post("x", None, body.duplicate()));
    assert_eq!(posted.method, Method::Post);
    assert_eq!(posted.body, Some(text(r#"{"a":1}"#)));
    let put = sent(client().put("x", None, Some(body)));
    assert_eq!(put.method, Method::Put);
    assert_eq!(put.body, Some(text(r#"{"a":1}"#)));
    assert_eq!(sent(client().put("x", None, None)).body, None);
}

#[test]
fn signing_in_posts_the_address_and_the_password() {
    let outgoing = sent(client().login_request(text("me@example.com"), text("secret")));
    assert_eq!(outgoing.method, Method::Post);
    assert_eq!(outgoing.url, "https://api.warframe.market/v1//auth/signin");
    assert_eq!(outgoing.body, Some(text(r#"{"email":"me@example.com","password":"secret"}"#)));
}

#[test]
fn signing_in_with_a_cookie_yields_its_token() {
    let sent_by_service = AuthState { access_token: None, ..trader(None) };
    let outcome = reply_with_cookie(sent_by_service.to_json(), "JWT=abc.def.ghi; Domain=.warframe.market; Path=/");
    let auth = client().login(outcome).unwrap();
    assert_eq!(auth.access_token, Some(text("abc.def.ghi")));
    assert_eq!(auth.avatar, "https://warframe.market/static/assets/user/avatar/u1.png");
    assert_eq!(auth, AuthState {
        access_token: Some(text("abc.def.ghi")),
        avatar: text("https://warframe.market/static/assets/user/avatar/u1.png"),
        ..trader(None)
    });
}

#[test]
fn signing_in_without_a_cookie_leaves_the_token_unset() {
    let outcome = Ok(Reply { payload: trader(Some("old")).to_json(), headers: vec![(text("date"), text("today"))] });
    let auth = client().login(outcome).unwrap();
    assert_eq!(auth.access_token, None);
    assert_eq!(auth.avatar, "https://warframe.market/static/assets/user/avatar/u1.png");
    assert_eq!(auth.ingame_name, "Tenno");
}

#[test]
fn signing_in_passes_the_failure_of_the_exchange_on() {
    let refused = GlobleError::HttpError(401, text("URL: u, Body: {}"), text("bad credentials"));
    assert_eq!(client().login(Err(refused.duplicate())), Err(refused));
    assert_eq!(client().login(reply(r#"{"id": 1}"#)), Err(GlobleError::SerdeError(text(r#"{"id":1}"#), 0, 0)));
}

#[test]
fn the_token_follows_the_first_four_characters_up_to_the_semicolon() {
    assert_eq!(token_of_cookie("JWT=abc; Path=/"), "abc");
    assert_eq!(token_of_cookie("JWT=abc"), "abc");
    assert_eq!(token_of_cookie("JWT=;x"), "");
    assert_eq!(token_of_cookie("JWT="), "");
    assert_eq!(token_of_cookie("JW"), "");
    assert_eq!(token_of_cookie(""), "");
    assert_eq!(token_of_cookie(";;;;a;b"), "a");
    assert_eq!(token_of_cookie("äöü=é;x"), "é");
}

#[test]
fn the_catalogue_is_asked_for_and_read() {
    let outgoing = sent(client().get_tradable_items_request());
    assert_eq!(outgoing.url, "https://api.warframe.market/v1/items");
    let items = client().get_tradable_items(
        reply(r#"[{"item_name": "Lex", "id": "1", "url_name": "lex", "thumb": "t"}]"#),
    ).unwrap();
    assert_eq!(items.len(), 1);
    assert_eq!(items[0].url_name, "lex");
    assert!(client().get_tradable_items(reply(r#"{"items": []}"#)).is_err());
    let failure = GlobleError::ReqwestError(text("down"));
    assert_eq!(client().get_tradable_items(Err(failure.duplicate())), Err(failure));
}

#[test]
fn an_item_is_asked_for_read_and_logged() {
    let outgoing = sent(client().get_item_request("lex_prime_set"));
    assert_eq!(outgoing.url, "https://api.warframe.market/v1/items/lex_prime_set");
    let found = client().get_item(
        "lex_prime_set",
        reply(r#"{"id": "s", "items_in_set": [{"id": "a"}, {"id": "b", "mod_max_rank": 3}], "more": 1}"#),
    );
    assert_eq!(found.result.unwrap().items_in_set.len(), 2);
    assert_eq!(
        found.log,
        info(
            "WarframeMarket:GetItem",
            r#"For Item: {"id":"s","items_in_set":[{"id":"a","mod_max_rank":null},{"id":"b","mod_max_rank":3}]}"#,
            Some("wfmAPICalls.log"),
        ),
    );
    let failed = client().get_item("lex_prime_set", Err(GlobleError::TooManyRequests(text("Too Many Requests"))));
    assert_eq!(failed.result, Err(GlobleError::TooManyRequests(text("Too Many Requests"))));
    assert_eq!(
        failed.log,
        error(
            "WarframeMarket:GetItem",
            "Item: lex_prime_set, Error: TooManyRequests: Too Many Requests",
            Some("wfmAPICalls.log"),
        ),
    );
    let odd = client().get_item("lex", reply("[]"));
    assert_eq!(odd.result, Err(GlobleError::SerdeError(text("[]"), 0, 0)));
    assert_eq!(
        odd.log,
        error("WarframeMarket:GetItem", "Item: lex, Error: SerdeError: [], line 0, column 0", Some("wfmAPICalls.log")),
    );
}

#[test]
fn own_listings_need_a_name() {
    let nameless = WFMClientState::new(AuthState { ingame_name: text(""), ..trader(Some("tok")) });
    assert_eq!(
        nameless.get_user_ordres_request().map(|_| ()),
        Err(GlobleError::OtherError(text("the credentials hold no name"))),
    );
    let outgoing = sent(client().get_user_ordres_request().unwrap());
    assert_eq!(outgoing.url, "https://api.warframe.market/v1/profile/Tenno/orders");
    assert_eq!(outgoing.method, Method::Get);
}

#[test]
fn own_listings_are_read_and_logged() {
    let fetched = client().get_user_ordres(reply(r#"{"sell_orders": [], "buy_orders": []}"#));
    assert_eq!(fetched.result, Ok(Ordres { sell_orders: vec![], buy_orders: vec![] }));
    assert_eq!(fetched.log, info("WarframeMarket:GetUserOrdres", "From User: Tenno", Some("wfmAPICalls.log")));
    let failed = client().get_user_ordres(Err(GlobleError::ReqwestError(text("down"))));
    assert_eq!(failed.result, Err(GlobleError::ReqwestError(text("down"))));
    assert_eq!(failed.log, error("WarframeMarket:GetUserOrdres", "User: Tenno, Error: ReqwestError: down", None));
}

#[test]
fn own_listings_become_two_tables() {
    let listed = Ordres {
        sell_orders: vec![listing("s1", "lex_prime_set", "sell", 45)],
        buy_orders: vec![listing("b1", "braton_prime_set", "buy", 10), listing("b2", "paris_prime_set", "buy", 20)],
    };
    let (buy, sell) = client().get_ordres_data_frames(Ok(listed)).unwrap();
    assert_eq!(
        buy.get_column_names(),
        texts(&["id", "visible", "url_name", "platinum", "platform", "quantity", "last_update", "creation_date"]),
    );
    assert_eq!(buy.height(), 2);
    assert_eq!(sell.height(), 1);
    assert_eq!(
        sell,
        Table::new(
            vec![
                Column::from_strings("id", texts(&["s1"])),
                Column::from_bools("visible", vec![true]),
                Column::from_strings("url_name", texts(&["lex_prime_set"])),
                Column::from_i64s("platinum", vec![45]),
                Column::from_strings("platform", texts(&["pc"])),
                Column::from_i64s("quantity", vec![1]),
                Column::from_strings("last_update", texts(&["2023-08-01"])),
                Column::from_strings("creation_date", texts(&["2023-07-30"])),
            ],
        ).unwrap(),
    );
    assert_eq!(buy.column("platinum").unwrap().cell(1), Some(Cell::I64(20)));
    let failure = GlobleError::OtherError(text("the credentials hold no name"));
    assert_eq!(client().get_ordres_data_frames(Err(failure.duplicate())), Err(failure));
}

#[test]
fn no_listings_become_tables_without_rows() {
    let table = orders_frame(&vec![]);
    assert_eq!(table.width(), 8);
    assert_eq!(table.height(), 0);
}

#[test]
fn a_single_listing_becomes_a_table_of_one_row() {
    let table = client().convet_order_to_datafream(listing("s1", "lex_prime_set", "sell", 45)).unwrap();
    assert_eq!(table, orders_frame(&vec![listing("s1", "lex_prime_set", "sell", 45)]));
    assert_eq!(table.height(), 1);
    assert_eq!(table.column("url_name").unwrap().cell(0), Some(Cell::String(text("lex_prime_set"))));
}

#[test]
fn a_listing_is_made_with_the_rank_only_where_one_is_given() {
    let plain = sent(client().post_ordre_request("i1", "sell", 45, 2, true, None));
    assert_eq!(plain.method, Method::Post);
    assert_eq!(plain.url, "https://api.warframe.market/v1/profile/orders");
    assert_eq!(
        plain.body,
        Some(text(r#"{"item":"i1","order_type":"sell","platinum":45,"quantity":2,"visible":true}"#)),
    );
    let ranked = sent(client().post_ordre_request("i1", "buy", 1, 1, false, Some(Number::Int(3))));
    assert_eq!(
        ranked.body,
        Some(text(r#"{"item":"i1","order_type":"buy","platinum":1,"quantity":1,"rank":3,"visible":false}"#)),
    );
    let real = sent(client().post_ordre_request("i1", "buy", 1, 1, false, Some(Number::Real(text("3.0")))));
    assert_eq!(
        real.body,
        Some(text(r#"{"item":"i1","order_type":"buy","platinum":1,"quantity":1,"rank":3.0,"visible":false}"#)),
    );
}

#[test]
fn a_made_listing_is_read_and_logged() {
    let made = listing("o1", "lex_prime_set", "sell", 45);
    let outcome = Ok(Reply { payload: made.to_json(), headers: vec![] });
    let finished = client().post_ordre("Lex Prime Set", "i1", "sell", 45, -2, true, outcome);
    assert_eq!(finished.result, Ok(made));
    assert_eq!(
        finished.log,
        info(
            "WarframeMarket:PostOrder",
            "Created Order: sell, Item Name: Lex Prime Set, Item Id: i1,  Platinum: 45, Quantity: -2, Visible: true",
            Some("wfmAPICalls.log"),
        ),
    );
    let failed = client().post_ordre(
        "Lex Prime Set",
        "i1",
        "sell",
        45,
        2,
        true,
        Err(GlobleError::HttpError(400, text("URL: u, Body: {}"), text("bad"))),
    );
    assert_eq!(
        failed,
        Finished {
            result: Err(GlobleError::HttpError(400, text("URL: u, Body: {}"), text("bad"))),
            log: error(
                "WarframeMarket:PostOrder",
                "HttpError: status 400, URL: u, Body: {}, Response: bad",
                Some("wfmAPICalls.log"),
            ),
        },
    );
}

#[test]
fn a_listing_is_removed_by_its_id() {
    let outgoing = sent(client().delete_order_request("o1"));
    assert_eq!(outgoing.method, Method::Delete);
    assert_eq!(outgoing.url, "https://api.warframe.market/v1/profile/orders/o1");
    let finished = client().delete_order("Lex Prime Set", "i1", "sell", reply(r#""o1""#));
    assert_eq!(finished.result, Ok(text("o1")));
    assert_eq!(
        finished.log,
        info(
            "WarframeMarket:DeleteOrder",
            "Deleted order: o1, Item Name: Lex Prime Set, Item Id: i1, Type: sell",
            Some("wfmAPICalls.log"),
        ),
    );
    let odd = client().delete_order("Lex Prime Set", "i1", "sell", reply("null"));
    assert_eq!(odd.result, Err(GlobleError::SerdeError(text("null"), 0, 0)));
    assert_eq!(odd.log, error("WarframeMarket:DeleteOrder", "SerdeError: null, line 0, column 0", None));
}

#[test]
fn a_listing_is_changed_in_price_quantity_and_visibility() {
    let outgoing = sent(client().update_order_listing_request("o1", 50, 3, false));
    assert_eq!(outgoing.method, Method::Put);
    assert_eq!(outgoing.url, "https://api.warframe.market/v1/profile/orders/o1");
    assert_eq!(outgoing.body, Some(text(r#"{"platinum":50,"quantity":3,"visible":false}"#)));
    let changed = listing("o1", "lex_prime_set", "sell", 50);
    let outcome = Ok(Reply { payload: changed.to_json(), headers: vec![] });
    let finished = client().update_order_listing("o1", 50, 3, false, "Lex Prime Set", "i1", "sell", outcome);
    assert_eq!(finished.result, Ok(changed));
    assert_eq!(
        finished.log,
        info(
            "WarframeMarket:UpdateOrderListing",
            "Updated Order Id: o1, Item Name: Lex Prime Set, Item Id: i1, Platinum: 50, Quantity: 3, Visible: false, Type: sell",
            Some("wfmAPICalls.log"),
        ),
    );
    let failed = client().update_order_listing(
        "o1", 50, 3, false, "Lex Prime Set", "i1", "sell", Err(GlobleError::ReqwestError(text("down"))),
    );
    assert_eq!(failed.log, error("WarframeMarket:UpdateOrderListing", "ReqwestError: down", Some("wfmAPICalls.log")));
}

#[test]
fn the_token_is_tried_by_making_and_removing_a_listing() {
    let probe = sent(client().validate_request());
    assert_eq!(probe.method, Method::Post);
    assert_eq!(
        probe.body,
        Some(
            text(
                r#"{"item":"56783f24cbfa8f0432dd89a2","order_type":"buy","platinum":1,"quantity":1,"visible":false}"#,
            ),
        ),
    );
    let created: Result<Order, GlobleError> = Ok(listing("probe", "lex_prime_set", "buy", 1));
    let removal = sent(client().validate_created(&created).unwrap());
    assert_eq!(removal.method, Method::Delete);
    assert_eq!(removal.url, "https://api.warframe.market/v1/profile/orders/probe");
    assert_eq!(client().validate(&created, Some(&Ok(text("probe")))), Ok(true));
}

#[test]
fn a_failed_trial_of_the_token_is_false_and_no_error() {
    let refused: Result<Order, GlobleError> = Err(GlobleError::HttpError(401, text("c"), text("b")));
    assert!(client().validate_created(&refused).is_none());
    assert_eq!(client().validate(&refused, None), Ok(false));
    let created: Result<Order, GlobleError> = Ok(listing("probe", "lex_prime_set", "buy", 1));
    assert_eq!(client().validate(&created, Some(&Err(GlobleError::ReqwestError(text("down"))))), Ok(false));
    assert_eq!(client().validate(&created, None), Ok(false));
}

#[test]
fn competing_listings_are_those_of_the_top_rank_that_are_online() {
    let orders = vec![
        competitor("one", "online", Some(1), 10),
        competitor("two", "online", Some(2), 20),
        competitor("three", "offline", Some(2), 30),
        competitor("four", "online", Some(3), 40),
    ];
    let table = competing_frame(&orders);
    assert_eq!(
        table,
        Table::new(
            vec![
                Column::from_strings("username", texts(&["four"])),
                Column::from_i64s("platinum", vec![40]),
                Column::from_optional_i64s("mod_rank", vec![Some(3)]),
                Column::from_strings("order_type", texts(&["sell"])),
            ],
        ).unwrap(),
    );
}

#[test]
fn competing_listings_keep_their_order_and_may_all_be_offline() {
    let orders = vec![
        competitor("a", "online", Some(3), 10),
        competitor("b", "ingame", Some(3), 20),
        competitor("c", "online", Some(1), 30),
        competitor("d", "online", Some(3), 40),
    ];
    let table = competing_frame(&orders);
    assert_eq!(table.column("username").unwrap().values(), quantframe::table::ColumnValues::String(texts(&["a", "d"])));
    let offline = vec![competitor("a", "offline", Some(3), 10), competitor("b", "online", Some(2), 20)];
    let none = competing_frame(&offline);
    assert_eq!(none.width(), 4);
    assert_eq!(none.height(), 0);
}

#[test]
fn listings_without_a_rank_compete_among_themselves() {
    let orders = vec![competitor("a", "online", None, 10), competitor("b", "offline", None, 20)];
    let table = competing_frame(&orders);
    assert_eq!(table.column("mod_rank").unwrap().cell(0), Some(Cell::Null));
    assert_eq!(table.height(), 1);
    let mixed = vec![competitor("a", "online", None, 10), competitor("b", "online", Some(0), 20)];
    assert_eq!(competing_frame(&mixed).column("username").unwrap().cell(0), Some(Cell::String(text("b"))));
    assert_eq!(competing_frame(&mixed).height(), 1);
}

#[test]
fn no_competing_listings_are_the_empty_table() {
    assert_eq!(competing_frame(&vec![]), Table::empty());
    let finished = client().get_ordres_by_item("lex_prime_set", reply("[]"));
    assert_eq!(finished, Finished { result: Ok(Table::empty()), log: None });
}

#[test]
fn competing_listings_are_asked_for_and_read() {
    let outgoing = sent(client().get_ordres_by_item_request("lex_prime_set"));
    assert_eq!(outgoing.url, "https://api.warframe.market/v1/items/lex_prime_set/orders");
    let payload = format!(
        "[{}, {}, {}, {}]",
        competitor_text("one", "online", "1", 10),
        competitor_text("two", "online", "2", 20),
        competitor_text("three", "offline", "2", 30),
        competitor_text("four", "online", "3", 40),
    );
    let finished = client().get_ordres_by_item("lex_prime_set", reply(&payload));
    assert_eq!(finished.log, None);
    let table = finished.result.unwrap();
    assert_eq!(table.height(), 1);
    assert_eq!(table.column("username").unwrap().cell(0), Some(Cell::String(text("four"))));
    assert_eq!(table.column("mod_rank").unwrap().cell(0), Some(Cell::I64(3)));
}

#[test]
fn a_failed_fetch_of_competing_listings_is_logged_and_yields_the_empty_table() {
    let finished = client().get_ordres_by_item("lex_prime_set", Err(GlobleError::ReqwestError(text("down"))));
    assert_eq!(
        finished,
        Finished {
            result: Ok(Table::empty()),
            log: error(
                "WarframeMarket:GetOrdresByItem",
                "Item: lex_prime_set, Error: ReqwestError: down",
                Some("wfmAPICalls.log"),
            ),
        },
    );
    let odd = client().get_ordres_by_item("lex", reply(r#"{"orders": 1}"#));
    assert_eq!(odd.result, Ok(Table::empty()));
    assert!(odd.log.is_some());
}

#[test]
fn closing_a_listing_of_an_item_without_listing_asks_nothing() {
    let listed = Ordres {
        sell_orders: vec![listing("s1", "lex_prime_set", "sell", 45)],
        buy_orders: vec![listing("b1", "braton_prime_set", "buy", 10)],
    };
    assert!(client().close_order_by_url_request("paris_prime_set", &listed).is_none());
    let nothing = Ordres { sell_orders: vec![], buy_orders: vec![] };
    assert!(client().close_order_by_url_request("paris_prime_set", &nothing).is_none());
    assert_eq!(client().close_order_by_url(None), Finished { result: Ok(text("No Order Found")), log: None });
}

#[test]
fn closing_takes_the_first_listing_sought_before_sold() {
    let listed = Ordres {
        sell_orders: vec![listing("s1", "lex_prime_set", "sell", 1), listing("s2", "paris_prime_set", "sell", 2)],
        buy_orders: vec![
            listing("b1", "braton_prime_set", "buy", 10),
            listing("b2", "lex_prime_set", "buy", 99),
            listing("b3", "lex_prime_set", "buy", 5),
        ],
    };
    let (id, begun) = client().close_order_by_url_request("lex_prime_set", &listed).unwrap();
    assert_eq!(id, "b2");
    let outgoing = sent(begun);
    assert_eq!(outgoing.method, Method::Put);
    assert_eq!(outgoing.url, "https://api.warframe.market/v1/profile/orders/close/b2");
    assert_eq!(outgoing.body, None);
    let (id, _) = client().close_order_by_url_request("paris_prime_set", &listed).unwrap();
    assert_eq!(id, "s2");
}

#[test]
fn a_closed_listing_is_confirmed_and_logged() {
    let finished = client().close_order_by_url(Some((text("b2"), reply(r#""b2""#))));
    assert_eq!(finished.result, Ok(text("b2")));
    assert_eq!(finished.log, info("WarframeMarket:CloseOrder", "Closed Order: b2", Some("wfmAPICalls.log")));
    let silent = client().close_order_by_url(Some((text("b2"), reply("null"))));
    assert_eq!(silent.result, Ok(text("Order Successfully Closed")));
    assert_eq!(silent.log, info("WarframeMarket:CloseOrder", "Closed Order: b2", Some("wfmAPICalls.log")));
    let odd = client().close_order_by_url(Some((text("b2"), reply("7"))));
    assert_eq!(odd.result, Err(GlobleError::SerdeError(text("7"), 0, 0)));
    let failed = client().close_order_by_url(Some((text("b2"), Err(GlobleError::ReqwestError(text("down"))))));
    assert_eq!(failed.result, Err(GlobleError::ReqwestError(text("down"))));
    assert_eq!(failed.log, error("WarframeMarket:CloseOrder", "ReqwestError: down", Some("wfmAPICalls.log")));
}
