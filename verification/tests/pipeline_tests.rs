use quantframe::auth::AuthState;
use quantframe::error::GlobleError;
use quantframe::json::Json;
use quantframe::pipeline::{
    find_header, Action, Event, Exchange, Method, Outgoing, Reply, Response, COOLDOWN_MILLIS, PACING_MILLIS,
};
use quantframe::wfm_client::WFMClientState;

fn text(s: &str) -> String {
    s.to_string()
}

fn outgoing() -> Outgoing {
    Outgoing {
        method: Method::Get,
        url: text("https://api.warframe.market/v1/items"),
        authorization: text("JWT tok"),
        language: text("en"),
        body: None,
    }
}

fn answered(status: u16, body: &str) -> Event {
    Event::Answered(Response { status, headers: vec![(text("content-type"), text("application/json"))], body: text(body) })
}

fn sending(key: Option<&str>) -> Exchange {
    let (exchange, first) = Exchange::begin(outgoing(), key.map(text));
    assert_eq!(first, Action::Sleep(PACING_MILLIS));
    let (exchange, second) = exchange.step(Event::Slept);
    assert_eq!(second, Action::Send(outgoing()));
    exchange
}

#[test]
fn the_pacing_interval_is_a_second_and_the_cooldown_three() {
    assert_eq!(PACING_MILLIS, 1000);
    assert_eq!(COOLDOWN_MILLIS, 3000);
}

#[test]
fn an_exchange_sleeps_before_it_sends() {
    let (exchange, first) = Exchange::begin(outgoing(), None);
    assert_eq!(first, Action::Sleep(1000));
    assert!(!exchange.is_done());
    let (exchange, second) = exchange.step(Event::Slept);
    assert_eq!(second, Action::Send(outgoing()));
    assert!(!exchange.is_done());
}

#[test]
fn two_exchanges_in_a_row_each_sleep_before_they_send() {
    let mut actions: Vec<Action> = Vec::new();
    for _ in 0..2 {
        let (exchange, first) = Exchange::begin(outgoing(), None);
        actions.push(first);
        let (exchange, second) = exchange.step(Event::Slept);
        actions.push(second);
        let (exchange, third) = exchange.step(answered(200, r#"{"payload": 1}"#));
        actions.push(third);
        assert!(exchange.is_done());
    }
    let sends: Vec<usize> = (0..actions.len()).filter(|i| matches!(actions[*i], Action::Send(_))).collect();
    assert_eq!(sends, vec![1, 4]);
    for at in sends {
        assert_eq!(actions[at - 1], Action::Sleep(1000));
    }
}

#[test]
fn a_429_is_reported_only_after_the_cooldown() {
    let exchange = sending(None);
    let (exchange, action) = exchange.step(answered(429, "slow down"));
    assert_eq!(action, Action::Sleep(3000));
    assert!(!exchange.is_done());
    let (exchange, action) = exchange.step(Event::Slept);
    assert_eq!(action, Action::Finish(Err(GlobleError::TooManyRequests(text("Too Many Requests")))));
    assert!(exchange.is_done());
}

#[test]
fn a_request_without_an_answer_is_a_transport_failure() {
    let (exchange, action) = sending(None).step(Event::Failed(text("connection refused")));
    assert_eq!(action, Action::Finish(Err(GlobleError::ReqwestError(text("connection refused")))));
    assert!(exchange.is_done());
}

#[test]
fn another_status_than_200_is_an_http_error() {
    let (exchange, action) = sending(None).step(answered(404, "not here"));
    assert_eq!(
        action,
        Action::Finish(
            Err(
                GlobleError::HttpError(
                    404,
                    text("URL: https://api.warframe.market/v1/items, Body: {}"),
                    text("not here"),
                ),
            ),
        ),
    );
    assert!(exchange.is_done());
}

#[test]
fn an_http_error_holds_the_body_that_was_sent() {
    let client = WFMClientState::new(AuthState::default());
    let body = Json::Object(vec![(text("platinum"), Json::Int(3))]);
    let (exchange, _) = client.send_request(Method::Put, "profile/orders/1", Some("order"), Some(body));
    let (exchange, _) = exchange.step(Event::Slept);
    let (_, action) = exchange.step(answered(500, "oops"));
    assert_eq!(
        action,
        Action::Finish(
            Err(
                GlobleError::HttpError(
                    500,
                    text("URL: https://api.warframe.market/v1/profile/orders/1, Body: {\"platinum\":3}"),
                    text("oops"),
                ),
            ),
        ),
    );
}

#[test]
fn a_good_answer_yields_the_payload() {
    let (exchange, action) = sending(None).step(answered(200, r#"{"payload": {"items": [1, 2]}}"#));
    assert_eq!(
        action,
        Action::Finish(
            Ok(
                Reply {
                    payload: Json::Object(vec![(text("items"), Json::List(vec![Json::Int(1), Json::Int(2)]))]),
                    headers: vec![(text("content-type"), text("application/json"))],
                },
            ),
        ),
    );
    assert!(exchange.is_done());
}

#[test]
fn a_good_answer_yields_the_member_that_was_asked_for() {
    let (_, action) = sending(Some("items")).step(answered(200, r#"{"payload": {"items": [1, 2], "more": 3}}"#));
    match action {
        Action::Finish(Ok(reply)) => assert_eq!(reply.payload, Json::List(vec![Json::Int(1), Json::Int(2)])),
        other => panic!("not finished well: {:?}", other),
    }
}

#[test]
fn what_the_answer_lacks_is_null() {
    let (_, action) = sending(Some("items")).step(answered(200, r#"{"payload": {"more": 3}}"#));
    match action {
        Action::Finish(Ok(reply)) => assert_eq!(reply.payload, Json::Null),
        other => panic!("not finished well: {:?}", other),
    }
    let (_, action) = sending(None).step(answered(200, r#"[1, 2]"#));
    match action {
        Action::Finish(Ok(reply)) => assert_eq!(reply.payload, Json::Null),
        other => panic!("not finished well: {:?}", other),
    }
}

#[test]
fn a_body_that_is_no_json_is_a_decode_failure_with_its_place() {
    let (exchange, action) = sending(None).step(answered(200, "<html>"));
    assert_eq!(action, Action::Finish(Err(GlobleError::SerdeError(text("<html>"), 1, 1))));
    assert!(exchange.is_done());
}

#[test]
fn the_status_counts_before_the_body() {
    let (_, action) = sending(None).step(answered(429, r#"{"payload": 1}"#));
    assert_eq!(action, Action::Sleep(3000));
    let (_, action) = sending(None).step(answered(201, r#"{"payload": 1}"#));
    assert!(matches!(action, Action::Finish(Err(GlobleError::HttpError(201, _, _)))));
}

#[test]
fn an_event_out_of_turn_ends_the_exchange() {
    let out_of_turn = GlobleError::OtherError(text("the exchange was not waiting for this event"));
    let (exchange, _) = Exchange::begin(outgoing(), None);
    let (exchange, action) = exchange.step(answered(200, "{}"));
    assert_eq!(action, Action::Finish(Err(GlobleError::OtherError(text("the exchange was not waiting for this event")))));
    assert!(exchange.is_done());
    let (_, action) = exchange.step(Event::Slept);
    assert_eq!(action, Action::Finish(Err(out_of_turn)));
    let (_, action) = sending(None).step(Event::Slept);
    assert!(matches!(action, Action::Finish(Err(GlobleError::OtherError(_)))));
    let (cooling, _) = sending(None).step(answered(429, ""));
    let (_, action) = cooling.step(Event::Failed(text("late")));
    assert!(matches!(action, Action::Finish(Err(GlobleError::OtherError(_)))));
}

#[test]
fn an_exchange_never_sends_twice() {
    let events = || vec![
        Event::Slept,
        answered(429, ""),
        Event::Slept,
        Event::Slept,
        answered(200, "{}"),
        Event::Failed(text("x")),
    ];
    let (mut exchange, first) = Exchange::begin(outgoing(), None);
    let mut sent = if matches!(first, Action::Send(_)) { 1 } else { 0 };
    for event in events() {
        let (next, action) = exchange.step(event);
        if matches!(action, Action::Send(_)) {
            sent += 1;
        }
        exchange = next;
    }
    assert_eq!(sent, 1);
}

#[test]
fn headers_are_found_by_name() {
    let headers = vec![
        (text("content-type"), text("application/json")),
        (text("set-cookie"), text("JWT=one; Path=/")),
        (text("set-cookie"), text("JWT=two; Path=/")),
    ];
    assert_eq!(find_header(&headers, "set-cookie"), Some(&text("JWT=one; Path=/")));
    assert_eq!(find_header(&headers, "Set-Cookie"), None);
    assert_eq!(find_header(&headers, "etag"), None);
    assert_eq!(find_header(&vec![], "set-cookie"), None);
}
