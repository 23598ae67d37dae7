use chrono::Datelike;
use quantframe::error::GlobleError;
use quantframe::helper::{
    discord_body, discord_mention, last_x_days, merge_dataframes, ColumnType, FIRST_DAY, LAST_DAY,
};
use quantframe::json::Json;
use quantframe::text::{decimal_text, integer_text, join2, join3, join4, truth_text};

fn text(s: &str) -> String {
    s.to_string()
}

fn day_number(year: i32, month: u32, day: u32) -> i32 {
    chrono::NaiveDate::from_ymd_opt(year, month, day).unwrap().num_days_from_ce()
}

#[test]
fn days_are_counted_back_from_yesterday() {
    assert_eq!(last_x_days(day_number(2024, 3, 2), 4), vec!["2024-03-01", "2024-02-29", "2024-02-28", "2024-02-27"]);
    assert_eq!(last_x_days(day_number(2023, 1, 1), 1), vec!["2022-12-31"]);
}

#[test]
fn no_days_are_asked_for_with_a_count_below_one() {
    assert_eq!(last_x_days(day_number(2024, 3, 2), 0), Vec::<String>::new());
    assert_eq!(last_x_days(day_number(2024, 3, 2), -5), Vec::<String>::new());
}

#[test]
fn the_calendar_runs_from_its_first_day_to_its_last() {
    assert_eq!(chrono::NaiveDate::MIN.num_days_from_ce(), FIRST_DAY);
    assert_eq!(chrono::NaiveDate::MAX.num_days_from_ce(), LAST_DAY);
    assert!(chrono::NaiveDate::from_num_days_from_ce_opt(FIRST_DAY - 1).is_none());
    assert!(chrono::NaiveDate::from_num_days_from_ce_opt(LAST_DAY + 1).is_none());
}

#[test]
fn days_end_where_the_calendar_ends() {
    assert_eq!(last_x_days(FIRST_DAY + 2, 5), vec!["-262143-01-02", "-262143-01-01"]);
    assert_eq!(last_x_days(FIRST_DAY + 1, 5).len(), 1);
    assert_eq!(last_x_days(FIRST_DAY, 5), Vec::<String>::new());
    assert_eq!(last_x_days(i32::MIN, 5), Vec::<String>::new());
    assert_eq!(last_x_days(i32::MIN + 1, i64::MAX), Vec::<String>::new());
    assert_eq!(last_x_days(LAST_DAY + 1, 2), vec!["+262142-12-31", "+262142-12-30"]);
    assert_eq!(last_x_days(LAST_DAY + 2, 2), Vec::<String>::new());
    assert_eq!(last_x_days(i32::MAX, 2), Vec::<String>::new());
}

#[test]
fn days_of_the_years_0_to_9999_have_ten_characters() {
    assert_eq!(last_x_days(-363, 2), vec!["0000-01-02", "0000-01-01"]);
    assert_eq!(last_x_days(-364, 2), vec!["0000-01-01", "-0001-12-31"]);
    assert_eq!(last_x_days(3_652_061, 2), vec!["+10000-01-01", "9999-12-31"]);
    assert_eq!(last_x_days(day_number(987, 6, 5), 1), vec!["0987-06-04"]);
}

#[test]
fn as_many_days_as_asked_for_come_back() {
    let days = last_x_days(day_number(2024, 3, 2), 1000);
    assert_eq!(days.len(), 1000);
    for pair in days.windows(2) {
        let later = chrono::NaiveDate::parse_from_str(&pair[0], "%Y-%m-%d").unwrap();
        let earlier = chrono::NaiveDate::parse_from_str(&pair[1], "%Y-%m-%d").unwrap();
        assert_eq!(later.num_days_from_ce(), earlier.num_days_from_ce() + 1);
    }
    for day in days {
        assert_eq!(day.len(), 10);
        assert_eq!(&day[4..5], "-");
        assert_eq!(&day[7..8], "-");
    }
}

#[test]
fn a_notification_holds_the_message_as_content() {
    assert_eq!(discord_body("sold \"Lex\"").to_text(), r#"{"content":"sold \"Lex\""}"#);
}

#[test]
fn a_notification_mentions_the_user_that_the_webhook_names() {
    let answer = Json::parse(r#"{"user": {"id": "42", "name": "bot"}}"#).unwrap();
    assert_eq!(discord_mention("sold", &answer), "sold <@\"42\">");
    let numbered = Json::parse(r#"{"user": {"id": 42}}"#).unwrap();
    assert_eq!(discord_mention("sold", &numbered), "sold <@42>");
    let nameless = Json::parse(r#"{"user": {"name": "bot"}}"#).unwrap();
    assert_eq!(discord_mention("sold", &nameless), "sold");
    assert_eq!(discord_mention("sold", &Json::Null), "sold");
}

#[test]
fn integers_are_written_in_decimal() {
    assert_eq!(decimal_text(0), "0");
    assert_eq!(decimal_text(7), "7");
    assert_eq!(decimal_text(10), "10");
    assert_eq!(decimal_text(1234567890), "1234567890");
    assert_eq!(decimal_text(u64::MAX), "18446744073709551615");
    assert_eq!(integer_text(0), "0");
    assert_eq!(integer_text(-1), "-1");
    assert_eq!(integer_text(45), "45");
    assert_eq!(integer_text(i64::MAX), "9223372036854775807");
    assert_eq!(integer_text(i64::MIN), "-9223372036854775808");
}

#[test]
fn texts_are_joined_in_order() {
    assert_eq!(truth_text(true), "true");
    assert_eq!(truth_text(false), "false");
    assert_eq!(join2("a", "b"), "ab");
    assert_eq!(join3("a", "", "c"), "ac");
    assert_eq!(join4("a", "b", "c", "d"), "abcd");
}

#[test]
fn errors_are_described_by_kind_and_content() {
    assert_eq!(GlobleError::ReqwestError(text("down")).describe(), "ReqwestError: down");
    assert_eq!(GlobleError::SerdeError(text("{"), 1, 2).describe(), "SerdeError: {, line 1, column 2");
    assert_eq!(GlobleError::PolarsError(text("bad")).describe(), "PolarsError: bad");
    assert_eq!(GlobleError::IoError(text("gone")).describe(), "IoError: gone");
    assert_eq!(GlobleError::TooManyRequests(text("slow")).describe(), "TooManyRequests: slow");
    assert_eq!(GlobleError::OtherError(text("no")).describe(), "OtherError: no");
    assert_eq!(
        GlobleError::HttpError(404, text("URL: u, Body: {}"), text("gone")).describe(),
        "HttpError: status 404, URL: u, Body: {}, Response: gone",
    );
}

#[test]
fn a_bare_message_turns_into_a_broken_rule() {
    assert_eq!(GlobleError::from(text("what")), GlobleError::OtherError(text("what")));
    let copy = GlobleError::HttpError(1, text("a"), text("b")).duplicate();
    assert_eq!(copy, GlobleError::HttpError(1, text("a"), text("b")));
}

#[test]
fn the_table_operations_are_at_hand_under_the_helper_names() {
    assert_eq!(merge_dataframes(vec![]), Err(GlobleError::PolarsError(text("No frames to merge"))));
    assert_eq!(ColumnType::I64, ColumnType::I64);
}

#[test]
fn a_borrowed_message_turns_into_a_broken_rule_in_quotes() {
    assert_eq!(GlobleError::from("what \"now\""), GlobleError::OtherError(text("\"what \\\"now\\\"\"")));
}

#[test]
fn an_error_of_the_reader_turns_into_a_decode_failure_with_its_place() {
    let fault = serde_json::from_str::<serde_json::Value>("{\n  \"a\": }").unwrap_err();
    let words = format!("{:?}", fault);
    assert_eq!(GlobleError::from(fault), GlobleError::SerdeError(words, 2, 8));
}

#[test]
fn an_error_of_the_disk_turns_into_a_persistence_failure() {
    let fault = std::io::Error::new(std::io::ErrorKind::NotFound, "no such record");
    assert_eq!(GlobleError::from(fault), GlobleError::IoError(text("no such record")));
}

#[test]
fn an_error_of_a_data_frame_turns_into_a_table_failure() {
    let fault = polars::error::PolarsError::NoData("nothing".into());
    let words = format!("{:?}", fault);
    assert_eq!(GlobleError::from(fault), GlobleError::PolarsError(words));
}

#[test]
fn an_error_of_the_transport_turns_into_a_transport_failure() {
    let fault = reqwest::Client::new().get("not an address").build().unwrap_err();
    let words = fault.to_string();
    assert_eq!(GlobleError::from(fault), GlobleError::ReqwestError(words));
}

#[test]
fn an_error_of_the_database_turns_into_a_persistence_failure() {
    assert_eq!(GlobleError::from(sqlx::Error::RowNotFound), GlobleError::IoError(sqlx::Error::RowNotFound.to_string()));
}

#[test]
fn texts_that_are_no_values_break_a_rule() {
    let whole = "x".parse::<i64>().unwrap_err();
    assert_eq!(GlobleError::from(whole.clone()), GlobleError::OtherError(whole.to_string()));
    let real = "x".parse::<f64>().unwrap_err();
    assert_eq!(GlobleError::from(real.clone()), GlobleError::OtherError(real.to_string()));
    let truth = "x".parse::<bool>().unwrap_err();
    assert_eq!(GlobleError::from(truth.clone()), GlobleError::OtherError(truth.to_string()));
}

#[test]
fn a_poisoned_lock_breaks_a_rule() {
    let fault = std::sync::PoisonError::new(7);
    let words = format!("{:?}", fault);
    assert_eq!(GlobleError::from(fault), GlobleError::OtherError(words));
}
