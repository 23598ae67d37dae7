use quantframe::error::GlobleError;
use quantframe::json::Json;

fn text(s: &str) -> String {
    s.to_string()
}

#[test]
fn parse_reads_every_kind_of_value() {
    let parsed = Json::parse(r#"{"a": 1, "b": [true, null, "x"], "c": {"d": -7}, "e": 1.5}"#).unwrap();
    assert_eq!(
        parsed,
        Json::Object(
            vec![
                (text("a"), Json::Int(1)),
                (text("b"), Json::List(vec![Json::Bool(true), Json::Null, Json::Text(text("x"))])),
                (text("c"), Json::Object(vec![(text("d"), Json::Int(-7))])),
                (text("e"), Json::Real(text("1.5"))),
            ],
        ),
    );
}

#[test]
fn parse_keeps_integers_that_fit_and_writes_the_others_out() {
    assert_eq!(Json::parse("9223372036854775807"), Ok(Json::Int(i64::MAX)));
    assert_eq!(Json::parse("-9223372036854775808"), Ok(Json::Int(i64::MIN)));
    assert_eq!(Json::parse("9223372036854775808"), Ok(Json::Real(text("9223372036854775808"))));
}

#[test]
fn parse_of_text_that_is_no_json_says_where() {
    assert_eq!(
        Json::parse("{\"a\": 1,\n  \"b\": }"),
        Err(GlobleError::SerdeError(text("{\"a\": 1,\n  \"b\": }"), 2, 8)),
    );
    assert!(matches!(Json::parse(""), Err(GlobleError::SerdeError(_, 1, 0))));
}

#[test]
fn to_text_writes_json_on_one_line() {
    let value = Json::Object(
        vec![
            (text("name"), Json::Text(text("a \"b\"\n"))),
            (text("n"), Json::Int(-3)),
            (text("list"), Json::List(vec![Json::Bool(false), Json::Null, Json::Real(text("2.5"))])),
            (text("inner"), Json::Object(vec![])),
        ],
    );
    assert_eq!(
        value.to_text(),
        r#"{"inner":{},"list":[false,null,2.5],"n":-3,"name":"a \"b\"\n"}"#,
    );
}

#[test]
fn to_text_and_parse_agree() {
    let value = Json::Object(
        vec![(text("a"), Json::List(vec![Json::Int(1), Json::Text(text("é")), Json::Null]))],
    );
    assert_eq!(Json::parse(&value.to_text()), Ok(value));
}

#[test]
fn to_pretty_text_indents() {
    let value = Json::Object(vec![(text("a"), Json::Int(1)), (text("b"), Json::List(vec![Json::Null]))]);
    assert_eq!(value.to_pretty_text(), "{\n  \"a\": 1,\n  \"b\": [\n    null\n  ]\n}");
}

#[test]
fn a_real_that_is_no_number_is_written_as_null() {
    assert_eq!(Json::Real(text("seven")).to_text(), "null");
}

#[test]
fn of_entries_with_one_key_the_last_counts() {
    let value = Json::Object(vec![(text("a"), Json::Int(1)), (text("b"), Json::Int(2)), (text("a"), Json::Int(3))]);
    assert_eq!(value.get("a"), Some(&Json::Int(3)));
    assert_eq!(value.get("b"), Some(&Json::Int(2)));
    assert_eq!(value.get("c"), None);
    assert_eq!(value.to_text(), r#"{"a":3,"b":2}"#);
}

#[test]
fn only_objects_have_members() {
    assert_eq!(Json::List(vec![Json::Int(1)]).get("0"), None);
    assert_eq!(Json::Text(text("a")).get("a"), None);
    assert_eq!(Json::Null.field("a"), Json::Null);
    let value = Json::Object(vec![(text("a"), Json::List(vec![Json::Int(1)]))]);
    assert_eq!(value.field("a"), Json::List(vec![Json::Int(1)]));
    assert_eq!(value.field("b"), Json::Null);
}

#[test]
fn a_copy_of_a_value_equals_it() {
    let value = Json::parse(r#"{"a": [1, {"b": "c"}], "d": null}"#).unwrap();
    assert_eq!(value.duplicate(), value);
}

#[test]
fn a_value_as_it_is_written_has_only_reals_that_are_numbers() {
    let value = Json::Object(
        vec![
            (text("a"), Json::List(vec![Json::Real(text("1e3")), Json::Real(text("one")), Json::Int(2)])),
            (text("b"), Json::Real(text(""))),
            (text("c"), Json::Real(text("-0.5"))),
        ],
    );
    let plain = Json::Object(
        vec![
            (text("a"), Json::List(vec![Json::Real(text("1e3")), Json::Null, Json::Int(2)])),
            (text("b"), Json::Null),
            (text("c"), Json::Real(text("-0.5"))),
        ],
    );
    assert_eq!(value.normalised(), plain);
    assert_eq!(plain.normalised(), plain);
    assert_eq!(value.to_text(), plain.to_text());
    assert_eq!(value.to_text(), r#"{"a":[1000.0,null,2],"b":null,"c":-0.5}"#);
}
