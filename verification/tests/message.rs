use fastcall::dynamic::DynamicValue;
use fastcall::error::{DecodeError, Field, ShapeError};
use fastcall::json::{JsonNumber, JsonValue};
use fastcall::message::{decode, Message, Params};
use fastcall::strmap::StrMap;

fn request(params: &str) -> String {
    format!(
        "{{\"jsonrpc\": \"2.0\", \"id\": \"7\", \"method\": \"sum\", \"params\": {}}}",
        params
    )
}

fn expect_int(value: &DynamicValue, want: i64) {
    match value {
        DynamicValue::Int(n) => assert_eq!(*n, want),
        other => panic!("expected the whole number {}, found {:?}", want, other),
    }
}

fn expect_string(value: &DynamicValue, want: &str) {
    match value {
        DynamicValue::String(s) => assert_eq!(s, want),
        other => panic!("expected the string {:?}, found {:?}", want, other),
    }
}

#[test]
fn decode_reads_the_three_names() {
    let message = decode(&request("[]")).unwrap();
    assert_eq!(message.jsonrpc(), "2.0");
    assert_eq!(message.id(), "7");
    assert_eq!(message.method(), "sum");
}

#[test]
fn decode_object_params_become_keywords() {
    let message = decode(&request("{\"a\": 1, \"b\": \"two\", \"c\": [true, null]}")).unwrap();
    let (positional, keyword) = message.materialize_params();
    assert!(positional.is_empty());
    assert_eq!(keyword.len(), 3);
    expect_int(keyword.get("a").unwrap(), 1);
    expect_string(keyword.get("b").unwrap(), "two");
    match keyword.get("c") {
        Some(DynamicValue::List(items)) => {
            assert_eq!(items.len(), 2);
            assert!(matches!(items[0], DynamicValue::Bool(true)));
            assert!(matches!(items[1], DynamicValue::Null));
        }
        other => panic!("unexpected: {:?}", other),
    }
}

#[test]
fn decode_array_params_become_positional_in_order() {
    let message = decode(&request("[3, \"x\", {\"k\": -4}]")).unwrap();
    let (positional, keyword) = message.materialize_params();
    assert!(keyword.is_empty());
    assert_eq!(positional.len(), 3);
    expect_int(&positional[0], 3);
    expect_string(&positional[1], "x");
    match &positional[2] {
        DynamicValue::Dict(entries) => {
            assert_eq!(entries.len(), 1);
            expect_int(entries.get("k").unwrap(), -4);
        }
        other => panic!("unexpected: {:?}", other),
    }
}

#[test]
fn decode_string_params_is_one_positional_argument() {
    let message = decode(&request("\"x\"")).unwrap();
    let (positional, keyword) = message.materialize_params();
    assert_eq!(positional.len(), 1);
    expect_string(&positional[0], "x");
    assert!(keyword.is_empty());
}

#[test]
fn decode_refuses_number_params() {
    assert_eq!(
        decode(&request("5")).unwrap_err(),
        DecodeError::Shape(ShapeError::InvalidParams)
    );
}

#[test]
fn decode_refuses_null_params() {
    assert_eq!(
        decode(&request("null")).unwrap_err(),
        DecodeError::Shape(ShapeError::InvalidParams)
    );
}

#[test]
fn decode_refuses_missing_params() {
    let text = "{\"jsonrpc\": \"2.0\", \"id\": \"7\", \"method\": \"sum\"}";
    assert_eq!(
        decode(text).unwrap_err(),
        DecodeError::Shape(ShapeError::MissingField(Field::Params))
    );
}

#[test]
fn decode_refuses_missing_names() {
    assert_eq!(
        decode("{\"id\": \"7\", \"method\": \"sum\", \"params\": []}").unwrap_err(),
        DecodeError::Shape(ShapeError::MissingField(Field::Jsonrpc))
    );
    assert_eq!(
        decode("{\"jsonrpc\": \"2.0\", \"method\": \"sum\", \"params\": []}").unwrap_err(),
        DecodeError::Shape(ShapeError::MissingField(Field::Id))
    );
    assert_eq!(
        decode("{\"jsonrpc\": \"2.0\", \"id\": \"7\", \"params\": []}").unwrap_err(),
        DecodeError::Shape(ShapeError::MissingField(Field::Method))
    );
}

#[test]
fn decode_refuses_a_name_that_is_no_string() {
    let text = "{\"jsonrpc\": \"2.0\", \"id\": 7, \"method\": \"sum\", \"params\": []}";
    assert_eq!(
        decode(text).unwrap_err(),
        DecodeError::Shape(ShapeError::NotAString(Field::Id))
    );
}

#[test]
fn decode_refuses_a_method_that_is_no_string() {
    let text = "{\"jsonrpc\": \"2.0\", \"id\": \"7\", \"method\": null, \"params\": []}";
    assert_eq!(
        decode(text).unwrap_err(),
        DecodeError::Shape(ShapeError::NotAString(Field::Method))
    );
}

#[test]
fn decode_takes_the_last_of_a_repeated_field() {
    let text = "{\"jsonrpc\": \"2.0\", \"id\": \"7\", \"id\": \"8\", \"method\": \"sum\", \
                \"params\": []}";
    assert_eq!(decode(text).unwrap().id(), "8");
}

#[test]
fn decode_reports_the_first_field_at_fault() {
    let text = "{\"jsonrpc\": 2, \"method\": \"sum\", \"params\": 5}";
    assert_eq!(
        decode(text).unwrap_err(),
        DecodeError::Shape(ShapeError::NotAString(Field::Jsonrpc))
    );
}

#[test]
fn decode_refuses_what_is_no_object() {
    assert_eq!(
        decode("[\"2.0\", \"7\", \"sum\", []]").unwrap_err(),
        DecodeError::Shape(ShapeError::NotAnObject)
    );
    assert_eq!(decode("\"text\"").unwrap_err(), DecodeError::Shape(ShapeError::NotAnObject));
}

#[test]
fn decode_refuses_malformed_text() {
    match decode("{\"jsonrpc\": ") {
        Err(DecodeError::Syntax(diagnostic)) => {
            assert_eq!(diagnostic, "EOF while parsing a value at line 1 column 12")
        }
        other => panic!("unexpected: {:?}", other),
    }
    assert!(matches!(decode(""), Err(DecodeError::Syntax(_))));
    assert!(matches!(decode(&(request("[]") + " x")), Err(DecodeError::Syntax(_))));
}

#[test]
fn decode_passes_over_other_members() {
    let text = "{\"extra\": {\"deep\": [1]}, \"jsonrpc\": \"2.0\", \"id\": \"7\", \
                \"method\": \"sum\", \"params\": [], \"zeta\": null}";
    let message = decode(text).unwrap();
    assert_eq!(message.method(), "sum");
    assert!(matches!(message.params(), Params::Array(items) if items.is_empty()));
}

#[test]
fn new_with_keywords_starts_empty() {
    let message = Message::new("abc".to_string(), true);
    assert_eq!(message.jsonrpc(), "2.0");
    assert_eq!(message.id(), "abc");
    assert_eq!(message.method(), "method");
    assert!(matches!(message.params(), Params::Object(members) if members.is_empty()));
    let (positional, keyword) = message.materialize_params();
    assert!(positional.is_empty());
    assert!(keyword.is_empty());
}

#[test]
fn new_positional_starts_empty() {
    let message = Message::new("abc".to_string(), false);
    assert!(matches!(message.params(), Params::Array(items) if items.is_empty()));
}

#[test]
fn set_param_on_keywords_sets_the_name() {
    let mut message = Message::new("abc".to_string(), true);
    message.set_param("k".to_string(), "42").unwrap();
    let (positional, keyword) = message.materialize_params();
    assert!(positional.is_empty());
    assert_eq!(keyword.len(), 1);
    expect_int(keyword.get("k").unwrap(), 42);
}

#[test]
fn set_param_on_keywords_last_write_wins() {
    let mut message = Message::new("abc".to_string(), true);
    message.set_param("k".to_string(), "1").unwrap();
    message.set_param("other".to_string(), "true").unwrap();
    message.set_param("k".to_string(), "\"late\"").unwrap();
    let (_, keyword) = message.materialize_params();
    assert_eq!(keyword.len(), 2);
    expect_string(keyword.get("k").unwrap(), "late");
    let (first, _) = keyword.entry(0).unwrap();
    assert_eq!(first, "k");
}

#[test]
fn set_param_on_positional_leaves_the_name_out() {
    let mut message = Message::new("abc".to_string(), false);
    message.set_param("ignored".to_string(), "\"v\"").unwrap();
    let (positional, keyword) = message.materialize_params();
    assert_eq!(positional.len(), 1);
    expect_string(&positional[0], "v");
    assert!(keyword.is_empty());
}

#[test]
fn set_param_turns_a_scalar_into_two_positional() {
    let mut message = Message::from_parts(
        "2.0".to_string(),
        "1".to_string(),
        "m".to_string(),
        Params::String("s".to_string()),
    );
    message.set_param("n".to_string(), "1").unwrap();
    assert!(matches!(message.params(), Params::Array(items) if items.len() == 2));
    let (positional, keyword) = message.materialize_params();
    assert_eq!(positional.len(), 2);
    expect_string(&positional[0], "s");
    expect_int(&positional[1], 1);
    assert!(keyword.is_empty());

    message.set_param("n".to_string(), "2").unwrap();
    let (positional, keyword) = message.materialize_params();
    assert_eq!(positional.len(), 3);
    expect_string(&positional[0], "s");
    expect_int(&positional[1], 1);
    expect_int(&positional[2], 2);
    assert!(keyword.is_empty());
}

#[test]
fn set_param_with_malformed_text_changes_nothing() {
    let mut message = Message::new("abc".to_string(), true);
    message.set_param("k".to_string(), "1").unwrap();
    match message.set_param("k".to_string(), "{") {
        Err(DecodeError::Syntax(diagnostic)) => {
            assert_eq!(diagnostic, "EOF while parsing an object at line 1 column 1")
        }
        other => panic!("unexpected: {:?}", other),
    }
    let (positional, keyword) = message.materialize_params();
    assert!(positional.is_empty());
    assert_eq!(keyword.len(), 1);
    expect_int(keyword.get("k").unwrap(), 1);

    let mut scalar = Message::from_parts(
        "2.0".to_string(),
        "1".to_string(),
        "m".to_string(),
        Params::String("s".to_string()),
    );
    assert!(scalar.set_param("n".to_string(), "nope").is_err());
    assert!(matches!(scalar.params(), Params::String(s) if s == "s"));
}

#[test]
fn add_param_takes_a_value_as_it_is() {
    let mut members: StrMap<JsonValue> = StrMap::new();
    members.insert("a".to_string(), JsonValue::Bool(false));
    let mut message = Message::from_parts(
        "2.0".to_string(),
        "1".to_string(),
        "m".to_string(),
        Params::Object(members),
    );
    message.add_param("b".to_string(), JsonValue::Number(JsonNumber::NegInt(-9)));
    let (_, keyword) = message.materialize_params();
    assert_eq!(keyword.len(), 2);
    assert!(matches!(keyword.get("a"), Some(DynamicValue::Bool(false))));
    expect_int(keyword.get("b").unwrap(), -9);
}

#[test]
fn from_json_takes_a_value_built_by_hand() {
    let mut members: StrMap<JsonValue> = StrMap::new();
    members.insert("params".to_string(), JsonValue::String("solo".to_string()));
    members.insert("method".to_string(), JsonValue::String("m".to_string()));
    members.insert("id".to_string(), JsonValue::String("i".to_string()));
    members.insert("jsonrpc".to_string(), JsonValue::String("2.0".to_string()));
    let message = Message::from_json(JsonValue::Object(members)).unwrap();
    assert_eq!(message.id(), "i");
    assert!(matches!(message.params(), Params::String(s) if s == "solo"));
    assert_eq!(
        Message::from_json(JsonValue::Null).unwrap_err(),
        ShapeError::NotAnObject
    );
}

#[test]
fn error_messages_name_the_field() {
    assert_eq!(ShapeError::MissingField(Field::Id).message(), "missing field `id`");
    assert_eq!(
        ShapeError::NotAString(Field::Method).message(),
        "invalid type for field `method`: expected a string"
    );
    assert_eq!(
        DecodeError::Shape(ShapeError::InvalidParams).message(),
        "invalid type for field `params`: expected a string, an array or an object"
    );
    assert_eq!(
        DecodeError::Shape(ShapeError::NotAnObject).message(),
        "invalid type: expected a message object"
    );
    assert_eq!(DecodeError::Syntax("oops".to_string()).message(), "oops");
}
