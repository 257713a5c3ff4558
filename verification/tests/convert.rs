use fastcall::dynamic::{convert, convert_list, convert_members, convert_number, DynamicValue};
use fastcall::json::{JsonNumber, JsonValue};
use fastcall::strmap::StrMap;

fn parsed(text: &str) -> JsonValue {
    JsonValue::parse(text).unwrap()
}

#[test]
fn convert_keeps_whole_numbers_whole() {
    for (text, want) in [
        ("0", 0i64),
        ("42", 42),
        ("-1", -1),
        ("9223372036854775807", i64::MAX),
        ("-9223372036854775808", i64::MIN),
    ] {
        match convert(&parsed(text)) {
            DynamicValue::Int(n) => assert_eq!(n, want),
            other => panic!("{}: unexpected {:?}", text, other),
        }
    }
}

#[test]
fn convert_keeps_fractions_and_exponents_floating() {
    for (text, want) in [("1.5", 1.5f64), ("1.0", 1.0), ("1e2", 100.0), ("-0.25", -0.25), ("2E-3", 0.002)] {
        match convert(&parsed(text)) {
            DynamicValue::Float(shown) => assert_eq!(shown.parse::<f64>().unwrap(), want),
            other => panic!("{}: unexpected {:?}", text, other),
        }
    }
}

#[test]
fn convert_whole_number_beyond_native_range_is_floating() {
    match convert(&parsed("9223372036854775808")) {
        DynamicValue::Float(shown) => {
            assert_eq!(shown, "9223372036854775808");
            assert_eq!(shown.parse::<f64>().unwrap(), 9223372036854775808u64 as f64);
        }
        other => panic!("unexpected {:?}", other),
    }
    match convert_number(&JsonNumber::PosInt(u64::MAX)) {
        DynamicValue::Float(shown) => assert_eq!(shown, "18446744073709551615"),
        other => panic!("unexpected {:?}", other),
    }
    match convert(&parsed("123456789012345678901234567890")) {
        DynamicValue::Float(shown) => {
            assert_eq!(shown.parse::<f64>().unwrap(), 123456789012345678901234567890f64)
        }
        other => panic!("unexpected {:?}", other),
    }
}

#[test]
fn convert_number_by_variant() {
    assert!(matches!(convert_number(&JsonNumber::PosInt(5)), DynamicValue::Int(5)));
    assert!(matches!(convert_number(&JsonNumber::NegInt(-5)), DynamicValue::Int(-5)));
    match convert_number(&JsonNumber::Float("0.5".to_string())) {
        DynamicValue::Float(shown) => assert_eq!(shown, "0.5"),
        other => panic!("unexpected {:?}", other),
    }
}

#[test]
fn convert_scalars() {
    assert!(matches!(convert(&JsonValue::Null), DynamicValue::Null));
    assert!(matches!(convert(&JsonValue::Bool(true)), DynamicValue::Bool(true)));
    assert!(matches!(convert(&JsonValue::Bool(false)), DynamicValue::Bool(false)));
    match convert(&JsonValue::String("a \"b\" \\ c".to_string())) {
        DynamicValue::String(s) => assert_eq!(s, "a \"b\" \\ c"),
        other => panic!("unexpected {:?}", other),
    }
}

#[test]
fn convert_nested_structure() {
    let value = parsed("{\"list\": [1, [2, {\"deep\": [null, \"x\"]}]], \"flag\": false}");
    let converted = convert(&value);
    let entries = match &converted {
        DynamicValue::Dict(entries) => entries,
        other => panic!("unexpected {:?}", other),
    };
    assert_eq!(entries.len(), 2);
    assert!(matches!(entries.get("flag"), Some(DynamicValue::Bool(false))));
    let list = match entries.get("list") {
        Some(DynamicValue::List(items)) => items,
        other => panic!("unexpected {:?}", other),
    };
    assert!(matches!(list[0], DynamicValue::Int(1)));
    let inner = match &list[1] {
        DynamicValue::List(items) => items,
        other => panic!("unexpected {:?}", other),
    };
    assert!(matches!(inner[0], DynamicValue::Int(2)));
    let deep = match &inner[1] {
        DynamicValue::Dict(entries) => entries.get("deep"),
        other => panic!("unexpected {:?}", other),
    };
    match deep {
        Some(DynamicValue::List(items)) => {
            assert_eq!(items.len(), 2);
            assert!(matches!(items[0], DynamicValue::Null));
            assert!(matches!(&items[1], DynamicValue::String(s) if s == "x"));
        }
        other => panic!("unexpected {:?}", other),
    }
}

#[test]
fn convert_deeply_nested_arrays() {
    let depth = 100;
    let text = "[".repeat(depth) + &"]".repeat(depth);
    let mut value = convert(&parsed(&text));
    for _ in 0..depth - 1 {
        value = match value {
            DynamicValue::List(mut items) => {
                assert_eq!(items.len(), 1);
                items.pop().unwrap()
            }
            other => panic!("unexpected {:?}", other),
        };
    }
    assert!(matches!(value, DynamicValue::List(items) if items.is_empty()));
}

#[test]
fn convert_list_keeps_order() {
    let items = vec![
        JsonValue::Number(JsonNumber::PosInt(1)),
        JsonValue::Null,
        JsonValue::String("z".to_string()),
    ];
    let list = convert_list(&items);
    assert_eq!(list.len(), 3);
    assert!(matches!(list[0], DynamicValue::Int(1)));
    assert!(matches!(list[1], DynamicValue::Null));
    assert!(matches!(&list[2], DynamicValue::String(s) if s == "z"));
    assert!(convert_list(&Vec::new()).is_empty());
}

#[test]
fn convert_members_keeps_keys_and_order() {
    let mut members: StrMap<JsonValue> = StrMap::new();
    members.insert("z".to_string(), JsonValue::Bool(true));
    members.insert("a".to_string(), JsonValue::Number(JsonNumber::NegInt(-3)));
    let dict = convert_members(&members);
    assert_eq!(dict.len(), 2);
    let (key, value) = dict.entry(0).unwrap();
    assert_eq!(key, "z");
    assert!(matches!(value, DynamicValue::Bool(true)));
    let (key, value) = dict.entry(1).unwrap();
    assert_eq!(key, "a");
    assert!(matches!(value, DynamicValue::Int(-3)));
    assert!(dict.entry(2).is_none());
}
