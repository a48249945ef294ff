use tikclip::json::{as_array, as_i64, as_str, get, is_null, json_to_string, parse_json, value_as_i64};
use tikclip::time_hcm::{now_timestamp_hcm, SQL_NOW_HCM};

fn doc(text: &str) -> tikclip::json::JsonValue {
    let chars: Vec<char> = text.chars().collect();
    parse_json(&chars).unwrap()
}

#[test]
fn parsed_documents_are_read_by_key() {
    let v = doc(r#"{"a":{"b":[1,"2",null]},"n":-5,"s":"x"}"#);
    assert_eq!(as_i64(get(&v, "n").unwrap()), Some(-5));
    assert_eq!(as_str(get(&v, "s").unwrap()), Some("x"));
    let items = as_array(get(get(&v, "a").unwrap(), "b").unwrap()).unwrap();
    assert_eq!(items.len(), 3);
    assert_eq!(value_as_i64(&items[1]), Some(2));
    assert!(is_null(&items[2]));
    assert!(get(&v, "missing").is_none());
}

#[test]
fn documents_serialize_compactly() {
    assert_eq!(json_to_string(&doc(" { \"k\" : [ true , 1.5 ] } ")), r#"{"k":[true,1.5]}"#);
}

#[test]
fn invalid_documents_are_errors() {
    let chars: Vec<char> = "{".chars().collect();
    assert!(parse_json(&chars).is_err());
}

#[test]
fn hcm_timestamp_has_sql_shape() {
    let now = now_timestamp_hcm();
    assert_eq!(now.len(), 19);
    assert_eq!(&now[4..5], "-");
    assert_eq!(&now[10..11], " ");
    assert_eq!(SQL_NOW_HCM, "datetime('now', '+7 hours')");
}
