use sockudo::ids::random_id;
use sockudo::json::Json;
use sockudo::table::{Dict, NameSet, Table};
use sockudo::text;

#[test]
fn text_is_compared_and_searched() {
    assert!(text::same("ä", "ä"));
    assert!(!text::same("a", "b"));
    assert!(text::starts_with("presence-x", "presence-"));
    assert!(!text::starts_with("pre", "presence-"));
    assert!(text::ends_with("abc", "bc"));
    assert!(!text::ends_with("abc", "ab"));
    assert!(text::contains("xcache-y", "cache-"));
    assert!(!text::contains("cache", "cache-"));
    assert!(text::contains("x", ""));
}

#[test]
fn text_is_split() {
    let (left, right) = text::split_once("a-b-c", '-').unwrap();
    assert_eq!((left.as_str(), right.as_str()), ("a", "b-c"));
    assert!(text::split_once("abc", '-').is_none());
    assert_eq!(text::split("a..b", '.'), vec!["a", "", "b"]);
    assert_eq!(text::split("", '.'), vec![""]);
}

#[test]
fn decimal_text_and_numbers_agree() {
    assert_eq!(text::decimal_text(0), "0");
    assert_eq!(text::decimal_text(u64::MAX), u64::MAX.to_string());
    assert_eq!(text::parse_number("18446744073709551615", u64::MAX), Some(u64::MAX));
    assert_eq!(text::parse_number("18446744073709551616", u64::MAX), None);
    assert_eq!(text::parse_number("+", 10), None);
}

#[test]
fn bytes_are_read_as_text() {
    assert_eq!(text::text_of(vec![104, 105]).unwrap(), "hi");
    assert!(text::text_of(vec![255]).is_err());
}

#[test]
fn json_is_read() {
    let value = Json::parse("{\"a\":\"x\",\"n\":1,\"o\":{\"b\":2}}").unwrap();
    assert_eq!(value.get_str("a"), Some("x".to_string()));
    assert_eq!(value.get_str("n"), None);
    assert!(value.get("zz").is_none());
    assert_eq!(value.get("o").unwrap().text(), "{\"b\":2}");
    assert_eq!(value.get("n").unwrap().text(), "1");
    let text = Json::parse("\"q\\\"q\"").unwrap();
    assert_eq!(text.as_str(), Some("q\"q".to_string()));
    assert_eq!(text.text(), "\"q\\\"q\"");
    assert!(text.get("a").is_none());
    assert!(Json::parse("[1").is_err());
    assert_eq!(Json::null().text(), "null");
    assert_eq!(Json::parse("[1, 2]").unwrap().text(), "[1,2]");
    assert!(Json::parse("[1, 2]").unwrap().get("a").is_none());
}

#[test]
fn json_keeps_the_value_that_was_read() {
    let text = "{\"f\":0.30000000000000004,\"n\":[1,2.5e-7,null,true]}";
    let value: serde_json::Value = serde_json::from_str(text).unwrap();
    let json = Json::from_value(value.clone());
    assert_eq!(json.value(), &value);
    assert_eq!(json.get("f").unwrap().value(), &value["f"]);
    assert_eq!(json.get("n").unwrap().text(), value["n"].to_string());
    assert_eq!(Json::parse(text).unwrap().value(), &value);
    assert_eq!(json.clone().text(), json.text());
    let pair = Json::pair("b", Json::boolean(true), "a", Json::number(7));
    assert_eq!(pair.text(), "{\"a\":7,\"b\":true}");
    assert_eq!(Json::object("a", Json::string("x".to_string())).text(), "{\"a\":\"x\"}");
    assert_eq!(Json::string("x".to_string()).payload(), "x");
    assert_eq!(Json::null().payload(), "null");
}

#[test]
fn table_keeps_one_value_for_each_key() {
    let mut table: Table<String> = Table::new();
    table.insert("a".to_string(), "1".to_string());
    table.insert("b".to_string(), "2".to_string());
    table.insert("a".to_string(), "3".to_string());
    assert_eq!(table.len(), 2);
    assert_eq!(table.get("a").unwrap(), "3");
    assert!(table.contains_key("b"));
    table.get_mut("b").unwrap().push('x');
    assert_eq!(table.get("b").unwrap(), "2x");
    assert!(table.get_mut("c").is_none());
    let mut keys = table.keys();
    keys.sort();
    assert_eq!(keys, vec!["a", "b"]);
    assert_eq!(table.remove("a"), Some("3".to_string()));
    assert_eq!(table.remove("a"), None);
    assert_eq!(table.get("b").unwrap(), "2x");
    assert_eq!(table.key_at(0), "b");
    assert_eq!(table.value_at(0), "2x");
    table.clear();
    assert_eq!(table.len(), 0);
    assert!(table.get("b").is_none());
}

#[test]
fn table_survives_removals_in_any_order() {
    let mut table: Table<String> = Table::new();
    for i in 0..50 {
        table.insert(format!("k{}", i), format!("v{}", i));
    }
    for i in (0..50).step_by(3) {
        assert_eq!(table.remove(&format!("k{}", i)), Some(format!("v{}", i)));
    }
    for i in 0..50 {
        let found = table.get(&format!("k{}", i)).cloned();
        assert_eq!(found, if i % 3 == 0 { None } else { Some(format!("v{}", i)) });
    }
}

#[test]
fn dict_keeps_the_order_of_keys() {
    let mut dict: Dict<String> = Dict::new();
    dict.insert("z".to_string(), "1".to_string());
    dict.insert("a".to_string(), "2".to_string());
    dict.insert("z".to_string(), "3".to_string());
    assert_eq!(dict.len(), 2);
    assert_eq!(dict.key_at(0), "z");
    assert_eq!(dict.value_at(0), "3");
    dict.get_mut("a").unwrap().push('!');
    assert_eq!(dict.get("a").unwrap(), "2!");
    assert_eq!(dict.remove("z"), Some("3".to_string()));
    assert!(!dict.contains_key("z"));
    assert_eq!(dict.remove("z"), None);
    assert!(dict.get("q").is_none());
}

#[test]
fn name_set_is_a_set() {
    let mut set = NameSet::new();
    assert!(set.is_empty());
    assert!(set.insert("a".to_string()));
    assert!(!set.insert("a".to_string()));
    assert!(set.insert("b".to_string()));
    assert_eq!(set.len(), 2);
    let copy = set.copy();
    assert!(set.remove("a"));
    assert!(!set.remove("a"));
    assert!(copy.contains("a") && !set.contains("a"));
    let mut items = copy.items();
    items.sort();
    assert_eq!(items, vec!["a", "b"]);
}

#[test]
fn random_ids_are_uuids() {
    let id = random_id();
    assert_eq!(id.len(), 36);
    assert_eq!(id.as_bytes()[14], b'4');
    assert!(id.chars().enumerate().all(|(i, c)| if [8, 13, 18, 23].contains(&i) {
        c == '-'
    } else {
        c.is_ascii_hexdigit() && !c.is_ascii_uppercase()
    }));
    assert_ne!(id, random_id());
}
