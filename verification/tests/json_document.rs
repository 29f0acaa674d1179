use btrls::entry::{EntryMeta, EntryType, FileEntry};
use btrls::json::{entry_to_json, json_array, json_object, to_json};
use btrls::listing::get_data;
use btrls::stamp::Timestamp;
use serde_json::Value;

fn row(name: &str, e_type: EntryType, hidden: bool) -> FileEntry {
    FileEntry {
        e_type,
        name: name.to_string(),
        len_bytes: "100.00 B".to_string(),
        modified: "Jan  1 2024 10:00".to_string(),
        read_only: true,
        hidden,
        is_exec: false,
    }
}

fn meta(name: &str, is_dir: bool, len: u64) -> Option<EntryMeta> {
    Some(EntryMeta {
        name: Some(name.to_string()),
        is_dir,
        len,
        tree_sizes: Vec::new(),
        modified: Some(Timestamp { secs: 0, nanos: 0, offset: 0 }),
        read_only: false,
        executable: false,
    })
}

#[test]
fn an_object_is_framed_from_its_parts() {
    assert_eq!(
        json_object("\"File\"", "\"a\"", "\"1\"", "\"\"", true, false, true),
        "{\"e_type\":\"File\",\"name\":\"a\",\"len_bytes\":\"1\",\"modified\":\"\",\
         \"read_only\":true,\"hidden\":false,\"is_exec\":true}"
    );
}

#[test]
fn an_entry_becomes_one_object() {
    let text = entry_to_json(&row("a.txt", EntryType::File, false));
    assert_eq!(
        text,
        "{\"e_type\":\"File\",\"name\":\"a.txt\",\"len_bytes\":\"100.00 B\",\
         \"modified\":\"Jan  1 2024 10:00\",\"read_only\":true,\"hidden\":false,\
         \"is_exec\":false}"
    );
}

#[test]
fn names_are_escaped() {
    let odd = row("a\"b\\c\nd", EntryType::Dir, true);
    let text = entry_to_json(&odd);
    assert!(text.contains("\"name\":\"a\\\"b\\\\c\\nd\""));
    let value: Value = serde_json::from_str(&text).unwrap();
    assert_eq!(value["name"], Value::String("a\"b\\c\nd".to_string()));
    assert_eq!(value["e_type"], Value::String("Dir".to_string()));
    assert_eq!(value["hidden"], Value::Bool(true));
}

#[test]
fn objects_are_joined_with_commas_inside_brackets() {
    assert_eq!(json_array(&Vec::new()), "[]");
    assert_eq!(json_array(&vec!["{}".to_string()]), "[{}]");
    assert_eq!(
        json_array(&vec!["{\"a\":1}".to_string(), "{}".to_string(), "2".to_string()]),
        "[{\"a\":1},{},2]"
    );
}

#[test]
fn an_empty_listing_is_an_empty_array() {
    assert_eq!(to_json(&Vec::new()), "[]");
}

#[test]
fn a_listing_is_an_array_in_listing_order() {
    let entries = vec![
        row("sub", EntryType::Dir, false),
        row("a.txt", EntryType::File, false),
        row(".secret", EntryType::File, true),
    ];
    let text = to_json(&entries);
    let value: Value = serde_json::from_str(&text).unwrap();
    let items = value.as_array().unwrap();
    assert_eq!(items.len(), 3);
    let names: Vec<&str> = items.iter().map(|v| v["name"].as_str().unwrap()).collect();
    assert_eq!(names, ["sub", "a.txt", ".secret"]);
    for item in items {
        let object = item.as_object().unwrap();
        for field in ["e_type", "name", "len_bytes", "modified", "read_only"] {
            assert!(object.contains_key(field));
        }
        assert_eq!(object.len(), 7);
    }
}

#[test]
fn json_of_the_default_listing_holds_exactly_the_shown_entries() {
    let directory = Some(vec![
        meta("a.txt", false, 100),
        meta("sub", true, 4096),
        meta(".secret", false, 10),
    ]);
    let shown = get_data(&directory, false, false, false, false).unwrap();
    let value: Value = serde_json::from_str(&to_json(&shown)).unwrap();
    let items = value.as_array().unwrap();
    assert_eq!(items.len(), 2);
    assert_eq!(items[0]["name"], Value::String("sub".to_string()));
    assert_eq!(items[0]["e_type"], Value::String("Dir".to_string()));
    assert_eq!(items[1]["name"], Value::String("a.txt".to_string()));
    assert_eq!(items[1]["len_bytes"], Value::String("100.00 B".to_string()));
    assert_eq!(items[1]["modified"], Value::String("Jan  1 1970 00:00".to_string()));
    assert_eq!(items[1]["read_only"], Value::Bool(false));
}
