use bitwarden_rofi::cache::Cache;
use bitwarden_rofi::codec::{decode_items, encode_items};
use bitwarden_rofi::item::{Field, Item};

fn sample_items() -> Vec<Item> {
    vec![
        Item {
            id: "id-1".to_string(),
            title: "work/mail".to_string(),
            fields: vec![Field::Username, Field::Password],
        },
        Item {
            id: "id-2".to_string(),
            title: "quote\"back\\slash\nnewline\ttab".to_string(),
            fields: vec![Field::Totp, Field::Other("pin code".to_string())],
        },
        Item { id: "".to_string(), title: "unicode \u{1F511} ok".to_string(), fields: vec![] },
    ]
}

#[test]
fn replace_then_load_round_trips() {
    let mut cache = Cache::try_load("cache.json".to_string(), None);
    assert_eq!(cache.items().len(), 0);
    let contents = cache.replace(sample_items());
    assert_eq!(cache.items(), &sample_items());
    let reloaded = Cache::try_load("cache.json".to_string(), Some(contents));
    assert_eq!(reloaded.items(), &sample_items());
}

#[test]
fn replace_keeps_list_even_if_caller_write_fails() {
    let mut cache = Cache::try_load("cache.json".to_string(), None);
    let _contents_never_written = cache.replace(sample_items());
    assert_eq!(cache.items(), &sample_items());
}

#[test]
fn try_load_missing_file_yields_empty() {
    let cache = Cache::try_load("missing.json".to_string(), None);
    assert_eq!(cache.items().len(), 0);
    assert_eq!(cache.path(), "missing.json");
}

#[test]
fn try_load_invalid_json_yields_empty() {
    let cache = Cache::try_load("broken.json".to_string(), Some("not json at all {".to_string()));
    assert_eq!(cache.items().len(), 0);
}

#[test]
fn try_load_wrong_shape_yields_empty() {
    let cache = Cache::try_load("odd.json".to_string(), Some("{\"a\": 1}".to_string()));
    assert_eq!(cache.items().len(), 0);
    let cache = Cache::try_load("odd.json".to_string(), Some("[{\"id\":\"x\"}]".to_string()));
    assert_eq!(cache.items().len(), 0);
}

#[test]
fn encode_one_item_exact_text() {
    let items = vec![Item {
        id: "a".to_string(),
        title: "t".to_string(),
        fields: vec![Field::Username],
    }];
    let text = encode_items(&items);
    assert_eq!(text, "[{\"id\":\"a\",\"title\":\"t\",\"fields\":[\"Username\"]}]");
}

#[test]
fn encode_escapes_specials_exact_text() {
    let items = vec![Item {
        id: "x".to_string(),
        title: "a\"b\\c\nd".to_string(),
        fields: vec![],
    }];
    let text = encode_items(&items);
    assert_eq!(text, "[{\"id\":\"x\",\"title\":\"a\\\"b\\\\c\\u000ad\",\"fields\":[]}]");
}

#[test]
fn encode_other_field_exact_text() {
    let items = vec![Item {
        id: "a".to_string(),
        title: "t".to_string(),
        fields: vec![Field::Other("extra".to_string())],
    }];
    let text = encode_items(&items);
    assert_eq!(text, "[{\"id\":\"a\",\"title\":\"t\",\"fields\":[{\"Other\":\"extra\"}]}]");
}

#[test]
fn decode_tolerates_whitespace_and_key_order() {
    let text = " [ {\"title\":\"t\", \"fields\":[], \"id\":\"a\", \"extra\": 5} ] ";
    let items = decode_items(text).expect("decodes");
    assert_eq!(items.len(), 1);
    assert_eq!(items[0].id, "a");
    assert_eq!(items[0].title, "t");
    assert!(items[0].fields.is_empty());
}

#[test]
fn decode_rejects_missing_member() {
    assert!(decode_items("[{\"id\":\"a\",\"fields\":[]}]").is_none());
}

#[test]
fn empty_list_round_trips() {
    let mut cache = Cache::try_load("c.json".to_string(), None);
    let contents = cache.replace(vec![]);
    assert_eq!(contents, "[]");
    let reloaded = Cache::try_load("c.json".to_string(), Some(contents));
    assert_eq!(reloaded.items().len(), 0);
}
