use bitwarden_rofi::bitwarden::{Folder, Item as BwItem, Login, Session};
use bitwarden_rofi::item::Field;
use bitwarden_rofi::provider::{Provider, ProviderError};
use bitwarden_rofi::providers::bitwarden::{
    list_items_from_outputs, normalize_items, read_field_request, Bitwarden, Config,
};
use bitwarden_rofi::providers::keyhub::{Config as KeyhubConfig, Keyhub};
use bitwarden_rofi::providers::password_store::{Config as PassConfig, PasswordStore};
use bitwarden_rofi::providers::terraform::{Config as TfConfig, Terraform};

fn bw_item(id: &str, name: &str, folder_id: Option<&str>, login: Option<Login>) -> BwItem {
    BwItem {
        object: "item".to_string(),
        id: id.to_string(),
        name: name.to_string(),
        folder_id: folder_id.map(|s| s.to_string()),
        organization_id: None,
        type_: 1,
        notes: None,
        favorite: false,
        login,
        collection_ids: vec![],
        revision_date: "2021-01-01T00:00:00Z".to_string(),
    }
}

fn login(username: Option<&str>, password: Option<&str>, totp: Option<&str>) -> Login {
    Login {
        username: username.map(|s| s.to_string()),
        password: password.map(|s| s.to_string()),
        totp: totp.map(|s| s.to_string()),
        password_revision_date: None,
        uris: vec![],
    }
}

fn folders() -> Vec<Folder> {
    vec![
        Folder { object: "folder".to_string(), id: None, name: "No Folder".to_string() },
        Folder { object: "folder".to_string(), id: Some("f1".to_string()), name: "A/B".to_string() },
        Folder { object: "folder".to_string(), id: Some("f2".to_string()), name: "plain".to_string() },
    ]
}

#[test]
fn folder_resolution_no_folder_yields_bare_name() {
    let items = normalize_items(&folders(), &vec![bw_item("i1", "entry", None, None)]);
    assert_eq!(items[0].title, "entry");
}

#[test]
fn folder_resolution_dangling_reference_yields_bare_name() {
    let items = normalize_items(&folders(), &vec![bw_item("i1", "entry", Some("missing"), None)]);
    assert_eq!(items[0].title, "entry");
}

#[test]
fn folder_resolution_splits_folder_name_on_slash() {
    let items = normalize_items(&folders(), &vec![bw_item("i1", "entry", Some("f1"), None)]);
    assert_eq!(items[0].title, "A/B/entry");
    let items = normalize_items(&folders(), &vec![bw_item("i2", "other", Some("f2"), None)]);
    assert_eq!(items[0].title, "plain/other");
}

#[test]
fn duplicate_folder_ids_resolve_to_the_later_entry() {
    let mut fs = folders();
    fs.push(Folder {
        object: "folder".to_string(),
        id: Some("f1".to_string()),
        name: "newer".to_string(),
    });
    let items = normalize_items(&fs, &vec![bw_item("i1", "entry", Some("f1"), None)]);
    assert_eq!(items[0].title, "newer/entry");
}

#[test]
fn fields_reflect_confirmed_secrets_only() {
    let raw = vec![
        bw_item("i1", "a", None, Some(login(Some("me"), Some("pw"), Some("otp")))),
        bw_item("i2", "b", None, Some(login(None, Some("pw"), None))),
        bw_item("i3", "c", None, None),
    ];
    let items = normalize_items(&folders(), &raw);
    assert_eq!(items[0].fields, vec![Field::Username, Field::Password, Field::Totp]);
    assert_eq!(items[1].fields, vec![Field::Password]);
    assert!(items[2].fields.is_empty());
}

#[test]
fn declared_fields_are_readable_and_others_are_refused() {
    let session = Session::open("tok");
    let raw = vec![bw_item("i1", "a", None, Some(login(Some("me"), None, Some("otp"))))];
    let items = normalize_items(&folders(), &raw);
    let item = &items[0];

    let req = read_field_request(&session, item, &Field::Username).expect("declared");
    assert_eq!(req.args, vec!["get".to_string(), "username".to_string(), "i1".to_string()]);
    let req = read_field_request(&session, item, &Field::Totp).expect("declared");
    assert_eq!(req.args, vec!["get".to_string(), "totp".to_string(), "i1".to_string()]);

    assert!(matches!(
        read_field_request(&session, item, &Field::Password),
        Err(ProviderError::CapabilityViolation)
    ));
    assert!(matches!(
        read_field_request(&session, item, &Field::Other("pin".to_string())),
        Err(ProviderError::CapabilityViolation)
    ));
}

#[test]
fn listing_from_outputs_normalizes() {
    let session = Session::open("tok");
    let folders_out = "[{\"object\":\"folder\",\"id\":\"f1\",\"name\":\"A/B\"}]";
    let items_out = "[{\"object\":\"item\",\"id\":\"i1\",\"name\":\"mail\",\"folderId\":\"f1\",\
                     \"type\":1,\"favorite\":false,\
                     \"login\":{\"username\":\"me\",\"password\":null,\"totp\":null},\
                     \"collectionIds\":[],\"revisionDate\":\"2021-01-01T00:00:00Z\"}]";
    let items = list_items_from_outputs(&session, folders_out, items_out).unwrap();
    assert_eq!(items.len(), 1);
    assert_eq!(items[0].id, "i1");
    assert_eq!(items[0].title, "A/B/mail");
    assert_eq!(items[0].fields, vec![Field::Username]);
}

#[test]
fn two_listings_from_the_same_outputs_are_equal() {
    let session = Session::open("tok");
    let folders_out = "[{\"object\":\"folder\",\"id\":\"f1\",\"name\":\"A/B\"}]";
    let items_out = "[{\"object\":\"item\",\"id\":\"i1\",\"name\":\"mail\",\"folderId\":\"f1\",\
                     \"type\":1,\"favorite\":false,\
                     \"login\":{\"username\":\"me\",\"password\":\"pw\",\"totp\":null},\
                     \"collectionIds\":[],\"revisionDate\":\"2021-01-01T00:00:00Z\"}]";
    let first = list_items_from_outputs(&session, folders_out, items_out).unwrap();
    let second = list_items_from_outputs(&session, folders_out, items_out).unwrap();
    assert_eq!(first, second);
}

#[test]
fn bitwarden_provider_starts_without_a_session() {
    let provider = Bitwarden::new("main", Config { cache: true });
    assert_eq!(provider.id, "main");
    assert!(provider.session.is_none());
    assert!(provider.config.cache);
}

#[test]
fn stub_providers_list_nothing() {
    let mut keyhub = Keyhub::new(KeyhubConfig { path: "p".to_string(), wrapper: vec![] });
    assert!(keyhub.list_items().unwrap().is_empty());
    assert!(keyhub.list_actions().unwrap().is_empty());

    let mut pass = PasswordStore::new(PassConfig { path: "p".to_string() });
    assert!(pass.list_items().unwrap().is_empty());

    let mut tf = Terraform::new(TfConfig { path: "p".to_string(), wrapper: vec![] });
    assert!(tf.list_items().unwrap().is_empty());
}
