use bitwarden_rofi::bitwarden::{Error, Session};

#[test]
fn open_keeps_token() {
    let s = Session::open("tok-123");
    assert_eq!(s.key, "tok-123");
}

#[test]
fn unlock_empty_output_is_unlock_failed() {
    match Session::unlock("") {
        Err(Error::UnlockFailed) => {},
        other => panic!("unexpected: {:?}", other.map(|s| s.key)),
    }
}

#[test]
fn unlock_nonempty_output_is_the_token() {
    match Session::unlock("fresh-token") {
        Ok(s) => assert_eq!(s.key, "fresh-token"),
        Err(e) => panic!("unexpected error: {:?}", e),
    }
}

#[test]
fn check_for_errors_spots_the_banner() {
    assert!(matches!(
        Session::check_for_errors("Failed to decrypt. Something else."),
        Err(Error::FailedToDecrypt)
    ));
    assert!(Session::check_for_errors("[]").is_ok());
}

#[test]
fn decode_output_classifies_bytes() {
    assert!(matches!(Session::decode_output(vec![0xFF, 0xFE]), Err(Error::EncodingError)));
    let banner = b"Failed to decrypt.".to_vec();
    assert!(matches!(Session::decode_output(banner), Err(Error::FailedToDecrypt)));
    assert_eq!(Session::decode_output(b"[]".to_vec()).unwrap(), "[]");
}

#[test]
fn lock_requires_the_exact_confirmation() {
    let s = Session::open("t");
    assert!(s.lock("Your vault is locked.").is_ok());
    match s.lock("Your vault is locked") {
        Err(Error::UnexpectedResponse(raw)) => assert_eq!(raw, "Your vault is locked"),
        other => panic!("unexpected: {:?}", other),
    }
}

#[test]
fn requests_never_carry_the_token_in_args() {
    let s = Session::open("secret-token");
    let reqs = vec![
        s.status_request(),
        s.lock_request(),
        s.sync_request(),
        s.list_folders_request(),
        s.list_items_request(),
        s.get_request("password", "some-id"),
    ];
    for req in reqs {
        for arg in &req.args {
            assert_ne!(arg, "secret-token");
        }
        assert!(req.use_token);
    }
    let unlock = Session::unlock_request("hunter2");
    assert_eq!(unlock.args, vec!["unlock".to_string(), "--raw".to_string()]);
    assert_eq!(unlock.stdin.as_deref(), Some("hunter2"));
    assert!(!unlock.use_token);
}

#[test]
fn is_unlocked_compares_the_status_literal() {
    let s = Session::open("t");
    let unlocked = "{\"serverUrl\":\"https://example.com\",\"lastSync\":null,\
                    \"userEmail\":\"me@example.com\",\"userId\":\"u1\",\"status\":\"unlocked\"}";
    assert_eq!(s.is_unlocked(unlocked).unwrap(), true);
    let locked = "{\"status\":\"locked\"}";
    assert_eq!(s.is_unlocked(locked).unwrap(), false);
    assert!(matches!(s.is_unlocked("not json"), Err(Error::ProtocolError(_))));
}

#[test]
fn status_keeps_optional_fields_when_present() {
    let s = Session::open("t");
    let st = s
        .status("{\"serverUrl\":\"https://x\",\"lastSync\":\"2020-01-01T00:00:00Z\",\"status\":\"locked\"}")
        .unwrap();
    assert_eq!(st.server_url.as_deref(), Some("https://x"));
    assert_eq!(st.last_sync.as_deref(), Some("2020-01-01T00:00:00Z"));
    assert_eq!(st.user_email, None);
    assert_eq!(st.status, "locked");
}

#[test]
fn sync_accepts_any_json_and_rejects_text() {
    let s = Session::open("t");
    assert!(s.sync("{}").is_ok());
    assert!(s.sync("null").is_ok());
    assert!(matches!(s.sync("Syncing complete."), Err(Error::ProtocolError(_))));
}

#[test]
fn protocol_error_excerpt_is_bounded() {
    let s = Session::open("t");
    let long_garbage: String = "x".repeat(200);
    match s.list_items(&long_garbage) {
        Err(Error::ProtocolError(excerpt)) => {
            assert_eq!(excerpt.chars().count(), 64);
            assert!(long_garbage.starts_with(&excerpt));
        },
        other => panic!("unexpected: {:?}", other.map(|v| v.len())),
    }
}

#[test]
fn list_folders_reads_backend_records() {
    let s = Session::open("t");
    let out = "[{\"object\":\"folder\",\"id\":null,\"name\":\"No Folder\"},\
               {\"object\":\"folder\",\"id\":\"f1\",\"name\":\"work/mail\",\"extra\":true}]";
    let folders = s.list_folders(out).unwrap();
    assert_eq!(folders.len(), 2);
    assert_eq!(folders[0].id, None);
    assert_eq!(folders[0].name, "No Folder");
    assert_eq!(folders[1].id.as_deref(), Some("f1"));
    assert_eq!(folders[1].name, "work/mail");
}

#[test]
fn list_items_reads_backend_records() {
    let s = Session::open("t");
    let out = "[{\"object\":\"item\",\"id\":\"i1\",\"name\":\"mail\",\"folderId\":\"f1\",\
               \"organizationId\":null,\"type\":1,\"notes\":null,\"favorite\":false,\
               \"login\":{\"username\":\"me\",\"password\":\"pw\",\"totp\":null,\
               \"passwordRevisionDate\":null,\"uris\":[{\"uri\":\"https://x\",\"match\":null}]},\
               \"collectionIds\":[\"c1\"],\"revisionDate\":\"2021-05-01T10:00:00Z\"}]";
    let items = s.list_items(out).unwrap();
    assert_eq!(items.len(), 1);
    let it = &items[0];
    assert_eq!(it.id, "i1");
    assert_eq!(it.name, "mail");
    assert_eq!(it.folder_id.as_deref(), Some("f1"));
    assert_eq!(it.type_, 1);
    assert!(!it.favorite);
    let login = it.login.as_ref().unwrap();
    assert_eq!(login.username.as_deref(), Some("me"));
    assert_eq!(login.password.as_deref(), Some("pw"));
    assert_eq!(login.totp, None);
    assert_eq!(login.uris.len(), 1);
    assert_eq!(it.collection_ids, vec!["c1".to_string()]);
}

#[test]
fn list_items_rejects_records_missing_required_members() {
    let s = Session::open("t");
    let out = "[{\"object\":\"item\",\"id\":\"i1\"}]";
    assert!(matches!(s.list_items(out), Err(Error::ProtocolError(_))));
}
