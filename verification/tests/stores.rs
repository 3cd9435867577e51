use wakili_backend::keys::CallerId;
use wakili_backend::service::{
    get_document, get_user_documents, get_user_profile, update_user_name, update_user_profile,
    ServiceState,
};
use wakili_backend::store::DocumentStore;

fn caller(text: &str) -> CallerId {
    CallerId { anonymous: false, text: text.to_string() }
}

#[test]
fn first_touch_creates_profile_with_zero_count() {
    let mut state = ServiceState::new();
    let c = caller("aaaaa-aa");
    update_user_profile(&mut state, &c, 41);
    let p = get_user_profile(&state, &c).unwrap();
    assert_eq!(p.document_count, 0);
    assert!(p.name.is_none());
    assert_eq!(p.last_active, 41);
}

#[test]
fn touch_refreshes_but_keeps_fields() {
    let mut state = ServiceState::new();
    let c = caller("aaaaa-aa");
    update_user_name(&mut state, &c, "Amina".to_string(), 5).unwrap();
    update_user_profile(&mut state, &c, 9);
    let p = get_user_profile(&state, &c).unwrap();
    assert_eq!(p.name.as_deref(), Some("Amina"));
    assert_eq!(p.document_count, 0);
    assert_eq!(p.last_active, 9);
}

#[test]
fn profile_not_found_before_any_interaction() {
    let state = ServiceState::new();
    let c = caller("aaaaa-aa");
    let e = get_user_profile(&state, &c).unwrap_err();
    assert_eq!(e.message(), "Profile not found");
}

#[test]
fn update_user_name_overwrites_name() {
    let mut state = ServiceState::new();
    let c = caller("aaaaa-aa");
    update_user_name(&mut state, &c, "Amina".to_string(), 5).unwrap();
    update_user_name(&mut state, &c, "Bakari".to_string(), 6).unwrap();
    let p = get_user_profile(&state, &c).unwrap();
    assert_eq!(p.name.as_deref(), Some("Bakari"));
    assert_eq!(p.last_active, 6);
}

#[test]
fn put_get_round_trip_byte_for_byte() {
    let mut docs = DocumentStore::new();
    let text = "line one\n\ttab \"quoted\" backslash \\ unicode \u{2713}";
    docs.put("doc_a_1".to_string(), text.to_string());
    let back = docs.get(&"doc_a_1".to_string()).unwrap();
    assert_eq!(back.as_bytes(), text.as_bytes());
}

#[test]
fn put_overwrites_on_colliding_key() {
    let mut docs = DocumentStore::new();
    docs.put("doc_a_1".to_string(), "first".to_string());
    docs.put("doc_a_1".to_string(), "second".to_string());
    assert_eq!(docs.get(&"doc_a_1".to_string()).unwrap(), "second");
}

#[test]
fn get_document_not_found_message() {
    let state = ServiceState::new();
    let c = caller("aaaaa-aa");
    let e = get_document(&state, &c, &"doc_a_1".to_string()).unwrap_err();
    assert_eq!(e.message(), "Document not found");
}

#[test]
fn listing_is_scoped_to_the_owner_prefix() {
    let mut state = ServiceState::new();
    state.documents.put("doc_aaaaa-aa_7".to_string(), "mine".to_string());
    state.documents.put("doc_aaaaa-aa_9".to_string(), "mine too".to_string());
    state.documents.put("doc_bbbbb-bb_7".to_string(), "theirs".to_string());
    let c = caller("aaaaa-aa");
    let mut listed = get_user_documents(&state, &c).unwrap();
    listed.sort();
    assert_eq!(
        listed,
        vec![
            ("doc_aaaaa-aa_7".to_string(), "mine".to_string()),
            ("doc_aaaaa-aa_9".to_string(), "mine too".to_string()),
        ]
    );
}
