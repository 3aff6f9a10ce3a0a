use antigravity_proxy::signature::{
    clear_thought_signature, get_thought_sig_storage, get_thought_signature,
    store_thought_signature,
};

#[test]
fn the_longest_signature_stays() {
    let mut storage = get_thought_sig_storage();
    assert_eq!(get_thought_signature(&storage), None);
    store_thought_signature(&mut storage, "first");
    store_thought_signature(&mut storage, "1st");
    assert_eq!(get_thought_signature(&storage).as_deref(), Some("first"));
    store_thought_signature(&mut storage, "other");
    assert_eq!(get_thought_signature(&storage).as_deref(), Some("first"));
    store_thought_signature(&mut storage, "longer one");
    assert_eq!(get_thought_signature(&storage).as_deref(), Some("longer one"));
    assert_eq!(get_thought_signature(&storage).as_deref(), Some("longer one"));
}

#[test]
fn signatures_are_measured_in_bytes() {
    let mut storage = None;
    store_thought_signature(&mut storage, "abc");
    store_thought_signature(&mut storage, "éé");
    assert_eq!(storage.as_deref(), Some("éé"));
}

#[test]
fn after_a_clear_a_short_signature_is_stored() {
    let mut storage = Some("a long signature".to_string());
    clear_thought_signature(&mut storage);
    assert_eq!(storage, None);
    clear_thought_signature(&mut storage);
    assert_eq!(storage, None);
    store_thought_signature(&mut storage, "");
    assert_eq!(storage.as_deref(), Some(""));
}

#[test]
fn storing_twice_changes_nothing() {
    let mut storage = Some("abc".to_string());
    store_thought_signature(&mut storage, "abcd");
    let once = storage.clone();
    store_thought_signature(&mut storage, "abcd");
    assert_eq!(storage, once);
}
