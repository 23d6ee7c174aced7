use lazyssh::store::KeyStore;

fn names(v: &[&str]) -> Vec<String> {
    v.iter().map(|s| s.to_string()).collect()
}

#[test]
fn scan_pair_and_plain_file() {
    let files = names(&["id_rsa", "id_rsa.pub", "known_hosts"]);
    let store = KeyStore::from_listing(&files);
    assert_eq!(store.len(), 2);
    let first = store.get(0);
    assert_eq!(first.base_name, "id_rsa");
    assert!(first.has_private);
    assert!(first.has_public);
    assert!(first.is_pair());
    let second = store.get(1);
    assert_eq!(second.base_name, "known_hosts");
    assert!(!second.is_pair());
}

#[test]
fn scan_empty_listing() {
    let files = names(&[]);
    let store = KeyStore::from_listing(&files);
    assert_eq!(store.len(), 0);
    assert!(store.is_empty());
}

#[test]
fn scan_public_only() {
    let files = names(&["orphan.pub"]);
    let store = KeyStore::from_listing(&files);
    assert_eq!(store.len(), 1);
    let e = store.get(0);
    assert_eq!(e.base_name, "orphan");
    assert!(!e.has_private);
    assert!(e.has_public);
    assert!(!e.is_pair());
}

#[test]
fn scan_double_suffix_is_standalone() {
    let files = names(&["weird.pub.pub"]);
    let store = KeyStore::from_listing(&files);
    assert_eq!(store.len(), 1);
    let e = store.get(0);
    assert_eq!(e.base_name, "weird.pub.pub");
    assert!(!e.has_private);
    assert!(!e.has_public);
}

#[test]
fn scan_bare_suffix_is_standalone() {
    let files = names(&[".pub"]);
    let store = KeyStore::from_listing(&files);
    assert_eq!(store.len(), 1);
    let e = store.get(0);
    assert_eq!(e.base_name, ".pub");
    assert!(!e.has_private);
    assert!(!e.has_public);
}

#[test]
fn scan_groups_in_display_order() {
    let files = names(&[
        "zz_alone",
        "key_b.pub",
        "key_a",
        "key_a.pub",
        "odd.pub.pub",
    ]);
    let store = KeyStore::from_listing(&files);
    assert_eq!(store.len(), 4);
    // pairs first
    let e0 = store.get(0);
    assert_eq!(e0.base_name, "key_a");
    assert!(e0.is_pair());
    // private-only next
    let e1 = store.get(1);
    assert_eq!(e1.base_name, "zz_alone");
    assert!(e1.has_private && !e1.has_public);
    // public-only next
    let e2 = store.get(2);
    assert_eq!(e2.base_name, "key_b");
    assert!(!e2.has_private && e2.has_public);
    // unrecognised last
    let e3 = store.get(3);
    assert_eq!(e3.base_name, "odd.pub.pub");
    assert!(!e3.has_private && !e3.has_public);
}

#[test]
fn scan_partitions_without_duplicates() {
    // every file contributes exactly one base name, and no base twice
    let files = names(&["a", "a.pub", "b.pub", "c.pub.pub", "d", "a", "b.pub"]);
    let store = KeyStore::from_listing(&files);
    assert_eq!(store.len(), 4);
    let mut bases: Vec<String> = Vec::new();
    for i in 0..store.len() {
        bases.push(store.get(i).base_name.clone());
    }
    let expected = ["a", "d", "b", "c.pub.pub"];
    for want in expected.iter() {
        assert_eq!(bases.iter().filter(|b| b.as_str() == *want).count(), 1);
    }
}

#[test]
fn missing_directory_sentinel() {
    let store = KeyStore::missing_directory();
    assert_eq!(store.len(), 1);
    let e = store.get(0);
    assert_eq!(e.base_name, "No SSH files found");
    assert!(!e.is_pair());
}

#[test]
fn remove_keeps_order_of_rest() {
    let files = names(&["a", "b", "c"]);
    let mut store = KeyStore::from_listing(&files);
    assert_eq!(store.len(), 3);
    store.remove(1);
    assert_eq!(store.len(), 2);
    assert_eq!(store.get(0).base_name, "a");
    assert_eq!(store.get(1).base_name, "c");
}

#[test]
fn entry_file_names() {
    let files = names(&["id_ed25519", "id_ed25519.pub"]);
    let store = KeyStore::from_listing(&files);
    let e = store.get(0);
    assert_eq!(e.private_file_name(), "id_ed25519");
    assert_eq!(e.public_file_name(), "id_ed25519.pub");
    assert_eq!(e.content_file_name(), "id_ed25519.pub");
    assert_eq!(e.file_label(), "id_ed25519");
}

#[test]
fn entry_label_of_public_only() {
    let files = names(&["orphan.pub"]);
    let store = KeyStore::from_listing(&files);
    let e = store.get(0);
    assert_eq!(e.file_label(), "orphan.pub");
    assert_eq!(e.content_file_name(), "orphan.pub");
}

#[test]
fn created_pair_appears_in_next_scan() {
    // the two files a successful create writes scan as one pair
    let files = names(&["id_ed25519_1700000000", "id_ed25519_1700000000.pub"]);
    let store = KeyStore::from_listing(&files);
    assert_eq!(store.len(), 1);
    let e = store.get(0);
    assert_eq!(e.base_name, "id_ed25519_1700000000");
    assert!(e.has_private);
    assert!(e.has_public);
}
