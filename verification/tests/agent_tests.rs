use lazyssh::agent::fingerprint_from_output;
use lazyssh::agent::any_line_contains;
use lazyssh::agent::AgentStatus;
use lazyssh::agent::AgentStatusResolver;
use lazyssh::store::KeyStore;

#[test]
fn fingerprint_is_second_token() {
    let out = "2048 SHA256:AbCdEf user@host (RSA)\n";
    assert_eq!(fingerprint_from_output(out), "SHA256:AbCdEf");
}

#[test]
fn fingerprint_with_leading_whitespace() {
    let out = "   256\t SHA256:xyz comment";
    assert_eq!(fingerprint_from_output(out), "SHA256:xyz");
}

#[test]
fn fingerprint_of_empty_output() {
    assert_eq!(fingerprint_from_output(""), "");
}

#[test]
fn fingerprint_of_single_token() {
    assert_eq!(fingerprint_from_output("2048"), "");
    assert_eq!(fingerprint_from_output("2048   "), "");
}

#[test]
fn listing_line_match() {
    let listing = "2048 SHA256:first user@host (RSA)\n256 SHA256:second other (ED25519)\n";
    assert!(any_line_contains(listing, "SHA256:first"));
    assert!(any_line_contains(listing, "SHA256:second"));
    assert!(!any_line_contains(listing, "SHA256:third"));
}

#[test]
fn listing_match_does_not_cross_lines() {
    let listing = "abc\ndef";
    assert!(any_line_contains(listing, "abc"));
    assert!(any_line_contains(listing, "def"));
    assert!(!any_line_contains(listing, "c\nd"));
}

#[test]
fn empty_listing_shows_nothing() {
    assert!(!any_line_contains("", "SHA256:x"));
}

#[test]
fn resolve_error_propagates_message() {
    let fp: Result<String, String> = Err("Failed to get SSH key fingerprint".to_string());
    let listing: Result<String, String> = Ok(String::new());
    let st = AgentStatusResolver::resolve(&fp, &listing);
    assert_eq!(
        st,
        AgentStatus::StatusError("Failed to get SSH key fingerprint".to_string())
    );
}

#[test]
fn resolve_loaded_when_listed() {
    let fp: Result<String, String> = Ok("SHA256:abc".to_string());
    let listing: Result<String, String> =
        Ok("256 SHA256:abc user@host (ED25519)\n".to_string());
    assert_eq!(AgentStatusResolver::resolve(&fp, &listing), AgentStatus::LoadedInAgent);
}

#[test]
fn resolve_not_loaded_on_empty_listing() {
    // an agent with nothing loaded never yields an error, only not-loaded
    let fp: Result<String, String> = Ok("SHA256:abc".to_string());
    let listing: Result<String, String> = Ok(String::new());
    assert_eq!(AgentStatusResolver::resolve(&fp, &listing), AgentStatus::NotLoaded);
}

#[test]
fn resolve_not_loaded_when_agent_unreachable() {
    let fp: Result<String, String> = Ok("SHA256:abc".to_string());
    let listing: Result<String, String> = Err("Could not open a connection".to_string());
    assert_eq!(AgentStatusResolver::resolve(&fp, &listing), AgentStatus::NotLoaded);
}

#[test]
fn needs_probe_only_for_existing_public_half() {
    let files: Vec<String> = vec!["id_rsa".to_string(), "id_rsa.pub".to_string()];
    let store = KeyStore::from_listing(&files);
    let pair = store.get(0);
    assert!(AgentStatusResolver::needs_probe(pair, true));
    assert!(!AgentStatusResolver::needs_probe(pair, false));

    let plain: Vec<String> = vec!["known_hosts".to_string()];
    let store2 = KeyStore::from_listing(&plain);
    let e = store2.get(0);
    assert!(!AgentStatusResolver::needs_probe(e, true));
}
