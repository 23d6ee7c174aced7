use lazyssh::controller::CopyOutcome;
use lazyssh::controller::InventoryController;
use lazyssh::controller::Mode;
use lazyssh::store::KeyStore;

fn names(v: &[&str]) -> Vec<String> {
    v.iter().map(|s| s.to_string()).collect()
}

fn controller_over(files: &[&str]) -> InventoryController {
    InventoryController::new(KeyStore::from_listing(&names(files)))
}

// -- creation ---------------------------------------------------------------

#[test]
fn create_default_name_from_timestamp() {
    let mut c = controller_over(&[]);
    c.toggle_create_form();
    {
        let form = c.form_mut();
        form.next_field(); // to the type choice
        form.option_down(); // dsa
        form.option_down(); // ecdsa
        form.option_down(); // ed25519
        assert_eq!(form.type_index, 3);
    }
    let cmd = c.request_create("/home/user/.ssh", 1700000000).expect("command");
    assert_eq!(cmd.key_type, "ed25519");
    assert_eq!(cmd.bits, "2048");
    assert_eq!(cmd.file_path, "/home/user/.ssh/id_ed25519_1700000000");
    assert_eq!(
        cmd.description,
        "ssh-keygen -t ed25519 -b 2048 -f /home/user/.ssh/id_ed25519_1700000000 -N  -C "
    );
}

#[test]
fn create_passphrase_mismatch_stops_early() {
    let mut c = controller_over(&[]);
    c.toggle_create_form();
    {
        let form = c.form_mut();
        for _ in 0..3 {
            form.next_field();
        }
        assert_eq!(form.field, 3);
        form.input_char('a');
        form.next_field();
        form.input_char('b');
    }
    let cmd = c.request_create("/d", 1);
    assert!(cmd.is_none());
    assert_eq!(c.log.len(), 1);
    assert_eq!(c.log[0], "Passphrases do not match");
    // the form stays open for a retry
    assert!(matches!(c.mode, Mode::CreatingKey { .. }));
}

#[test]
fn create_redacts_passphrase_in_log() {
    let mut c = controller_over(&[]);
    c.toggle_create_form();
    {
        let form = c.form_mut();
        form.input_char('k');
        form.input_char('e');
        form.input_char('y');
        for _ in 0..3 {
            form.next_field();
        }
        form.input_char('s');
        form.input_char('3');
        form.input_char('c');
        form.next_field();
        form.input_char('s');
        form.input_char('3');
        form.input_char('c');
    }
    let cmd = c.request_create("/d", 7).expect("command");
    assert_eq!(cmd.passphrase, "s3c");
    assert_eq!(cmd.description, "ssh-keygen -t rsa -b 2048 -f /d/key -N *** -C ");
    assert!(!cmd.description.contains("s3c"));
}

#[test]
fn create_trims_typed_name() {
    let mut c = controller_over(&[]);
    c.toggle_create_form();
    {
        let form = c.form_mut();
        for ch in "  my key  ".chars() {
            form.input_char(ch);
        }
    }
    let cmd = c.request_create("/d", 7).expect("command");
    assert_eq!(cmd.file_path, "/d/my key");
}

#[test]
fn create_success_rescans_and_resets() {
    let mut c = controller_over(&["old_key", "old_key.pub"]);
    c.toggle_create_form();
    let cmd = c.request_create("/d", 1700000000).expect("command");
    // the service succeeded: both halves of the new pair are on disk now
    let fresh = names(&[
        "old_key",
        "old_key.pub",
        "id_rsa_1700000000",
        "id_rsa_1700000000.pub",
    ]);
    c.finish_create_ok(&cmd, &fresh);
    assert!(matches!(c.mode, Mode::Browsing));
    assert_eq!(c.selection, Some(0));
    assert_eq!(c.store.len(), 2);
    // the created entry scans as a pair
    let mut found = false;
    for i in 0..c.store.len() {
        let e = c.store.get(i);
        if e.base_name == "id_rsa_1700000000" {
            assert!(e.has_private && e.has_public);
            found = true;
        }
    }
    assert!(found);
    assert_eq!(c.log.len(), 2);
    assert_eq!(c.log[1], "SSH key created: /d/id_rsa_1700000000");
}

#[test]
fn create_failure_keeps_form_and_logs_verbatim() {
    let mut c = controller_over(&[]);
    c.toggle_create_form();
    let cmd = c.request_create("/d", 5).expect("command");
    c.finish_create_err(&cmd, "Too many arguments.\n");
    assert!(matches!(c.mode, Mode::CreatingKey { .. }));
    assert_eq!(c.store.len(), 0);
    assert_eq!(c.log.len(), 2);
    assert_eq!(c.log[0], cmd.description);
    assert_eq!(c.log[1], "Failed to create SSH key: Too many arguments.\n");
}

// -- deletion ---------------------------------------------------------------

#[test]
fn delete_last_entry_empties_selection() {
    let mut c = controller_over(&["only_key", "only_key.pub"]);
    assert_eq!(c.selection, Some(0));
    c.toggle_confirm_delete();
    let t = c.request_delete("/d").expect("targets");
    assert_eq!(t.private_path, "/d/only_key");
    assert_eq!(t.public_path, "/d/only_key.pub");
    c.finish_delete(&t, true, true, false);
    assert_eq!(c.store.len(), 0);
    assert_eq!(c.selection, None);
    assert!(matches!(c.mode, Mode::Browsing));
    assert_eq!(c.log.len(), 1);
    assert_eq!(c.log[0], "Move to trash: /d/only_key -> SSH key moved to trash");
}

#[test]
fn delete_middle_entry_keeps_index() {
    let mut c = controller_over(&["a", "b", "c"]);
    c.select_next();
    assert_eq!(c.selection, Some(1));
    c.toggle_confirm_delete();
    let t = c.request_delete("/d").expect("targets");
    c.finish_delete(&t, true, false, false);
    assert_eq!(c.store.len(), 2);
    // same index, now naming the next entry
    assert_eq!(c.selection, Some(1));
    assert_eq!(c.store.get(1).base_name, "c");
}

#[test]
fn delete_final_entry_steps_back() {
    let mut c = controller_over(&["a", "b", "c"]);
    c.select_next();
    c.select_next();
    assert_eq!(c.selection, Some(2));
    c.toggle_confirm_delete();
    let t = c.request_delete("/d").expect("targets");
    c.finish_delete(&t, true, false, false);
    assert_eq!(c.selection, Some(1));
}

#[test]
fn delete_falls_back_to_literal_file() {
    let mut c = controller_over(&["odd.pub.pub"]);
    c.toggle_confirm_delete();
    let t = c.request_delete("/d").expect("targets");
    assert_eq!(t.literal_path, "/d/odd.pub.pub");
    c.finish_delete(&t, false, false, true);
    assert_eq!(c.store.len(), 0);
    assert_eq!(c.log.len(), 1);
    assert_eq!(c.log[0], "Move to trash: /d/odd.pub.pub -> SSH key moved to trash");
}

#[test]
fn delete_total_failure_keeps_inventory() {
    let mut c = controller_over(&["a"]);
    c.toggle_confirm_delete();
    let t = c.request_delete("/d").expect("targets");
    c.finish_delete(&t, false, false, false);
    assert_eq!(c.store.len(), 1);
    assert_eq!(c.selection, Some(0));
    assert_eq!(c.log.len(), 1);
    assert_eq!(c.log[0], "Move to trash: /d/a -> Failed to move SSH key to trash");
}

#[test]
fn delete_with_empty_inventory_closes_popup() {
    let mut c = controller_over(&[]);
    c.toggle_confirm_delete();
    let t = c.request_delete("/d");
    assert!(t.is_none());
    assert!(matches!(c.mode, Mode::Browsing));
}

// -- agent add / remove -----------------------------------------------------

#[test]
fn add_twice_loads_once() {
    let mut c = controller_over(&["id_rsa", "id_rsa.pub"]);
    let path = c.request_add("/d").expect("path");
    assert_eq!(path, "/d/id_rsa");

    // first round: fingerprint known, agent holds nothing yet
    let fp: Result<String, String> = Ok("SHA256:abc".to_string());
    let empty: Result<String, String> = Ok(String::new());
    let go = c.resume_add(&path, &fp, &empty);
    assert!(go);
    c.finish_add(&path, &Ok(()));
    assert_eq!(c.log.len(), 1);
    assert_eq!(c.log[0], "ssh-add /d/id_rsa -> SSH key added to agent");

    // second round: the agent now lists the fingerprint
    let path2 = c.request_add("/d").expect("path");
    let listing: Result<String, String> =
        Ok("2048 SHA256:abc user@host (RSA)\n".to_string());
    let go2 = c.resume_add(&path2, &fp, &listing);
    assert!(!go2);
    assert_eq!(c.log.len(), 2);
    assert_eq!(c.log[1], "ssh-add /d/id_rsa -> SSH key is already added to agent");
    // exactly one load happened
    let loads = c.log.iter().filter(|l| l.as_str().ends_with("SSH key added to agent")).count();
    assert_eq!(loads, 1);
}

#[test]
fn add_refuses_non_pair() {
    let mut c = controller_over(&["known_hosts"]);
    let p = c.request_add("/d");
    assert!(p.is_none());
    assert_eq!(c.log.len(), 1);
    assert_eq!(
        c.log[0],
        "Cannot add: known_hosts is not a private key file of an SSH pair"
    );
}

#[test]
fn add_logs_fingerprint_failure() {
    let mut c = controller_over(&["id_rsa", "id_rsa.pub"]);
    let path = c.request_add("/d").expect("path");
    let fp: Result<String, String> = Err("Failed to get SSH key fingerprint".to_string());
    let listing: Result<String, String> = Ok(String::new());
    let go = c.resume_add(&path, &fp, &listing);
    assert!(!go);
    assert_eq!(c.log.len(), 1);
    assert_eq!(c.log[0], "Failed to get SSH key fingerprint");
}

#[test]
fn add_failure_is_logged() {
    let mut c = controller_over(&["id_rsa", "id_rsa.pub"]);
    let path = c.request_add("/d").expect("path");
    c.finish_add(&path, &Err("agent refused\n".to_string()));
    assert_eq!(
        c.log[0],
        "ssh-add /d/id_rsa -> Failed to add SSH key to agent: agent refused\n"
    );
}

#[test]
fn remove_of_unloaded_key_is_a_no_op() {
    let mut c = controller_over(&["id_rsa", "id_rsa.pub"]);
    let path = c.request_remove("/d").expect("path");
    let fp: Result<String, String> = Ok("SHA256:abc".to_string());
    let empty: Result<String, String> = Ok(String::new());
    let go = c.resume_remove(&path, &fp, &empty);
    assert!(!go);
    assert_eq!(c.log.len(), 1);
    assert_eq!(c.log[0], "ssh-add -d /d/id_rsa -> SSH key is not added to agent");
}

#[test]
fn remove_of_loaded_key_unloads() {
    let mut c = controller_over(&["id_rsa", "id_rsa.pub"]);
    let path = c.request_remove("/d").expect("path");
    let fp: Result<String, String> = Ok("SHA256:abc".to_string());
    let listing: Result<String, String> =
        Ok("2048 SHA256:abc user@host (RSA)\n".to_string());
    let go = c.resume_remove(&path, &fp, &listing);
    assert!(go);
    c.finish_remove(&path, &Ok(()));
    assert_eq!(c.log.len(), 1);
    assert_eq!(c.log[0], "ssh-add -d /d/id_rsa -> SSH key removed from agent");
}

#[test]
fn remove_refuses_non_pair() {
    let mut c = controller_over(&["orphan.pub"]);
    let p = c.request_remove("/d");
    assert!(p.is_none());
    assert_eq!(
        c.log[0],
        "Cannot remove: orphan.pub is not a private key file of an SSH pair"
    );
}

#[test]
fn remove_failure_is_logged() {
    let mut c = controller_over(&["id_rsa", "id_rsa.pub"]);
    let path = c.request_remove("/d").expect("path");
    c.finish_remove(&path, &Err("nope".to_string()));
    assert_eq!(
        c.log[0],
        "ssh-add -d /d/id_rsa -> Failed to remove SSH key from agent: nope"
    );
}

// -- clipboard copy ---------------------------------------------------------

#[test]
fn copy_reads_public_half() {
    let mut c = controller_over(&["id_rsa", "id_rsa.pub"]);
    let path = c.request_copy("/d").expect("path");
    assert_eq!(path, "/d/id_rsa.pub");
    c.finish_copy(&path, &CopyOutcome::Copied);
    assert_eq!(
        c.log[0],
        "Copy to clipboard: /d/id_rsa.pub -> SSH public key copied to clipboard"
    );
}

#[test]
fn copy_refuses_non_pair() {
    let mut c = controller_over(&["known_hosts"]);
    let p = c.request_copy("/d");
    assert!(p.is_none());
    assert_eq!(
        c.log[0],
        "Cannot copy: known_hosts is not a public key file of an SSH pair"
    );
}

#[test]
fn copy_failures_are_only_log_lines() {
    let mut c = controller_over(&["id_rsa", "id_rsa.pub"]);
    let path = c.request_copy("/d").expect("path");
    c.finish_copy(&path, &CopyOutcome::ReadFailed("No such file".to_string()));
    c.finish_copy(&path, &CopyOutcome::ClipboardFailed("no display".to_string()));
    assert_eq!(c.log.len(), 2);
    assert_eq!(c.log[0], "Failed to copy SSH public key: No such file");
    assert_eq!(c.log[1], "Failed to copy SSH public key: no display");
}

// -- navigation and modes ---------------------------------------------------

#[test]
fn selection_clamps_at_both_ends() {
    let mut c = controller_over(&["a", "b"]);
    assert_eq!(c.selection, Some(0));
    c.select_previous();
    assert_eq!(c.selection, Some(0));
    c.select_next();
    assert_eq!(c.selection, Some(1));
    c.select_next();
    assert_eq!(c.selection, Some(1));
}

#[test]
fn selection_is_none_when_empty() {
    let mut c = controller_over(&[]);
    assert_eq!(c.selection, None);
    c.select_next();
    assert_eq!(c.selection, None);
    c.select_previous();
    assert_eq!(c.selection, None);
}

#[test]
fn modes_are_mutually_exclusive() {
    let mut c = controller_over(&["a"]);
    assert!(matches!(c.mode, Mode::Browsing));
    c.toggle_confirm_delete();
    assert!(matches!(c.mode, Mode::ConfirmingDelete));
    c.toggle_confirm_delete();
    assert!(matches!(c.mode, Mode::Browsing));
    c.toggle_bindings();
    assert!(matches!(c.mode, Mode::ShowingBindings { selected: 0 }));
    c.toggle_bindings();
    assert!(matches!(c.mode, Mode::Browsing));
    c.toggle_create_form();
    assert!(matches!(c.mode, Mode::CreatingKey { .. }));
    c.toggle_create_form();
    assert!(matches!(c.mode, Mode::Browsing));
}

#[test]
fn bindings_selection_wraps() {
    let mut c = controller_over(&[]);
    c.toggle_bindings();
    c.bindings_previous();
    assert!(matches!(c.mode, Mode::ShowingBindings { selected: 4 }));
    c.bindings_next();
    assert!(matches!(c.mode, Mode::ShowingBindings { selected: 0 }));
    c.bindings_next();
    assert!(matches!(c.mode, Mode::ShowingBindings { selected: 1 }));
}

#[test]
fn form_editing_behaves() {
    let mut c = controller_over(&[]);
    c.toggle_create_form();
    let form = c.form_mut();
    form.input_char('a');
    form.input_char('b');
    assert_eq!(form.name, "ab");
    form.backspace();
    assert_eq!(form.name, "a");
    form.backspace();
    form.backspace(); // empty: stays empty
    assert_eq!(form.name, "");
    form.input_char('x');
    form.clear_field();
    assert_eq!(form.name, "");
    // wrap the field selection all the way around
    for _ in 0..6 {
        form.next_field();
    }
    assert_eq!(form.field, 0);
    form.previous_field();
    assert_eq!(form.field, 5);
    // type choice wraps in both directions
    form.next_field();
    form.next_field();
    assert_eq!(form.field, 1);
    form.option_up();
    assert_eq!(form.type_index, 3);
    form.option_down();
    assert_eq!(form.type_index, 0);
    // bit-length choice starts at 2048 and wraps
    form.next_field();
    assert_eq!(form.bits_index, 1);
    form.option_down();
    form.option_down();
    assert_eq!(form.bits_index, 0);
    form.option_up();
    assert_eq!(form.bits_index, 2);
}
