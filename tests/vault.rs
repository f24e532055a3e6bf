use codex_usage::fingerprint::{fingerprint, fingerprint_text, stored_fingerprint};
use codex_usage::registry::{Config, VaultError};
use codex_usage::vault::{activation_plan, plan_activation, CredentialVault, SlotOp, SlotState};

fn blob(s: &str) -> Vec<u8> {
    s.as_bytes().to_vec()
}

#[test]
fn add_rejects_a_blob_registered_under_another_name() {
    let mut v = CredentialVault::new(None);
    v.add("alice", Some(blob("token-a")), "t1").unwrap();
    let before: Vec<String> = v.registry.accounts.iter().map(|a| a.name.clone()).collect();
    let r = v.add("bob", Some(blob("token-a")), "t2");
    assert_eq!(r, Err(VaultError::DuplicateCredential("alice".to_string())));
    let after: Vec<String> = v.registry.accounts.iter().map(|a| a.name.clone()).collect();
    assert_eq!(before, after);
    assert_eq!(v.blobs.len(), 1);
    assert_eq!(v.registry.accounts[0].info.added_at, "t1");
}

#[test]
fn add_same_name_again_replaces_its_record() {
    let mut v = CredentialVault::new(None);
    v.add("alice", Some(blob("token-a")), "t1").unwrap();
    v.add("alice", Some(blob("token-a")), "t2").unwrap();
    assert_eq!(v.registry.accounts.len(), 1);
    assert_eq!(v.registry.accounts[0].info.added_at, "t2");
}

#[test]
fn add_without_source_fails() {
    let mut v = CredentialVault::new(None);
    assert_eq!(v.add("alice", None, "t"), Err(VaultError::CredentialMissing("alice".to_string())));
    assert!(v.registry.accounts.is_empty());
}

#[test]
fn add_records_the_sha256_fingerprint_in_hex() {
    let mut v = CredentialVault::new(None);
    v.add("alice", Some(blob("abc")), "t").unwrap();
    assert_eq!(
        v.registry.accounts[0].info.auth_hash.as_deref(),
        Some("ba7816bf8f01cfea414140de5dae2223b00361a396177a9cb410ff61f20015ad")
    );
}

#[test]
fn fingerprint_hex_round_trip_and_case() {
    let d = fingerprint(&blob("abc"));
    assert_eq!(d.len(), 32);
    let text = fingerprint_text(&d);
    assert_eq!(stored_fingerprint(&text), Some(d.clone()));
    assert_eq!(stored_fingerprint(&text.to_uppercase()), Some(d));
    assert_eq!(stored_fingerprint("abc"), None);
    assert_eq!(stored_fingerprint("zz"), None);
}

#[test]
fn switch_add_remove_keep_at_most_one_live() {
    let mut v = CredentialVault::new(Some(blob("previous")));
    v.add("a", Some(blob("1")), "t").unwrap();
    v.add("b", Some(blob("2")), "t").unwrap();
    v.activate("a", false, false, "t1").unwrap();
    v.activate("b", false, false, "t2").unwrap();
    assert_eq!(v.registry.active_account.as_deref(), Some("b"));
    assert!(v.registry.is_live("b") && !v.registry.is_live("a"));
    assert_eq!(v.registry.accounts[1].info.last_used.as_deref(), Some("t2"));
    v.remove("b").unwrap();
    assert_eq!(v.registry.active_account, None);
    assert!(!v.registry.is_live("a") && !v.registry.is_live("b"));
    assert_eq!(v.slot.live, Some(blob("2")));
    assert_eq!(v.remove("b"), Err(VaultError::CredentialMissing("b".to_string())));
}

#[test]
fn activate_backs_up_and_swaps_the_live_slot() {
    let mut v = CredentialVault::new(Some(blob("previous")));
    v.add("a", Some(blob("1")), "t").unwrap();
    v.activate("a", false, false, "t1").unwrap();
    assert_eq!(v.slot.live, Some(blob("1")));
    assert_eq!(v.slot.backup, Some(blob("previous")));
    assert_eq!(v.slot.staging, None);
}

#[test]
fn activate_refusals_leave_everything_untouched() {
    let mut v = CredentialVault::new(Some(blob("previous")));
    v.add("a", Some(blob("1")), "t").unwrap();
    assert_eq!(v.activate("a", false, true, "t1"), Err(VaultError::RunningConflict));
    assert_eq!(v.slot.live, Some(blob("previous")));
    assert_eq!(v.registry.active_account, None);
    assert_eq!(v.activate("zed", true, true, "t1"), Err(VaultError::CredentialMissing("zed".to_string())));
    assert_eq!(v.activate("a", true, true, "t1"), Ok(()));
    assert_eq!(v.slot.live, Some(blob("1")));
}

#[test]
fn crash_at_any_point_leaves_old_or_new_live_content() {
    let old = blob("old-credential");
    let new = blob("new-credential-longer");
    let plan = activation_plan(&new);
    for done in 0..=plan.len() {
        for kept in [0usize, 1, 5, 100] {
            let mut s = SlotState::new(Some(old.clone()));
            s.run_with_crash(&plan, done, kept);
            assert!(s.live == Some(old.clone()) || s.live == Some(new.clone()), "done={} kept={}", done, kept);
        }
    }
    let mut complete = SlotState::new(Some(old.clone()));
    complete.run(&plan);
    assert_eq!(complete.live, Some(new));
    assert_eq!(complete.backup, Some(old));
}

#[test]
fn torn_staging_write_is_never_promoted() {
    let mut s = SlotState::new(None);
    s.apply_torn(&SlotOp::WriteStaging(blob("abcdef")), 3);
    assert_eq!(s.staging, Some(blob("abc")));
    assert_eq!(s.live, None);
}

#[test]
fn plan_checks_running_first() {
    let reg = Config::new();
    assert_eq!(plan_activation(&reg, "x", None, true, false).err(), Some(VaultError::RunningConflict));
    assert_eq!(plan_activation(&reg, "x", None, false, false).err(), Some(VaultError::CredentialMissing("x".to_string())));
}
