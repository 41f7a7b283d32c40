//! The persona: its hash, what a session may be said to run on, and what goes into the binary.
use agm_supervisor::persona::{build_inputs_json, hash, loaded_state, Loaded, BUILD_INPUTS};

#[test]
fn the_hash_is_stable_and_distinguishes_texts() {
    assert_eq!(hash("你是 AGM"), hash("你是 AGM"));
    assert_ne!(hash("你是 AGM"), hash("你是 AGM。"));
    assert_eq!(hash(""), "fnv1a64:cbf29ce484222325");
    assert_eq!(hash("a"), "fnv1a64:af63dc4c8601ec8c");
}

#[test]
fn a_running_session_is_never_claimed_to_have_loaded_anything() {
    let old = "2026-09-12T10:00:00Z";
    let new = "2026-09-12T12:00:00Z";
    assert_eq!(loaded_state(None, Some(new)), Loaded::NotRunning);
    assert_eq!(loaded_state(Some(old), Some(new)), Loaded::Stale);
    assert_eq!(loaded_state(Some(new), Some(old)), Loaded::StartedWithCurrent);
    assert_eq!(loaded_state(Some("rubbish"), Some(new)), Loaded::NotRunning, "a broken clock proves nothing");
    assert_eq!(Loaded::StartedWithCurrent.as_str(), "unverified");
    assert!(Loaded::Stale.needs_restart());
    assert!(!Loaded::StartedWithCurrent.needs_restart(), "started with it ≠ must restart");
    assert!(!Loaded::NotRunning.needs_restart());
}

#[test]
fn the_build_inputs_name_the_files_that_are_not_code() {
    let v: serde_json::Value = serde_json::from_str(&build_inputs_json()).unwrap();
    assert_eq!(v["paths"].as_array().unwrap().len(), BUILD_INPUTS.len());
    for (i, p) in BUILD_INPUTS.iter().enumerate() {
        assert_eq!(v["paths"][i], *p);
    }
    assert_eq!(v["embedded"][0]["path"], "docs/goals/agm-supervisor-persona.md");
    assert_eq!(v["embedded"][1]["symbol"], "supervisor::setup::AGM_CLI");
    assert!(v["note"].as_str().unwrap().contains("AGM's call"));
}
