//! What may be said of the remote entry point.
use agm_supervisor::remote::{capability, revocation, severity, status, validate_external_source, Revoked, Source, STATES};
use agm_supervisor::store;
use agm_supervisor::store::Store;
use agm_supervisor::time::Instant;

fn at(t: &str) -> Instant {
    let t = chrono::DateTime::parse_from_rfc3339(t).unwrap();
    Instant { secs: t.timestamp(), nanos: t.timestamp_subsec_nanos() }
}

fn now() -> Instant {
    at("2026-09-12T12:00:00Z")
}

fn parsed(t: &str) -> serde_json::Value {
    serde_json::from_str(t).unwrap()
}

#[test]
fn argv_can_never_verify_anything() {
    assert!(!Source::Argv.can_verify());
    assert!(Source::Manual.can_verify());
    assert!(Source::Provider.can_verify());
    assert_eq!(parsed(&capability())["status"], "unsupported");
    assert!(!STATES.contains(&"active"), "there is no `active`: the honest states are requested/verified/unavailable/unknown");
}

#[test]
fn external_callers_cannot_claim_provider_evidence() {
    assert!(validate_external_source(Source::Manual).is_ok());
    assert!(validate_external_source(Source::Provider).is_err());
    assert!(validate_external_source(Source::Argv).is_err());
    assert_eq!(
        revocation("verified", Some("2026-09-12T11:55:00Z"), None, Some("new-run"), now()),
        Some(Revoked::SessionChanged)
    );
}

#[test]
fn requested_is_tied_to_the_session_not_to_a_timer() {
    assert_eq!(revocation("requested", None, Some("run-1"), Some("run-1"), now()), None);
    assert_eq!(
        revocation("requested", None, Some("run-1"), Some("run-2"), now()),
        Some(Revoked::SessionChanged),
        "a restart is a new session; the old request says nothing about it"
    );
    assert_eq!(revocation("requested", None, Some("run-1"), None, now()), Some(Revoked::NotRunning));
}

#[test]
fn a_verification_expires_and_does_not_survive_a_new_session() {
    let fresh = "2026-09-12T11:55:00Z";
    let stale = "2026-09-12T11:40:00Z";
    assert_eq!(revocation("verified", Some(fresh), Some("run-1"), Some("run-1"), now()), None);
    assert_eq!(revocation("verified", Some(stale), Some("run-1"), Some("run-1"), now()), Some(Revoked::Expired));
    assert_eq!(
        revocation("verified", Some(fresh), Some("run-1"), Some("run-9"), now()),
        Some(Revoked::SessionChanged)
    );
    assert_eq!(revocation("verified", None, Some("run-1"), Some("run-1"), now()), Some(Revoked::Expired));
    assert_eq!(
        revocation("verified", Some("2026-09-12T13:00:00Z"), Some("run-1"), Some("run-1"), now()),
        Some(Revoked::Expired)
    );
}

#[test]
fn not_knowing_is_not_a_fault_but_an_observed_failure_is() {
    assert_eq!(severity("unknown"), "unknown");
    assert_eq!(severity("requested"), "healthy");
    assert_eq!(severity("verified"), "healthy");
    assert_eq!(severity("unavailable"), "degraded");
}

#[test]
fn an_observation_lasts_exactly_fifteen_minutes() {
    let seen = "2026-09-12T12:00:00Z";
    assert_eq!(revocation("verified", Some(seen), Some("r"), Some("r"), at("2026-09-12T12:14:59Z")), None);
    assert_eq!(revocation("verified", Some(seen), Some("r"), Some("r"), at("2026-09-12T12:15:00Z")), Some(Revoked::Expired));
    assert_eq!(revocation("unknown", None, None, None, now()), None);
}

#[test]
fn a_revoked_claim_shows_no_url_and_says_why() {
    let mut s = Store::new();
    store::get_or_init(&mut s, "t");
    store::set_remote_observed(&mut s, "t", "verified", Some("https://x"), "manual", Some("run-1"), Some("me"), None);
    let mut row = store::get_or_init(&mut s, "t");
    row.remote_observed_at = Some("2026-09-12T11:59:00Z".to_string());
    let v = parsed(&status(&row, Some("run-1"), now()));
    assert_eq!(v["status"], "verified");
    assert_eq!(v["url"], "https://x");
    assert_eq!(v["observed_by"], "me");
    assert_eq!(v["capability"]["status"], "unsupported");
    assert_eq!(v["ttl_secs"], 900);
    let v = parsed(&status(&row, Some("run-2"), now()));
    assert_eq!(v["status"], "unknown");
    assert_eq!(v["stored_status"], "verified");
    assert_eq!(v["revoked"], Revoked::SessionChanged.as_str());
    assert!(v["url"].is_null());
}

#[test]
fn a_source_is_read_back_from_its_name() {
    for s in [Source::Argv, Source::Manual, Source::Provider] {
        assert_eq!(Source::parse(s.as_str()), Some(s));
    }
    assert_eq!(Source::parse("guess"), None);
}
