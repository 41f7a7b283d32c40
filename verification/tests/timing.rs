//! Timings: what is counted, and what is worth a line.
use agm_supervisor::timing::{pct, snapshot_json, Timing, MAX_SAMPLES, SLOW_LOCK_WAIT, SLOW_SEGMENT, SLOW_TICK, TICK_TOTAL, WINDOW};

fn stats(t: &Timing, key: &str) -> serde_json::Value {
    let v: serde_json::Value = serde_json::from_str(&snapshot_json(&t.snapshot(1_000))).unwrap();
    v["stats"][key].clone()
}

#[test]
fn percentiles_pick_a_sample_that_really_happened() {
    let one_to_hundred: Vec<u64> = (1..=100).collect();
    assert_eq!(pct(&one_to_hundred, 50), 50);
    assert_eq!(pct(&one_to_hundred, 95), 95);
    assert_eq!(pct(&one_to_hundred, 100), 100);
    assert_eq!(pct(&[7], 50), 7);
    assert_eq!(pct(&[7], 95), 7);
    assert_eq!(pct(&[], 50), 0, "沒有樣本回 0，不是 panic");
    assert_eq!(pct(&[1, 2, 3], 95), 3);
    assert_eq!(pct(&[1, 2, 3], 50), 2);
}

#[test]
fn the_snapshot_reports_p50_p95_and_max() {
    let mut t = Timing::new();
    for ms in [10u64, 20, 30, 40, 1_000] {
        t.record("tick:demo", 1_000, ms);
    }
    let s = stats(&t, "tick:demo");
    assert_eq!(s["count"], 5);
    assert_eq!(s["p50_ms"], 30);
    assert_eq!(s["p95_ms"], 1_000);
    assert_eq!(s["max_ms"], 1_000);
    assert!(s.get("samples").is_none(), "只給統計：{s}");
    let v: serde_json::Value = serde_json::from_str(&snapshot_json(&t.snapshot(1_000))).unwrap();
    assert_eq!(v["window_secs"], 3_600);
}

#[test]
fn keys_are_counted_separately() {
    let mut t = Timing::new();
    t.record("lock:wait:a.rs:1", 1_000, 5);
    t.record("lock:wait:a.rs:1", 1_000, 15);
    t.record("lock:hold:a.rs:1", 1_000, 900);
    assert_eq!(stats(&t, "lock:wait:a.rs:1")["count"], 2);
    assert_eq!(stats(&t, "lock:wait:a.rs:1")["max_ms"], 15);
    assert_eq!(stats(&t, "lock:hold:a.rs:1")["max_ms"], 900);
}

#[test]
fn samples_are_capped_per_key() {
    let mut t = Timing::new();
    for i in 0..(MAX_SAMPLES + 500) {
        t.record("tick:flood", 1_000, i as u64);
    }
    let s = stats(&t, "tick:flood");
    assert_eq!(s["count"], MAX_SAMPLES, "超量時丟最舊的");
    assert_eq!(s["max_ms"], (MAX_SAMPLES + 499) as u64);
}

#[test]
fn the_thresholds_are_the_ones_the_ticket_asked_for() {
    assert_eq!(SLOW_SEGMENT, 2_000);
    assert_eq!(SLOW_TICK, 10_000);
    assert_eq!(SLOW_LOCK_WAIT, 1_000);
}

#[test]
fn a_segment_is_only_logged_when_it_goes_over_the_budget() {
    let mut t = Timing::new();
    assert!(!t.note_segment("quick", 1_000, 0), "正常的一段不該寫那一行");
    assert_eq!(stats(&t, "tick:quick")["count"], 1, "沒寫 log 不代表沒量");
    assert!(!t.note_segment("just-under", 1_000, SLOW_SEGMENT - 1), "差一毫秒也不寫");
    assert!(t.note_segment("slow", 1_000, SLOW_SEGMENT));
    assert_eq!(stats(&t, "tick:just-under")["count"], 1, "沒超標的照樣進統計");
}

#[test]
fn a_tick_is_only_logged_when_it_outruns_one_heartbeat() {
    let mut t = Timing::new();
    assert!(!t.note_tick(1_000, SLOW_TICK - 1), "剛好沒超過就不寫");
    assert!(t.note_tick(1_000, SLOW_TICK));
    assert_eq!(stats(&t, TICK_TOTAL)["count"], 2, "兩次都要進統計，只有一次進 log");
}

#[test]
fn only_a_long_lock_wait_is_logged_and_it_names_the_site() {
    let mut t = Timing::new();
    assert!(!t.note_lock_wait("a.rs", 1_000, SLOW_LOCK_WAIT - 1));
    t.note_lock_hold("a.rs", 1_000, 30_000);
    assert!(t.note_lock_wait("a.rs", 1_000, SLOW_LOCK_WAIT));
    assert_eq!(stats(&t, "lock:wait:a.rs")["count"], 2, "兩次都要進統計，只有一次進 log");
    assert_eq!(stats(&t, "lock:hold:a.rs")["max_ms"], 30_000);
}

#[test]
fn a_sample_leaves_the_window() {
    let mut t = Timing::new();
    t.record("k", 0, 7);
    t.record("k", 10, 8);
    assert_eq!(t.snapshot(WINDOW)[0].count, 2);
    let later = t.snapshot(WINDOW + 5);
    assert_eq!((later[0].count, later[0].max_ms), (1, 8));
    assert!(t.snapshot(2 * WINDOW).is_empty() || t.snapshot(2 * WINDOW)[0].count == 0);
}

#[test]
fn what_was_measured_last_is_what_is_reported() {
    let mut t = Timing::new();
    t.record("other", 1_000, 7);
    let total = MAX_SAMPLES as u64 + 10;
    for i in 0..total {
        t.record("k", 1_000 + i, total - i);
    }
    let s = stats(&t, "k");
    assert_eq!(s["count"], MAX_SAMPLES);
    assert_eq!(s["max_ms"], MAX_SAMPLES as u64, "the ten longest were the first, and are gone");
    assert_eq!(stats(&t, "other")["max_ms"], 7, "another key is left alone");
    t.record("k", 1_000 + total, 90_000);
    assert_eq!((stats(&t, "k")["count"].as_u64(), stats(&t, "k")["max_ms"].as_u64()), (Some(MAX_SAMPLES as u64), Some(90_000)));
}
