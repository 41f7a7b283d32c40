//! Searching the history.
use agm_supervisor::evidence::{query, search, BadQuery, Evidence, EvidenceQuery};

fn message(id: &str, bot: (&str, &str, bool), role: &str, content: &str, source: &str) -> Evidence {
    Evidence {
        id: id.into(),
        bot_id: bot.0.into(),
        bot_name: bot.1.into(),
        project_id: "p".into(),
        project_label: "專案".into(),
        bot_deleted: bot.2,
        turn_id: None,
        role: role.into(),
        content: content.into(),
        source: source.into(),
        incomplete: false,
        created_at: "2026-09-09T00:00:00Z".into(),
    }
}

fn seed() -> Vec<Evidence> {
    vec![
        message("m1", ("b", "新名字", false), "user", "遠端登入 100% a_b", "web"),
        message("m2", ("b", "新名字", false), "assistant", "遠端登入已處理", "hook"),
        message("m3", ("old", "舊bot", true), "assistant", "遠端登入舊決策", "hook"),
    ]
}

fn ask(q: &str) -> EvidenceQuery {
    EvidenceQuery { q: q.into(), bot_id: None, project_id: None, before: None, limit: None }
}

#[test]
fn history_preserves_deleted_bots_and_pages_tied_timestamps() {
    let db = seed();
    let page: serde_json::Value = serde_json::from_str(&search(&db, &EvidenceQuery { limit: Some(2), ..ask("遠端登入") }).unwrap()).unwrap();
    assert_eq!(page["messages"][0]["id"], "m3");
    assert_eq!(page["messages"][0]["bot_deleted"], true);
    assert_eq!(page["messages"][1]["bot_name"], "新名字");
    assert_eq!(page["has_more"], true);
    let cursor = page["next_cursor"].as_str().unwrap().to_string();
    let next: serde_json::Value =
        serde_json::from_str(&search(&db, &EvidenceQuery { before: Some(cursor), limit: Some(2), ..ask("遠端登入") }).unwrap()).unwrap();
    assert_eq!(next["messages"].as_array().unwrap().len(), 1);
    assert_eq!(next["messages"][0]["id"], "m1");
    assert_eq!(next["has_more"], false);
    assert!(next["next_cursor"].is_null());
}

#[test]
fn filters_and_literal_wildcards_do_not_broaden_search() {
    let db = seed();
    for term in ["%", "a_b"] {
        assert_eq!(query(&db, &ask(term)).unwrap().messages.len(), 1);
    }
    let page = query(&db, &EvidenceQuery { bot_id: Some("old".into()), ..ask("遠端") }).unwrap();
    assert_eq!(page.messages.len(), 1);
    let page = query(&db, &EvidenceQuery { project_id: Some("missing".into()), ..ask("遠端") }).unwrap();
    assert!(page.messages.is_empty());
    assert_eq!(query(&db, &EvidenceQuery { before: Some("bad".into()), ..ask("遠端") }).err(), Some(BadQuery::Cursor));
    assert_eq!(query(&db, &ask("")).err(), Some(BadQuery::Words));
}

#[test]
fn evidence_limits_large_sources_without_claiming_they_are_complete() {
    let mut db = seed();
    db[0].content = format!("遠端{}", "長".repeat(17_000));
    db[0].source = "terminal_fallback".into();
    db[0].incomplete = true;
    let page: serde_json::Value = serde_json::from_str(&search(&db, &ask("遠端")).unwrap()).unwrap();
    let m = page["messages"].as_array().unwrap().iter().find(|m| m["id"] == "m1").unwrap();
    assert_eq!(m["truncated"], true);
    assert_eq!(m["incomplete"], true);
    assert_eq!(m["source"], "terminal_fallback");
    assert_eq!(m["content"].as_str().unwrap().chars().count(), 16_000);
}

#[test]
fn the_words_are_trimmed_and_only_latin_letters_ignore_case() {
    let db = vec![message("m1", ("b", "b", false), "user", "Rebuild ÄÖ", "web")];
    assert_eq!(query(&db, &ask("  rEBUILD ")).unwrap().messages.len(), 1);
    assert_eq!(query(&db, &ask("ÄÖ")).unwrap().messages.len(), 1);
    assert!(query(&db, &ask("äö")).unwrap().messages.is_empty());
    assert_eq!(query(&db, &ask(&"x".repeat(500))).unwrap().messages.len(), 0);
    assert_eq!(query(&db, &ask(&"x".repeat(501))).err(), Some(BadQuery::Words));
    assert_eq!(BadQuery::Words.message(), "q must contain 1–500 characters");
    assert_eq!(BadQuery::Cursor.message(), "invalid evidence cursor");
}

#[test]
fn a_cursor_is_two_strings_and_not_too_long() {
    let db = seed();
    for bad in ["[\"a\"]", "[\"a\",\"b\",\"c\"]", "[1,2]", "{}", &format!("[\"{}\",\"b\"]", "a".repeat(520))] {
        let q = EvidenceQuery { before: Some(bad.to_string()), ..ask("遠端") };
        assert_eq!(query(&db, &q).err(), Some(BadQuery::Cursor), "{bad}");
    }
    let q = EvidenceQuery { before: Some("[\"2026-09-09T00:00:00Z\",\"m2\"]".into()), ..ask("遠端") };
    let ids: Vec<String> = query(&db, &q).unwrap().messages.into_iter().map(|m| m.message.id).collect();
    assert_eq!(ids, ["m1"]);
}

#[test]
fn the_size_of_a_page_stays_between_one_and_a_hundred() {
    let mut db = Vec::new();
    for i in 0..130 {
        db.push(message(&format!("m{i:03}"), ("b", "b", false), "user", "x", "web"));
    }
    let sizes: Vec<usize> = [None, Some(0), Some(-5), Some(7), Some(1_000)]
        .into_iter()
        .map(|limit| query(&db, &EvidenceQuery { limit, ..ask("x") }).unwrap().messages.len())
        .collect();
    assert_eq!(sizes, [20, 1, 1, 7, 100]);
    let mut seen = Vec::new();
    let mut before = None;
    loop {
        let page = query(&db, &EvidenceQuery { before, limit: Some(50), ..ask("x") }).unwrap();
        seen.extend(page.messages.into_iter().map(|m| m.message.id));
        match page.next_cursor {
            Some(c) => before = Some(c),
            None => break,
        }
    }
    let all: Vec<String> = (0..130).rev().map(|i| format!("m{i:03}")).collect();
    assert_eq!(seen, all, "each message once, newest first, and none is lost");
}
