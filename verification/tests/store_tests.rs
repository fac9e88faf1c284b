use minerals::drafts::{AdminDraft, DraftStore, SessionStore};
use minerals::publish::{parse_publish_request, PublishMineralRequest};

fn draft() -> AdminDraft {
    AdminDraft { image_bytes: vec![9, 8, 7], image_ext: "png".to_string() }
}

#[test]
fn take_succeeds_once_then_not_found() {
    let mut store = DraftStore::new();
    store.put("a1b2".to_string(), draft());
    let first = store.take("a1b2");
    assert!(first.is_some());
    let d = first.unwrap();
    assert_eq!(d.image_bytes, vec![9, 8, 7]);
    assert_eq!(d.image_ext, "png");
    // the draft was consumed: a second take with the same id finds nothing
    assert!(store.take("a1b2").is_none());
}

#[test]
fn take_of_unknown_id_is_not_found() {
    let mut store = DraftStore::new();
    store.put("a1b2".to_string(), draft());
    assert!(store.take("ffff").is_none());
    // the miss left the stored draft alone
    assert!(store.contains("a1b2"));
}

#[test]
fn put_replaces_a_draft_under_the_same_id() {
    let mut store = DraftStore::new();
    store.put("id".to_string(), draft());
    store.put(
        "id".to_string(),
        AdminDraft { image_bytes: vec![1], image_ext: "gif".to_string() },
    );
    let taken = store.take("id").unwrap();
    assert_eq!(taken.image_ext, "gif");
    assert!(store.take("id").is_none());
}

#[test]
fn failed_validation_leaves_the_draft_intact() {
    let mut store = DraftStore::new();
    store.put("keep".to_string(), draft());
    // a publish with an invalid form never touches the draft store
    let bad_request = PublishMineralRequest {
        draft_id: "keep".to_string(),
        common_name: "  ".to_string(),
        description: "d".to_string(),
        mineral_family: "f".to_string(),
        formula: "x".to_string(),
        hardness_mohs: "7".to_string(),
        density_g_cm3: "2".to_string(),
        crystal_system: "c".to_string(),
        color: "c".to_string(),
        streak: "s".to_string(),
        luster: "l".to_string(),
        major_elements_pct_text: "Si=1".to_string(),
        notes: "n".to_string(),
    };
    let peeked = store.peek("keep").unwrap();
    assert!(parse_publish_request(&bad_request, peeked).is_err());
    assert!(store.contains("keep"));
}

#[test]
fn logout_clears_all_drafts() {
    let mut store = DraftStore::new();
    store.put("a".to_string(), draft());
    store.put("b".to_string(), draft());
    store.clear_all();
    assert!(!store.contains("a"));
    assert!(!store.contains("b"));
}

#[test]
fn session_tokens_live_until_removed() {
    let mut sessions = SessionStore::new();
    assert!(!sessions.contains("tok1"));
    sessions.insert("tok1".to_string());
    sessions.insert("tok2".to_string());
    assert!(sessions.contains("tok1"));
    assert!(sessions.contains("tok2"));
    sessions.remove("tok1");
    assert!(!sessions.contains("tok1"));
    assert!(sessions.contains("tok2"));
    sessions.clear();
    assert!(!sessions.contains("tok2"));
}
