use live_translate::display::{DisplayEntry, DisplayState};

fn entry(title: &str) -> DisplayEntry {
    DisplayEntry {
        title: title.to_string(),
        subtitle: "t".to_string(),
        copy_action: true,
    }
}

#[test]
fn fresh_state_is_empty() {
    let s = DisplayState::new();
    assert!(s.items().is_empty());
    assert_eq!(s.last_accepted_issued_at(), 0);
}

#[test]
fn commit_of_newer_query_is_accepted() {
    let mut s = DisplayState::new();
    let committed = s.try_commit(5, vec![entry("hello")]);
    assert!(committed);
    assert_eq!(s.last_accepted_issued_at(), 5);
    assert_eq!(s.items().len(), 1);
    assert_eq!(s.items()[0].title, "hello");
}

#[test]
fn empty_query_clears_and_raises_threshold() {
    let mut s = DisplayState::new();
    assert!(s.try_commit(5, vec![entry("old")]));
    s.on_empty_query(10);
    assert!(s.items().is_empty());
    assert_eq!(s.last_accepted_issued_at(), 10);
    // An older in-flight task's later commit attempt is now a no-op.
    let committed = s.try_commit(7, vec![entry("stale")]);
    assert!(!committed);
    assert!(s.items().is_empty());
    assert_eq!(s.last_accepted_issued_at(), 10);
}

#[test]
fn out_of_order_completion_discards_stale() {
    // Query "a" issued at t0 = 100; query "ab" issued at 110 commits first.
    let mut s = DisplayState::new();
    assert!(s.try_commit(110, vec![entry("ab-result")]));
    // "a"'s task completes later, but its issuance time is older.
    let committed = s.try_commit(100, vec![entry("a-result")]);
    assert!(!committed);
    assert_eq!(s.items().len(), 1);
    assert_eq!(s.items()[0].title, "ab-result");
    assert_eq!(s.last_accepted_issued_at(), 110);
}

#[test]
fn latest_issued_query_wins_whatever_the_completion_order() {
    // Issued at 100, 105, 110; completing as 110, 105, 100.
    let mut s = DisplayState::new();
    assert!(s.try_commit(110, vec![entry("newest")]));
    assert!(!s.try_commit(105, vec![entry("middle")]));
    assert!(!s.try_commit(100, vec![entry("oldest")]));
    assert_eq!(s.items().len(), 1);
    assert_eq!(s.items()[0].title, "newest");
    assert_eq!(s.last_accepted_issued_at(), 110);
}

#[test]
fn on_query_changed_dispatches() {
    let mut s = DisplayState::new();
    assert!(s.try_commit(3, vec![entry("shown")]));
    // Non-empty text: spawn background work, state untouched.
    let spawn = s.on_query_changed("hi", 8);
    assert!(spawn);
    assert_eq!(s.items().len(), 1);
    assert_eq!(s.last_accepted_issued_at(), 3);
    // Empty text: no spawn, synchronous clear.
    let spawn = s.on_query_changed("", 9);
    assert!(!spawn);
    assert!(s.items().is_empty());
    assert_eq!(s.last_accepted_issued_at(), 9);
}
