use term_bridge::history::CommandHistory;
use term_bridge::router::{InputRouter, KeyEvent};

#[test]
fn plain_text_is_forwarded_and_accumulated() {
    let mut router = InputRouter::new();
    let mut history = CommandHistory::new();
    let d = router.handle(&mut history, KeyEvent::Text("l".to_string()));
    assert_eq!(d.write.unwrap(), "l");
    assert!(!d.scroll_to_end);
    let d = router.handle(&mut history, KeyEvent::Text("s".to_string()));
    assert_eq!(d.write.unwrap(), "s");
    assert_eq!(router.pending_text(), "ls");
    assert_eq!(history.len(), 0);
}

#[test]
fn submit_appends_exactly_one_entry_and_clears_pending() {
    let mut router = InputRouter::new();
    let mut history = CommandHistory::new();
    router.handle(&mut history, KeyEvent::Text("ls".to_string()));
    let d = router.handle(&mut history, KeyEvent::Text("\r".to_string()));
    assert_eq!(history.len(), 1);
    assert_eq!(history.last().unwrap(), "ls");
    assert_eq!(router.pending_text(), "");
    // The carriage return itself still goes to the shell.
    assert_eq!(d.write.unwrap(), "\r");
    assert!(!d.scroll_to_end);
}

#[test]
fn submitting_an_empty_line_records_an_empty_entry() {
    let mut router = InputRouter::new();
    let mut history = CommandHistory::new();
    router.handle(&mut history, KeyEvent::Text("\r".to_string()));
    assert_eq!(history.len(), 1);
    assert_eq!(history.last().unwrap(), "");
}

#[test]
fn recall_with_empty_history_writes_nothing() {
    let mut router = InputRouter::new();
    let mut history = CommandHistory::new();
    let d = router.handle(&mut history, KeyEvent::Recall);
    assert!(d.write.is_none());
    assert!(d.scroll_to_end);
    assert_eq!(history.len(), 0);
    assert_eq!(router.pending_text(), "");
}

#[test]
fn recall_writes_the_most_recent_entry() {
    let mut router = InputRouter::new();
    let mut history = CommandHistory::new();
    router.handle(&mut history, KeyEvent::Text("ls".to_string()));
    router.handle(&mut history, KeyEvent::Text("\r".to_string()));
    router.handle(&mut history, KeyEvent::Text("pwd".to_string()));
    router.handle(&mut history, KeyEvent::Text("\r".to_string()));
    let d = router.handle(&mut history, KeyEvent::Recall);
    assert_eq!(d.write.unwrap(), "pwd");
    assert!(d.scroll_to_end);
    // Recall reads without consuming: pressing it again yields the same
    // entry, and the history is unchanged.
    let d = router.handle(&mut history, KeyEvent::Recall);
    assert_eq!(d.write.unwrap(), "pwd");
    assert_eq!(history.len(), 2);
}

#[test]
fn carriage_return_embedded_in_longer_text_is_not_a_submission() {
    let mut router = InputRouter::new();
    let mut history = CommandHistory::new();
    let d = router.handle(&mut history, KeyEvent::Text("a\rb".to_string()));
    assert_eq!(d.write.unwrap(), "a\rb");
    assert_eq!(history.len(), 0);
    assert_eq!(router.pending_text(), "a\rb");
}
