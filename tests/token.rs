use simple_block_on::token::ResumeToken;

#[test]
fn new_token_is_armed_and_suspend_blocks() {
    let mut t = ResumeToken::new();
    assert!(!t.is_available());
    assert!(t.suspend());
}

#[test]
fn signal_before_suspend_returns_at_once() {
    let mut t = ResumeToken::new();
    t.signal();
    assert!(t.is_available());
    assert!(!t.suspend());
    assert!(!t.is_available());
}

#[test]
fn many_signals_collapse_into_one() {
    let mut t = ResumeToken::new();
    t.signal();
    t.signal();
    t.signal();
    assert!(!t.suspend());
    assert!(t.suspend());
}
