use simple_block_on::handle::WakeLedger;

#[test]
fn constructed_handle_is_one_live_share() {
    let l = WakeLedger::construct();
    assert_eq!(l.live(), 1);
    assert_eq!(l.resumes(), 0);
    assert_eq!(l.releases(), 0);
    assert!(!l.is_released());
}

#[test]
fn never_invoked_handle_is_still_released_on_drop() {
    let mut l = WakeLedger::construct();
    assert!(l.drop_handle());
    assert_eq!(l.resumes(), 0);
    assert_eq!(l.releases(), 1);
    assert_eq!(l.live(), 0);
    assert!(l.is_released());
}

#[test]
fn release_comes_with_the_last_share() {
    let mut l = WakeLedger::construct();
    l.clone_handle();
    l.clone_handle();
    assert_eq!(l.live(), 3);
    assert!(!l.drop_handle());
    assert!(!l.wake());
    assert_eq!(l.releases(), 0);
    assert_eq!(l.live(), 1);
    assert!(l.wake());
    assert_eq!(l.releases(), 1);
    assert_eq!(l.resumes(), 2);
    assert!(l.is_released());
}

#[test]
fn consuming_wake_of_the_only_handle_releases() {
    let mut l = WakeLedger::construct();
    assert!(l.wake());
    assert_eq!(l.resumes(), 1);
    assert_eq!(l.releases(), 1);
}

#[test]
fn wake_by_ref_repeated_keeps_the_share() {
    let mut l = WakeLedger::construct();
    for _ in 0..5 {
        l.wake_by_ref();
    }
    assert_eq!(l.live(), 1);
    assert_eq!(l.resumes(), 5);
    assert_eq!(l.releases(), 0);
    assert!(l.drop_handle());
}

#[test]
fn many_holders_wake_by_ref_without_release() {
    let mut l = WakeLedger::construct();
    for _ in 0..4 {
        l.clone_handle();
    }
    for _ in 0..4 {
        for _ in 0..3 {
            l.wake_by_ref();
        }
    }
    assert_eq!(l.live(), 5);
    assert_eq!(l.resumes(), 12);
    assert_eq!(l.releases(), 0);
    for _ in 0..4 {
        assert!(!l.drop_handle());
    }
    assert!(l.drop_handle());
    assert_eq!(l.releases(), 1);
}
