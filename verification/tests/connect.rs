use zortilwatch::connect::{FallbackAction, FallbackPolicy};
use zortilwatch::time::Duration;

#[test]
fn connected_short_circuits_regardless_of_time() {
    let p = FallbackPolicy::default();
    assert_eq!(
        p.decide(Duration::from_secs(0), true, false),
        FallbackAction::Connected
    );
    assert_eq!(
        p.decide(Duration::from_secs(100), true, true),
        FallbackAction::Connected
    );
}

#[test]
fn tries_direct_first() {
    let p = FallbackPolicy::default();
    assert_eq!(
        p.decide(Duration::from_secs(1), false, false),
        FallbackAction::KeepTrying
    );
}

#[test]
fn escalates_to_relay_after_timeout_then_waits() {
    let p = FallbackPolicy::default();
    assert_eq!(
        p.decide(Duration::from_secs(4), false, false),
        FallbackAction::AddRelay
    );
    assert_eq!(
        p.decide(Duration::from_secs(5), false, true),
        FallbackAction::KeepTrying
    );
}

#[test]
fn gives_up_after_deadline() {
    let p = FallbackPolicy::default();
    assert_eq!(
        p.decide(Duration::from_secs(13), false, true),
        FallbackAction::GiveUp
    );
}

#[test]
fn bounds_belong_to_the_later_stage() {
    let p = FallbackPolicy::default();
    assert_eq!(
        p.decide(Duration::from_millis(2_999), false, false),
        FallbackAction::KeepTrying
    );
    assert_eq!(
        p.decide(Duration::from_secs(3), false, false),
        FallbackAction::AddRelay
    );
    assert_eq!(
        p.decide(Duration::from_secs(12), false, false),
        FallbackAction::GiveUp
    );
}
