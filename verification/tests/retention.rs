use record_store::retention::{
    DefaultRetention, DeletionBlock, ObjectLockConfiguration, ObjectLockState, Retention,
    RetentionMode, RetentionOutOfRange, RetentionPeriod,
};
use record_store::time::{Timestamp, MAX_SECONDS, MIN_SECONDS};

fn at(seconds: i64) -> Timestamp {
    Timestamp::new(seconds, 0).expect("on the calendar")
}

fn retained(mode: RetentionMode, until: i64) -> ObjectLockState {
    ObjectLockState {
        retention: Some(Retention { mode, retain_until: at(until) }),
        legal_hold: false,
    }
}

#[test]
fn the_calendar_is_the_one_of_the_clock() {
    let first = chrono::DateTime::<chrono::Utc>::MIN_UTC;
    let last = chrono::DateTime::<chrono::Utc>::MAX_UTC;
    assert_eq!(MIN_SECONDS, first.timestamp());
    assert_eq!(MAX_SECONDS, last.timestamp());
    assert!(Timestamp::new(MIN_SECONDS, 0).is_some());
    assert!(Timestamp::new(MIN_SECONDS - 1, 0).is_none());
    assert!(Timestamp::new(MAX_SECONDS, 999_999_999).is_some());
    assert!(Timestamp::new(MAX_SECONDS + 1, 0).is_none());
    for (seconds, nanos) in [
        (0, 0),
        (0, 1_999_999_999),
        (59, 1_999_999_999),
        (59, 2_000_000_000),
        (-1, 1_500_000_000),
        (-2, 1_500_000_000),
        (MIN_SECONDS, 0),
        (MIN_SECONDS - 1, 0),
        (MAX_SECONDS, 999_999_999),
        (MAX_SECONDS, 1_000_000_000),
        (MAX_SECONDS + 1, 0),
    ] {
        assert_eq!(
            Timestamp::new(seconds, nanos).is_some(),
            chrono::DateTime::<chrono::Utc>::from_timestamp(seconds, nanos).is_some(),
            "{seconds} and {nanos}"
        );
    }
}

#[test]
fn microseconds_are_counted_from_the_epoch() {
    let instant = Timestamp::new(1_700_000_000, 123_456_789).expect("on the calendar");
    assert_eq!(instant.timestamp_micros(), 1_700_000_000_123_456);
    let before = Timestamp::new(-1, 999_999_999).expect("on the calendar");
    assert_eq!(before.timestamp_micros(), -1);
    assert_eq!(before.unix_seconds(), -1);
    assert_eq!(before.subsec_nanos(), 999_999_999);
    let first = at(MIN_SECONDS);
    assert_eq!(first.timestamp_micros(), MIN_SECONDS * 1_000_000);
    let last = Timestamp::new(MAX_SECONDS, 999_999_999).expect("on the calendar");
    assert_eq!(last.timestamp_micros(), MAX_SECONDS * 1_000_000 + 999_999);
}

#[test]
fn instants_are_ordered_by_second_then_nanosecond() {
    let early = Timestamp::new(10, 5).expect("on the calendar");
    let late = Timestamp::new(10, 6).expect("on the calendar");
    assert!(early.is_before(&late));
    assert!(!late.is_before(&early));
    assert!(!early.is_before(&early));
    assert!(late.is_before(&at(11)));
}

#[test]
fn a_state_that_holds_nothing_is_unlocked() {
    assert!(ObjectLockState::default().is_unlocked());
    assert!(!retained(RetentionMode::Governance, 100).is_unlocked());
    assert!(!ObjectLockState::default().with_legal_hold(true).is_unlocked());
}

#[test]
fn a_retention_blocks_until_its_date_and_not_on_it() {
    let state = retained(RetentionMode::Compliance, 100);
    let block = state.deletion_block_at(at(99)).expect("still retained");
    assert_eq!(block, DeletionBlock::Retained(state.retention.expect("retained")));
    assert_eq!(state.deletion_block_at(at(100)), None);
}

#[test]
fn a_legal_hold_blocks_on_its_own() {
    let held = retained(RetentionMode::Governance, 100).with_legal_hold(true);
    assert_eq!(held.deletion_block_at(at(1_000)), Some(DeletionBlock::LegalHold));
    assert_eq!(held.deletion_block_at(at(1)), Some(DeletionBlock::LegalHold));
}

#[test]
fn only_a_governance_retention_gives_way_to_a_bypass() {
    let governance = retained(RetentionMode::Governance, 100).retention.expect("retained");
    let compliance = retained(RetentionMode::Compliance, 100).retention.expect("retained");
    assert!(DeletionBlock::Retained(governance).is_bypassable());
    assert!(!DeletionBlock::Retained(compliance).is_bypassable());
    assert!(!DeletionBlock::LegalHold.is_bypassable());
}

#[test]
fn a_default_rule_retains_for_its_days() {
    let rule = ObjectLockConfiguration {
        default_retention: Some(DefaultRetention {
            mode: RetentionMode::Governance,
            period: RetentionPeriod::Days(2),
        }),
    };
    assert_eq!(
        rule.initial_state_at(at(1_000)),
        Ok(retained(RetentionMode::Governance, 1_000 + 2 * 86_400))
    );
    assert_eq!(rule.initial_state_at(at(MAX_SECONDS)), Err(RetentionOutOfRange));
}

#[test]
fn no_default_rule_holds_nothing() {
    let none = ObjectLockConfiguration { default_retention: None };
    assert_eq!(none.initial_state_at(at(0)), Ok(ObjectLockState::default()));
}
