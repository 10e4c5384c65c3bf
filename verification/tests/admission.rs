use sequencer_randomness::admission::{AdmissionSlots, IpLimits, Peer, Slot, WINDOW};
use sequencer_randomness::submission::{observe_batch, ExecutionObservers};
use sequencer_randomness::Felt;

#[test]
fn a_flooding_player_uses_one_slot_and_duplicates_follow_the_same_admission() {
    let mut slots = AdmissionSlots::new();
    assert_eq!(slots.reserve(Felt::one(), Felt::from(10)), Slot::New);
    for _ in 0..1000 {
        assert_eq!(slots.reserve(Felt::one(), Felt::from(11)), Slot::Conflict);
    }
    assert_eq!(slots.reserve(Felt::one(), Felt::from(10)), Slot::Existing);
    assert_eq!(slots.reserve(Felt::two(), Felt::from(12)), Slot::New);
    assert_eq!(slots.reserve(Felt::one(), Felt::from(11)), Slot::Conflict);
    slots.release(Felt::one());
    assert_eq!(slots.reserve(Felt::one(), Felt::from(11)), Slot::New);
    slots.release(Felt::two());
    assert_eq!(slots.reserve(Felt::two(), Felt::from(13)), Slot::New);
}

#[test]
fn a_failed_queue_send_releases_the_actor() {
    let mut slots = AdmissionSlots::new();
    assert_eq!(slots.reserve(Felt::one(), Felt::two()), Slot::New);
    slots.release(Felt::one());
    assert_eq!(slots.reserve(Felt::one(), Felt::from(3)), Slot::New);
}

#[test]
fn ip_limits_bound_abuse_without_sharing_a_budget_between_addresses() {
    let now = 5;
    let mut limits = IpLimits::new(now);
    let first = Peer::V4(0x7f00_0001);
    for _ in 0..1024 {
        assert!(limits.allow(first, now));
    }
    assert!(!limits.allow(first, now));
    assert!(limits.allow(Peer::V4(0x7f00_0002), now));
    assert!(limits.allow(first, now + WINDOW));
}

#[test]
fn a_window_counts_a_bounded_number_of_addresses() {
    let mut limits = IpLimits::new(0);
    for address in 0..2048 {
        assert!(limits.allow(Peer::V4(address), 1));
        assert!(limits.allow(Peer::V6(u128::from(address)), 1));
    }
    assert!(!limits.allow(Peer::V6(9999), WINDOW - 1));
    assert!(limits.allow(Peer::V4(7), WINDOW - 1));
    assert!(limits.allow(Peer::V6(9999), WINDOW));
    assert!(limits.allow(Peer::V6(9999), 0));
}

#[test]
fn refusals_reach_only_the_watched_transaction() {
    let mut observers = ExecutionObservers::new(Felt::from(9));
    assert_eq!(observers.account(), Felt::from(9));
    assert!(!observers.reporter(Felt::one()));
    observers.report(Felt::one(), String::from("ignored"));
    assert_eq!(observers.refusal(Felt::one()), None);
    observers.watch(Felt::one());
    observers.watch(Felt::two());
    assert_eq!(observe_batch(&observers, &[Felt::two(), Felt::from(3), Felt::one()]), vec![true, false, true]);
    observers.report(Felt::one(), String::from("queue full"));
    assert_eq!(observers.refusal(Felt::one()), Some(&String::from("queue full")));
    assert_eq!(observers.refusal(Felt::two()), None);
    observers.watch(Felt::one());
    assert_eq!(observers.refusal(Felt::one()), None);
    observers.unwatch(Felt::one());
    assert!(!observers.reporter(Felt::one()));
    assert!(observers.reporter(Felt::two()));
}
