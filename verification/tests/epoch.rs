use sequencer_randomness::epoch::{EpochError, EpochSecret, GameEpoch};
use sequencer_randomness::protocol::root_limbs;
use sequencer_randomness::ticket::EntropyError;
use sequencer_randomness::Felt;
use starknet_types_core::felt::Felt as SdkFelt;
use starknet_types_core::hash::{Poseidon, StarkHash};

#[test]
fn retained_secret_reconstructs_every_root_and_bounds_the_epoch() {
    let epoch = EpochSecret::create(7, 10).ok().unwrap();
    let restored = EpochSecret::restore(epoch.first_order(), epoch.last_order(), epoch.secret());
    assert_eq!(epoch.commitment(), restored.commitment());
    assert_eq!(epoch.revealed(), restored.revealed());
    for order in 7..=10 {
        assert_eq!(epoch.root(order).unwrap(), restored.root(order).unwrap());
    }
    assert!(epoch.root(6).is_err());
    assert!(epoch.root(11).is_err());
    let next = EpochSecret::create(11, 20).ok().unwrap();
    assert_ne!(next.commitment(), epoch.commitment());
}

#[test]
fn commitments_and_roots_are_hashes_of_the_secret() {
    let secret = [9; 32];
    let (low, high) = root_limbs(secret);
    let tag = SdkFelt::from_hex_unchecked("0x455445524e554d5f45504f4348");
    let commitment = Poseidon::hash_array(&[tag, SdkFelt::ONE, low.into(), high.into()]);
    let epoch = EpochSecret::restore(1, 5, secret);
    assert_eq!(epoch.commitment().to_be_bytes(), commitment.to_bytes_be());
    assert_eq!(epoch.revealed(), [Felt::from_u128(low), Felt::from_u128(high)]);
    let root = Poseidon::hash_array(&[low.into(), high.into(), 3u64.into()]);
    assert_eq!(epoch.root(3).unwrap(), root.to_bytes_be());
    let game = GameEpoch::restore(4, secret);
    assert_eq!(game.epoch(), 4);
    assert_eq!(game.secret(), secret);
    assert_eq!(game.commitment(), epoch.commitment());
    assert_eq!(game.revealed(), epoch.revealed());
    let root = Poseidon::hash_array(&[low.into(), high.into(), 8u64.into(), 3u64.into()]);
    assert_eq!(game.root(Felt::from(8), 3), root.to_bytes_be());
}

#[test]
fn epochs_refuse_an_empty_range_and_a_failed_source() {
    assert!(matches!(EpochSecret::create(0, 5), Err(EpochError::Range)));
    assert!(matches!(EpochSecret::create(6, 5), Err(EpochError::Range)));
    let short = Err(EntropyError::Short);
    let failed = Err(EntropyError::Source(38));
    assert!(matches!(EpochSecret::create_with(1, 5, short), Err(EpochError::Incomplete)));
    assert!(matches!(EpochSecret::create_with(1, 5, failed), Err(EpochError::Source(38))));
    assert!(matches!(EpochSecret::create_with(0, 5, failed), Err(EpochError::Range)));
    assert!(matches!(GameEpoch::create_with(3, short), Err(EpochError::Incomplete)));
    assert!(matches!(GameEpoch::create_with(3, failed), Err(EpochError::Source(38))));
    let game = GameEpoch::create_with(3, Ok([1; 32])).ok().unwrap();
    assert_eq!((game.epoch(), game.secret()), (3, [1; 32]));
    assert!(EpochSecret::create_with(5, 5, Ok([1; 32])).is_ok());
    assert_eq!(EpochSecret::restore(1, 2, [1; 32]).root(3), Err(EpochError::Order));
    assert!(GameEpoch::create(3).ok().unwrap().secret() != GameEpoch::create(3).ok().unwrap().secret());
    assert_eq!(EpochError::Range.message(), "invalid epoch range");
    assert_eq!(EpochError::Incomplete.message(), "incomplete epoch entropy");
    assert_eq!(EpochError::Source(38).message(), "epoch entropy source failed");
    assert_eq!(EpochError::Order.message(), "order outside epoch");
}
