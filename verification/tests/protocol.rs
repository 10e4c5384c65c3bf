use sequencer_randomness::protocol::{
    decode_bytes, encode_bytes, root_from_limbs, root_limbs, Envelope, Intent, ProtocolError,
};
use sequencer_randomness::Felt;
use starknet_types_core::felt::Felt as SdkFelt;
use starknet_types_core::hash::{Poseidon, StarkHash};

fn sdk(felt: Felt) -> SdkFelt {
    SdkFelt::from_bytes_be(&felt.to_be_bytes())
}

fn own(felt: SdkFelt) -> Felt {
    Felt::from_be_bytes(&felt.to_bytes_be()).unwrap()
}

fn intent() -> Intent {
    Intent {
        chain: Felt::from(1),
        deployment: Felt::from(2),
        game: Felt::from(3),
        actor: Felt::from(4),
        nonce: 5,
        command: Felt::from(6),
        rules: Felt::from(7),
        valid_from: 8,
        valid_until: 9,
        last_order: 10,
        arguments: vec![Felt::from(11), Felt::from(12)],
    }
}

fn envelope(root: [u8; 32]) -> Envelope {
    Envelope {
        action: Felt::from(1),
        order: 2,
        predecessor: Felt::from(3),
        preceding_state: Felt::from(4),
        timestamp: 5,
        execution_config: Felt::from(6),
        l2_gas: 7,
        root,
    }
}

#[test]
fn an_intent_is_its_form_and_nothing_else() {
    let fields = intent().encode().unwrap();
    assert_eq!(fields.len(), 15);
    assert_eq!(fields[0], own(SdkFelt::from_hex_unchecked("0x455445524e554d5f494e54454e54")));
    for (index, value) in [1u64, 1, 2, 3, 4, 5, 6, 7, 8, 9, 10, 2, 11, 12].into_iter().enumerate() {
        assert_eq!(fields[index + 1], Felt::from(value));
    }
    assert!(Intent::decode(&fields).unwrap().same(&intent()));
    let hashed: Vec<SdkFelt> = fields.iter().map(|field| sdk(*field)).collect();
    assert_eq!(intent().identity().unwrap(), own(Poseidon::hash_array(&hashed)));
    let mut other = intent();
    other.nonce = 6;
    assert!(!other.same(&intent()));
    assert_ne!(other.identity().unwrap(), intent().identity().unwrap());
}

#[test]
fn intents_with_a_broken_form_are_refused() {
    let fields = intent().encode().unwrap();
    for length in 0..fields.len() {
        assert_eq!(Intent::decode(&fields[..length]), Err(ProtocolError::Length));
    }
    let mut extended = fields.clone();
    extended.push(Felt::zero());
    assert_eq!(Intent::decode(&extended), Err(ProtocolError::Length));
    for index in [0, 1] {
        let mut altered = fields.clone();
        altered[index] = Felt::from(99);
        assert_eq!(Intent::decode(&altered), Err(ProtocolError::Header));
    }
    for index in [6, 9, 10, 11, 12] {
        let mut altered = fields.clone();
        altered[index] = Felt::from_u128(1 << 64);
        assert_eq!(Intent::decode(&altered), Err(ProtocolError::Value));
    }
}

#[test]
fn fixed_roots_survive_their_limbs() {
    let mut asymmetric = [0; 32];
    for (index, byte) in asymmetric.iter_mut().enumerate() {
        *byte = index as u8;
    }
    let mut top = [0; 32];
    top[0] = 128;
    let mut low = [0; 32];
    low[31] = 1;
    for root in [[0; 32], [255; 32], asymmetric, top, low] {
        let (low, high) = root_limbs(root);
        assert_eq!(root_from_limbs(low, high), root);
        let value = envelope(root);
        let fields = value.encode();
        assert_eq!(fields.len(), 11);
        assert_eq!(fields[..9], value.encode_context()[..]);
        assert!(Envelope::decode(&fields).unwrap().same(&value));
        assert_eq!(decode_bytes(&encode_bytes(&fields)).unwrap(), fields);
        let hashed: Vec<SdkFelt> = fields.iter().map(|field| sdk(*field)).collect();
        assert_eq!(value.binding(), own(Poseidon::hash_array(&hashed)));
    }
    assert_eq!(root_limbs(low), (1, 0));
    assert_eq!(root_limbs(top), (0, 1 << 127));
    assert_eq!(root_limbs(asymmetric).1, 0x000102030405060708090a0b0c0d0e0f);
}

#[test]
fn envelopes_with_a_broken_form_are_refused() {
    let fields = envelope([7; 32]).encode();
    assert_eq!(fields[0], own(SdkFelt::from_hex_unchecked("0x455445524e554d5f42494e44494e47")));
    assert_eq!(Envelope::decode(&fields[..10]), Err(ProtocolError::Length));
    let mut altered = fields.clone();
    altered[1] = Felt::two();
    assert_eq!(Envelope::decode(&altered), Err(ProtocolError::Header));
    for (index, value) in [(3, 1u128 << 64), (6, 1 << 64), (8, 1 << 64)] {
        let mut altered = fields.clone();
        altered[index] = Felt::from_u128(value);
        assert_eq!(Envelope::decode(&altered), Err(ProtocolError::Value));
    }
    for index in [9, 10] {
        let mut altered = fields.clone();
        altered[index] = Felt::from_limbs(1, 0).unwrap();
        assert_eq!(Envelope::decode(&altered), Err(ProtocolError::Value));
    }
}

#[test]
fn bytes_that_are_no_elements_are_refused() {
    assert_eq!(decode_bytes(&[]).unwrap(), vec![]);
    assert_eq!(decode_bytes(&[0; 31]), Err(ProtocolError::Length));
    assert_eq!(decode_bytes(&[255; 32]), Err(ProtocolError::Value));
    let largest = sdk(Felt::zero()) - SdkFelt::ONE;
    assert_eq!(decode_bytes(&largest.to_bytes_be()).unwrap(), vec![own(largest)]);
    let mut prime = largest.to_bytes_be();
    prime[31] = 1;
    assert_eq!(decode_bytes(&prime), Err(ProtocolError::Value));
}

#[test]
fn elements_convert_to_the_integers_they_fit() {
    assert_eq!(Felt::from(7).to_u64(), Some(7));
    assert_eq!(Felt::from(300).to_u8(), None);
    assert_eq!(Felt::from(255).to_u8(), Some(255));
    assert_eq!(Felt::from(65536).to_u16(), None);
    assert_eq!(Felt::from(u64::from(u32::MAX) + 1).to_u32(), None);
    assert_eq!(Felt::from_u128(u128::MAX).to_u128(), Some(u128::MAX));
    assert_eq!(Felt::from_limbs(1, 0).unwrap().to_u128(), None);
    assert!(Felt::from_limbs(u128::MAX, 0).is_none());
    assert!(Felt::from(1).less_than(&Felt::from_limbs(1, 0).unwrap()));
    assert!(!Felt::from(2).less_than(&Felt::from(2)));
    assert_eq!(sdk(Felt::from_limbs(1, 2).unwrap()), SdkFelt::from(1u128 << 127) * SdkFelt::TWO + SdkFelt::TWO);
}
