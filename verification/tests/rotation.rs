use sequencer_randomness::invoke::hash_invoke;
use sequencer_randomness::key_rotation::{
    self, decode_on, refusal_message, rotation_outcome, Broadcast, KeyRotationError, RotationOutcome,
};
use sequencer_randomness::recorded::{Execution, ExecutionResult, TransactionReceipt};
use sequencer_randomness::rotation::{
    authority_step, check_retained, check_simulation, decode, resume_step, retained_rotation, rotation_of,
    AuthorityEvent, AuthorityStage, DataAvailabilityMode, ResourceBounds, ResourceBoundsMapping, ResumeEvent,
    ResumeStage, RetainedError, Rotation, RotationError, RotationTransaction, Simulation, ViewCall,
};
use sequencer_randomness::stark::verify_signature;
use sequencer_randomness::Felt;
use starknet_accounts::{Account, ExecutionEncoding, SingleOwnerAccount};
use starknet_core::types::{self as sdk_types, BroadcastedInvokeTransactionV3, Call};
use starknet_core::utils::get_selector_from_name;
use starknet_providers::jsonrpc::{HttpTransport, JsonRpcClient};
use starknet_signers::{LocalWallet, SigningKey};
use starknet_types_core::felt::Felt as SdkFelt;
use starknet_types_core::hash::{Poseidon, StarkHash};

fn own(felt: SdkFelt) -> Felt {
    Felt::from_be_bytes(&felt.to_bytes_be()).unwrap()
}

fn sdk(felt: Felt) -> SdkFelt {
    SdkFelt::from_bytes_be(&felt.to_be_bytes())
}

fn rpc() -> JsonRpcClient<HttpTransport> {
    JsonRpcClient::new(HttpTransport::new("http://127.0.0.1:1".parse::<url::Url>().unwrap()))
}

fn unsigned() -> RotationTransaction {
    RotationTransaction {
        sender_address: Felt::from(7),
        calldata: vec![
            Felt::one(),
            Felt::from(11),
            own(get_selector_from_name("rotate_public_key").unwrap()),
            Felt::one(),
            Felt::from(19),
        ],
        signature: vec![],
        nonce: Felt::from(3),
        resource_bounds: ResourceBoundsMapping {
            l1_gas: ResourceBounds { max_amount: 100, max_price_per_unit: 10 },
            l1_data_gas: ResourceBounds { max_amount: 200, max_price_per_unit: 30 },
            l2_gas: ResourceBounds { max_amount: 1_000_000, max_price_per_unit: 20 },
        },
        tip: 0,
        paymaster_data: vec![],
        account_deployment_data: vec![],
        nonce_data_availability_mode: DataAvailabilityMode::L1,
        fee_data_availability_mode: DataAvailabilityMode::L1,
        is_query: false,
        has_proof: false,
        has_proof_facts: false,
    }
}

fn sign(transaction: &mut RotationTransaction, secret: u64, hash: Felt) -> Felt {
    let key = SigningKey::from_secret_scalar(SdkFelt::from(secret));
    let signature = key.sign(&sdk(hash)).unwrap();
    transaction.signature = vec![own(signature.r), own(signature.s)];
    own(key.verifying_key().scalar())
}

fn hash_of(rpc: &JsonRpcClient<HttpTransport>, bounds: &ResourceBoundsMapping) -> Felt {
    let signer = LocalWallet::from(SigningKey::from_secret_scalar(SdkFelt::from(12345)));
    let account = SingleOwnerAccount::new(rpc, signer, SdkFelt::from(7), SdkFelt::from(9), ExecutionEncoding::New);
    let call = Call {
        to: SdkFelt::from(11),
        selector: get_selector_from_name("rotate_public_key").unwrap(),
        calldata: vec![SdkFelt::from(19)],
    };
    let prepared = account
        .execute_v3(vec![call])
        .nonce(SdkFelt::from(3))
        .tip(0)
        .l1_gas(bounds.l1_gas.max_amount)
        .l1_gas_price(bounds.l1_gas.max_price_per_unit)
        .l2_gas(bounds.l2_gas.max_amount)
        .l2_gas_price(bounds.l2_gas.max_price_per_unit)
        .l1_data_gas(bounds.l1_data_gas.max_amount)
        .l1_data_gas_price(bounds.l1_data_gas.max_price_per_unit)
        .prepared()
        .unwrap();
    own(prepared.transaction_hash(false))
}

fn signed_rotation(rpc: &JsonRpcClient<HttpTransport>) -> (RotationTransaction, Felt, Felt) {
    let mut transaction = unsigned();
    let hash = hash_of(rpc, &transaction.resource_bounds);
    let key = sign(&mut transaction, 12345, hash);
    (transaction, hash, key)
}

#[test]
fn canonical_rotation_hash_preserves_authority_signature_and_rejects_other_call_shapes() {
    let rpc = rpc();
    let (mut transaction, expected, key) = signed_rotation(&rpc);
    let (call, hash) = decode(&rpc, Felt::from(9), &transaction).unwrap();
    assert_eq!(hash, expected);
    assert_eq!(call.to, Felt::from(11));
    let signature = transaction.signature.clone();
    assert!(verify_signature(key, hash, signature[0], signature[1]));
    for index in [1, 4] {
        let original = transaction.calldata[index];
        transaction.calldata[index] = own(sdk(original) + SdkFelt::ONE);
        let (_, hash) = decode(&rpc, Felt::from(9), &transaction).unwrap();
        assert!(!verify_signature(key, hash, signature[0], signature[1]));
        transaction.calldata[index] = original;
    }
    for index in [0, 2, 3] {
        let original = transaction.calldata[index];
        transaction.calldata[index] = own(sdk(original) + SdkFelt::ONE);
        assert!(decode(&rpc, Felt::from(9), &transaction).is_err());
        transaction.calldata[index] = original;
    }
    transaction.is_query = true;
    assert!(decode(&rpc, Felt::from(9), &transaction).is_err());
    transaction.is_query = false;
    transaction.calldata.push(Felt::one());
    assert!(decode(&rpc, Felt::from(9), &transaction).is_err());
    transaction.calldata.pop();
    transaction.calldata[4] = Felt::zero();
    assert!(decode(&rpc, Felt::from(9), &transaction).is_err());
}

#[test]
fn every_value_of_a_rotation_enters_its_hash() {
    let rpc = rpc();
    let (transaction, hash, _) = signed_rotation(&rpc);
    let hashed = |change: &dyn Fn(&mut RotationTransaction)| {
        let (mut changed, _, _) = signed_rotation(&rpc);
        change(&mut changed);
        decode(&rpc, Felt::from(9), &changed).unwrap().1
    };
    assert_eq!(hashed(&|_| ()), hash);
    assert_ne!(decode(&rpc, Felt::from(10), &transaction).unwrap().1, hash);
    assert_ne!(hashed(&|tx| tx.sender_address = Felt::from(8)), hash);
    assert_ne!(hashed(&|tx| tx.nonce = Felt::from(4)), hash);
    assert_ne!(hashed(&|tx| tx.tip = 1), hash);
    assert_ne!(hashed(&|tx| tx.resource_bounds.l1_gas.max_amount = 1), hash);
    assert_ne!(hashed(&|tx| tx.resource_bounds.l1_gas.max_price_per_unit = 1), hash);
    assert_ne!(hashed(&|tx| tx.resource_bounds.l2_gas.max_amount = 1), hash);
    assert_ne!(hashed(&|tx| tx.resource_bounds.l2_gas.max_price_per_unit = 1), hash);
    assert_ne!(hashed(&|tx| tx.resource_bounds.l1_data_gas.max_amount = 1), hash);
    assert_ne!(hashed(&|tx| tx.resource_bounds.l1_data_gas.max_price_per_unit = 1), hash);
}

#[test]
fn rotations_that_carry_more_are_refused() {
    let refused = |change: &dyn Fn(&mut RotationTransaction)| {
        let mut changed = unsigned();
        changed.signature = vec![Felt::one(), Felt::two()];
        change(&mut changed);
        changed.call().err()
    };
    assert_eq!(refused(&|_| ()), None);
    assert_eq!(refused(&|tx| tx.has_proof = true), Some(RotationError::Unsupported));
    assert_eq!(refused(&|tx| tx.has_proof_facts = true), Some(RotationError::Unsupported));
    assert_eq!(refused(&|tx| tx.paymaster_data.push(Felt::one())), Some(RotationError::Unsupported));
    assert_eq!(refused(&|tx| tx.account_deployment_data.push(Felt::one())), Some(RotationError::Unsupported));
    assert_eq!(
        refused(&|tx| tx.nonce_data_availability_mode = DataAvailabilityMode::L2),
        Some(RotationError::Unsupported)
    );
    assert_eq!(
        refused(&|tx| tx.fee_data_availability_mode = DataAvailabilityMode::L2),
        Some(RotationError::Unsupported)
    );
    assert_eq!(refused(&|tx| tx.signature.push(Felt::one())), Some(RotationError::Unsupported));
    assert_eq!(refused(&|tx| tx.calldata.truncate(4)), Some(RotationError::NotOneCall));
    assert_eq!(refused(&|tx| tx.calldata[1] = Felt::zero()), Some(RotationError::InvalidCall));
    assert_eq!(RotationError::NotOneCall.message(), "rotation must be one call");
}

#[test]
fn rotation_preserves_the_authority_signed_hash_and_rejects_extra_calls() {
    let rpc = rpc();
    let none = ResourceBounds { max_amount: 0, max_price_per_unit: 0 };
    let mut transaction = unsigned();
    transaction.resource_bounds = ResourceBoundsMapping { l1_gas: none, l1_data_gas: none, l2_gas: none };
    let identity = hash_of(&rpc, &transaction.resource_bounds);
    let key = sign(&mut transaction, 123, identity);
    let mut broadcast = Broadcast::InvokeV3(transaction);
    let Rotation { actor, authority, nonce, hash, r, s } =
        decode_on(&rpc, Felt::from(9), &broadcast).unwrap();
    assert_eq!((actor, authority, hash), (Felt::from(11), Felt::from(7), identity));
    assert_eq!(nonce, Felt::from(3));
    assert!(verify_signature(key, hash, r, s));
    if let Broadcast::InvokeV3(fields) = &mut broadcast {
        fields.calldata.push(Felt::one());
    }
    assert!(decode_on(&rpc, Felt::from(9), &broadcast).is_err());
}

#[test]
fn rotations_that_are_broadcast_are_checked_field_by_field() {
    let rpc = rpc();
    let chain = Felt::from(9);
    let refused = |change: &dyn Fn(&mut RotationTransaction)| {
        let (mut transaction, _, _) = signed_rotation(&rpc);
        change(&mut transaction);
        let broadcast = Broadcast::InvokeV3(transaction);
        let error = decode_on(&rpc, chain, &broadcast).err();
        assert_eq!(key_rotation::decode(&broadcast, Felt::one()).err(), error);
        error
    };
    assert_eq!(refused(&|_| ()), None);
    assert_eq!(refused(&|tx| tx.calldata.push(Felt::one())), Some(KeyRotationError::NotOneCall));
    let shorten = |tx: &mut RotationTransaction| {
        tx.signature.pop();
    };
    assert_eq!(refused(&shorten), Some(KeyRotationError::Signature));
    assert_eq!(refused(&|tx| tx.paymaster_data.push(Felt::one())), Some(KeyRotationError::Unsupported));
    assert_eq!(refused(&|tx| tx.account_deployment_data.push(Felt::one())), Some(KeyRotationError::Unsupported));
    assert_eq!(refused(&|tx| tx.calldata[0] = Felt::two()), Some(KeyRotationError::InvalidCall));
    assert_eq!(refused(&|tx| tx.has_proof = true), Some(KeyRotationError::Proofs));
    assert_eq!(refused(&|tx| tx.has_proof_facts = true), Some(KeyRotationError::Proofs));
    assert_eq!(decode_on(&rpc, chain, &Broadcast::Other), Err(KeyRotationError::NotInvokeV3));
    assert_eq!(key_rotation::decode(&Broadcast::Other, Felt::one()), Err(KeyRotationError::NotInvokeV3));
    let (_, hash, _) = signed_rotation(&rpc);
    let identified = key_rotation::decode(&Broadcast::InvokeV3(signed_rotation(&rpc).0), hash).unwrap();
    assert_eq!(decode_on(&rpc, chain, &Broadcast::InvokeV3(signed_rotation(&rpc).0)), Ok(identified));
    assert_eq!(
        refusal_message(RotationError::StaleNonce),
        "rotation requires the current binding authority nonce"
    );
    assert_eq!(refusal_message(RotationError::WrongAuthority), "wrong binding authority");
    assert_eq!(KeyRotationError::Proofs.message(), "rotation cannot carry proofs");
}

#[test]
fn authority_is_checked_step_by_step() {
    let rpc = rpc();
    let (transaction, hash, key) = signed_rotation(&rpc);
    let rotation = rotation_of(&transaction, hash).unwrap();
    let (registry, class, owner) = (Felt::from(30), Felt::from(31), Felt::from(32));
    let events = || {
        vec![
            AuthorityEvent::Values(vec![Felt::one(), registry, class]),
            AuthorityEvent::Class(Some(class)),
            AuthorityEvent::Values(vec![owner]),
            AuthorityEvent::Values(vec![rotation.actor]),
            AuthorityEvent::Values(vec![rotation.authority]),
            AuthorityEvent::Values(vec![key]),
            AuthorityEvent::Nonce(Felt::from(3)),
        ]
    };
    let run = |events: Vec<AuthorityEvent>| {
        let mut stage = AuthorityStage::ReadAuthentication;
        for event in events {
            stage = authority_step(stage, &event, &rotation)?;
        }
        Ok::<AuthorityStage, RotationError>(stage)
    };
    assert_eq!(run(events()), Ok(AuthorityStage::Authorized));
    let with = |index: usize, event: AuthorityEvent| {
        let mut changed = events();
        changed[index] = event;
        run(changed).err()
    };
    let values = |fields: &[u64]| AuthorityEvent::Values(fields.iter().map(|field| Felt::from(*field)).collect());
    assert_eq!(with(0, values(&[1, 2])), Some(RotationError::MalformedAuthentication));
    assert_eq!(with(1, AuthorityEvent::Class(None)), Some(RotationError::UnapprovedAccount));
    assert_eq!(with(1, AuthorityEvent::Class(Some(owner))), Some(RotationError::UnapprovedAccount));
    assert_eq!(with(2, values(&[])), Some(RotationError::MalformedOwner));
    assert_eq!(with(2, values(&[0])), Some(RotationError::UnregisteredAccount));
    assert_eq!(with(3, values(&[1, 2])), Some(RotationError::MalformedAccount));
    assert_eq!(with(3, values(&[12])), Some(RotationError::UnregisteredAccount));
    assert_eq!(with(4, values(&[])), Some(RotationError::MalformedAuthority));
    assert_eq!(with(4, values(&[8])), Some(RotationError::WrongAuthority));
    assert_eq!(with(5, values(&[])), Some(RotationError::MalformedKey));
    assert_eq!(with(5, values(&[5])), Some(RotationError::InvalidSignature));
    assert_eq!(with(6, AuthorityEvent::Nonce(Felt::from(4))), Some(RotationError::StaleNonce));
    assert_eq!(run(events().into_iter().rev().collect()), Err(RotationError::MalformedAuthentication));
}

#[test]
fn retained_rotations_wait_for_their_receipt() {
    let hash = Felt::from(5);
    let step = |stage: ResumeStage, event: ResumeEvent| resume_step(stage, event, hash);
    assert_eq!(
        step(ResumeStage::ReadReceipt, ResumeEvent::Receipt { hash, reverted: true }),
        Ok(ResumeStage::Done { succeeded: false })
    );
    assert_eq!(
        step(ResumeStage::ReadReceipt, ResumeEvent::Receipt { hash: Felt::one(), reverted: false }),
        Err(RotationError::ReceiptHash)
    );
    assert_eq!(step(ResumeStage::ReadReceipt, ResumeEvent::NotFound), Ok(ResumeStage::Submit));
    assert_eq!(step(ResumeStage::ReadReceipt, ResumeEvent::Unavailable), Ok(ResumeStage::Wait));
    assert_eq!(step(ResumeStage::Submit, ResumeEvent::Submitted(hash)), Ok(ResumeStage::Wait));
    assert_eq!(
        step(ResumeStage::Submit, ResumeEvent::Submitted(Felt::one())),
        Err(RotationError::SubmissionHash)
    );
    assert_eq!(step(ResumeStage::Submit, ResumeEvent::Unresolved), Ok(ResumeStage::Wait));
    assert_eq!(step(ResumeStage::Wait, ResumeEvent::Elapsed), Ok(ResumeStage::ReadReceipt));
    assert_eq!(check_simulation(Simulation::Invoke { reverted: false }), Ok(()));
    assert_eq!(
        check_simulation(Simulation::Invoke { reverted: true }),
        Err(RotationError::SimulationReverted)
    );
    assert_eq!(check_simulation(Simulation::Other), Err(RotationError::UnexpectedTrace));
}

#[test]
fn executions_tell_whether_a_key_was_rotated() {
    let included = |result: ExecutionResult| {
        Execution::Included(TransactionReceipt {
            transaction_hash: Felt::one(),
            events: vec![],
            execution_result: result,
        })
    };
    assert_eq!(rotation_outcome(included(ExecutionResult::Succeeded)), RotationOutcome::Rotated);
    let reverted = ExecutionResult::Reverted { reason: String::from("no") };
    assert_eq!(rotation_outcome(included(reverted)), RotationOutcome::Reverted);
    assert_eq!(
        rotation_outcome(Execution::Refused(String::from("no"))),
        RotationOutcome::Refused(String::from("no"))
    );
}

#[test]
fn degenerate_and_out_of_range_signatures_are_invalid() {
    let (transaction, hash, key) = signed_rotation(&rpc());
    let (r, s) = (transaction.signature[0], transaction.signature[1]);
    assert!(verify_signature(key, hash, r, s));
    assert!(!verify_signature(key, hash, s, r));
    assert!(!verify_signature(key, hash, Felt::zero(), s));
    assert!(!verify_signature(Felt::zero(), hash, r, s));
    assert!(!verify_signature(key, hash, own(SdkFelt::ZERO - SdkFelt::ONE), s));
    let generator = own(sdk(Felt::from_limbs(
        0x01ef15c18599971b7beced415a40f0c7,
        0xdeacfd9b0d1819e03d723d8bc943cfca,
    )
    .unwrap()));
    assert_eq!(generator, own(starknet_crypto::get_public_key(&SdkFelt::ONE)));
    assert!(!verify_signature(generator, Felt::from(5), Felt::from(5), Felt::from(7)));
}

#[test]
fn a_signature_whose_points_coincide_is_checked_on_their_double() {
    let felt = |hex: &str| own(SdkFelt::from_hex_unchecked(hex));
    let r = felt("0x399ab58e2d17603eeccae95933c81d504ce475eb1bd0080d2316b84232e133c");
    let key = felt("0x5de5626cf7ec7adc4983770432bb120a8b75e13ea3503251f45e889c5483fa8");
    let s = felt("0x50dff60bd1f6abc0b32b3ca7f888dd76236cd1f1c5a674231b123a45d9f32f2");
    let message = Felt::from(0x3ed);
    assert!(starknet_crypto::verify(&sdk(key), &sdk(message), &sdk(r), &sdk(s)).unwrap());
    assert!(verify_signature(key, message, r, s));
    assert!(!verify_signature(key, message, r, Felt::from(7)));
    let key = felt("0x6d2bce275803ea37ce49ac020230c5b55be5c5240449e2bbc85380a3ec9ef0f");
    let s = felt("0x6d211363a45783a74da91c83793565e86fcd1802227ef6f7934c49b53a9b03b");
    assert!(!verify_signature(key, Felt::from(0x3e8), r, s));
}

fn retained(transaction: &RotationTransaction) -> Vec<u8> {
    let felts = |felts: &[Felt]| felts.iter().map(|felt| sdk(*felt)).collect::<Vec<_>>();
    let bounds = |bounds: &ResourceBounds| sdk_types::ResourceBounds {
        max_amount: bounds.max_amount,
        max_price_per_unit: bounds.max_price_per_unit,
    };
    let mode = |mode: DataAvailabilityMode| match mode {
        DataAvailabilityMode::L1 => sdk_types::DataAvailabilityMode::L1,
        DataAvailabilityMode::L2 => sdk_types::DataAvailabilityMode::L2,
    };
    serde_json::to_vec(&BroadcastedInvokeTransactionV3 {
        sender_address: sdk(transaction.sender_address),
        calldata: felts(&transaction.calldata),
        signature: felts(&transaction.signature),
        nonce: sdk(transaction.nonce),
        resource_bounds: sdk_types::ResourceBoundsMapping {
            l1_gas: bounds(&transaction.resource_bounds.l1_gas),
            l1_data_gas: bounds(&transaction.resource_bounds.l1_data_gas),
            l2_gas: bounds(&transaction.resource_bounds.l2_gas),
        },
        tip: transaction.tip,
        paymaster_data: felts(&transaction.paymaster_data),
        account_deployment_data: felts(&transaction.account_deployment_data),
        nonce_data_availability_mode: mode(transaction.nonce_data_availability_mode),
        fee_data_availability_mode: mode(transaction.fee_data_availability_mode),
        is_query: transaction.is_query,
    })
    .unwrap()
}

#[test]
fn only_the_retained_rotation_is_resumed() {
    let rpc = rpc();
    let (transaction, hash, _) = signed_rotation(&rpc);
    let chain = Felt::from(9);
    assert_eq!(retained_rotation(&rpc, chain, &retained(&transaction), hash), Ok(signed_rotation(&rpc).0));
    assert_eq!(check_retained(&rpc, chain, signed_rotation(&rpc).0, hash), Ok(signed_rotation(&rpc).0));
    let other = RetainedError::Rotation(RotationError::RetainedHash);
    assert_eq!(retained_rotation(&rpc, chain, &retained(&transaction), Felt::one()).err(), Some(other));
    let refused = |change: &dyn Fn(&mut RotationTransaction)| {
        let (mut changed, _, _) = signed_rotation(&rpc);
        change(&mut changed);
        retained_rotation(&rpc, chain, &retained(&changed), hash).err().unwrap()
    };
    let changes: [&dyn Fn(&mut RotationTransaction); 8] = [
        &|tx| tx.sender_address = Felt::from(8),
        &|tx| tx.nonce = Felt::from(4),
        &|tx| tx.tip = 1,
        &|tx| tx.calldata[4] = Felt::from(20),
        &|tx| tx.resource_bounds.l1_gas.max_amount = 1,
        &|tx| tx.resource_bounds.l2_gas.max_price_per_unit = 1,
        &|tx| tx.resource_bounds.l1_data_gas.max_amount = 1,
        &|tx| tx.resource_bounds.l1_data_gas.max_price_per_unit = 1,
    ];
    for change in changes {
        assert_eq!(refused(change), RetainedError::Rotation(RotationError::RetainedHash));
    }
    let unsupported: [&dyn Fn(&mut RotationTransaction); 5] = [
        &|tx| tx.is_query = true,
        &|tx| tx.paymaster_data.push(Felt::one()),
        &|tx| tx.account_deployment_data.push(Felt::one()),
        &|tx| tx.nonce_data_availability_mode = DataAvailabilityMode::L2,
        &|tx| tx.fee_data_availability_mode = DataAvailabilityMode::L2,
    ];
    for change in unsupported {
        assert_eq!(refused(change), RetainedError::Rotation(RotationError::Unsupported));
    }
    assert_eq!(
        refused(&|tx| {
            tx.signature.pop();
        }),
        RetainedError::Rotation(RotationError::Unsupported)
    );
    assert_eq!(
        refused(&|tx| {
            tx.calldata.pop();
        }),
        RetainedError::Rotation(RotationError::NotOneCall)
    );
    let with = |fields: &str| {
        let text = String::from_utf8(retained(&transaction)).unwrap();
        let text = format!("{}, {fields}}}", text.strip_suffix('}').unwrap());
        retained_rotation(&rpc, chain, text.as_bytes(), hash)
    };
    for fields in ["\"proof\": \"AQ==\"", "\"proof_facts\": [\"0x1\"]", "\"proof\": null, \"proof_facts\": []"] {
        assert_eq!(with(fields).err(), Some(RetainedError::Rotation(RotationError::Unsupported)));
    }
    for fields in ["\"proof\": null", "\"proof_facts\": null", "\"other\": 1"] {
        assert_eq!(with(fields), Ok(signed_rotation(&rpc).0));
    }
    let mut unreadable = retained(&transaction);
    unreadable.pop();
    unreadable.extend_from_slice(b", \"other\": \"\xff\"}");
    let refused = retained_rotation(&rpc, chain, &unreadable, hash).err().unwrap();
    assert_eq!(
        refused.message(),
        serde_json::from_slice::<serde_json::Value>(&unreadable).unwrap_err().to_string()
    );
    let malformed = retained_rotation(&rpc, chain, b"{", hash).err().unwrap();
    assert_eq!(malformed.message(), serde_json::from_str::<serde_json::Value>("{").unwrap_err().to_string());
    assert!(matches!(malformed, RetainedError::Malformed(_)));
    assert!(matches!(retained_rotation(&rpc, chain, b"{}", hash), Err(RetainedError::Malformed(_))));
    let words = RetainedError::Rotation(RotationError::RetainedHash).message();
    assert_eq!(words, RotationError::RetainedHash.message());
}

#[test]
fn authority_is_read_from_the_deployment_the_registry_and_the_accounts() {
    let (transaction, hash, _) = signed_rotation(&rpc());
    let rotation = rotation_of(&transaction, hash).unwrap();
    let (registry, class, owner) = (Felt::from(30), Felt::from(31), Felt::from(32));
    let call = |stage: AuthorityStage| stage.view_call(Felt::from(29), &rotation);
    let expected = |contract: Felt, entry_point: &'static str, calldata: Vec<Felt>| {
        Some(ViewCall { contract, entry_point, calldata })
    };
    assert_eq!(call(AuthorityStage::ReadAuthentication), expected(Felt::from(29), "authentication", vec![]));
    assert_eq!(call(AuthorityStage::ReadClass { registry, class }), None);
    assert_eq!(call(AuthorityStage::ReadOwner { registry }), expected(registry, "owner_of", vec![rotation.actor]));
    assert_eq!(
        call(AuthorityStage::ReadAccount { registry, owner }),
        expected(registry, "account_of", vec![owner])
    );
    assert_eq!(call(AuthorityStage::ReadAuthority), expected(rotation.actor, "binding_authority", vec![]));
    assert_eq!(call(AuthorityStage::ReadKey), expected(rotation.authority, "get_public_key", vec![]));
    assert_eq!(call(AuthorityStage::ReadNonce), None);
    assert_eq!(call(AuthorityStage::Authorized), None);
}

#[test]
fn rotations_have_a_hash_wherever_their_data_is_available() {
    let rpc = rpc();
    let chain = Felt::from(9);
    let (transaction, expected, _) = signed_rotation(&rpc);
    let bounds = transaction.resource_bounds;
    let limits = [bounds.l1_gas, bounds.l2_gas, bounds.l1_data_gas].map(|b| (b.max_amount, b.max_price_per_unit));
    let felts = [chain, transaction.sender_address, transaction.nonce];
    let hashed = |on_l2: (bool, bool)| hash_invoke(felts, transaction.tip, limits, on_l2, &transaction.calldata);
    assert_eq!(hashed((false, false)), expected);
    let mode = |on_l2: bool| if on_l2 { DataAvailabilityMode::L2 } else { DataAvailabilityMode::L1 };
    let identified = |on_l2: (bool, bool)| {
        let (mut changed, _, _) = signed_rotation(&rpc);
        changed.nonce_data_availability_mode = mode(on_l2.0);
        changed.fee_data_availability_mode = mode(on_l2.1);
        decode_on(&rpc, chain, &Broadcast::InvokeV3(changed)).unwrap()
    };
    assert_eq!(identified((false, false)).hash, expected);
    let packed = |tag: &str, (amount, price): (u64, u128)| {
        SdkFelt::from_hex_unchecked(&format!("{tag}{amount:016x}{price:032x}"))
    };
    let fees = Poseidon::hash_array(&[
        SdkFelt::from(transaction.tip),
        packed("0x4c315f474153", limits[0]),
        packed("0x4c325f474153", limits[1]),
        packed("0x4c315f44415441", limits[2]),
    ]);
    let none = Poseidon::hash_array(&[]);
    let calldata: Vec<SdkFelt> = transaction.calldata.iter().map(|felt| sdk(*felt)).collect();
    for (on_l2, modes) in [((true, false), 1u64 << 32), ((false, true), 1), ((true, true), (1 << 32) + 1)] {
        let defined = Poseidon::hash_array(&[
            SdkFelt::from_bytes_be_slice(b"invoke"),
            SdkFelt::THREE,
            SdkFelt::from(7),
            fees,
            none,
            SdkFelt::from(9),
            SdkFelt::from(3),
            SdkFelt::from(modes),
            none,
            Poseidon::hash_array(&calldata),
        ]);
        assert_eq!(hashed(on_l2), own(defined));
        let rotation = identified(on_l2);
        assert_eq!(rotation.hash, own(defined));
        assert_eq!((rotation.actor, rotation.authority), (Felt::from(11), Felt::from(7)));
        assert_eq!((rotation.r, rotation.s), (transaction.signature[0], transaction.signature[1]));
    }
}

#[test]
fn hashes_agree_with_the_sdk_where_all_data_is_available_on_l1() {
    let rpc = rpc();
    let calldata = unsigned().calldata;
    for (amount, price) in [(0, 0), (1, 2), (u64::MAX, u128::MAX), (1 << 63, 1 << 127)] {
        let wide = ResourceBounds { max_amount: amount, max_price_per_unit: price };
        let other = ResourceBounds { max_amount: 5, max_price_per_unit: 6 };
        for bounds in [[wide, other, other], [other, wide, other], [other, other, wide]] {
            let [l1_gas, l2_gas, l1_data_gas] = bounds;
            let limits = bounds.map(|b| (b.max_amount, b.max_price_per_unit));
            let felts = [Felt::from(9), Felt::from(7), Felt::from(3)];
            assert_eq!(
                hash_invoke(felts, 0, limits, (false, false), &calldata),
                hash_of(&rpc, &ResourceBoundsMapping { l1_gas, l1_data_gas, l2_gas })
            );
        }
    }
}
