use sequencer_randomness::execution::{batch_calldata, ExecutionError};
use sequencer_randomness::node::{
    decode_head, invoke_calldata, recorded_intent, retained_hashes, retained_step, scan_block, submission_step,
    BlockTransaction, CallingAccount, Head, HeldTransaction, InvokeCall, NodeError, PrepareError, ReconnectScan,
    RetainedEvent, RetainedStage, SubmissionEvent, SubmissionStage,
};
use sequencer_randomness::protocol::{Intent, ProtocolError};
use sequencer_randomness::recorded::{
    ActionStatus, Event, ExecutionResult, RecordedEnvelope, RecordedTicket, TransactionReceipt,
};
use sequencer_randomness::stark::{sign, verify_signature};
use sequencer_randomness::Felt;
use starknet_accounts::{Account, ExecutionEncoding, SingleOwnerAccount};
use starknet_core::types::Call;
use starknet_core::utils::get_selector_from_name;
use starknet_providers::jsonrpc::{HttpTransport, JsonRpcClient};
use starknet_signers::{LocalWallet, SigningKey};
use starknet_types_core::felt::Felt as SdkFelt;

fn selector(name: &str) -> Felt {
    Felt::from_be_bytes(&get_selector_from_name(name).unwrap().to_bytes_be()).unwrap()
}

fn tickets() -> [RecordedTicket; 2] {
    let intent = Intent {
        chain: Felt::one(),
        deployment: Felt::two(),
        game: Felt::from(9),
        actor: Felt::from(55),
        nonce: 3,
        command: Felt::one(),
        rules: Felt::one(),
        valid_from: 0,
        valid_until: 500,
        last_order: 100,
        arguments: vec![Felt::from(7)],
    };
    let first = RecordedTicket {
        envelope: RecordedEnvelope {
            action: intent.identity().unwrap(),
            order: 7,
            timestamp: 10,
            execution_config: Felt::one(),
            epoch: 1,
            root: [123; 32],
        },
        intent,
        signature: vec![Felt::one(), Felt::two()],
    };
    let mut second = first.clone();
    second.intent.actor = Felt::from(56);
    second.envelope.action = second.intent.identity().unwrap();
    second.envelope.order = 8;
    [first, second]
}

fn receipt(tickets: &[RecordedTicket]) -> TransactionReceipt {
    TransactionReceipt {
        transaction_hash: Felt::from(99),
        events: tickets
            .iter()
            .map(|ticket| Event {
                from_address: ticket.intent.deployment,
                keys: vec![selector("RecordingEvent"), selector("ExecutionRecorded")],
                data: vec![
                    ticket.intent.game,
                    ticket.intent.actor,
                    Felt::from(ticket.intent.nonce),
                    Felt::one(),
                    Felt::from(ticket.envelope.order),
                    Felt::one(),
                    Felt::zero(),
                ],
            })
            .collect(),
        execution_result: ExecutionResult::Succeeded,
    }
}

#[test]
fn restart_reconciliation_attributes_the_matching_intent_inside_a_batch() {
    let [first, second] = tickets();
    let intent = first.intent.clone();
    let mut payload = vec![Felt::two()];
    payload.extend(first.calldata().unwrap());
    payload.extend(second.calldata().unwrap());
    let mut calldata =
        vec![Felt::one(), intent.deployment, selector("execute_batch"), Felt::from(payload.len() as u64)];
    calldata.extend(payload);
    let receipt = receipt(&[first, second.clone()]);
    assert!(
        matches!(recorded_intent(&calldata, &receipt, &intent).unwrap(), Some(ActionStatus::Recorded { order: 7, transaction_hash, succeeded: true, .. }) if transaction_hash == Felt::from(99))
    );
    assert!(matches!(
        recorded_intent(&calldata, &receipt, &second.intent).unwrap(),
        Some(ActionStatus::Recorded { order: 8, .. })
    ));
    let mut different = intent.clone();
    different.arguments[0] = Felt::from(8);
    assert!(recorded_intent(&calldata, &receipt, &different).unwrap().is_none());
    calldata.pop();
    assert!(recorded_intent(&calldata, &receipt, &intent).unwrap().is_none());
}

#[test]
fn prepared_batches_are_recognized() {
    let batch = tickets();
    let payload = batch_calldata(&batch, false).unwrap();
    let calldata = invoke_calldata(Felt::two(), "execute_batch", &payload).unwrap();
    assert_eq!(calldata[..4], [Felt::one(), Felt::two(), selector("execute_batch"), Felt::from(payload.len() as u64)]);
    assert_eq!(calldata[4..], payload[..]);
    for ticket in &batch {
        let status = recorded_intent(&calldata, &receipt(&batch), &ticket.intent).unwrap().unwrap();
        assert!(matches!(status, ActionStatus::Recorded { order, .. } if order == ticket.envelope.order));
    }
    for name in ["execute", "reject_execution"] {
        let calldata = invoke_calldata(Felt::two(), name, &batch[1].calldata().unwrap()).unwrap();
        assert!(recorded_intent(&calldata, &receipt(&batch[1..]), &batch[1].intent).unwrap().is_some());
    }
    assert!(invoke_calldata(Felt::two(), "n\u{e4}me", &[]).is_none());
}

#[test]
fn recorded_transactions_with_a_broken_form_are_refused() {
    let batch = tickets();
    let intent = &batch[0].intent;
    let recorded = |name: &str, payload: &[Felt]| {
        recorded_intent(&invoke_calldata(Felt::two(), name, payload).unwrap(), &receipt(&batch), intent)
    };
    assert_eq!(recorded("transfer", &[]), Ok(None));
    assert_eq!(recorded("execute_batch", &[]), Err(ExecutionError::TruncatedBatch));
    assert_eq!(recorded("execute_batch", &[Felt::zero()]), Err(ExecutionError::RecordedBatchSize));
    assert_eq!(recorded("execute_batch", &[Felt::from(65)]), Err(ExecutionError::RecordedBatchSize));
    assert_eq!(
        recorded("execute_batch", &[Felt::from_u128(u128::MAX)]),
        Err(ExecutionError::Value)
    );
    assert_eq!(recorded("execute", &[Felt::one()]), Err(ExecutionError::Protocol(ProtocolError::Length)));
    let mut trailing = batch[0].calldata().unwrap();
    trailing.push(Felt::one());
    assert_eq!(recorded("execute", &trailing), Err(ExecutionError::TrailingData));
    trailing.pop();
    assert_eq!(recorded("execute", &trailing), Err(ExecutionError::TicketCount));
    let mut foreign = invoke_calldata(Felt::from(5), "execute", &trailing).unwrap();
    assert_eq!(recorded_intent(&foreign, &receipt(&batch), intent), Ok(None));
    foreign[1] = Felt::two();
    foreign[3] = Felt::from_u128(u128::MAX);
    assert_eq!(
        recorded_intent(&foreign, &receipt(&batch), intent),
        Err(ExecutionError::Value)
    );
    assert_eq!(recorded_intent(&foreign[..3], &receipt(&batch), intent), Ok(None));
}

#[test]
fn blocks_are_scanned_from_their_latest_transaction() {
    let batch = tickets();
    let account = Felt::from(77);
    let calldata = |ticket: &RecordedTicket| {
        invoke_calldata(Felt::two(), "execute", &ticket.calldata().unwrap()).unwrap()
    };
    let sent = |sender: Felt, hash: u64, result: ExecutionResult| {
        let mut receipt = receipt(&batch[..1]);
        receipt.transaction_hash = Felt::from(hash);
        receipt.execution_result = result;
        BlockTransaction {
            invoke: Some(InvokeCall { sender_address: sender, calldata: calldata(&batch[0]) }),
            receipt,
        }
    };
    let reverted = || ExecutionResult::Reverted { reason: String::from("Out of gas") };
    let block = [
        sent(account, 1, ExecutionResult::Succeeded),
        sent(account, 2, ExecutionResult::Succeeded),
        sent(account, 3, reverted()),
        sent(Felt::from(5), 4, ExecutionResult::Succeeded),
        BlockTransaction { invoke: None, receipt: receipt(&batch) },
    ];
    let found = scan_block(&block, account, &batch[0].intent).unwrap().unwrap();
    assert!(matches!(found, ActionStatus::Recorded { transaction_hash, .. } if transaction_hash == Felt::two()));
    assert_eq!(scan_block(&block, account, &batch[1].intent), Ok(None));
    assert_eq!(scan_block(&block, Felt::from(6), &batch[0].intent), Ok(None));
    let mut scan = ReconnectScan::start();
    let mut blocks = 0;
    while scan.take() {
        blocks += 1;
    }
    assert_eq!(blocks, 256);
}

#[test]
fn heads_are_three_elements() {
    let head = decode_head(&[Felt::from(4), Felt::from(5), Felt::from(6)]);
    assert_eq!(head, Ok(Head { order: 4, timestamp: 5, state: Felt::from(6) }));
    assert_eq!(decode_head(&[Felt::from(4)]), Err(NodeError::MalformedHead));
    assert_eq!(decode_head(&[Felt::from_u128(1 << 64), Felt::one(), Felt::one()]), Err(NodeError::Value));
    assert_eq!(NodeError::MalformedHead.message(), "malformed execution head");
}

#[test]
fn retained_transactions_are_drained_once_each() {
    let held = |hash: u64, account: u64| HeldTransaction {
        hash: Felt::from(hash),
        contract_address: Felt::from(account),
    };
    let hashes = retained_hashes(
        &[held(9, 1), held(3, 1), held(4, 2), held(9, 1)],
        &[held(5, 1), held(3, 1), held(7, 2)],
        Felt::one(),
    );
    assert_eq!(hashes, vec![Felt::from(3), Felt::from(5), Felt::from(9)]);
    let observed = |receipt, status, candidate| {
        retained_step(RetainedStage::Observe, RetainedEvent::Observed { receipt, status, candidate })
    };
    assert_eq!(observed(false, true, false), Ok(RetainedStage::Wait));
    assert_eq!(observed(false, false, true), Ok(RetainedStage::Wait));
    assert_eq!(observed(true, true, true), Ok(RetainedStage::Settled));
    assert_eq!(observed(false, false, false), Ok(RetainedStage::Settled));
    assert_eq!(retained_step(RetainedStage::Wait, RetainedEvent::News(true)), Ok(RetainedStage::Observe));
    let stopped = retained_step(RetainedStage::Wait, RetainedEvent::News(false));
    assert_eq!(stopped, Err(NodeError::RetainedStopped));
    assert_eq!(NodeError::RetainedStopped.message(), "retained transaction observer stopped");
}

#[test]
fn a_submission_is_observed_to_its_end() {
    let hash = Felt::from(6);
    let run = |events: &[SubmissionEvent]| {
        let mut stage = SubmissionStage::FirstReceipt;
        for event in events {
            stage = submission_step(stage, *event, hash)?;
        }
        Ok::<SubmissionStage, NodeError>(stage)
    };
    let fresh = [SubmissionEvent::Receipt(false), SubmissionEvent::Status(false)];
    assert_eq!(run(&[SubmissionEvent::Receipt(true)]), Ok(SubmissionStage::Included));
    assert_eq!(run(&fresh), Ok(SubmissionStage::Submit));
    let with = |more: &[SubmissionEvent]| run(&[&fresh[..], more].concat());
    assert_eq!(with(&[SubmissionEvent::Accepted(Felt::one())]), Err(NodeError::DifferentHash));
    assert_eq!(
        with(&[SubmissionEvent::Failed, SubmissionEvent::Status(false)]),
        Err(NodeError::NotSubmitted)
    );
    let observed = [SubmissionEvent::Failed, SubmissionEvent::Status(true), SubmissionEvent::Receipt(false)];
    assert_eq!(with(&observed), Ok(SubmissionStage::Refusal));
    let waiting = [SubmissionEvent::Accepted(hash), SubmissionEvent::Receipt(false), SubmissionEvent::Refusal(false)];
    assert_eq!(with(&waiting), Ok(SubmissionStage::Wait));
    let after = |more: SubmissionEvent| with(&[&waiting[..], &[more]].concat());
    assert_eq!(after(SubmissionEvent::StatusNews(false)), Err(NodeError::ObservationStopped));
    assert_eq!(after(SubmissionEvent::RefusalNews(false)), Err(NodeError::RefusalStopped));
    assert_eq!(after(SubmissionEvent::StatusNews(true)), Ok(SubmissionStage::Receipt));
    let refused = [SubmissionEvent::Accepted(hash), SubmissionEvent::Receipt(false), SubmissionEvent::Refusal(true)];
    assert_eq!(with(&refused), Ok(SubmissionStage::Refused));
}

fn sdk(felt: Felt) -> SdkFelt {
    SdkFelt::from_bytes_be(&felt.to_be_bytes())
}

fn own(felt: SdkFelt) -> Felt {
    Felt::from_be_bytes(&felt.to_bytes_be()).unwrap()
}

fn calling_account() -> CallingAccount {
    CallingAccount { chain: Felt::from(9), address: Felt::from(5), secret: Felt::from(123), l2_gas: 1_200_000_000 }
}

fn rpc() -> JsonRpcClient<HttpTransport> {
    JsonRpcClient::new(HttpTransport::new("http://127.0.0.1:1".parse::<url::Url>().unwrap()))
}

#[test]
fn prepared_transactions_are_signed_by_the_sequencing_key() {
    let rpc = rpc();
    let payload = [Felt::one(), Felt::from(44)];
    let (hash, transaction) =
        calling_account().prepare(&rpc, Felt::from(6), Felt::two(), "execute_batch", &payload).ok().unwrap();
    assert_eq!(transaction.calldata, invoke_calldata(Felt::two(), "execute_batch", &payload).unwrap());
    assert_eq!((transaction.sender_address, transaction.nonce), (Felt::from(5), Felt::from(6)));
    assert_eq!(transaction.l2_gas, 1_200_000_000);
    let signer = LocalWallet::from(SigningKey::from_secret_scalar(SdkFelt::from(123)));
    let account = SingleOwnerAccount::new(&rpc, signer, SdkFelt::from(5), SdkFelt::from(9), ExecutionEncoding::New);
    let call = Call {
        to: SdkFelt::TWO,
        selector: get_selector_from_name("execute_batch").unwrap(),
        calldata: payload.map(sdk).to_vec(),
    };
    let prepared = account
        .execute_v3(vec![call])
        .nonce(SdkFelt::from(6))
        .tip(0)
        .l1_gas(0)
        .l1_gas_price(0)
        .l2_gas(1_200_000_000)
        .l2_gas_price(0)
        .l1_data_gas(0)
        .l1_data_gas_price(0)
        .prepared()
        .unwrap();
    assert_eq!(hash, own(prepared.transaction_hash(false)));
    let key = own(starknet_crypto::get_public_key(&SdkFelt::from(123)));
    assert!(verify_signature(key, hash, transaction.signature[0], transaction.signature[1]));
}

#[test]
fn every_value_of_a_call_enters_its_hash() {
    let rpc = rpc();
    let hashed = |account: CallingAccount, nonce: u64, to: u64, name: &str, payload: &[Felt]| {
        account.prepare(&rpc, Felt::from(nonce), Felt::from(to), name, payload).ok().unwrap().0
    };
    let account = calling_account();
    let base = hashed(account, 6, 2, "execute_batch", &[Felt::one()]);
    assert_eq!(hashed(account, 6, 2, "execute_batch", &[Felt::one()]), base);
    assert_eq!(hashed(CallingAccount { secret: Felt::from(7), ..account }, 6, 2, "execute_batch", &[Felt::one()]), base);
    for other in [
        hashed(CallingAccount { chain: Felt::from(8), ..account }, 6, 2, "execute_batch", &[Felt::one()]),
        hashed(CallingAccount { address: Felt::from(8), ..account }, 6, 2, "execute_batch", &[Felt::one()]),
        hashed(CallingAccount { l2_gas: 8, ..account }, 6, 2, "execute_batch", &[Felt::one()]),
        hashed(account, 7, 2, "execute_batch", &[Felt::one()]),
        hashed(account, 6, 3, "execute_batch", &[Felt::one()]),
        hashed(account, 6, 2, "execute", &[Felt::one()]),
        hashed(account, 6, 2, "execute_batch", &[]),
        hashed(account, 6, 2, "execute_batch", &[Felt::two()]),
    ] {
        assert_ne!(other, base);
    }
    let named = account.prepare(&rpc, Felt::one(), Felt::one(), "n\u{e4}me", &[]);
    assert_eq!(named.err(), Some(PrepareError::Name));
}

#[test]
fn signatures_depend_on_key_and_message() {
    let largest = SdkFelt::ZERO - SdkFelt::ONE;
    assert_eq!(sign(Felt::from(123), own(largest)), None);
    assert_eq!(sign(Felt::zero(), Felt::zero()), None);
    let (r, s) = sign(Felt::from(123), Felt::from(77)).unwrap();
    let signature = SigningKey::from_secret_scalar(SdkFelt::from(123)).sign(&SdkFelt::from(77)).unwrap();
    assert_eq!((r, s), (own(signature.r), own(signature.s)));
}
