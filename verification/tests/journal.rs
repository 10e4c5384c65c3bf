use sequencer_randomness::journal::{
    accepted_record, check_result, check_submission, decode_record, decode_records, decode_submission,
    decode_submissions, element_bytes, felt_bytes, record_consumption, record_outcome, record_submission, recover_records, require_standby,
    verify_prefix, writer_epoch, Acceptance, Authorization, BindingEntry, ChainProgress, JournalError, Lookup,
    Proposal, Record, Reservation, Reserved, StoredHead, StoredRow, SubmissionRow,
};
use sequencer_randomness::protocol::{encode_bytes, Envelope, Intent, ProtocolError};
use sequencer_randomness::ticket::{Context, State, TicketError};
use sequencer_randomness::Felt;
use starknet_types_core::felt::Felt as SdkFelt;

fn own(felt: SdkFelt) -> Felt {
    Felt::from_be_bytes(&felt.to_bytes_be()).unwrap()
}

fn sdk(felt: Felt) -> SdkFelt {
    SdkFelt::from_bytes_be(&felt.to_be_bytes())
}

fn intent(nonce: u64) -> Intent {
    Intent {
        chain: Felt::one(),
        deployment: Felt::two(),
        game: Felt::from(3),
        actor: Felt::one(),
        nonce,
        command: Felt::one(),
        rules: Felt::one(),
        valid_from: 1000,
        valid_until: 1010,
        last_order: 10,
        arguments: vec![Felt::one()],
    }
}

fn context() -> Context {
    Context {
        order: 1,
        predecessor: Felt::zero(),
        preceding_state: Felt::zero(),
        timestamp: 1005,
        execution_config: Felt::one(),
        l2_gas: 1_200_000_000,
    }
}

fn authorization(intent: &Intent) -> Authorization {
    let private_key = SdkFelt::from(12345);
    let action = sdk(intent.identity().unwrap());
    let k = starknet_crypto::rfc6979_generate_k(&action, &private_key, None);
    let signature = starknet_crypto::sign(&private_key, &action, &k).unwrap();
    Authorization {
        public_key: own(starknet_crypto::get_public_key(&private_key)),
        r: own(signature.r),
        s: own(signature.s),
    }
}

fn reserve(intent: Intent, context: Context) -> (Acceptance, Reservation) {
    let authorization = authorization(&intent);
    let acceptance = Acceptance::begin(intent, context, authorization).ok().unwrap();
    match acceptance.looked_up(None).ok().unwrap() {
        Lookup::Reserve(acceptance, reservation) => (acceptance, reservation),
        Lookup::Known(_) => panic!("the journal is empty"),
    }
}

fn stored(reservation: &Reservation, entry: Option<&BindingEntry>) -> StoredRow {
    StoredRow {
        envelope: entry.map(|entry| entry.envelope.clone()),
        intent: reservation.intent.clone(),
        auth_witness: reservation.authorization.clone(),
        action: reservation.action.clone(),
        binding: entry.map(|entry| entry.binding.clone()).unwrap_or_default(),
        ticket_order: reservation.order,
        context: reservation.context.clone(),
        nonce_key: reservation.nonce_key.clone(),
        status: String::from("committed"),
        result: None,
        following_state: None,
        rejected: None,
    }
}

fn propose(intent: Intent, context: Context, root: [u8; 32]) -> (Proposal, StoredRow) {
    let (acceptance, reservation) = reserve(intent, context);
    let proposal = acceptance.sampled(Ok(root)).ok().unwrap();
    let row = stored(&reservation, Some(&proposal.entry().ok().unwrap()));
    (proposal, row)
}

fn row() -> StoredRow {
    propose(intent(0), context(), [9; 32]).1
}

fn finished(status: &str) -> StoredRow {
    let mut row = row();
    row.status = String::from(status);
    if status != "committed" && status != "submitted" {
        row.result = Some(element_bytes(Felt::two()));
        row.following_state = Some(element_bytes(Felt::from(3)));
        row.rejected = Some(status == "terminal-rejected");
    }
    row
}

fn fault(change: &dyn Fn(&mut StoredRow)) -> Option<JournalError> {
    let mut row = row();
    change(&mut row);
    decode_record(&row).err()
}

#[test]
fn an_accepted_action_is_read_back_as_it_was_sampled() {
    let (proposal, row) = propose(intent(0), context(), [7; 32]);
    let record = proposal.witnessed(Some(row)).ok().unwrap();
    assert_eq!(record.envelope.root, [7; 32]);
    assert!(record.intent.same(&intent(0)));
    assert_eq!(record.authorization, authorization(&intent(0)));
    assert_eq!(record.state, State::Committed);
    assert_eq!(record.envelope.action, intent(0).identity().unwrap());
    assert_eq!(record.envelope.order, 1);
    assert_eq!((record.result, record.following_state, record.rejected), (None, None, None));
}

#[test]
fn a_record_that_stands_is_returned_whatever_the_request() {
    let mut later = context();
    later.timestamp = 5000;
    let mut forged = authorization(&intent(0));
    forged.r = Felt::one();
    let duplicate = Acceptance::begin(intent(0), later, forged).ok().unwrap();
    assert_eq!(duplicate.action(), intent(0).identity().unwrap());
    match duplicate.looked_up(Some(row())) {
        Ok(Lookup::Known(record)) => assert_eq!(record.envelope.root, [9; 32]),
        _ => panic!("the record stands"),
    }
}

#[test]
fn new_actions_need_a_valid_context_and_signature() {
    let refused = |context: Context, authorization: Authorization| {
        Acceptance::begin(intent(0), context, authorization).ok().unwrap().looked_up(None).err()
    };
    let mut late = context();
    late.timestamp = 5000;
    assert_eq!(refused(late, authorization(&intent(0))), Some(JournalError::Ticket(TicketError::Context)));
    let mut forged = authorization(&intent(0));
    forged.r = Felt::one();
    assert_eq!(refused(context(), forged), Some(JournalError::Signature));
    assert_eq!(refused(context(), authorization(&intent(1))), Some(JournalError::Signature));
    let mut unbounded = intent(0);
    unbounded.last_order = u64::MAX;
    let mut far = context();
    far.order = 1 << 63;
    let authorization = authorization(&unbounded);
    let acceptance = Acceptance::begin(unbounded, far, authorization).ok().unwrap();
    assert_eq!(acceptance.looked_up(None).err(), Some(JournalError::Capacity));
}

#[test]
fn a_lost_reservation_is_read_and_a_won_one_samples() {
    let (lost, _) = reserve(intent(0), context());
    assert!(matches!(lost.reserved(false), Ok(Reserved::Read)));
    let (won, reservation) = reserve(intent(0), context());
    match won.reserved(true) {
        Ok(Reserved::Commit(proposal)) => {
            let row = stored(&reservation, Some(&proposal.entry().ok().unwrap()));
            assert!(proposal.witnessed(Some(row)).is_ok());
        }
        _ => panic!("the reservation was ours"),
    }
    let (failed, _) = reserve(intent(0), context());
    assert_eq!(
        failed.sampled(Err(TicketError::Entropy)).err(),
        Some(JournalError::Ticket(TicketError::Entropy))
    );
}

#[test]
fn an_acknowledgement_must_bind_the_sampled_envelope() {
    let (proposal, _) = propose(intent(0), context(), [7; 32]);
    assert_eq!(proposal.witnessed(Some(row())).err(), Some(JournalError::Prefix));
    let (proposal, _) = propose(intent(0), context(), [7; 32]);
    assert_eq!(proposal.witnessed(None).err(), Some(JournalError::Prefix));
    let (acceptance, reservation) = reserve(intent(0), context());
    let unresolved = stored(&reservation, None);
    assert_eq!(acceptance.looked_up(Some(unresolved)).err(), Some(JournalError::UnresolvedProposal));
}

#[test]
fn corrupt_rows_are_refused_in_the_order_of_their_columns() {
    assert_eq!(fault(&|_| ()), None);
    assert_eq!(fault(&|row| row.envelope = None), Some(JournalError::UnresolvedProposal));
    let length = Some(JournalError::Protocol(ProtocolError::Length));
    let value = Some(JournalError::Protocol(ProtocolError::Value));
    let header = Some(JournalError::Protocol(ProtocolError::Header));
    assert_eq!(fault(&|row| row.envelope.as_mut().unwrap().truncate(31)), length);
    assert_eq!(fault(&|row| row.envelope.as_mut().unwrap().truncate(320)), length);
    assert_eq!(fault(&|row| row.envelope.as_mut().unwrap()[0] = 255), value);
    assert_eq!(fault(&|row| row.envelope.as_mut().unwrap()[31] ^= 1), header);
    assert_eq!(fault(&|row| row.envelope.as_mut().unwrap()[351] ^= 1), Some(JournalError::Prefix));
    assert_eq!(fault(&|row| row.intent.truncate(40)), length);
    assert_eq!(fault(&|row| row.intent[31] ^= 1), header);
    assert_eq!(fault(&|row| row.intent[95] ^= 1), Some(JournalError::Prefix));
    assert_eq!(fault(&|row| row.auth_witness.truncate(5)), length);
    assert_eq!(fault(&|row| row.auth_witness.truncate(64)), Some(JournalError::Prefix));
    assert_eq!(fault(&|row| row.auth_witness[63] ^= 1), Some(JournalError::Signature));
    assert_eq!(fault(&|row| row.action.truncate(5)), length);
    assert_eq!(fault(&|row| row.action.clear()), Some(JournalError::Prefix));
    assert_eq!(fault(&|row| row.action[31] ^= 1), Some(JournalError::Prefix));
    assert_eq!(fault(&|row| row.binding[31] ^= 1), Some(JournalError::Prefix));
    assert_eq!(fault(&|row| row.binding.truncate(5)), length);
    assert_eq!(fault(&|row| row.ticket_order = 2), Some(JournalError::Prefix));
    assert_eq!(fault(&|row| row.context[31] ^= 1), Some(JournalError::Prefix));
    assert_eq!(fault(&|row| row.nonce_key[31] ^= 1), Some(JournalError::Prefix));
    assert_eq!(fault(&|row| row.status = String::from("proposed")), Some(JournalError::Prefix));
    assert_eq!(fault(&|row| row.result = Some(vec![0; 31])), length);
    assert_eq!(fault(&|row| row.following_state = Some(vec![0; 64])), Some(JournalError::Prefix));
}

#[test]
fn a_row_outside_the_signed_limits_is_refused() {
    let candidate = intent(0);
    let envelope = Envelope {
        action: candidate.identity().unwrap(),
        order: 1,
        predecessor: Felt::zero(),
        preceding_state: Felt::zero(),
        timestamp: 1011,
        execution_config: Felt::one(),
        l2_gas: 1,
        root: [1; 32],
    };
    let write = |envelope: &Envelope| {
        let mut row = row();
        row.envelope = Some(encode_bytes(&envelope.encode()));
        row.context = encode_bytes(&envelope.encode_context());
        row.binding = element_bytes(envelope.binding());
        row.ticket_order = envelope.order as i64;
        decode_record(&row).err()
    };
    assert_eq!(write(&envelope), Some(JournalError::Ticket(TicketError::Context)));
    let mut far = envelope.clone();
    far.order = 1 << 63;
    assert_eq!(write(&far), Some(JournalError::Capacity));
    let mut timely = envelope;
    timely.timestamp = 1010;
    assert_eq!(write(&timely), None);
}

#[test]
fn every_stored_status_is_read() {
    let states = [
        ("committed", State::Committed),
        ("submitted", State::Submitted),
        ("executed", State::Executed),
        ("terminal-rejected", State::TerminalRejected),
        ("consumed", State::Consumed),
    ];
    for (status, state) in states {
        let record = accepted_record(Some(finished(status))).ok().unwrap();
        assert_eq!(record.state, state);
        assert_eq!(record.result.is_some(), matches!(state, State::Executed | State::TerminalRejected | State::Consumed));
        assert!(record.restore_ticket().is_ok());
    }
    assert_eq!(accepted_record(None).err(), Some(JournalError::Prefix));
}

#[test]
fn recorded_tickets_take_only_their_transitions() {
    let transition = Err(JournalError::Ticket(TicketError::Transition));
    assert_eq!(record_submission(Some(finished("committed")), Felt::one()), Ok(()));
    assert_eq!(record_submission(Some(finished("submitted")), Felt::one()), Ok(()));
    assert_eq!(record_submission(Some(finished("executed")), Felt::one()), transition);
    assert_eq!(record_submission(None, Felt::one()), Err(JournalError::Prefix));
    assert_eq!(record_outcome(Some(finished("submitted")), Felt::two(), true), Ok(()));
    assert_eq!(record_outcome(Some(finished("committed")), Felt::two(), true), transition);
    assert_eq!(record_outcome(Some(finished("terminal-rejected")), Felt::two(), true), Ok(()));
    assert_eq!(
        record_outcome(Some(finished("terminal-rejected")), Felt::one(), true),
        Err(JournalError::Ticket(TicketError::ConflictingResult))
    );
    assert_eq!(record_outcome(Some(finished("terminal-rejected")), Felt::two(), false), transition);
    assert_eq!(record_consumption(Some(finished("executed"))), Ok(()));
    assert_eq!(record_consumption(Some(finished("consumed"))), Ok(()));
    assert_eq!(record_consumption(Some(finished("submitted"))), transition);
    assert_eq!(check_submission(Felt::zero(), &[1]), Err(JournalError::Prefix));
    assert_eq!(check_submission(Felt::one(), &[]), Err(JournalError::Prefix));
    assert_eq!(check_submission(Felt::one(), &[1]), Ok(()));
    assert_eq!(check_result(Felt::zero()), Err(JournalError::Prefix));
    assert_eq!(check_result(Felt::one()), Ok(()));
}

fn history() -> (Vec<StoredRow>, Vec<ChainProgress>, StoredHead) {
    let mut first = finished("consumed");
    let binding = felt_bytes(&first.binding).unwrap();
    first.rejected = Some(false);
    let mut next = context();
    next.order = 2;
    next.predecessor = binding;
    next.preceding_state = Felt::from(3);
    let second = propose(intent(1), next, [8; 32]).1;
    let head = StoredHead {
        accepted_order: 2,
        executed_order: 1,
        state: element_bytes(Felt::from(3)),
        binding: second.binding.clone(),
    };
    let chain = vec![ChainProgress { order: 1, binding, state: Felt::from(3), result: Felt::two() }];
    (vec![first, second], chain, head)
}

fn recover(change: &dyn Fn(&mut Vec<StoredRow>, &mut Vec<ChainProgress>, &mut StoredHead)) -> Option<JournalError> {
    let (mut rows, mut chain, mut head) = history();
    change(&mut rows, &mut chain, &mut head);
    recover_records(&head, &rows, &chain).err()
}

#[test]
fn recovery_accepts_exactly_the_prefix_that_the_chain_executed() {
    let (rows, chain, head) = history();
    let records = recover_records(&head, &rows, &chain).ok().unwrap();
    assert_eq!(records.len(), 2);
    assert_eq!(records[0].state, State::Consumed);
    assert_eq!(records[1].result, None);
    let empty = StoredHead {
        accepted_order: 0,
        executed_order: 0,
        state: element_bytes(Felt::zero()),
        binding: element_bytes(Felt::zero()),
    };
    assert!(recover_records(&empty, &[], &[]).ok().unwrap().is_empty());
    let prefix = Some(JournalError::Prefix);
    assert_eq!(recover(&|_, chain, _| chain.clear()), prefix);
    assert_eq!(recover(&|rows, _, _| rows.clear()), prefix);
    assert_eq!(recover(&|rows, _, _| rows.truncate(1)), prefix);
    assert_eq!(recover(&|rows, _, _| rows[0].envelope.as_mut().unwrap()[351] ^= 1), prefix);
    assert_eq!(recover(&|rows, _, _| rows[1].envelope = None), Some(JournalError::UnresolvedProposal));
    assert_eq!(recover(&|rows, _, _| rows[0].following_state = None), prefix);
    assert_eq!(recover(&|_, _, head| head.accepted_order = 3), prefix);
    assert_eq!(recover(&|_, _, head| head.accepted_order = -1), prefix);
    assert_eq!(recover(&|_, _, head| head.executed_order = 2), prefix);
    assert_eq!(recover(&|_, _, head| head.state = element_bytes(Felt::one())), prefix);
    assert_eq!(recover(&|_, _, head| head.binding = element_bytes(Felt::one())), prefix);
    assert_eq!(
        recover(&|_, _, head| head.state = vec![1]),
        Some(JournalError::Protocol(ProtocolError::Length))
    );
    assert_eq!(recover(&|_, chain, _| chain[0].result = Felt::one()), prefix);
    assert_eq!(recover(&|_, chain, _| chain[0].state = Felt::one()), prefix);
    assert_eq!(recover(&|_, chain, _| chain[0].binding = Felt::one()), prefix);
    assert_eq!(recover(&|_, chain, _| chain[0].order = 2), prefix);
}

fn prefix(change: &dyn Fn(&mut Vec<Record>)) -> Result<(), JournalError> {
    let (rows, chain, _) = history();
    let mut records = decode_records(&rows).ok().unwrap();
    change(&mut records);
    verify_prefix(&records, &chain)
}

#[test]
fn records_are_numbered_chained_and_use_each_nonce_once() {
    assert_eq!(prefix(&|_| ()), Ok(()));
    assert_eq!(prefix(&|records| records[1].envelope.order = 3), Err(JournalError::Prefix));
    assert_eq!(prefix(&|records| records[1].envelope.order = 0), Err(JournalError::Prefix));
    assert_eq!(prefix(&|records| records[1].envelope.predecessor = Felt::one()), Err(JournalError::Prefix));
    assert_eq!(prefix(&|records| records[1].envelope.preceding_state = Felt::one()), Err(JournalError::Prefix));
    assert_eq!(prefix(&|records| records[1].envelope.action = Felt::one()), Err(JournalError::Prefix));
    let reuse = |records: &mut Vec<Record>| {
        records[1].intent = intent(0);
        records[1].envelope.action = intent(0).identity().unwrap();
    };
    assert_eq!(prefix(&reuse), Err(JournalError::Prefix));
    assert_eq!(prefix(&|records| records[1].result = Some(Felt::one())), Err(JournalError::Prefix));
    assert_eq!(prefix(&|records| records[1].state = State::Consumed), Err(JournalError::Prefix));
    assert_eq!(prefix(&|records| records[0].result = None), Ok(()));
    let (rows, chain, _) = history();
    let records = decode_records(&rows).ok().unwrap();
    assert_eq!(verify_prefix(&records, &[]), Err(JournalError::Prefix));
    assert_eq!(verify_prefix(&[], &chain), Err(JournalError::Prefix));
    assert_eq!(verify_prefix(&[], &[]), Ok(()));
}

#[test]
fn submissions_are_read_from_their_rows() {
    let stored = |epoch: i64| SubmissionRow {
        action: element_bytes(Felt::from(4)),
        transaction_hash: element_bytes(Felt::from(5)),
        epoch,
        transaction_bytes: vec![1, 2, 3],
        refusal: Some(String::from("queue full")),
    };
    let submission = decode_submission(stored(6)).ok().unwrap();
    assert_eq!((submission.action, submission.transaction_hash), (Felt::from(4), Felt::from(5)));
    assert_eq!((submission.epoch, submission.bytes), (6, vec![1, 2, 3]));
    assert_eq!(submission.refusal, Some(String::from("queue full")));
    assert_eq!(decode_submission(stored(-1)).err(), Some(JournalError::Prefix));
    let mut broken = stored(1);
    broken.action = vec![1];
    assert_eq!(decode_submission(broken).err(), Some(JournalError::Protocol(ProtocolError::Length)));
    let broken = || SubmissionRow { action: vec![1], ..stored(1) };
    assert_eq!(decode_submissions(vec![]).ok().unwrap().len(), 0);
    let submissions = decode_submissions(vec![stored(6), stored(2), stored(9)]).ok().unwrap();
    assert_eq!(submissions.iter().map(|submission| submission.epoch).collect::<Vec<_>>(), [6, 2, 9]);
    assert!(submissions.iter().all(|submission| submission.bytes == [1, 2, 3]));
    let first = |rows: Vec<SubmissionRow>| decode_submissions(rows).err();
    assert_eq!(first(vec![stored(6), stored(-1), broken()]), Some(JournalError::Prefix));
    assert_eq!(
        first(vec![stored(6), broken(), stored(-1)]),
        Some(JournalError::Protocol(ProtocolError::Length))
    );
}

#[test]
fn epochs_and_readers_are_checked() {
    assert_eq!(writer_epoch(7), Ok(7));
    assert_eq!(writer_epoch(u64::MAX), Err(JournalError::Capacity));
    assert_eq!(require_standby(true), Ok(()));
    assert_eq!(require_standby(false), Err(JournalError::Standby));
    assert_eq!(JournalError::Storage.message(), "journal storage operation failed");
    assert_eq!(JournalError::Standby.message(), "journal reader must be a physical standby");
    assert_eq!(JournalError::Ticket(TicketError::Context).message(), TicketError::Context.message());
}
