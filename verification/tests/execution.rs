use sequencer_randomness::admission::{AdmissionSlots, Slot};
use sequencer_randomness::batch::BatchExecution;
use sequencer_randomness::execution::{
    authentication_revert, batch_calldata, batch_entry_point, deterministic_limit, judge, range_step,
    receipt_outcomes, split_front, submitted_statuses, Bisection, ExecutionError, RangeEvent, RangeStage, Verdict,
};
use sequencer_randomness::protocol::Intent;
use sequencer_randomness::recorded::{
    ActionStatus, Event, Execution, ExecutionResult, RecordedEnvelope, RecordedTicket, TransactionReceipt,
};
use sequencer_randomness::Felt;
use starknet_core::utils::get_selector_from_name;
use std::collections::{HashMap, VecDeque};

fn selector(name: &str) -> Felt {
    Felt::from_be_bytes(&get_selector_from_name(name).unwrap().to_bytes_be()).unwrap()
}

#[derive(Clone, Copy, PartialEq)]
enum FirstSubmission {
    Normal,
    LostAfterExecution,
    LostBeforeExecution,
    DeterministicRefusal,
}

struct Prepared {
    rejection: bool,
    payload: Vec<Felt>,
    orders: Vec<u64>,
}

struct TestNode {
    tickets: Vec<RecordedTicket>,
    poison: Option<u64>,
    first: FirstSubmission,
    prepared: Vec<Prepared>,
    submitted: Vec<u64>,
    receipts: HashMap<u64, (Vec<u64>, bool)>,
    head: u64,
    effects: Vec<u64>,
}

impl TestNode {
    fn new(tickets: Vec<RecordedTicket>, poison: Option<u64>, first: FirstSubmission) -> Self {
        TestNode {
            tickets,
            poison,
            first,
            prepared: vec![],
            submitted: vec![],
            receipts: HashMap::new(),
            head: 0,
            effects: vec![],
        }
    }

    fn prepare(&mut self, rejection: bool, payload: Vec<Felt>) -> u64 {
        let mut orders = vec![];
        for ticket in &self.tickets {
            let fields = ticket.calldata().unwrap();
            if payload.windows(fields.len()).any(|window| window == fields) {
                orders.push(ticket.envelope.order);
            }
        }
        assert!(!orders.is_empty());
        self.prepared.push(Prepared { rejection, payload, orders });
        self.prepared.len() as u64
    }

    fn receipt(&self, hash: u64) -> Option<TransactionReceipt> {
        let (orders, reverted) = self.receipts.get(&hash)?;
        let rejection = self.prepared[hash as usize - 1].rejection;
        if *reverted {
            return Some(TransactionReceipt {
                transaction_hash: Felt::from(hash),
                events: vec![],
                execution_result: ExecutionResult::Reverted { reason: String::from("Out of gas") },
            });
        }
        let mut events = vec![];
        for order in orders {
            let ticket = &self.tickets[*order as usize - 1];
            events.push(Event {
                from_address: ticket.intent.deployment,
                keys: vec![selector("RecordingEvent"), selector("ExecutionRecorded")],
                data: vec![
                    ticket.intent.game,
                    ticket.intent.actor,
                    Felt::from(ticket.intent.nonce),
                    Felt::one(),
                    Felt::from(*order),
                    if rejection { Felt::two() } else { Felt::one() },
                    if rejection { Felt::from(99) } else { Felt::zero() },
                ],
            });
        }
        Some(TransactionReceipt {
            transaction_hash: Felt::from(hash),
            events,
            execution_result: ExecutionResult::Succeeded,
        })
    }

    fn included(&mut self, hash: u64) {
        let prepared = &self.prepared[hash as usize - 1];
        let orders = prepared.orders.clone();
        let rejection = prepared.rejection;
        let reverted = !rejection && orders.iter().any(|order| Some(*order) == self.poison);
        if !reverted {
            for order in &orders {
                assert_eq!(*order, self.head + 1);
                self.head = *order;
                if !rejection {
                    self.effects.push(*order);
                }
            }
        }
        self.receipts.insert(hash, (orders, reverted));
    }

    fn execute(&mut self, hash: u64) -> Option<Execution> {
        self.submitted.push(hash);
        if let Some(receipt) = self.receipt(hash) {
            return Some(Execution::Included(receipt));
        }
        if self.submitted.len() == 1 {
            match self.first {
                FirstSubmission::LostAfterExecution => {
                    self.included(hash);
                    return None;
                }
                FirstSubmission::LostBeforeExecution => return None,
                FirstSubmission::DeterministicRefusal => {
                    return Some(Execution::Refused(String::from("Exceeded the maximum number of events, 1000")));
                }
                FirstSubmission::Normal => {}
            }
        }
        self.included(hash);
        self.receipt(hash).map(Execution::Included)
    }
}

fn execute(
    node: &mut TestNode,
    tickets: &[RecordedTicket],
    statuses: &mut [ActionStatus],
) -> Result<(), ExecutionError> {
    let mut batch = BatchExecution::start(tickets.to_vec())?;
    while let Some((range, rejection)) = batch.attempt() {
        let Some((hash, stage)) = batch.prepared() else {
            let (entry_point, payload) = batch.payload()?;
            assert_eq!(entry_point, batch_entry_point(rejection));
            let hash = node.prepare(rejection, payload);
            batch.prepare(Felt::from(hash));
            continue;
        };
        let number = hash.to_u64().unwrap();
        let event = match stage {
            RangeStage::Submit(_) => {
                statuses[range.clone()].clone_from_slice(&batch.submitted(hash));
                RangeEvent::Observed(node.execute(number))
            }
            RangeStage::Reconcile(_) => RangeEvent::Receipt(node.receipt(number)),
            RangeStage::ReadHead(_) => RangeEvent::Head(node.head),
            _ => RangeEvent::Changed,
        };
        for (status, outcome) in statuses[range].iter_mut().zip(batch.step(&event)?) {
            *status = outcome;
        }
    }
    Ok(())
}

fn pending(count: u64) -> (AdmissionSlots, Vec<RecordedTicket>, Vec<ActionStatus>) {
    let mut slots = AdmissionSlots::new();
    let mut tickets = vec![];
    let mut statuses = vec![];
    for order in 1..=count {
        let intent = Intent {
            chain: Felt::one(),
            deployment: Felt::two(),
            game: Felt::one(),
            actor: Felt::from(order + 100),
            nonce: 0,
            command: Felt::one(),
            rules: Felt::one(),
            valid_from: 0,
            valid_until: 500,
            last_order: 100,
            arguments: if order == 2 { vec![Felt::one(); 254] } else { vec![] },
        };
        let action = intent.identity().unwrap();
        assert_eq!(slots.reserve(intent.actor, action), Slot::New);
        statuses.push(ActionStatus::Accepted { action, order });
        tickets.push(RecordedTicket {
            intent,
            envelope: RecordedEnvelope {
                action,
                order,
                timestamp: 10,
                execution_config: Felt::one(),
                epoch: 1,
                root: [order as u8; 32],
            },
            signature: vec![Felt::one(), Felt::two()],
        });
    }
    (slots, tickets, statuses)
}

#[test]
fn included_revert_is_bisected_and_only_poison_rejected_then_next_ticket_executes() {
    let (mut slots, tickets, mut statuses) = pending(3);
    let mut node = TestNode::new(tickets.clone(), Some(2), FirstSubmission::Normal);
    execute(&mut node, &tickets, &mut statuses).unwrap();
    assert_eq!(node.effects, vec![1, 3]);
    assert_eq!(node.head, 3);
    let rejected: Vec<Vec<u64>> =
        node.prepared.iter().filter(|tx| tx.rejection).map(|tx| tx.orders.clone()).collect();
    assert_eq!(rejected, vec![vec![2]]);
    for (index, status) in statuses.iter().enumerate() {
        assert!(
            matches!(status, ActionStatus::Recorded { order, succeeded, nonce_consumed: true, .. } if *order == index as u64 + 1 && *succeeded == (*order != 2))
        );
        assert!(status.is_final());
    }
    slots.release(Felt::from(102));
    assert_eq!(slots.reserve(Felt::from(102), Felt::from(999)), Slot::New);
}

#[test]
fn lost_receipt_after_execution_adopts_outcome_without_duplicate_or_rejection() {
    let (_, tickets, mut statuses) = pending(1);
    let mut node = TestNode::new(tickets.clone(), None, FirstSubmission::LostAfterExecution);
    execute(&mut node, &tickets, &mut statuses).unwrap();
    assert_eq!(node.effects, vec![1]);
    assert_eq!(node.prepared.len(), 1);
    assert_eq!(node.submitted.len(), 1);
    assert!(matches!(statuses[0], ActionStatus::Recorded { succeeded: true, .. }));
}

#[test]
fn lost_receipt_before_execution_replays_identical_transaction_and_context() {
    let (_, tickets, mut statuses) = pending(1);
    let expected = batch_calldata(&tickets, false).unwrap();
    let mut node = TestNode::new(tickets.clone(), None, FirstSubmission::LostBeforeExecution);
    execute(&mut node, &tickets, &mut statuses).unwrap();
    assert_eq!(node.effects, vec![1]);
    assert_eq!(node.prepared.len(), 1);
    assert_eq!(node.prepared[0].payload, expected);
    assert_eq!(node.submitted, vec![1, 1]);
    assert!(matches!(statuses[0], ActionStatus::Recorded { succeeded: true, .. }));
}

#[test]
fn deterministic_executor_refusal_rejects_one_ticket_and_advances() {
    let (_, tickets, mut statuses) = pending(1);
    let mut node = TestNode::new(tickets.clone(), None, FirstSubmission::DeterministicRefusal);
    execute(&mut node, &tickets, &mut statuses).unwrap();
    assert_eq!(node.head, 1);
    assert!(node.effects.is_empty());
    assert!(matches!(statuses[0], ActionStatus::Recorded { succeeded: false, nonce_consumed: true, .. }));
}

#[test]
fn bisection_keeps_every_ticket_and_records_only_the_poison() {
    let mut ranges = VecDeque::from_iter(std::iter::once(0..64));
    let mut successes = vec![];
    let mut rejected = vec![];
    while let Some(range) = ranges.pop_front() {
        if !range.contains(&37) {
            successes.extend(range);
        } else if range.len() == 1 {
            rejected.push(range.start);
        } else {
            split_front(&mut ranges, range);
        }
    }
    assert_eq!(rejected, vec![37]);
    assert_eq!(successes, (0..64).filter(|id| *id != 37).collect::<Vec<_>>());
    for transient in ["nonce mismatch", "queue full", "out of order", "timeout"] {
        assert!(!deterministic_limit(transient));
    }
}

#[test]
fn bisection_settles_tickets_in_order() {
    let poison = [5, 6, 12];
    let mut bisection = Bisection::start(13);
    let mut settled = vec![];
    while let Some((range, rejection)) = bisection.attempt() {
        let recorded = rejection || !range.clone().any(|ticket| poison.contains(&ticket));
        if recorded {
            settled.extend(range.map(|ticket| (ticket, rejection)));
        }
        bisection.advance(recorded).unwrap();
    }
    let expected: Vec<(usize, bool)> = (0..13).map(|ticket| (ticket, poison.contains(&ticket))).collect();
    assert_eq!(settled, expected);
    bisection.advance(false).unwrap();
    assert!(bisection.attempt().is_none());
}

#[test]
fn a_rejection_that_is_not_recorded_stops() {
    let mut bisection = Bisection::start(1);
    bisection.advance(false).unwrap();
    assert_eq!(bisection.attempt(), Some((0..1, true)));
    assert_eq!(bisection.advance(false), Err(ExecutionError::TerminalRejection));
}

#[test]
fn an_empty_range_is_halved_into_empty_ranges() {
    let mut ranges = VecDeque::new();
    split_front(&mut ranges, 5..5);
    assert_eq!(ranges, VecDeque::from_iter([5..5, 5..5]));
    split_front(&mut ranges, 2..7);
    assert_eq!(ranges, VecDeque::from_iter([2..4, 4..7, 5..5, 5..5]));
}

#[test]
fn batches_are_bounded_and_only_one_ticket_is_rejected() {
    let (_, tickets, _) = pending(2);
    assert_eq!(batch_calldata(&[], false), Err(ExecutionError::BatchSize));
    assert_eq!(batch_calldata(&tickets, true), Err(ExecutionError::SingleRejection));
    let many: Vec<RecordedTicket> = (0..65).map(|_| tickets[0].clone()).collect();
    assert_eq!(batch_calldata(&many, false), Err(ExecutionError::BatchSize));
    assert!(batch_calldata(&many[..64], false).is_ok());
    let single = batch_calldata(&tickets[..1], true).unwrap();
    assert_eq!(single, tickets[0].calldata().unwrap());
    let both = batch_calldata(&tickets, false).unwrap();
    assert_eq!(both[0], Felt::two());
    assert_eq!(both[1..1 + single.len()], single[..]);
    assert_eq!(both[1 + single.len()..], tickets[1].calldata().unwrap()[..]);
    assert_eq!(batch_entry_point(true), "reject_execution");
    assert_eq!(batch_entry_point(false), "execute_batch");
}

#[test]
fn tickets_are_read_back_from_calldata() {
    let (_, tickets, _) = pending(2);
    for ticket in &tickets {
        let mut fields = ticket.calldata().unwrap();
        let length = fields.len();
        fields.push(Felt::from(1234));
        let (taken, used) = RecordedTicket::take_calldata(&fields).unwrap();
        assert_eq!(used, length);
        assert_eq!(taken, *ticket);
        for cut in [0, 12, 13, length - 1] {
            assert!(RecordedTicket::take_calldata(&fields[..cut]).is_err());
        }
    }
}

#[test]
fn receipts_that_do_not_match_their_tickets_are_refused() {
    let (_, tickets, _) = pending(1);
    let mut node = TestNode::new(tickets.clone(), None, FirstSubmission::Normal);
    let hash = node.prepare(false, batch_calldata(&tickets, false).unwrap());
    node.included(hash);
    let outcome = |change: &dyn Fn(&mut TransactionReceipt)| {
        let mut receipt = node.receipt(hash).unwrap();
        change(&mut receipt);
        receipt_outcomes(&tickets, Felt::from(hash), &receipt)
    };
    assert!(outcome(&|_| ()).is_ok());
    let ignored = |receipt: &mut TransactionReceipt| {
        receipt.events.push(Event { from_address: Felt::from(8), keys: vec![], data: vec![] });
    };
    assert!(outcome(&ignored).is_ok());
    assert_eq!(outcome(&|receipt| receipt.events.clear()), Err(ExecutionError::TicketCount));
    assert_eq!(
        outcome(&|receipt| {
            receipt.events[0].data.pop();
        }),
        Err(ExecutionError::MalformedEvent)
    );
    for index in [0, 1, 2, 4] {
        assert_eq!(
            outcome(&|receipt| receipt.events[0].data[index] = Felt::from(55)),
            Err(ExecutionError::MismatchedEvent)
        );
    }
    for (index, value) in [(3, 2), (5, 0), (5, 3)] {
        assert_eq!(
            outcome(&|receipt| receipt.events[0].data[index] = Felt::from(value)),
            Err(ExecutionError::InvalidResult)
        );
    }
    let receipt = node.receipt(hash).unwrap();
    assert_eq!(receipt_outcomes(&[], Felt::from(hash), &receipt), Err(ExecutionError::EmptyAttribution));
}

#[test]
fn only_proof_fails_a_batch() {
    let (_, tickets, _) = pending(1);
    let reverted = |reason: &str| {
        Execution::Included(TransactionReceipt {
            transaction_hash: Felt::one(),
            events: vec![],
            execution_result: ExecutionResult::Reverted { reason: String::from(reason) },
        })
    };
    let judged = |observed: Execution| judge(&tickets, Felt::one(), &observed).unwrap();
    assert_eq!(judged(reverted("Out of gas")), Verdict::Failed);
    for reason in [
        "out of order",
        "only sequencing submitter",
        "invalid authority signature",
        "execution config mismatch",
        "future execution time",
        "backwards execution time",
        "malformed envelope",
        "invalid acceptance",
        "order outside randomness epoch",
        "revealed epoch cannot execute",
    ] {
        assert!(authentication_revert(reason));
        assert_eq!(judged(reverted(reason)), Verdict::Unresolved);
    }
    for reason in [
        "Exceeded the maximum number of events, 1",
        "Exceeded the maximum data length, 2",
        "x: Exceeded the maximum keys length, 3",
    ] {
        assert!(deterministic_limit(reason));
        assert_eq!(judged(Execution::Refused(String::from(reason))), Verdict::Failed);
    }
    assert_eq!(judged(Execution::Refused(String::from("queue full"))), Verdict::Unresolved);
}

#[test]
fn unresolved_attempts_end() {
    let (_, tickets, _) = pending(1);
    let mut stage = RangeStage::Submit(0);
    let mut submissions = 0;
    let error = loop {
        let event = match stage {
            RangeStage::Submit(_) => {
                submissions += 1;
                RangeEvent::Observed(None)
            }
            RangeStage::Reconcile(_) => RangeEvent::Receipt(None),
            RangeStage::ReadHead(_) => RangeEvent::Head(0),
            _ => RangeEvent::Changed,
        };
        match range_step(stage, &event, &tickets, Felt::one()) {
            Ok((next, _)) => stage = next,
            Err(error) => break error,
        }
    };
    assert_eq!((submissions, error), (3, ExecutionError::Paused));
    assert_eq!(
        range_step(RangeStage::ReadHead(0), &RangeEvent::Head(1), &tickets, Felt::one()),
        Err(ExecutionError::HeadCovers)
    );
    assert_eq!(
        range_step(RangeStage::Submit(1), &RangeEvent::Head(1), &tickets, Felt::one()),
        Ok((RangeStage::Submit(1), vec![]))
    );
    assert_eq!(ExecutionError::BatchSize.message(), "invalid execution batch size");
    assert_eq!(
        ExecutionError::Paused.message(),
        "game submission paused after three unresolved attempts; node state remains authoritative"
    );
}

#[test]
fn a_receipt_that_is_looked_for_settles_as_an_observed_one() {
    let (_, tickets, _) = pending(1);
    let mut node = TestNode::new(tickets.clone(), None, FirstSubmission::Normal);
    let hash = node.prepare(false, batch_calldata(&tickets, false).unwrap());
    node.included(hash);
    let step = |stage: RangeStage, event: RangeEvent| range_step(stage, &event, &tickets, Felt::from(hash));
    assert_eq!(
        step(RangeStage::Submit(1), RangeEvent::Observed(None)),
        Ok((RangeStage::Reconcile(1), vec![]))
    );
    assert_eq!(
        step(RangeStage::Reconcile(1), RangeEvent::Receipt(None)),
        Ok((RangeStage::ReadHead(1), vec![]))
    );
    let found = step(RangeStage::Reconcile(1), RangeEvent::Receipt(node.receipt(hash)));
    assert!(matches!(&found, Ok((RangeStage::Recorded, statuses)) if statuses.len() == 1));
    let observed = RangeEvent::Observed(node.receipt(hash).map(Execution::Included));
    assert_eq!(found, step(RangeStage::Submit(1), observed));
    let mut foreign = node.receipt(hash).unwrap();
    foreign.events.clear();
    assert_eq!(
        step(RangeStage::Reconcile(0), RangeEvent::Receipt(Some(foreign))),
        Err(ExecutionError::TicketCount)
    );
    assert_eq!(
        step(RangeStage::Reconcile(0), RangeEvent::Head(0)),
        Ok((RangeStage::Reconcile(0), vec![]))
    );
}

#[test]
fn an_execution_settles_every_ticket_once_and_in_order() {
    let (_, tickets, mut statuses) = pending(5);
    let mut node = TestNode::new(tickets.clone(), Some(4), FirstSubmission::LostBeforeExecution);
    execute(&mut node, &tickets, &mut statuses).unwrap();
    assert_eq!(node.effects, vec![1, 2, 3, 5]);
    assert_eq!(node.receipts.values().filter(|(_, reverted)| !reverted).map(|(orders, _)| orders.len()).sum::<usize>(), 5);
    for (index, status) in statuses.iter().enumerate() {
        assert!(
            matches!(status, ActionStatus::Recorded { order, succeeded, .. } if *order == index as u64 + 1 && *succeeded == (*order != 4))
        );
    }
    assert!(matches!(BatchExecution::start(vec![]), Err(ExecutionError::BatchSize)));
    let many: Vec<RecordedTicket> = (0..65).map(|_| tickets[0].clone()).collect();
    assert!(matches!(BatchExecution::start(many), Err(ExecutionError::BatchSize)));
}

#[test]
fn an_execution_that_stops_stays_where_it_is() {
    let (_, tickets, _) = pending(2);
    let mut batch = BatchExecution::start(tickets).ok().unwrap();
    assert_eq!(batch.attempt(), Some((0..2, false)));
    assert_eq!(batch.prepared(), None);
    batch.prepare(Felt::from(9));
    assert_eq!(batch.prepared(), Some((Felt::from(9), RangeStage::Submit(0))));
    batch.step(&RangeEvent::Observed(Some(Execution::Refused(String::from("queue full"))))).unwrap();
    assert_eq!(batch.prepared(), Some((Felt::from(9), RangeStage::ReadHead(0))));
    assert_eq!(batch.step(&RangeEvent::Head(1)), Err(ExecutionError::HeadCovers));
    assert_eq!(batch.prepared(), Some((Felt::from(9), RangeStage::ReadHead(0))));
    assert_eq!(batch.attempt(), Some((0..2, false)));
}
