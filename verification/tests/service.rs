use sequencer_randomness::admission::Slot;
use sequencer_randomness::protocol::{Intent, ProtocolError};
use sequencer_randomness::epoch::{EpochError, GameEpoch};
use sequencer_randomness::recorded::{ActionStatus, RecordedTicket};
use sequencer_randomness::service::{
    admit_step, assignment_status, context_matches, ActionRequest, AdmitEvent, AdmitStage, Assignments, Dispatch,
    Dispatcher, EpochEvent, EpochStage, Listen, ServiceError, EPOCH_TICKETS, MAX_BATCH,
};
use sequencer_randomness::ticket::EntropyError;
use sequencer_randomness::Felt;
use std::collections::HashMap;

#[derive(Default)]
struct TestChain {
    heads: HashMap<u64, u64>,
    epoch: u64,
    commitment: Option<Felt>,
    revealed: bool,
    commands: Vec<(&'static str, Vec<Felt>)>,
}

struct Path {
    retained: Option<(u64, [u8; 32])>,
}

impl TestChain {
    fn admission(&self, game: u64) -> Vec<Felt> {
        let next = self.heads.get(&game).copied().unwrap_or_default() + 1;
        vec![rules(), Felt::one(), Felt::zero(), Felt::from(next), Felt::from(100)]
    }

    fn account_view(&self, name: &str, arguments: &[Felt]) -> Vec<Felt> {
        if name == "current_randomness_epoch" {
            assert!(arguments.is_empty());
            return vec![Felt::from(self.epoch)];
        }
        assert_eq!((name, arguments), ("get_randomness_epoch", &[Felt::from(self.epoch)][..]));
        if self.revealed {
            vec![self.commitment.unwrap(), Felt::zero(), Felt::zero(), Felt::zero()]
        } else {
            vec![self.commitment.unwrap(), Felt::one()]
        }
    }

    fn command(&mut self, name: &'static str, payload: Vec<Felt>) {
        if name == "open_randomness_epoch" {
            self.epoch += 1;
            self.commitment = Some(payload[0]);
            self.revealed = false;
        } else {
            self.revealed = true;
        }
        self.commands.push((name, payload));
    }
}

fn rules() -> Felt {
    Felt::from(7)
}

fn rotate_epoch(chain: &mut TestChain, path: &mut Path) -> Result<GameEpoch, ServiceError> {
    let mut stage = EpochStage::ReadCurrent;
    loop {
        let event = if let Some((name, arguments)) = stage.view_call() {
            EpochEvent::Values(chain.account_view(name, &arguments))
        } else if let Some((name, payload)) = stage.command() {
            if name == "open_randomness_epoch" {
                let (epoch, secret) = path.retained.unwrap();
                assert_eq!(payload, [GameEpoch::restore(epoch, secret).commitment()]);
            }
            chain.command(name, payload);
            EpochEvent::Commanded(true)
        } else {
            match &stage {
                EpochStage::LoadSecret { .. } => {
                    let (epoch, secret) = path.retained.unwrap();
                    EpochEvent::Loaded(GameEpoch::restore(epoch, secret))
                }
                EpochStage::Create { .. } => EpochEvent::fill(),
                EpochStage::Retain { secret } => {
                    path.retained = Some((secret.epoch(), secret.secret()));
                    EpochEvent::Retained
                }
                _ => unreachable!("every other stage reads a view or sends a command"),
            }
        };
        stage = match stage.step(event)? {
            EpochStage::Done { secret } => return Ok(secret),
            next => next,
        };
    }
}

fn intent(game: u64, actor: u64) -> Intent {
    Intent {
        chain: Felt::one(),
        deployment: Felt::two(),
        game: Felt::from(game),
        actor: Felt::from(actor),
        nonce: 0,
        command: Felt::one(),
        rules: rules(),
        valid_from: 0,
        valid_until: 1000,
        last_order: 1000,
        arguments: vec![],
    }
}

fn assign(assignments: &mut Assignments, chain: &TestChain, game: u64, actor: u64) -> RecordedTicket {
    let intent = intent(game, actor);
    let admission = assignments.admission(&chain.admission(game), &intent).unwrap();
    assignments.assign(admission, 100, &intent, &[Felt::one(), Felt::two()]).unwrap()
}

fn assigned(record: &RecordedTicket) -> (Felt, u64, u64) {
    (record.intent.game, record.envelope.order, record.envelope.epoch)
}

#[test]
fn each_game_takes_its_next_order_from_its_own_recorded_head() {
    let mut path = Path { retained: None };
    let mut chain = TestChain::default();
    chain.heads.insert(1, 5);
    let mut assignments = Assignments::start(rotate_epoch(&mut chain, &mut path).ok().unwrap());
    let mut records = vec![];
    for (game, actor) in [(1, 1), (2, 2), (1, 3)] {
        records.push(assign(&mut assignments, &chain, game, actor));
    }
    assert_eq!(
        records.iter().map(assigned).collect::<Vec<_>>(),
        [(Felt::from(1), 6, 1), (Felt::from(2), 1, 1), (Felt::from(1), 7, 1)]
    );
    for record in &records {
        assert_eq!(record.envelope.root, assignments.epoch().root(record.intent.game, record.envelope.order));
        assert_eq!(record.envelope.action, record.intent.identity().unwrap());
        assert_eq!(record.signature, vec![Felt::one(), Felt::two()]);
    }
    assert_eq!(assignments.admitted(), 3);
}

#[test]
fn a_restart_that_loses_one_games_tickets_leaves_the_other_chain_intact() {
    let mut path = Path { retained: None };
    let mut chain = TestChain::default();
    let mut before = Assignments::start(rotate_epoch(&mut chain, &mut path).ok().unwrap());
    let mut queued = vec![];
    for (game, actor) in [(1, 1), (1, 2), (2, 3)] {
        queued.push(assign(&mut before, &chain, game, actor));
    }
    // Game B's ticket was recorded; game A's two tickets were lost in the restart.
    chain.heads.insert(2, 1);
    queued.truncate(1);
    let revealed = before.epoch().revealed();
    let mut after = Assignments::start(rotate_epoch(&mut chain, &mut path).ok().unwrap());
    let commands: Vec<&str> = chain.commands.iter().map(|(name, _)| *name).collect();
    assert_eq!(commands, ["open_randomness_epoch", "reveal_randomness_epoch", "open_randomness_epoch"]);
    assert_eq!(chain.commands[1].1, revealed);
    let game_a = assign(&mut after, &chain, 1, 4);
    let game_b = assign(&mut after, &chain, 2, 5);
    assert_eq!([assigned(&game_a), assigned(&game_b)], [(Felt::from(1), 1, 2), (Felt::from(2), 2, 2)]);
    // The lost order is reassigned with a root from the new secret, never the revealed one.
    assert_ne!(game_a.envelope.root, queued[0].envelope.root);
    chain.commitment = Some(Felt::from(1));
    assert!(
        matches!(rotate_epoch(&mut chain, &mut path), Err(ServiceError::SecretMismatch)),
        "a secret not matching the open epoch was revealed"
    );
}

#[test]
fn rotation_keeps_orders_and_resets_the_count() {
    let chain = TestChain::default();
    let mut assignments = Assignments::start(GameEpoch::restore(1, [1; 32]));
    let first = assign(&mut assignments, &chain, 1, 1);
    assignments.rotate(GameEpoch::restore(2, [2; 32]));
    assert_eq!(assignments.admitted(), 0);
    assert!(!assignments.rotation_due());
    let second = assign(&mut assignments, &chain, 1, 2);
    assert_eq!(assigned(&first), (Felt::one(), 1, 1));
    assert_eq!(assigned(&second), (Felt::one(), 2, 2));
    assert_eq!(assignments.admitted(), 1);
    assert!(assignments.admitted() < EPOCH_TICKETS && !assignments.rotation_due());
}

#[test]
fn stale_or_expired_intents_are_not_assigned() {
    let mut assignments = Assignments::start(GameEpoch::restore(1, [1; 32]));
    let chain = TestChain::default();
    let fields = chain.admission(1);
    let candidate = intent(1, 1);
    assert_eq!(assignments.admission(&fields[..4], &candidate).err(), Some(ServiceError::MalformedAdmission));
    let with = |index: usize, value: Felt| {
        let mut changed = fields.clone();
        changed[index] = value;
        changed
    };
    assert_eq!(
        assignments.admission(&with(0, Felt::one()), &candidate).err(),
        Some(ServiceError::AdmissionChanged)
    );
    assert_eq!(
        assignments.admission(&with(2, Felt::one()), &candidate).err(),
        Some(ServiceError::AdmissionChanged)
    );
    assert_eq!(
        assignments.admission(&with(3, Felt::from_u128(1 << 64)), &candidate).err(),
        Some(ServiceError::Value)
    );
    let late = assignments.admission(&with(4, Felt::from(1001)), &candidate).unwrap();
    assert_eq!(assignments.assign(late, 100, &candidate, &[]).err(), Some(ServiceError::Expired));
    let unreadable = assignments.admission(&with(4, Felt::from_u128(1 << 64)), &candidate).unwrap();
    assert_eq!(assignments.assign(unreadable, 100, &candidate, &[]).err(), Some(ServiceError::Value));
    let admission = assignments.admission(&fields, &candidate).unwrap();
    assert_eq!(assignments.assign(admission, 1001, &candidate, &[]).err(), Some(ServiceError::Expired));
    let last = assignments.admission(&with(3, Felt::from(u64::MAX)), &candidate).unwrap();
    let mut unbounded = intent(1, 1);
    unbounded.last_order = u64::MAX;
    assert_eq!(assignments.accept(last, 100, &unbounded, &[]).unwrap().envelope.order, u64::MAX);
    assert_eq!(assignments.assign(last, 100, &candidate, &[]).err(), Some(ServiceError::Expired));
    assert_eq!(assignments.admitted(), 0);
    assert!(context_matches(&candidate, 1, 0));
    assert!(!context_matches(&candidate, 0, 0));
    assert!(!context_matches(&candidate, 1001, 0));
    assert_eq!(ServiceError::Expired.message(), "intent expired before acceptance");
}

#[test]
fn requests_must_target_the_chain_and_the_deployment() {
    let request = ActionRequest { intent: intent(1, 2).encode().unwrap(), signature: vec![] };
    assert_eq!(request.decode(Felt::one(), Felt::two()).unwrap(), intent(1, 2));
    assert_eq!(request.decode(Felt::two(), Felt::two()), Err(ServiceError::WrongTarget));
    assert_eq!(request.decode(Felt::one(), Felt::one()), Err(ServiceError::WrongTarget));
    let broken = ActionRequest { intent: vec![Felt::one()], signature: vec![] };
    assert_eq!(broken.decode(Felt::one(), Felt::two()), Err(ServiceError::Protocol(ProtocolError::Length)));
}

#[test]
fn a_forged_key_never_takes_the_slot() {
    let step = |stage: AdmitStage, event: AdmitEvent| admit_step(stage, &event, 4);
    assert_eq!(step(AdmitStage::AskBudget, AdmitEvent::Budget(false)), Err(ServiceError::RateExceeded));
    assert_eq!(step(AdmitStage::AskBudget, AdmitEvent::Budget(true)), Ok(AdmitStage::ReadAdmission));
    let fields: Vec<Felt> = (0..5).map(Felt::from).collect();
    assert_eq!(
        step(AdmitStage::ReadAdmission, AdmitEvent::Admission(fields[..4].to_vec())),
        Err(ServiceError::MalformedAdmission)
    );
    assert_eq!(
        step(AdmitStage::ReadAdmission, AdmitEvent::Admission(fields)),
        Ok(AdmitStage::CheckSignature { nonce: Felt::two() })
    );
    let signed = |nonce: u64, valid: bool| {
        step(AdmitStage::CheckSignature { nonce: Felt::from(nonce) }, AdmitEvent::Signed(valid))
    };
    assert_eq!(signed(4, false), Err(ServiceError::InvalidSignature));
    assert_eq!(signed(4, true), Ok(AdmitStage::Reserve));
    assert_eq!(signed(5, true), Ok(AdmitStage::ReadHistory));
    assert_eq!(signed(3, true), Err(ServiceError::StaleNonce));
    assert_eq!(step(AdmitStage::ReadHistory, AdmitEvent::History(true)), Ok(AdmitStage::Recorded));
    assert_eq!(step(AdmitStage::ReadHistory, AdmitEvent::History(false)), Err(ServiceError::StaleNonce));
    assert_eq!(step(AdmitStage::Reserve, AdmitEvent::Slot(Slot::New)), Ok(AdmitStage::Enqueue));
    assert_eq!(step(AdmitStage::Reserve, AdmitEvent::Slot(Slot::Existing)), Ok(AdmitStage::Follow));
    assert_eq!(step(AdmitStage::Reserve, AdmitEvent::Slot(Slot::Conflict)), Err(ServiceError::Conflict));
    assert_eq!(step(AdmitStage::Enqueue, AdmitEvent::Queued(None)), Err(ServiceError::Unavailable));
    assert_eq!(step(AdmitStage::Enqueue, AdmitEvent::Queued(Some(false))), Err(ServiceError::QueueFull));
    assert_eq!(step(AdmitStage::Enqueue, AdmitEvent::Queued(Some(true))), Ok(AdmitStage::Follow));
}

fn secret(epoch: u64) -> GameEpoch {
    GameEpoch::restore(epoch, [5; 32])
}

#[test]
fn epochs_that_the_chain_does_not_describe_stop_the_rotation() {
    let values = |fields: &[u64]| EpochEvent::Values(fields.iter().map(|field| Felt::from(*field)).collect());
    let current = |event: EpochEvent| EpochStage::ReadCurrent.step(event);
    assert!(matches!(current(values(&[])), Err(ServiceError::MalformedCurrentEpoch)));
    let wide = EpochEvent::Values(vec![Felt::from_u128(1 << 64)]);
    assert!(matches!(current(wide), Err(ServiceError::Value)));
    assert!(matches!(current(values(&[u64::MAX - 1])), Ok(EpochStage::ReadEpoch { id }) if id == u64::MAX - 1));
    assert!(matches!(current(values(&[0])), Ok(EpochStage::Create { id: 1 })));
    let read = |event: EpochEvent| EpochStage::ReadEpoch { id: 4 }.step(event);
    assert!(matches!(read(values(&[1])), Err(ServiceError::MalformedEpoch)));
    assert!(matches!(read(values(&[1, 0])), Ok(EpochStage::Create { id: 5 })));
    assert!(matches!(
        read(values(&[7, 1])),
        Ok(EpochStage::LoadSecret { id: 4, commitment }) if commitment == Felt::from(7)
    ));
    let load = |event: EpochEvent| EpochStage::LoadSecret { id: 4, commitment: secret(4).commitment() }.step(event);
    assert!(matches!(load(EpochEvent::Loaded(secret(4))), Ok(EpochStage::Publish { .. })));
    assert!(matches!(load(EpochEvent::Loaded(secret(5))), Err(ServiceError::SecretMismatch)));
    let other = EpochEvent::Loaded(GameEpoch::restore(4, [6; 32]));
    assert!(matches!(load(other), Err(ServiceError::SecretMismatch)));
    let refused = || EpochEvent::Commanded(false);
    assert!(matches!(
        EpochStage::Publish { secret: secret(4) }.step(refused()),
        Err(ServiceError::TransitionFailed)
    ));
    assert!(matches!(EpochStage::Open { secret: secret(4) }.step(refused()), Err(ServiceError::TransitionFailed)));
}

#[test]
fn a_fresh_secret_is_filled_then_retained_then_committed_to() {
    let create = |event: EpochEvent| EpochStage::Create { id: 5 }.step(event);
    let failed = create(EpochEvent::Filled(Err(EntropyError::Source(4))));
    assert!(matches!(failed, Err(ServiceError::Epoch(EpochError::Source(4)))));
    let short = create(EpochEvent::Filled(Err(EntropyError::Short)));
    assert!(matches!(short, Err(ServiceError::Epoch(EpochError::Incomplete))));
    assert_eq!(ServiceError::Epoch(EpochError::Incomplete).message(), "incomplete epoch entropy");
    assert!(matches!(create(EpochEvent::Commanded(true)), Ok(EpochStage::Create { id: 5 })));
    let stage = create(EpochEvent::Filled(Ok([5; 32]))).ok().unwrap();
    assert!(matches!(&stage, EpochStage::Retain { secret } if (secret.epoch(), secret.secret()) == (5, [5; 32])));
    assert_eq!((stage.command(), stage.view_call()), (None, None));
    let stage = stage.step(EpochEvent::Commanded(true)).ok().unwrap();
    assert!(matches!(&stage, EpochStage::Retain { .. }));
    let stage = stage.step(EpochEvent::Retained).ok().unwrap();
    assert_eq!(stage.command(), Some(("open_randomness_epoch", vec![secret(5).commitment()])));
    let stage = stage.step(EpochEvent::Commanded(true)).ok().unwrap();
    assert!(matches!(&stage, EpochStage::Done { secret } if secret.epoch() == 5));
    assert_eq!((stage.command(), stage.view_call()), (None, None));
    assert!(matches!(stage.step(EpochEvent::Commanded(false)), Ok(EpochStage::Done { .. })));
    assert_eq!(
        EpochStage::Publish { secret: secret(4) }.command(),
        Some(("reveal_randomness_epoch", secret(4).revealed().to_vec()))
    );
    assert_eq!(EpochStage::ReadCurrent.view_call(), Some(("current_randomness_epoch", vec![])));
    assert_eq!(EpochStage::ReadEpoch { id: 3 }.view_call(), Some(("get_randomness_epoch", vec![Felt::from(3)])));
}

#[test]
fn batches_fill_or_wait_and_rotation_waits_for_them() {
    let mut dispatcher = Dispatcher::new();
    assert_eq!(dispatcher.next(true, false), Dispatch::Listen);
    assert_eq!(dispatcher.listen(false), Listen { requests: true, flight: false, deadline: false });
    assert!(dispatcher.queue(1));
    assert!(!dispatcher.queue(2));
    assert_eq!(dispatcher.next(false, true), Dispatch::Listen);
    assert_eq!(dispatcher.listen(true), Listen { requests: false, flight: false, deadline: true });
    assert_eq!(dispatcher.next(true, true), Dispatch::Launch(vec![1, 2]));
    assert_eq!(dispatcher.next(true, true), Dispatch::Listen);
    for ticket in 0..MAX_BATCH {
        dispatcher.queue(ticket);
    }
    assert_eq!(dispatcher.listen(false), Listen { requests: false, flight: true, deadline: false });
    assert_eq!(dispatcher.landed(Err("no receipt")), Err("no receipt"));
    assert_eq!(dispatcher.listen(false), Listen { requests: false, flight: true, deadline: false });
    assert_eq!(dispatcher.landed(Ok::<(), &str>(())), Ok(()));
    assert_eq!(dispatcher.next(false, true), Dispatch::Launch((0..MAX_BATCH).collect()));
    dispatcher.landed(Ok::<(), &str>(())).unwrap();
    assert_eq!(dispatcher.next(false, true), Dispatch::Rotate);
}

#[test]
fn the_loop_launches_every_ticket_in_the_order_of_assignment() {
    let mut dispatcher = Dispatcher::new();
    let (mut assigned, mut admitted, mut rotations) = (0, 0, 0);
    let mut launched = vec![];
    let mut flights = 0;
    for turn in 0..400 {
        let due = admitted >= 50;
        match dispatcher.next(turn % 7 == 0, due) {
            Dispatch::Launch(batch) => {
                assert!(flights == 0 && !batch.is_empty() && batch.len() <= MAX_BATCH);
                launched.extend(batch);
                flights = 1;
            }
            Dispatch::Rotate => {
                assert!(due && flights == 0);
                assert_eq!(launched.len(), assigned);
                admitted = 0;
                rotations += 1;
            }
            Dispatch::Listen => {}
        }
        let listen = dispatcher.listen(admitted >= 50);
        if listen.flight && turn % 5 == 0 {
            dispatcher.landed(Ok::<(), ()>(())).unwrap();
            flights = 0;
        } else if listen.requests {
            assert!(admitted < 50);
            dispatcher.queue(assigned);
            assigned += 1;
            admitted += 1;
        }
    }
    assert!(rotations > 1 && assigned > 100);
    assert_eq!(launched, (0..launched.len()).collect::<Vec<_>>());
}

#[test]
fn clients_are_told_their_order_or_why_there_is_none() {
    let action = Felt::from(8);
    assert_eq!(assignment_status(action, Ok(3)), ActionStatus::Accepted { action, order: 3 });
    let reason = String::from("intent expired before acceptance");
    assert_eq!(assignment_status(action, Err(reason.clone())), ActionStatus::Refused { action, reason });
    assert_eq!(ServiceError::Conflict.message(), "409 Conflict");
    assert_eq!(ServiceError::Value.message(), "Failed to convert `Felt` into primitive type");
}

#[test]
fn credentials_never_enter_identity() {
    let request = |signature: &[u64]| ActionRequest {
        intent: intent(1, 2).encode().unwrap(),
        signature: signature.iter().map(|element| Felt::from(*element)).collect(),
    };
    let (chain, deployment) = (intent(1, 2).chain, intent(1, 2).deployment);
    let first = request(&[3, 4]).decode(chain, deployment).unwrap();
    let second = request(&[5]).decode(chain, deployment).unwrap();
    assert_eq!(first, second);
    assert_eq!(first.identity(), second.identity());
    assert_ne!(first.identity(), intent(1, 3).identity());
}
