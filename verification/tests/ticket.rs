use sequencer_randomness::protocol::{Intent, ProtocolError};
use sequencer_randomness::ticket::{
    complete_root, ticket_root, timestamp_in_bounds, Context, EntropyError, State, Ticket, TicketError,
};
use sequencer_randomness::Felt;

fn three() -> Felt {
    Felt::from(3)
}

fn intent() -> Intent {
    Intent {
        chain: Felt::one(),
        deployment: Felt::two(),
        game: three(),
        actor: Felt::one(),
        nonce: 0,
        command: Felt::one(),
        rules: Felt::one(),
        valid_from: 1000,
        valid_until: 1010,
        last_order: 10,
        arguments: vec![],
    }
}

fn context() -> Context {
    Context {
        order: 1,
        predecessor: Felt::zero(),
        preceding_state: Felt::zero(),
        timestamp: 1005,
        execution_config: Felt::one(),
        l2_gas: 1_200_000_000,
    }
}

fn proposal() -> Ticket {
    Ticket::propose(intent(), context()).ok().unwrap()
}

fn sampled() -> Ticket {
    let mut ticket = proposal();
    ticket.sample_with(|| Ok([255; 32])).unwrap();
    ticket
}

#[test]
fn root_is_hidden_until_commit_and_preserved_through_both_terminal_paths() {
    for outcome in [State::Executed, State::TerminalRejected] {
        let mut ticket = sampled();
        assert!(matches!(ticket.envelope(), Err(TicketError::Uncommitted)));
        ticket.committed().unwrap();
        let binding = ticket.envelope().unwrap().binding();
        assert_eq!(ticket.envelope().unwrap().root, [255; 32]);
        for transaction in [Felt::one(), Felt::one(), Felt::two()] {
            ticket.submitted(transaction).unwrap();
        }
        assert_eq!(ticket.submissions(), vec![Felt::one(), Felt::two()]);
        ticket.finish(outcome, three()).unwrap();
        ticket.finish(outcome, three()).unwrap();
        assert_eq!(ticket.finish(outcome, Felt::one()), Err(TicketError::ConflictingResult));
        ticket.consume().unwrap();
        ticket.consume().unwrap();
        assert_eq!(ticket.state(), State::Consumed);
        assert_eq!(ticket.envelope().unwrap().binding(), binding);
        assert_eq!(ticket.sample_os(), Err(TicketError::AlreadySampled));
    }
}

#[test]
fn recovery_at_every_accepted_state_keeps_the_binding_and_cannot_sample() {
    let original = sampled();
    let envelope = original.envelope_for_journal().unwrap().clone();
    for state in [State::Committed, State::Submitted, State::Executed, State::TerminalRejected, State::Consumed] {
        let result = matches!(state, State::Executed | State::TerminalRejected | State::Consumed).then_some(three());
        let mut recovered = Ticket::restore(intent(), envelope.clone(), state, result).ok().unwrap();
        assert_eq!(recovered.state(), state);
        assert!(recovered.envelope().unwrap() == &envelope);
        assert_eq!(
            recovered.sample_with(|| panic!("recovery invoked the entropy source")),
            Err(TicketError::AlreadySampled)
        );
        assert_eq!(recovered.envelope().unwrap().binding(), envelope.binding());
    }
    assert!(matches!(Ticket::restore(intent(), envelope, State::Proposed, None), Err(TicketError::Transition)));
}

#[test]
fn entropy_error_or_partial_fill_never_allows_a_second_attempt() {
    let mut partial = [0; 32];
    partial[0] = 1;
    for read in [Ok(1), Ok(0), Ok(31), Ok(33), Err(38)] {
        let mut ticket = proposal();
        assert_eq!(
            ticket.sample_with(|| ticket_root(complete_root(partial, read))),
            Err(TicketError::Entropy)
        );
        assert_eq!(ticket.sample_with(|| panic!("second source call")), Err(TicketError::AlreadySampled));
        assert_eq!(ticket.committed(), Err(TicketError::Transition));
        assert!(matches!(ticket.envelope(), Err(TicketError::Uncommitted)));
    }
}

#[test]
fn a_root_is_complete_only_at_full_width() {
    assert_eq!(complete_root([7; 32], Ok(32)), Ok([7; 32]));
    assert_eq!(complete_root([7; 32], Ok(31)), Err(EntropyError::Short));
    assert_eq!(complete_root([7; 32], Ok(0)), Err(EntropyError::Short));
    assert_eq!(complete_root([7; 32], Err(4)), Err(EntropyError::Source(4)));
    assert_eq!(ticket_root(Ok([7; 32])), Ok([7; 32]));
    let mut ticket = proposal();
    ticket.sample_with(|| ticket_root(complete_root([7; 32], Ok(32)))).unwrap();
    ticket.committed().unwrap();
    assert_eq!(ticket.envelope().unwrap().root, [7; 32]);
}

#[test]
fn zero_transaction_or_result_fails_closed() {
    let mut ticket = sampled();
    ticket.committed().unwrap();
    assert_eq!(ticket.submitted(Felt::zero()), Err(TicketError::Transition));
    ticket.submitted(Felt::one()).unwrap();
    assert_eq!(ticket.finish(State::Executed, Felt::zero()), Err(TicketError::Transition));
    assert_eq!(ticket.finish(State::TerminalRejected, Felt::zero()), Err(TicketError::Transition));
    ticket.finish(State::Executed, Felt::one()).unwrap();
    assert_eq!(ticket.finish(State::TerminalRejected, Felt::one()), Err(TicketError::Transition));
}

#[test]
fn initialized_os_source_fills_a_complete_root() {
    let mut ticket = proposal();
    ticket.sample_os().unwrap();
    ticket.committed().unwrap();
    assert_eq!(ticket.envelope().unwrap().root.len(), 32);
    assert_eq!(ticket.sample_os(), Err(TicketError::AlreadySampled));
}

#[test]
fn sampled_roots_are_filled_anew() {
    let mut roots = vec![];
    for _ in 0..4 {
        let mut ticket = proposal();
        ticket.sample_os().unwrap();
        roots.push(ticket.envelope_for_journal().unwrap().root);
    }
    assert!(roots.iter().all(|root| *root != [0; 32]));
    assert!(roots[0] != roots[1] && roots[2] != roots[3] && roots[0] != roots[3]);
}

#[test]
fn every_invalid_transition_is_rejected() {
    for state in [
        State::Proposed,
        State::Committed,
        State::Submitted,
        State::Executed,
        State::TerminalRejected,
        State::Consumed,
    ] {
        let mut ticket = if state == State::Proposed {
            sampled()
        } else {
            let finished = matches!(state, State::Executed | State::TerminalRejected | State::Consumed);
            let envelope = sampled().envelope_for_journal().unwrap().clone();
            Ticket::restore(intent(), envelope, state, finished.then_some(three())).ok().unwrap()
        };
        if state != State::Proposed {
            assert_eq!(ticket.committed(), Err(TicketError::Transition));
        }
        if !matches!(state, State::Committed | State::Submitted) {
            assert_eq!(ticket.submitted(Felt::one()), Err(TicketError::Transition));
        }
        for outcome in [State::Proposed, State::Committed, State::Submitted, State::Consumed] {
            assert_eq!(ticket.finish(outcome, Felt::one()), Err(TicketError::Transition));
        }
        if matches!(state, State::Proposed | State::Committed | State::Consumed) {
            assert_eq!(ticket.finish(State::Executed, Felt::one()), Err(TicketError::Transition));
            assert_eq!(ticket.finish(State::TerminalRejected, Felt::one()), Err(TicketError::Transition));
        }
        if matches!(state, State::Proposed | State::Committed | State::Submitted) {
            assert_eq!(ticket.consume(), Err(TicketError::Transition));
        }
    }
}

#[test]
fn acceptance_context_boundaries() {
    let cases = [
        (1000, 1, 1, true),
        (1010, 10, 1, true),
        (999, 1, 1, false),
        (1011, 1, 1, false),
        (1005, 0, 1, false),
        (1005, 11, 1, false),
        (1005, 1, 0, false),
    ];
    for (timestamp, order, l2_gas, valid) in cases {
        let mut candidate = context();
        candidate.timestamp = timestamp;
        candidate.order = order;
        candidate.l2_gas = l2_gas;
        assert_eq!(candidate.validate(&intent()).is_ok(), valid);
        if !valid {
            assert_eq!(candidate.validate(&intent()), Err(TicketError::Context));
            assert!(matches!(Ticket::propose(intent(), candidate), Err(TicketError::Context)));
        }
    }
    assert!(timestamp_in_bounds(5, 5));
    assert!(timestamp_in_bounds(0, u64::MAX));
    assert!(!timestamp_in_bounds(6, 5));
}

#[test]
fn restore_refuses_a_foreign_action_and_an_inconsistent_result() {
    let envelope = sampled().envelope_for_journal().unwrap().clone();
    let mut foreign = envelope.clone();
    foreign.action = Felt::from(77);
    assert!(matches!(
        Ticket::restore(intent(), foreign, State::Committed, None),
        Err(TicketError::Transition)
    ));
    assert!(matches!(
        Ticket::restore(intent(), envelope.clone(), State::Executed, None),
        Err(TicketError::Transition)
    ));
    assert!(matches!(
        Ticket::restore(intent(), envelope.clone(), State::Committed, Some(three())),
        Err(TicketError::Transition)
    ));
    let mut late = envelope;
    late.timestamp = 2000;
    assert!(matches!(Ticket::restore(intent(), late, State::Committed, None), Err(TicketError::Context)));
}

#[test]
fn errors_have_words() {
    assert_eq!(TicketError::Context.message(), "acceptance context is outside signed limits");
    assert_eq!(TicketError::AlreadySampled.message(), "entropy sampling was already attempted");
    assert_eq!(TicketError::Entropy.message(), "initialized operating-system entropy source failed");
    assert_eq!(TicketError::Uncommitted.message(), "ticket has not committed");
    assert_eq!(TicketError::Transition.message(), "invalid ticket transition");
    assert_eq!(TicketError::ConflictingResult.message(), "conflicting result");
    assert_eq!(TicketError::Protocol(ProtocolError::Length).message(), ProtocolError::Length.message());
}
