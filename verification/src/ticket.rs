//! The accepted-ticket state machine.
//!
//! A ticket samples its root once, exposes it only after the journal has committed it, and keeps
//! it through every later state. A lost sampling attempt cannot be repeated.

use crate::felt::{felt_of, lemma_felt_of, Felt};
use crate::protocol::{
    encodable, intent_identity, protocol_error_text, Envelope, EnvelopeView, Intent, IntentView,
    ProtocolError,
};
use rustix::rand::{getrandom, GetRandomFlags};
use vstd::prelude::*;

verus! {

broadcast use crate::felt::lemma_felt_injective;

/// Where an action stands between its proposal and its consumption.
#[derive(Clone, Copy, Debug, PartialEq, Eq, Structural)]
pub enum State {
    Proposed,
    Committed,
    Submitted,
    Executed,
    TerminalRejected,
    Consumed,
}

/// Why a ticket refused an operation.
#[derive(Clone, Copy, Debug, PartialEq, Eq, Structural)]
pub enum TicketError {
    /// The intent has no canonical form.
    Protocol(ProtocolError),
    /// The acceptance context is outside the signed limits.
    Context,
    /// Entropy sampling was already attempted.
    AlreadySampled,
    /// The initialized operating-system entropy source failed.
    Entropy,
    /// The ticket has not committed.
    Uncommitted,
    /// The ticket is in no state for the operation.
    Transition,
    /// The ticket finished with another result.
    ConflictingResult,
}

/// A ticket error in words.
pub open spec fn ticket_error_text(error: TicketError) -> Seq<char> {
    match error {
        TicketError::Protocol(error) => protocol_error_text(error),
        TicketError::Context => "acceptance context is outside signed limits"@,
        TicketError::AlreadySampled => "entropy sampling was already attempted"@,
        TicketError::Entropy => "initialized operating-system entropy source failed"@,
        TicketError::Uncommitted => "ticket has not committed"@,
        TicketError::Transition => "invalid ticket transition"@,
        TicketError::ConflictingResult => "conflicting result"@,
    }
}

impl TicketError {
    /// The error in words.
    pub fn message(&self) -> (result: &'static str)
        ensures
            result@ == ticket_error_text(*self),
    {
        match self {
            TicketError::Protocol(error) => error.message(),
            TicketError::Context => "acceptance context is outside signed limits",
            TicketError::AlreadySampled => "entropy sampling was already attempted",
            TicketError::Entropy => "initialized operating-system entropy source failed",
            TicketError::Uncommitted => "ticket has not committed",
            TicketError::Transition => "invalid ticket transition",
            TicketError::ConflictingResult => "conflicting result",
        }
    }
}

/// The context that an action is accepted in. It holds no root.
#[derive(Clone, Copy, Debug, PartialEq, Eq, Structural)]
pub struct Context {
    pub order: u64,
    pub predecessor: Felt,
    pub preceding_state: Felt,
    pub timestamp: u64,
    pub execution_config: Felt,
    pub l2_gas: u64,
}

/// Why an intent cannot be accepted in a context, where it cannot. A context has no maximum age:
/// only the signed limits bound it.
pub open spec fn context_fault(context: Context, intent: IntentView) -> Option<TicketError> {
    if !encodable(intent) {
        Some(TicketError::Protocol(ProtocolError::Length))
    } else if 0 < context.order <= intent.last_order && intent.valid_from <= context.timestamp
        <= intent.valid_until && context.l2_gas != 0 {
        None
    } else {
        Some(TicketError::Context)
    }
}

impl Context {
    /// Whether an intent can be accepted in the context.
    pub fn validate(&self, intent: &Intent) -> (result: Result<(), TicketError>)
        ensures
            match result {
                Ok(_) => context_fault(*self, intent@) is None,
                Err(error) => context_fault(*self, intent@) == Some(error),
            },
    {
        if let Err(error) = intent.encode() {
            return Err(TicketError::Protocol(error));
        }
        if self.order == 0 || self.order > intent.last_order || self.timestamp < intent.valid_from
            || self.timestamp > intent.valid_until || self.l2_gas == 0 {
            return Err(TicketError::Context);
        }
        Ok(())
    }
}

/// Whether a recorded timestamp is not in the future of the block that records it.
pub open spec fn in_bounds(recorded: u64, block_time: u64) -> bool {
    recorded <= block_time
}

/// Whether a recorded timestamp is not in the future of the block that records it.
pub fn timestamp_in_bounds(recorded: u64, block_time: u64) -> (result: bool)
    ensures
        result == in_bounds(recorded, block_time),
{
    recorded <= block_time
}

/// The context that an envelope carries.
pub open spec fn context_of(envelope: EnvelopeView) -> Context {
    Context {
        order: envelope.order,
        predecessor: envelope.predecessor,
        preceding_state: envelope.preceding_state,
        timestamp: envelope.timestamp,
        execution_config: envelope.execution_config,
        l2_gas: envelope.l2_gas,
    }
}

/// The context that an envelope carries.
pub fn context_from_envelope(envelope: &Envelope) -> (result: Context)
    ensures
        result == context_of(envelope@),
{
    Context {
        order: envelope.order,
        predecessor: envelope.predecessor,
        preceding_state: envelope.preceding_state,
        timestamp: envelope.timestamp,
        execution_config: envelope.execution_config,
        l2_gas: envelope.l2_gas,
    }
}

/// Whether an envelope binds an intent in a context.
pub open spec fn binds(envelope: EnvelopeView, intent: IntentView, context: Context) -> bool {
    &&& envelope.action == felt_of(intent_identity(intent))
    &&& context_of(envelope) == context
    &&& envelope.root.len() == 32
}

/// Whether a ticket in a state has a result.
pub open spec fn has_result(state: State) -> bool {
    state is Executed || state is TerminalRejected || state is Consumed
}

/// What a ticket holds.
#[verifier::ext_equal]
pub struct TicketView {
    pub intent: IntentView,
    pub context: Context,
    pub state: State,
    pub sampling_attempted: bool,
    pub envelope: Option<EnvelopeView>,
    pub submissions: Seq<Felt>,
    pub result: Option<Felt>,
}

impl TicketView {
    /// What holds of every ticket.
    pub open spec fn valid(self) -> bool {
        &&& context_fault(self.context, self.intent) is None
        &&& self.envelope matches Some(envelope) ==> self.sampling_attempted && binds(
            envelope,
            self.intent,
            self.context,
        )
        &&& self.state is Proposed || self.envelope is Some
        &&& has_result(self.state) <==> self.result is Some
        &&& self.submissions.no_duplicates()
        &&& forall|i: int|
            0 <= i < self.submissions.len() ==> (#[trigger] self.submissions[i])@ != 0
    }

    /// What a new proposal holds.
    pub open spec fn proposed(intent: IntentView, context: Context) -> TicketView {
        TicketView {
            intent,
            context,
            state: State::Proposed,
            sampling_attempted: false,
            envelope: None,
            submissions: Seq::empty(),
            result: None,
        }
    }

    /// What a ticket holds that the journal restored.
    pub open spec fn restored(
        intent: IntentView,
        envelope: EnvelopeView,
        state: State,
        result: Option<Felt>,
    ) -> TicketView {
        TicketView {
            intent,
            context: context_of(envelope),
            state,
            sampling_attempted: true,
            envelope: Some(envelope),
            submissions: Seq::empty(),
            result,
        }
    }

    /// What sampling makes of a ticket where the source, if it is asked, gives `filled`.
    pub open spec fn sampled(self, filled: Result<Seq<u8>, TicketError>) -> (
        Result<(), TicketError>,
        TicketView,
    ) {
        if self.sampling_attempted {
            (Err(TicketError::AlreadySampled), self)
        } else if !(self.state is Proposed) {
            (Err(TicketError::Transition), self)
        } else {
            let attempted = TicketView { sampling_attempted: true, ..self };
            match filled {
                Err(error) => (Err(error), attempted),
                Ok(root) => if encodable(self.intent) {
                    (
                        Ok(()),
                        TicketView {
                            envelope: Some(self.envelope_with(root)),
                            ..attempted
                        },
                    )
                } else {
                    (Err(TicketError::Protocol(ProtocolError::Length)), attempted)
                },
            }
        }
    }

    /// The envelope that binds the ticket's intent in its context to a root.
    pub open spec fn envelope_with(self, root: Seq<u8>) -> EnvelopeView {
        EnvelopeView {
            action: felt_of(intent_identity(self.intent)),
            order: self.context.order,
            predecessor: self.context.predecessor,
            preceding_state: self.context.preceding_state,
            timestamp: self.context.timestamp,
            execution_config: self.context.execution_config,
            l2_gas: self.context.l2_gas,
            root,
        }
    }

    /// What the journal's acknowledgement makes of a ticket.
    pub open spec fn committed(self) -> (Result<(), TicketError>, TicketView) {
        if self.state is Proposed && self.envelope is Some {
            (Ok(()), TicketView { state: State::Committed, ..self })
        } else {
            (Err(TicketError::Transition), self)
        }
    }

    /// The envelope that a ticket exposes.
    pub open spec fn exposed(self) -> Result<EnvelopeView, TicketError> {
        match self.envelope {
            Some(envelope) => if self.state is Proposed {
                Err(TicketError::Uncommitted)
            } else {
                Ok(envelope)
            },
            None => Err(TicketError::Uncommitted),
        }
    }

    /// What the submission of a transaction makes of a ticket.
    pub open spec fn submitted(self, transaction: Felt) -> (Result<(), TicketError>, TicketView) {
        if (self.state is Committed || self.state is Submitted) && transaction@ != 0 {
            (
                Ok(()),
                TicketView {
                    state: State::Submitted,
                    submissions: if self.submissions.contains(transaction) {
                        self.submissions
                    } else {
                        self.submissions.push(transaction)
                    },
                    ..self
                },
            )
        } else {
            (Err(TicketError::Transition), self)
        }
    }

    /// What an outcome makes of a ticket.
    pub open spec fn finished(self, outcome: State, result: Felt) -> (
        Result<(), TicketError>,
        TicketView,
    ) {
        if !(outcome is Executed || outcome is TerminalRejected) || result@ == 0 {
            (Err(TicketError::Transition), self)
        } else if self.state == outcome {
            if self.result == Some(result) {
                (Ok(()), self)
            } else {
                (Err(TicketError::ConflictingResult), self)
            }
        } else if self.state is Submitted {
            (Ok(()), TicketView { state: outcome, result: Some(result), ..self })
        } else {
            (Err(TicketError::Transition), self)
        }
    }

    /// What consumption makes of a ticket.
    pub open spec fn consumed(self) -> (Result<(), TicketError>, TicketView) {
        if has_result(self.state) {
            (Ok(()), TicketView { state: State::Consumed, ..self })
        } else {
            (Err(TicketError::Transition), self)
        }
    }
}

/// Why the journal's entry is no ticket, where it is none.
pub open spec fn restore_fault(
    intent: IntentView,
    envelope: EnvelopeView,
    state: State,
    result: Option<Felt>,
) -> Option<TicketError> {
    if state is Proposed || has_result(state) != result is Some {
        Some(TicketError::Transition)
    } else if !encodable(intent) {
        Some(TicketError::Protocol(ProtocolError::Length))
    } else if envelope.action@ != intent_identity(intent) {
        Some(TicketError::Transition)
    } else {
        context_fault(context_of(envelope), intent)
    }
}

/// One accepted or proposed action. The journal must persist exclusive sampling ownership before
/// the ticket samples. A ticket can be neither copied nor printed: a proposal cannot become a
/// second sampler or a log record.
pub struct Ticket {
    intent: Intent,
    context: Context,
    state: State,
    sampling_attempted: bool,
    envelope: Option<Envelope>,
    submissions: Vec<Felt>,
    result: Option<Felt>,
}

impl View for Ticket {
    type V = TicketView;

    closed spec fn view(&self) -> TicketView {
        TicketView {
            intent: self.intent@,
            context: self.context,
            state: self.state,
            sampling_attempted: self.sampling_attempted,
            envelope: match self.envelope {
                Some(envelope) => Some(envelope@),
                None => None,
            },
            submissions: self.submissions@,
            result: self.result,
        }
    }
}

/// Why the operating system gave no complete root.
#[derive(Clone, Copy, Debug, PartialEq, Eq, Structural)]
pub enum EntropyError {
    /// The source failed, with the given error number.
    Source(i32),
    /// The source filled another number of bytes than the root has.
    Short,
}

/// Calls `getrandom` of `rustix` without flags, which asks the operating system's initialized
/// entropy source to fill the buffer and reports how many bytes it wrote, or the error number.
/// Nothing is claimed of the bytes, of the count or of the error.
#[verifier::external_body]
fn os_random() -> (result: ([u8; 32], Result<usize, i32>)) {
    let mut root = [0u8; 32];
    let read = getrandom(&mut root[..], GetRandomFlags::empty()).map_err(|error| error.raw_os_error());
    (root, read)
}

/// Whether asking the operating system can leave these bytes in the buffer with this report.
pub closed spec fn drawn(root: [u8; 32], read: Result<usize, i32>) -> bool {
    call_ensures(os_random, (), (root, read))
}

/// The root that a buffer and the source's report on it make: the whole buffer, where the source
/// filled all of it.
pub open spec fn completed(root: [u8; 32], read: Result<usize, i32>) -> Result<
    [u8; 32],
    EntropyError,
> {
    match read {
        Ok(count) => if count == 32 {
            Ok(root)
        } else {
            Err(EntropyError::Short)
        },
        Err(code) => Err(EntropyError::Source(code)),
    }
}

/// The root that a buffer and the source's report on it make. A failed source and a partial fill
/// are refused.
pub fn complete_root(root: [u8; 32], read: Result<usize, i32>) -> (result: Result<
    [u8; 32],
    EntropyError,
>)
    ensures
        result == completed(root, read),
{
    match read {
        Ok(count) => if count == 32 {
            Ok(root)
        } else {
            Err(EntropyError::Short)
        },
        Err(code) => Err(EntropyError::Source(code)),
    }
}

/// Whether a root, or its want, is what the operating system left in a buffer of full width and
/// reported on it.
pub open spec fn os_filled(filled: Result<[u8; 32], EntropyError>) -> bool {
    exists|root: [u8; 32], read: Result<usize, i32>| #[trigger]
        drawn(root, read) && filled == completed(root, read)
}

/// A root that the operating system filled completely.
pub(crate) fn os_root() -> (result: Result<[u8; 32], EntropyError>)
    ensures
        os_filled(result),
{
    let (root, read) = os_random();
    assert(drawn(root, read));
    complete_root(root, read)
}

/// A filled root as a ticket takes it: whatever kept the source from filling it is one error.
pub open spec fn ticket_filled(filled: Result<[u8; 32], EntropyError>) -> Result<
    [u8; 32],
    TicketError,
> {
    match filled {
        Ok(root) => Ok(root),
        Err(_) => Err(TicketError::Entropy),
    }
}

/// A filled root as a ticket takes it.
pub fn ticket_root(filled: Result<[u8; 32], EntropyError>) -> (result: Result<
    [u8; 32],
    TicketError,
>)
    ensures
        result == ticket_filled(filled),
{
    match filled {
        Ok(root) => Ok(root),
        Err(_) => Err(TicketError::Entropy),
    }
}

/// Whether a source's answer is the operating system's, as a ticket takes it.
pub open spec fn os_answer(answer: Result<[u8; 32], TicketError>) -> bool {
    exists|filled: Result<[u8; 32], EntropyError>| #[trigger]
        os_filled(filled) && answer == ticket_filled(filled)
}

/// The operating system's answer, as a ticket takes it.
pub(crate) fn os_source() -> (result: Result<[u8; 32], TicketError>)
    ensures
        os_answer(result),
{
    let filled: Result<[u8; 32], EntropyError> = os_root();
    ticket_root(filled)
}

/// A filled root as a sequence of bytes.
pub open spec fn filled_view(filled: Result<[u8; 32], TicketError>) -> Result<Seq<u8>, TicketError> {
    match filled {
        Ok(root) => Ok(root@),
        Err(error) => Err(error),
    }
}

impl Ticket {
    /// The ticket that a journal's entry records. It cannot sample.
    pub fn restore(
        intent: Intent,
        envelope: Envelope,
        state: State,
        result: Option<Felt>,
    ) -> (outcome: Result<Ticket, TicketError>)
        ensures
            match outcome {
                Ok(ticket) => restore_fault(intent@, envelope@, state, result) is None && ticket@
                    == TicketView::restored(intent@, envelope@, state, result) && ticket@.valid(),
                Err(error) => restore_fault(intent@, envelope@, state, result) == Some(error),
            },
    {
        let finished: bool = matches!(state, State::Executed | State::TerminalRejected | State::Consumed);
        if state == State::Proposed || finished != result.is_some() {
            return Err(TicketError::Transition);
        }
        match intent.identity() {
            Ok(identity) => if envelope.action != identity {
                return Err(TicketError::Transition);
            },
            Err(error) => {
                return Err(TicketError::Protocol(error));
            },
        }
        let context: Context = context_from_envelope(&envelope);
        context.validate(&intent)?;
        let ticket: Ticket = Ticket {
            intent,
            context,
            state,
            sampling_attempted: true,
            envelope: Some(envelope),
            submissions: Vec::new(),
            result,
        };
        proof {
            lemma_felt_of(envelope.action);
        }
        assert(ticket@ =~= TicketView::restored(intent@, envelope@, state, result));
        Ok(ticket)
    }

    /// A new proposal.
    pub fn propose(intent: Intent, context: Context) -> (outcome: Result<Ticket, TicketError>)
        ensures
            match outcome {
                Ok(ticket) => context_fault(context, intent@) is None && ticket@
                    == TicketView::proposed(intent@, context) && ticket@.valid(),
                Err(error) => context_fault(context, intent@) == Some(error),
            },
    {
        context.validate(&intent)?;
        let ticket: Ticket = Ticket {
            intent,
            context,
            state: State::Proposed,
            sampling_attempted: false,
            envelope: None,
            submissions: Vec::new(),
            result: None,
        };
        assert(ticket@ =~= TicketView::proposed(intent@, context));
        Ok(ticket)
    }

    /// Where the ticket stands.
    pub fn state(&self) -> (result: State)
        ensures
            result == self@.state,
    {
        self.state
    }

    /// The transactions that carried the ticket.
    pub fn submissions(&self) -> (result: &[Felt])
        ensures
            result@ == self@.submissions,
    {
        &self.submissions
    }

    /// Samples the root from the operating system, which is asked exactly where the ticket may
    /// sample.
    pub fn sample_os(&mut self) -> (result: Result<(), TicketError>)
        ensures
            old(self)@.sampling_attempted || !(old(self)@.state is Proposed) ==> (
                result,
                final(self)@,
            ) == old(self)@.sampled(Err(TicketError::Entropy)),
            !old(self)@.sampling_attempted && old(self)@.state is Proposed ==> exists|
                answer: Result<[u8; 32], TicketError>,
            | #[trigger]
                os_answer(answer) && (result, final(self)@) == old(self)@.sampled(
                    filled_view(answer),
                ),
            old(self)@.valid() ==> final(self)@.valid(),
    {
        self.sample_with(os_source)
    }

    /// Samples the root from a source, which is asked once in the ticket's life at most.
    pub fn sample_with<F: FnOnce() -> Result<[u8; 32], TicketError>>(&mut self, fill: F) -> (result:
        Result<(), TicketError>)
        requires
            fill.requires(()),
        ensures
            exists|filled: Result<[u8; 32], TicketError>|
                (old(self)@.sampling_attempted || !(old(self)@.state is Proposed) || fill.ensures(
                    (),
                    filled,
                )) && (result, final(self)@) == old(self)@.sampled(#[trigger] filled_view(filled)),
            old(self)@.valid() ==> final(self)@.valid(),
    {
        if self.sampling_attempted {
            proof {
                let filled: Result<[u8; 32], TicketError> = Err(TicketError::Entropy);
                assert((Err::<(), TicketError>(TicketError::AlreadySampled), self@) == old(
                    self,
                )@.sampled(filled_view(filled)));
            }
            return Err(TicketError::AlreadySampled);
        }
        if self.state != State::Proposed {
            proof {
                let filled: Result<[u8; 32], TicketError> = Err(TicketError::Entropy);
                assert((Err::<(), TicketError>(TicketError::Transition), self@) == old(
                    self,
                )@.sampled(filled_view(filled)));
            }
            return Err(TicketError::Transition);
        }
        // Set before asking the source, so that no failure of it leads to a second attempt.
        self.sampling_attempted = true;
        let filled: Result<[u8; 32], TicketError> = fill();
        let ghost view = filled_view(filled);
        let root: [u8; 32] = match filled {
            Ok(root) => root,
            Err(error) => {
                assert(self@ =~= old(self)@.sampled(view).1);
                return Err(error);
            },
        };
        let action: Felt = match self.intent.identity() {
            Ok(identity) => identity,
            Err(error) => {
                assert(self@ =~= old(self)@.sampled(view).1);
                return Err(TicketError::Protocol(error));
            },
        };
        self.envelope = Some(
            Envelope {
                action,
                order: self.context.order,
                predecessor: self.context.predecessor,
                preceding_state: self.context.preceding_state,
                timestamp: self.context.timestamp,
                execution_config: self.context.execution_config,
                l2_gas: self.context.l2_gas,
                root,
            },
        );
        proof {
            lemma_felt_of(action);
            assert(self@.envelope =~= Some(old(self)@.envelope_with(root@)));
            assert(self@ =~= old(self)@.sampled(view).1);
        }
        Ok(())
    }

    /// Marks the ticket committed. Called only after the journal acknowledges durable replication
    /// of this exact envelope.
    pub fn committed(&mut self) -> (result: Result<(), TicketError>)
        ensures
            (result, final(self)@) == old(self)@.committed(),
            old(self)@.valid() ==> final(self)@.valid(),
    {
        if self.state != State::Proposed || self.envelope.is_none() {
            return Err(TicketError::Transition);
        }
        self.state = State::Committed;
        assert(self@ =~= old(self)@.committed().1);
        Ok(())
    }

    /// The sampled envelope, for the journal alone.
    pub fn envelope_for_journal(&self) -> (result: Result<&Envelope, TicketError>)
        ensures
            match result {
                Ok(envelope) => self@.envelope == Some(envelope@),
                Err(error) => self@.envelope is None && error == TicketError::Uncommitted,
            },
    {
        match &self.envelope {
            Some(envelope) => Ok(envelope),
            None => Err(TicketError::Uncommitted),
        }
    }

    /// The committed envelope.
    pub fn envelope(&self) -> (result: Result<&Envelope, TicketError>)
        ensures
            match result {
                Ok(envelope) => self@.exposed() == Ok::<EnvelopeView, TicketError>(envelope@),
                Err(error) => self@.exposed() == Err::<EnvelopeView, TicketError>(error),
            },
    {
        if self.state == State::Proposed {
            return Err(TicketError::Uncommitted);
        }
        self.envelope_for_journal()
    }

    /// Records that a transaction carries the ticket.
    pub fn submitted(&mut self, transaction: Felt) -> (result: Result<(), TicketError>)
        ensures
            (result, final(self)@) == old(self)@.submitted(transaction),
            old(self)@.valid() ==> final(self)@.valid(),
    {
        if !matches!(self.state, State::Committed | State::Submitted) || transaction
            == Felt::zero() {
            return Err(TicketError::Transition);
        }
        let mut known: bool = false;
        let mut i: usize = 0;
        while i < self.submissions.len()
            invariant
                i <= self.submissions@.len(),
                *self == *old(self),
                known == self.submissions@.take(i as int).contains(transaction),
            decreases self.submissions@.len() - i,
        {
            proof {
                let next = self.submissions@.take(i + 1);
                assert(next =~= self.submissions@.take(i as int).push(self.submissions@[i as int]));
                if known {
                    let k = choose|k: int|
                        0 <= k < i && self.submissions@.take(i as int)[k] == transaction;
                    assert(next[k] == transaction);
                }
                if self.submissions@[i as int] == transaction {
                    assert(next[i as int] == transaction);
                }
                if next.contains(transaction) {
                    let k = choose|k: int| 0 <= k < next.len() && next[k] == transaction;
                    if k < i {
                        assert(self.submissions@.take(i as int)[k] == transaction);
                    }
                }
            }
            if self.submissions[i] == transaction {
                known = true;
            }
            i = i + 1;
        }
        assert(self.submissions@.take(i as int) =~= self.submissions@);
        if !known {
            self.submissions.push(transaction);
        }
        self.state = State::Submitted;
        assert(self@ =~= old(self)@.submitted(transaction).1);
        Ok(())
    }

    /// Records the outcome of the ticket's execution.
    pub fn finish(&mut self, outcome: State, result: Felt) -> (returned: Result<(), TicketError>)
        ensures
            (returned, final(self)@) == old(self)@.finished(outcome, result),
            old(self)@.valid() ==> final(self)@.valid(),
    {
        if !matches!(outcome, State::Executed | State::TerminalRejected) || result
            == Felt::zero() {
            return Err(TicketError::Transition);
        }
        if self.state == outcome {
            let recorded: bool = match self.result {
                Some(known) => known == result,
                None => false,
            };
            return if recorded {
                Ok(())
            } else {
                Err(TicketError::ConflictingResult)
            };
        }
        if self.state != State::Submitted {
            return Err(TicketError::Transition);
        }
        self.result = Some(result);
        self.state = outcome;
        assert(self@ =~= old(self)@.finished(outcome, result).1);
        Ok(())
    }

    /// Records that the action's nonce was consumed.
    pub fn consume(&mut self) -> (result: Result<(), TicketError>)
        ensures
            (result, final(self)@) == old(self)@.consumed(),
            old(self)@.valid() ==> final(self)@.valid(),
    {
        if !matches!(self.state, State::Executed | State::TerminalRejected | State::Consumed) {
            return Err(TicketError::Transition);
        }
        self.state = State::Consumed;
        assert(self@ =~= old(self)@.consumed().1);
        Ok(())
    }
}

/// What can be done to a ticket.
pub enum Operation {
    Sample(Result<Seq<u8>, TicketError>),
    Commit,
    Submit(Felt),
    Finish(State, Felt),
    Consume,
}

impl Operation {
    /// Whether a source that fills a root fills all of it.
    pub open spec fn fills(self) -> bool {
        self matches Operation::Sample(Ok(root)) ==> root.len() == 32
    }
}

impl TicketView {
    /// What an operation makes of a ticket.
    pub open spec fn apply(self, operation: Operation) -> (Result<(), TicketError>, TicketView) {
        match operation {
            Operation::Sample(filled) => self.sampled(filled),
            Operation::Commit => self.committed(),
            Operation::Submit(transaction) => self.submitted(transaction),
            Operation::Finish(outcome, result) => self.finished(outcome, result),
            Operation::Consume => self.consumed(),
        }
    }

    /// What a sequence of operations makes of a ticket.
    pub open spec fn after(self, operations: Seq<Operation>) -> TicketView
        decreases operations.len(),
    {
        if operations.len() == 0 {
            self
        } else {
            self.after(operations.drop_last()).apply(operations.last()).1
        }
    }
}

/// How far a state is from the proposal.
pub open spec fn progress(state: State) -> nat {
    match state {
        State::Proposed => 0,
        State::Committed => 1,
        State::Submitted => 2,
        State::Executed => 3,
        State::TerminalRejected => 3,
        State::Consumed => 4,
    }
}

/// Every operation keeps a valid ticket valid.
pub proof fn law_validity_is_kept(ticket: TicketView, operation: Operation)
    requires
        ticket.valid(),
        operation.fills(),
    ensures
        ticket.apply(operation).1.valid(),
{
}

/// A root is hidden until its commit, and exposed ever after.
pub proof fn law_root_is_hidden_until_commit(ticket: TicketView)
    requires
        ticket.valid(),
    ensures
        ticket.state is Proposed ==> ticket.exposed() == Err::<EnvelopeView, TicketError>(
            TicketError::Uncommitted,
        ),
        !(ticket.state is Proposed) ==> ticket.envelope is Some && ticket.exposed() == Ok::<
            EnvelopeView,
            TicketError,
        >(ticket.envelope->0),
{
}

/// Whatever its outcome, a sampling attempt is the last: nothing that follows clears the attempt,
/// and a later attempt is refused whatever the source would give.
pub proof fn law_sampling_is_attempted_once(
    ticket: TicketView,
    operations: Seq<Operation>,
    filled: Result<Seq<u8>, TicketError>,
)
    requires
        ticket.sampling_attempted,
    ensures
        ticket.after(operations).sampling_attempted,
        ticket.after(operations).sampled(filled) == (
            Err::<(), TicketError>(TicketError::AlreadySampled),
            ticket.after(operations),
        ),
    decreases operations.len(),
{
    if operations.len() > 0 {
        law_sampling_is_attempted_once(ticket, operations.drop_last(), filled);
    }
}

/// The envelope that a ticket sampled, its intent and its context stay what they were, whatever
/// follows.
pub proof fn law_bound_root_never_changes(ticket: TicketView, operations: Seq<Operation>)
    requires
        ticket.valid(),
    ensures
        ticket.envelope is Some ==> ticket.after(operations).envelope == ticket.envelope,
        ticket.after(operations).intent == ticket.intent,
        ticket.after(operations).context == ticket.context,
    decreases operations.len(),
{
    if operations.len() > 0 {
        law_bound_root_never_changes(ticket, operations.drop_last());
        if ticket.envelope is Some {
            law_sampling_is_attempted_once(
                ticket,
                operations.drop_last(),
                Err(TicketError::Entropy),
            );
        }
    }
}

/// A state never goes back, and a terminal outcome never becomes the other one.
pub proof fn law_states_only_advance(ticket: TicketView, operations: Seq<Operation>)
    ensures
        progress(ticket.state) <= progress(ticket.after(operations).state),
        progress(ticket.state) == progress(ticket.after(operations).state) ==> ticket.state
            == ticket.after(operations).state,
    decreases operations.len(),
{
    if operations.len() > 0 {
        law_states_only_advance(ticket, operations.drop_last());
    }
}

/// The result of a finished ticket is final.
pub proof fn law_result_is_final(ticket: TicketView, operations: Seq<Operation>)
    requires
        has_result(ticket.state),
    ensures
        has_result(ticket.after(operations).state),
        ticket.after(operations).result == ticket.result,
    decreases operations.len(),
{
    if operations.len() > 0 {
        law_result_is_final(ticket, operations.drop_last());
    }
}

/// A refused operation changes nothing but that a failed sampling attempt stays on record.
pub proof fn law_refusal_changes_nothing(ticket: TicketView, operation: Operation)
    requires
        ticket.apply(operation).0 is Err,
    ensures
        operation is Sample ==> ticket.apply(operation).1 == (TicketView {
            sampling_attempted: ticket.apply(operation).1.sampling_attempted,
            ..ticket
        }),
        !(operation is Sample) ==> ticket.apply(operation).1 == ticket,
{
}

/// An entropy error or a partial fill never becomes a root: a ticket whose source did not fill every
/// byte is refused, then cannot be committed, exposes nothing and is never sampled again.
pub proof fn law_incomplete_root_is_refused(
    intent: IntentView,
    context: Context,
    root: [u8; 32],
    read: Result<usize, i32>,
    filled: Result<Seq<u8>, TicketError>,
)
    requires
        read != Ok::<usize, i32>(32),
    ensures
        ({
            let incomplete = filled_view(ticket_filled(completed(root, read)));
            let (result, after) = TicketView::proposed(intent, context).sampled(incomplete);
            &&& result == Err::<(), TicketError>(TicketError::Entropy)
            &&& after.envelope is None
            &&& after.committed() == (Err::<(), TicketError>(TicketError::Transition), after)
            &&& after.exposed() == Err::<EnvelopeView, TicketError>(TicketError::Uncommitted)
            &&& after.sampled(filled) == (
                Err::<(), TicketError>(TicketError::AlreadySampled),
                after,
            )
        }),
{
}

/// A restored ticket exposes exactly the envelope on record and never samples again.
pub proof fn law_restored_ticket_keeps_its_root(
    intent: IntentView,
    envelope: EnvelopeView,
    state: State,
    result: Option<Felt>,
    filled: Result<Seq<u8>, TicketError>,
)
    requires
        restore_fault(intent, envelope, state, result) is None,
    ensures
        TicketView::restored(intent, envelope, state, result).exposed() == Ok::<
            EnvelopeView,
            TicketError,
        >(envelope),
        TicketView::restored(intent, envelope, state, result).sampled(filled) == (
            Err::<(), TicketError>(TicketError::AlreadySampled),
            TicketView::restored(intent, envelope, state, result),
        ),
{
}

/// A context has no maximum age: one that a block admits, every later block admits.
pub proof fn law_contexts_have_no_maximum_age(recorded: u64, block_time: u64, later: u64)
    requires
        in_bounds(recorded, block_time),
        block_time <= later,
    ensures
        in_bounds(recorded, later),
{
}

/// Submitting a transaction again, finishing again with the same outcome and consuming again each
/// succeed and change nothing more.
pub proof fn law_repeats_change_nothing(
    ticket: TicketView,
    transaction: Felt,
    outcome: State,
    result: Felt,
)
    ensures
        ticket.submitted(transaction).0 is Ok ==> ticket.submitted(transaction).1.submitted(
            transaction,
        ) == (Ok::<(), TicketError>(()), ticket.submitted(transaction).1),
        ticket.finished(outcome, result).0 is Ok ==> ticket.finished(outcome, result).1.finished(
            outcome,
            result,
        ) == (Ok::<(), TicketError>(()), ticket.finished(outcome, result).1),
        ticket.consumed().0 is Ok ==> ticket.consumed().1.consumed() == (
            Ok::<(), TicketError>(()),
            ticket.consumed().1,
        ),
{
    if ticket.submitted(transaction).0 is Ok {
        let after = ticket.submitted(transaction).1;
        if !ticket.submissions.contains(transaction) {
            assert(after.submissions[ticket.submissions.len() as int] == transaction);
        }
        assert(after.submissions.contains(transaction));
        assert(after.submitted(transaction).1 =~= after);
    }
}

/// An intent is accepted in a context exactly where it has a form, its order lies between one and its
/// last, its time between its first and its last, and there is gas for it.
pub proof fn law_context_lies_within_the_signed_limits(
    context: &Context,
    intent: &Intent,
    result: Result<(), TicketError>,
)
    requires
        call_ensures(Context::validate, (context, intent), result),
    ensures
        ({
            let formed = intent.arguments@.len() <= u32::MAX;
            let limited = 1 <= context.order && context.order <= intent.last_order
                && intent.valid_from <= context.timestamp && context.timestamp
                <= intent.valid_until && context.l2_gas >= 1;
            &&& result is Ok <==> formed && limited
            &&& !formed ==> result == Err::<(), TicketError>(
                TicketError::Protocol(ProtocolError::Length),
            )
            &&& formed && !limited ==> result == Err::<(), TicketError>(TicketError::Context)
        }),
{
}

/// A recorded time is in bounds of every block from its own time on, and of no earlier one.
pub proof fn law_recorded_times_bound_their_blocks(recorded: u64, block_time: u64, result: bool)
    requires
        call_ensures(timestamp_in_bounds, (recorded, block_time), result),
    ensures
        result <==> !(block_time < recorded),
{
}

/// A proposal holds its intent in its context, unsampled; sampling a root binds the intent's identity
/// and the context to that root, and nothing else. The source is asked for nothing where the ticket
/// already asked.
#[verifier::spinoff_prover]
pub proof fn law_sampling_binds_the_context<F: FnOnce() -> Result<[u8; 32], TicketError>>(
    intent: Intent,
    context: Context,
    proposed: Result<Ticket, TicketError>,
    ticket: &mut Ticket,
    fill: F,
    answer: Result<[u8; 32], TicketError>,
    identity: Result<Felt, ProtocolError>,
    valid: Result<(), TicketError>,
    result: Result<(), TicketError>,
)
    requires
        call_ensures(Context::validate, (&context, &intent), valid),
        call_ensures(Intent::identity, (&intent,), identity),
        call_ensures(Ticket::propose, (intent, context), proposed),
        proposed is Ok ==> *old(ticket) == proposed->Ok_0,
        proposed is Ok ==> call_ensures(Ticket::sample_with, (ticket, fill), result),
        forall|given: Result<[u8; 32], TicketError>| #[trigger]
            fill.ensures((), given) ==> given == answer,
    ensures
        proposed is Ok <==> valid is Ok,
        proposed is Err ==> proposed->Err_0 == valid->Err_0,
        proposed is Ok ==> {
            let before = old(ticket)@;
            let after = final(ticket)@;
            &&& before.state is Proposed && before.envelope is None && before.result is None
            &&& before.submissions.len() == 0 && !before.sampling_attempted
            &&& after.state is Proposed && after.sampling_attempted
            &&& after.intent == intent@ && after.context == context
            &&& after.result is None && after.submissions.len() == 0
            &&& result is Ok <==> answer is Ok
            &&& answer is Err ==> result->Err_0 == answer->Err_0 && after.envelope is None
            &&& answer is Ok ==> after.envelope is Some && {
                let envelope = after.envelope->0;
                &&& identity == Ok::<Felt, ProtocolError>(envelope.action)
                &&& envelope.order == context.order
                &&& envelope.predecessor == context.predecessor
                &&& envelope.preceding_state == context.preceding_state
                &&& envelope.timestamp == context.timestamp
                &&& envelope.execution_config == context.execution_config
                &&& envelope.l2_gas == context.l2_gas
                &&& envelope.root == answer->Ok_0@
            }
        },
{
    if identity is Ok {
        lemma_felt_of(identity->Ok_0);
    }
}

/// A ticket is committed exactly where it is a sampled proposal, and exposes its envelope exactly
/// where it is committed or beyond.
pub proof fn law_commit_exposes_the_sampled_envelope(
    before: &Ticket,
    ticket: &mut Ticket,
    after: &Ticket,
    result: Result<(), TicketError>,
    hidden: Result<&Envelope, TicketError>,
    exposed: Result<&Envelope, TicketError>,
    sampled: Result<&Envelope, TicketError>,
)
    requires
        *before == *old(ticket),
        *after == *final(ticket),
        call_ensures(Ticket::committed, (ticket,), result),
        call_ensures(Ticket::envelope, (before,), hidden),
        call_ensures(Ticket::envelope_for_journal, (before,), sampled),
        call_ensures(Ticket::envelope, (after,), exposed),
    ensures
        result is Ok <==> before@.state is Proposed && sampled is Ok,
        result is Err ==> result->Err_0 == TicketError::Transition && after@ == before@,
        before@.state is Proposed ==> hidden == Err::<&Envelope, TicketError>(
            TicketError::Uncommitted,
        ),
        result is Ok ==> after@.state is Committed && exposed is Ok && exposed->Ok_0@
            == sampled->Ok_0@ && after@.intent == before@.intent && after@.context
            == before@.context && after@.result == before@.result && after@.submissions
            == before@.submissions,
        !(before@.state is Proposed) && sampled is Ok ==> hidden is Ok && hidden->Ok_0@
            == sampled->Ok_0@,
{
}

/// A transaction that is not zero carries a committed or submitted ticket, which holds it once behind
/// those that carried it before.
pub proof fn law_submissions_are_held_in_order(
    ticket: &mut Ticket,
    transaction: Felt,
    result: Result<(), TicketError>,
)
    requires
        call_ensures(Ticket::submitted, (ticket, transaction), result),
    ensures
        ({
            let before = old(ticket)@;
            let after = final(ticket)@;
            let known = before.submissions.contains(transaction);
            &&& result is Ok <==> (before.state == State::Committed || before.state
                == State::Submitted) && transaction@ != 0
            &&& result is Err ==> result->Err_0 == TicketError::Transition && after == before
            &&& result is Ok ==> after.state == State::Submitted && after.result == before.result
                && after.envelope == before.envelope && after.intent == before.intent
                && after.context == before.context
            &&& result is Ok && known ==> after.submissions == before.submissions
            &&& result is Ok && !known ==> after.submissions.len() == before.submissions.len() + 1
                && after.submissions.last() == transaction && after.submissions.drop_last()
                == before.submissions
        }),
{
    assert(old(ticket)@.submissions.push(transaction).drop_last() =~= old(ticket)@.submissions);
}

/// A submitted ticket is executed or rejected with a result that is not zero. Repeating that outcome
/// with its result is allowed and with another one is a conflict; nothing else is an outcome.
pub proof fn law_outcomes_follow_a_submission(
    ticket: &mut Ticket,
    outcome: State,
    value: Felt,
    result: Result<(), TicketError>,
)
    requires
        call_ensures(Ticket::finish, (ticket, outcome, value), result),
    ensures
        ({
            let before = old(ticket)@;
            let after = final(ticket)@;
            let final_state = (outcome == State::Executed || outcome == State::TerminalRejected)
                && value@ != 0;
            let repeated = before.state == outcome;
            let fresh = before.state == State::Submitted;
            &&& result is Ok <==> final_state && (fresh || repeated && before.result == Some(value))
            &&& result == Err::<(), TicketError>(TicketError::ConflictingResult) <==> final_state
                && repeated && before.result != Some(value)
            &&& result is Err ==> after == before
            &&& result is Err && !(final_state && repeated) ==> result->Err_0
                == TicketError::Transition
            &&& result is Ok ==> after.state == outcome && after.result == Some(value)
                && after.envelope == before.envelope && after.submissions == before.submissions
                && after.intent == before.intent && after.context == before.context
        }),
{
}

/// A nonce is consumed by an executed or rejected action, which keeps its result, and stays consumed.
pub proof fn law_consumption_follows_an_outcome(ticket: &mut Ticket, result: Result<(), TicketError>)
    requires
        call_ensures(Ticket::consume, (ticket,), result),
    ensures
        ({
            let before = old(ticket)@;
            let after = final(ticket)@;
            let ended = before.state == State::Executed || before.state == State::TerminalRejected
                || before.state == State::Consumed;
            &&& result is Ok <==> ended
            &&& !ended ==> result->Err_0 == TicketError::Transition && after == before
            &&& ended ==> after.state == State::Consumed && after.result == before.result
                && after.envelope == before.envelope && after.submissions == before.submissions
                && after.intent == before.intent && after.context == before.context
        }),
{
}

/// The journal's entry is a ticket exactly where its state is beyond the proposal, it has a result
/// exactly where its state has one, its envelope carries the intent's identity, and the envelope's
/// context lies within the intent's limits. The ticket then holds the entry, already sampled.
pub proof fn law_restored_ticket_holds_its_entry(
    intent: Intent,
    envelope: Envelope,
    state: State,
    recorded: Option<Felt>,
    identity: Result<Felt, ProtocolError>,
    context: Context,
    valid: Result<(), TicketError>,
    result: Result<Ticket, TicketError>,
)
    requires
        call_ensures(Intent::identity, (&intent,), identity),
        call_ensures(context_from_envelope, (&envelope,), context),
        call_ensures(Context::validate, (&context, &intent), valid),
        call_ensures(Ticket::restore, (intent, envelope, state, recorded), result),
    ensures
        context.order == envelope.order,
        context.predecessor == envelope.predecessor,
        context.preceding_state == envelope.preceding_state,
        context.timestamp == envelope.timestamp,
        context.execution_config == envelope.execution_config,
        context.l2_gas == envelope.l2_gas,
        ({
            let ended = state == State::Executed || state == State::TerminalRejected || state
                == State::Consumed;
            let fits = state != State::Proposed && (ended <==> recorded is Some);
            let named = identity == Ok::<Felt, ProtocolError>(envelope.action);
            &&& result is Ok <==> fits && named && valid is Ok
            &&& !fits ==> result is Err && result->Err_0 == TicketError::Transition
            &&& fits && identity is Ok && !named ==> result is Err && result->Err_0
                == TicketError::Transition
            &&& fits && named && valid is Err ==> result is Err && result->Err_0 == valid->Err_0
            &&& result is Ok ==> {
                let ticket = result->Ok_0@;
                &&& ticket.intent == intent@
                &&& ticket.context == context
                &&& ticket.envelope == Some(envelope@)
                &&& ticket.state == state
                &&& ticket.result == recorded
                &&& ticket.sampling_attempted
                &&& ticket.submissions.len() == 0
            }
        }),
{
}

/// A root is complete exactly where the source reported all its thirty-two bytes, and is then those
/// bytes; a ticket is told of no other want than the source's.
pub proof fn law_root_is_complete_at_thirty_two_bytes(
    root: [u8; 32],
    read: Result<usize, i32>,
    filled: Result<[u8; 32], EntropyError>,
    given: Result<[u8; 32], TicketError>,
)
    requires
        call_ensures(complete_root, (root, read), filled),
        call_ensures(ticket_root, (filled,), given),
    ensures
        filled is Ok <==> read == Ok::<usize, i32>(32),
        filled is Ok ==> filled->Ok_0 == root,
        read is Ok && read->Ok_0 != 32 ==> filled->Err_0 == EntropyError::Short,
        read is Err ==> filled->Err_0 == EntropyError::Source(read->Err_0),
        given is Ok <==> filled is Ok,
        given is Ok ==> given->Ok_0 == root,
        given is Err ==> given->Err_0 == TicketError::Entropy,
{
}

/// A ticket asks the operating system for a root where it is a proposal that has asked for none, and
/// has asked once it did. Where it is given one, the ticket's context is bound to it; where it is not,
/// the ticket has no envelope. A ticket that has asked, or is no proposal, is refused unchanged.
pub proof fn law_system_is_asked_once_for_a_root(
    ticket: &mut Ticket,
    result: Result<(), TicketError>,
)
    requires
        old(ticket)@.valid(),
        call_ensures(Ticket::sample_os, (ticket,), result),
    ensures
        ({
            let before = old(ticket)@;
            let after = final(ticket)@;
            let asks = before.state == State::Proposed && !before.sampling_attempted;
            &&& before.sampling_attempted ==> result == Err::<(), TicketError>(
                TicketError::AlreadySampled,
            )
            &&& !asks && !before.sampling_attempted ==> result == Err::<(), TicketError>(
                TicketError::Transition,
            )
            &&& !asks ==> after == before
            &&& asks ==> after.sampling_attempted && after.state == before.state && after.intent
                == before.intent && after.context == before.context && after.result == before.result
                && after.submissions == before.submissions
            &&& asks && result is Err ==> result->Err_0 == TicketError::Entropy && after.envelope
                is None
            &&& asks && result is Ok ==> after.envelope is Some && {
                let envelope = after.envelope->0;
                &&& envelope.order == before.context.order
                &&& envelope.predecessor == before.context.predecessor
                &&& envelope.preceding_state == before.context.preceding_state
                &&& envelope.timestamp == before.context.timestamp
                &&& envelope.execution_config == before.context.execution_config
                &&& envelope.l2_gas == before.context.l2_gas
                &&& envelope.root.len() == 32
            }
        }),
{
}

/// A ticket's errors are told in words of their own.
pub proof fn law_ticket_errors_have_their_words(error: &TicketError, words: &'static str)
    requires
        call_ensures(TicketError::message, (error,), words),
    ensures
        *error is Context ==> words@ == "acceptance context is outside signed limits"@,
        *error is AlreadySampled ==> words@ == "entropy sampling was already attempted"@,
        *error is Entropy ==> words@ == "initialized operating-system entropy source failed"@,
        *error is Uncommitted ==> words@ == "ticket has not committed"@,
        *error is Transition ==> words@ == "invalid ticket transition"@,
        *error is ConflictingResult ==> words@ == "conflicting result"@,
{
}

/// An error that comes from a part is told in the part's words.
pub proof fn law_ticket_errors_keep_the_words_of_their_parts(
    form: ProtocolError,
    form_words: (&'static str, &'static str),
)
    requires
        call_ensures(ProtocolError::message, (&form,), form_words.0),
        call_ensures(TicketError::message, (&TicketError::Protocol(form),), form_words.1),
    ensures
        form_words.1@ == form_words.0@,
{
}

} // verus!
