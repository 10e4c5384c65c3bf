//! Execution of accepted tickets in batches.
//!
//! A failed batch is bisected in order. Only a single definitively failed ticket is rejected; its
//! siblings execute normally, with the contexts they were accepted in.

use crate::felt::{values, Felt};
use crate::protocol::{encodable, ProtocolError};
use crate::recorded::{
    batch_fields, status_views, ticket_fields, ticket_views, ActionStatus, ActionStatusView, Event,
    Execution, ExecutionResult, RecordedTicket, RecordedTicketView, TransactionReceipt,
};
use crate::slices::append_felts;
use crate::stark::{known_selector, selector};
use crate::text::contains;
use std::collections::VecDeque;
use std::ops::Range;
use vstd::prelude::*;

verus! {

broadcast use crate::felt::lemma_felt_injective;

/// The largest number of tickets in a batch.
pub const MAX_TICKETS: usize = 64;

/// The number of times that a transaction is submitted.
pub const MAX_ATTEMPTS: u32 = 3;

/// Why the execution of tickets stopped.
#[derive(Clone, Copy, Debug, PartialEq, Eq, Structural)]
pub enum ExecutionError {
    /// A ticket has no form.
    Protocol(ProtocolError),
    /// A batch holds no ticket or too many.
    BatchSize,
    /// More than one ticket was to be rejected.
    SingleRejection,
    /// A rejection was not recorded.
    TerminalRejection,
    /// The chain's head covers a ticket whose receipt is missing.
    HeadCovers,
    /// Every attempt was left unresolved.
    Paused,
    /// A receipt was to be attributed to no ticket.
    EmptyAttribution,
    /// A receipt holds more or fewer results than tickets.
    TicketCount,
    /// A result event has the wrong number of elements.
    MalformedEvent,
    /// A result event names another ticket.
    MismatchedEvent,
    /// A result event holds no result.
    InvalidResult,
    /// A recorded batch holds no count.
    TruncatedBatch,
    /// A recorded batch holds no ticket or too many.
    RecordedBatchSize,
    /// Data follows the tickets of a recorded transaction.
    TrailingData,
    /// A number of recorded transaction data is out of range.
    Value,
}

/// An execution error in words.
pub open spec fn execution_error_text(error: ExecutionError) -> Seq<char> {
    match error {
        ExecutionError::Protocol(error) => crate::protocol::protocol_error_text(error),
        ExecutionError::BatchSize => "invalid execution batch size"@,
        ExecutionError::SingleRejection => "only a single ticket can be rejected"@,
        ExecutionError::TerminalRejection => "terminal rejection failed to record"@,
        ExecutionError::HeadCovers =>
            "head already covers pending ticket but its matching receipt is unavailable"@,
        ExecutionError::Paused =>
            "game submission paused after three unresolved attempts; node state remains authoritative"@,
        ExecutionError::EmptyAttribution => "empty receipt attribution"@,
        ExecutionError::TicketCount => "execution receipt ticket count mismatch"@,
        ExecutionError::MalformedEvent => "malformed execution event"@,
        ExecutionError::MismatchedEvent => "execution event does not match submitted ticket"@,
        ExecutionError::InvalidResult => "invalid execution result"@,
        ExecutionError::TruncatedBatch => "truncated recorded batch"@,
        ExecutionError::RecordedBatchSize => "invalid recorded batch size"@,
        ExecutionError::TrailingData => "trailing recorded transaction data"@,
        ExecutionError::Value => "Failed to convert `Felt` into primitive type"@,
    }
}

impl ExecutionError {
    /// The error in words.
    pub fn message(&self) -> (result: &'static str)
        ensures
            result@ == execution_error_text(*self),
    {
        match self {
            ExecutionError::Protocol(error) => error.message(),
            ExecutionError::BatchSize => "invalid execution batch size",
            ExecutionError::SingleRejection => "only a single ticket can be rejected",
            ExecutionError::TerminalRejection => "terminal rejection failed to record",
            ExecutionError::HeadCovers =>
                "head already covers pending ticket but its matching receipt is unavailable",
            ExecutionError::Paused =>
                "game submission paused after three unresolved attempts; node state remains authoritative",
            ExecutionError::EmptyAttribution => "empty receipt attribution",
            ExecutionError::TicketCount => "execution receipt ticket count mismatch",
            ExecutionError::MalformedEvent => "malformed execution event",
            ExecutionError::MismatchedEvent => "execution event does not match submitted ticket",
            ExecutionError::InvalidResult => "invalid execution result",
            ExecutionError::TruncatedBatch => "truncated recorded batch",
            ExecutionError::RecordedBatchSize => "invalid recorded batch size",
            ExecutionError::TrailingData => "trailing recorded transaction data",
            ExecutionError::Value => "Failed to convert `Felt` into primitive type",
        }
    }
}

/// Whether an executor's refusal names one of the limits that a transaction meets however
/// often it is submitted. Only these authorize rejection before inclusion: a missing receipt or
/// an account or order mismatch requires reconciliation, never rejection.
pub open spec fn names_deterministic_limit(reason: Seq<char>) -> bool {
    ||| crate::text::contains_text(reason, "Exceeded the maximum number of events,"@)
    ||| crate::text::contains_text(reason, "Exceeded the maximum data length,"@)
    ||| crate::text::contains_text(reason, "Exceeded the maximum keys length,"@)
}

/// Whether a revert's reason says that the submission itself was not authentic or not current.
/// Such a revert says nothing about the tickets it carried.
pub open spec fn names_authentication_failure(reason: Seq<char>) -> bool {
    ||| crate::text::contains_text(reason, "out of order"@)
    ||| crate::text::contains_text(reason, "only sequencing submitter"@)
    ||| crate::text::contains_text(reason, "invalid authority signature"@)
    ||| crate::text::contains_text(reason, "execution config mismatch"@)
    ||| crate::text::contains_text(reason, "future execution time"@)
    ||| crate::text::contains_text(reason, "backwards execution time"@)
    ||| crate::text::contains_text(reason, "malformed envelope"@)
    ||| crate::text::contains_text(reason, "invalid acceptance"@)
    ||| crate::text::contains_text(reason, "order outside randomness epoch"@)
    ||| crate::text::contains_text(reason, "revealed epoch cannot execute"@)
}

/// Tells a deterministic executor limit from a transient refusal.
pub fn deterministic_limit(reason: &str) -> (result: bool)
    ensures
        result == names_deterministic_limit(reason@),
{
    contains(reason, "Exceeded the maximum number of events,") || contains(
        reason,
        "Exceeded the maximum data length,",
    ) || contains(reason, "Exceeded the maximum keys length,")
}

/// Tells a revert of the submission from a revert of one of its tickets.
pub fn authentication_revert(reason: &str) -> (result: bool)
    ensures
        result == names_authentication_failure(reason@),
{
    contains(reason, "out of order") || contains(reason, "only sequencing submitter") || contains(
        reason,
        "invalid authority signature",
    ) || contains(reason, "execution config mismatch") || contains(reason, "future execution time")
        || contains(reason, "backwards execution time") || contains(reason, "malformed envelope")
        || contains(reason, "invalid acceptance") || contains(
        reason,
        "order outside randomness epoch",
    ) || contains(reason, "revealed epoch cannot execute")
}

/// Where a range is cut in two.
pub open spec fn middle(range: Range<usize>) -> int {
    if range.start <= range.end {
        range.start + (range.end - range.start) / 2
    } else {
        range.start as int
    }
}

/// Puts the two halves of a range in front of the pending ranges, the earlier half first.
pub fn split_front(batches: &mut VecDeque<Range<usize>>, range: Range<usize>)
    ensures
        final(batches)@ == seq![
            Range { start: range.start, end: middle(range) as usize },
            Range { start: middle(range) as usize, end: range.end },
        ] + old(batches)@,
{
    let length: usize = if range.start < range.end {
        range.end - range.start
    } else {
        0
    };
    let mid: usize = range.start + length / 2;
    batches.push_front(mid..range.end);
    batches.push_front(range.start..mid);
    proof {
        assert(batches@ =~= seq![
            Range { start: range.start, end: mid },
            Range { start: mid, end: range.end },
        ] + old(batches)@);
    }
}

/// One submission of a range of tickets: their execution, or the rejection of a single one.
#[derive(Debug, PartialEq, Eq)]
pub struct Attempt {
    pub range: Range<usize>,
    pub rejection: bool,
}

/// The progress of a batch that is bisected where it fails.
pub struct Bisection {
    pending: VecDeque<Range<usize>>,
    active: Option<Attempt>,
}

/// What a [`Bisection`] holds: the attempt under way and the ranges that follow it.
#[verifier::ext_equal]
pub struct BisectionView {
    pub active: Option<Attempt>,
    pub pending: Seq<Range<usize>>,
}

impl View for Bisection {
    type V = BisectionView;

    closed spec fn view(&self) -> BisectionView {
        BisectionView { active: self.active, pending: self.pending@ }
    }
}

/// The number of tickets in a range.
pub open spec fn range_length(range: Range<usize>) -> int {
    if range.start <= range.end {
        range.end - range.start
    } else {
        0
    }
}

impl BisectionView {
    /// The progress of a batch before anything was submitted.
    pub open spec fn start(count: usize) -> BisectionView {
        BisectionView {
            active: Some(Attempt { range: Range { start: 0, end: count }, rejection: false }),
            pending: Seq::empty(),
        }
    }

    /// The progress once the attempt under way is settled.
    pub open spec fn settled(self) -> BisectionView {
        if self.pending.len() == 0 {
            BisectionView { active: None, pending: self.pending }
        } else {
            BisectionView {
                active: Some(Attempt { range: self.pending[0], rejection: false }),
                pending: self.pending.skip(1),
            }
        }
    }

    /// The progress once it is known whether the attempt under way was recorded. Where a rejection
    /// was not, there is none.
    pub open spec fn next(self, recorded: bool) -> Option<BisectionView> {
        match self.active {
            None => Some(self),
            Some(attempt) => if recorded {
                Some(self.settled())
            } else if attempt.rejection {
                None
            } else if range_length(attempt.range) <= 1 {
                Some(
                    BisectionView {
                        active: Some(Attempt { range: attempt.range, rejection: true }),
                        pending: self.pending,
                    },
                )
            } else {
                let mid = middle(attempt.range) as usize;
                Some(
                    BisectionView {
                        active: Some(
                            Attempt {
                                range: Range { start: attempt.range.start, end: mid },
                                rejection: false,
                            },
                        ),
                        pending: seq![Range { start: mid, end: attempt.range.end }] + self.pending,
                    },
                )
            },
        }
    }
}

impl Bisection {
    /// A batch of tickets of which nothing was submitted.
    pub fn start(count: usize) -> (result: Bisection)
        ensures
            result@ == BisectionView::start(count),
    {
        Bisection {
            pending: VecDeque::new(),
            active: Some(Attempt { range: 0..count, rejection: false }),
        }
    }

    /// The attempt under way; there is none once every ticket is settled.
    pub fn attempt(&self) -> (result: Option<(Range<usize>, bool)>)
        ensures
            match (result, self@.active) {
                (Some((range, rejection)), Some(attempt)) => range == attempt.range && rejection
                    == attempt.rejection,
                (None, None) => true,
                _ => false,
            },
    {
        match &self.active {
            Some(attempt) => Some((attempt.range.start..attempt.range.end, attempt.rejection)),
            None => None,
        }
    }

    /// Goes on once it is known whether the attempt under way was recorded.
    pub fn advance(&mut self, recorded: bool) -> (result: Result<(), ExecutionError>)
        ensures
            match result {
                Ok(_) => old(self)@.next(recorded) == Some(final(self)@),
                Err(error) => old(self)@.next(recorded) is None && error
                    == ExecutionError::TerminalRejection && final(self)@ == old(self)@,
            },
    {
        let attempt: Attempt = match self.active.take() {
            Some(attempt) => attempt,
            None => {
                assert(self@ =~= old(self)@);
                return Ok(());
            },
        };
        let length: usize = if attempt.range.start < attempt.range.end {
            attempt.range.end - attempt.range.start
        } else {
            0
        };
        if !recorded {
            if attempt.rejection {
                self.active = Some(attempt);
                assert(self@ =~= old(self)@);
                return Err(ExecutionError::TerminalRejection);
            }
            if length <= 1 {
                self.active = Some(Attempt { range: attempt.range, rejection: true });
                assert(self@ =~= old(self)@.next(recorded)->0);
                return Ok(());
            }
            split_front(&mut self.pending, attempt.range);
        }
        let ghost queued = self.pending@;
        self.active = match self.pending.pop_front() {
            Some(range) => Some(Attempt { range, rejection: false }),
            None => None,
        };
        proof {
            if queued.len() > 0 {
                assert(self.pending@ =~= queued.skip(1));
            }
            assert(self@ =~= old(self)@.next(recorded)->0);
        }
        Ok(())
    }
}

/// Whether ranges follow one another without a gap, each with a ticket in it.
pub open spec fn tiles(ranges: Seq<Range<usize>>, from: int, to: int) -> bool
    decreases ranges.len(),
{
    if ranges.len() == 0 {
        from == to
    } else {
        &&& ranges[0].start == from
        &&& ranges[0].start < ranges[0].end
        &&& tiles(ranges.skip(1), ranges[0].end as int, to)
    }
}

impl BisectionView {
    /// The first ticket that is not settled.
    pub open spec fn position(self, count: usize) -> int {
        match self.active {
            Some(attempt) => attempt.range.start as int,
            None => count as int,
        }
    }

    /// What holds of a bisection of `count` tickets: the attempt under way and the pending ranges
    /// are the tickets that are not settled, in order, and only a single ticket is rejected.
    pub open spec fn valid(self, count: usize) -> bool {
        match self.active {
            None => self.pending.len() == 0,
            Some(attempt) => {
                &&& attempt.range.start < attempt.range.end
                &&& attempt.rejection ==> attempt.range.end - attempt.range.start == 1
                &&& tiles(self.pending, attempt.range.end as int, count as int)
            },
        }
    }
}

/// A bisection starts with the first ticket unsettled and its attempts in order.
pub proof fn law_bisection_starts_at_the_first_ticket(count: usize)
    requires
        0 < count,
    ensures
        BisectionView::start(count).valid(count),
        BisectionView::start(count).position(count) == 0,
{
}

/// The end of ranges that tile a stretch is not before its start.
pub proof fn lemma_tiles_bound(ranges: Seq<Range<usize>>, from: int, to: int)
    requires
        tiles(ranges, from, to),
    ensures
        from <= to,
        ranges.len() > 0 ==> from < to,
    decreases ranges.len(),
{
    if ranges.len() > 0 {
        lemma_tiles_bound(ranges.skip(1), ranges[0].end as int, to);
    }
}

/// No ticket is skipped or settled twice: a recorded attempt settles exactly its own tickets, which
/// are the first that were not settled, and an attempt that was not recorded settles none.
pub proof fn law_bisection_settles_in_order(view: BisectionView, count: usize, recorded: bool)
    requires
        view.valid(count),
        view.active is Some,
        view.next(recorded) is Some,
    ensures
        view.next(recorded)->0.valid(count),
        recorded ==> view.next(recorded)->0.position(count) == view.active->0.range.end,
        !recorded ==> view.next(recorded)->0.position(count) == view.position(count),
{
    let attempt = view.active->0;
    let after = view.next(recorded)->0;
    if !recorded && range_length(attempt.range) > 1 {
        let mid = middle(attempt.range);
        let rest = seq![Range { start: mid as usize, end: attempt.range.end }] + view.pending;
        assert(rest.skip(1) =~= view.pending);
        assert(tiles(rest, mid, count as int));
    }
}

/// What a batch's bisection records, where the tickets that `poison` holds of make every batch
/// they are in fail: each ticket with whether it was rejected.
pub open spec fn drive(view: BisectionView, count: usize, poison: spec_fn(int) -> bool) -> Seq<
    (int, bool),
>
    decreases
            count - view.position(count),
            (match view.active {
                Some(attempt) => 2 * (attempt.range.end - attempt.range.start) + (
                if attempt.rejection {
                    0int
                } else {
                    1int
                }),
                None => 0int,
            }),
    when view.valid(count)
    via drive_terminates
{
    match view.active {
        None => Seq::empty(),
        Some(attempt) => {
            let recorded = attempt.rejection || !range_poisoned(attempt.range, poison);
            match view.next(recorded) {
                None => Seq::empty(),
                Some(after) => (if recorded {
                    settlement(
                        attempt.range.start as int,
                        attempt.range.end as int,
                        |i: int| attempt.rejection,
                    )
                } else {
                    Seq::empty()
                }) + drive(after, count, poison),
            }
        },
    }
}

/// Whether a range holds a ticket that makes it fail.
pub open spec fn range_poisoned(range: Range<usize>, poison: spec_fn(int) -> bool) -> bool {
    exists|i: int| range.start <= i < range.end && #[trigger] poison(i)
}

/// The tickets of a stretch, each with whether it was rejected.
pub open spec fn settlement(from: int, to: int, rejected: spec_fn(int) -> bool) -> Seq<
    (int, bool),
> {
    Seq::new((to - from) as nat, |i: int| (from + i, rejected(from + i)))
}

#[via_fn]
proof fn drive_terminates(view: BisectionView, count: usize, poison: spec_fn(int) -> bool) {
    if view.active is Some {
        let attempt = view.active->0;
        let recorded = attempt.rejection || !range_poisoned(attempt.range, poison);
        lemma_tiles_bound(view.pending, attempt.range.end as int, count as int);
        if view.next(recorded) is Some {
            law_bisection_settles_in_order(view, count, recorded);
            let after = view.next(recorded)->0;
            if after.active is Some {
                lemma_tiles_bound(after.pending, after.active->0.range.end as int, count as int);
            }
        }
    }
}

/// A bisection records every ticket that it has not settled once and in order, and rejects exactly
/// the tickets that make their batches fail.
pub proof fn law_bisection_rejects_only_the_poison(
    view: BisectionView,
    count: usize,
    poison: spec_fn(int) -> bool,
)
    requires
        view.valid(count),
        view.active is Some && view.active->0.rejection ==> poison(
            view.active->0.range.start as int,
        ),
    ensures
        drive(view, count, poison) == settlement(view.position(count), count as int, poison),
    decreases
            count - view.position(count),
            (match view.active {
                Some(attempt) => 2 * (attempt.range.end - attempt.range.start) + (
                if attempt.rejection {
                    0int
                } else {
                    1int
                }),
                None => 0int,
            }),
{
    if view.active is Some {
        let attempt = view.active->0;
        let recorded = attempt.rejection || !range_poisoned(attempt.range, poison);
        lemma_tiles_bound(view.pending, attempt.range.end as int, count as int);
        law_bisection_settles_in_order(view, count, recorded);
        let after = view.next(recorded)->0;
        if after.active is Some {
            lemma_tiles_bound(after.pending, after.active->0.range.end as int, count as int);
        }
        if !recorded && range_length(attempt.range) <= 1 {
            let i = choose|i: int|
                attempt.range.start <= i < attempt.range.end && #[trigger] poison(i);
            assert(i == attempt.range.start);
        }
        law_bisection_rejects_only_the_poison(after, count, poison);
        let whole = settlement(view.position(count), count as int, poison);
        if recorded {
            let first = settlement(
                attempt.range.start as int,
                attempt.range.end as int,
                |i: int| attempt.rejection,
            );
            let rest = settlement(attempt.range.end as int, count as int, poison);
            assert forall|k: int| 0 <= k < whole.len() implies #[trigger] whole[k] == (first
                + rest)[k] by {
                if k < first.len() {
                    assert(whole[k] == (attempt.range.start + k, poison(attempt.range.start + k)));
                    if !attempt.rejection {
                        assert(!poison(attempt.range.start + k));
                    }
                }
            }
            assert(whole =~= first + rest);
        }
        assert(drive(view, count, poison) =~= whole);
    } else {
        assert(drive(view, count, poison) =~= settlement(count as int, count as int, poison));
    }
}

/// The error that a batch meets where it has no calldata.
pub open spec fn batch_fault(tickets: Seq<RecordedTicketView>, rejection: bool) -> Option<
    ExecutionError,
> {
    if tickets.len() == 0 || tickets.len() > MAX_TICKETS {
        Some(ExecutionError::BatchSize)
    } else if rejection && tickets.len() != 1 {
        Some(ExecutionError::SingleRejection)
    } else if exists|i: int| 0 <= i < tickets.len() && !encodable(#[trigger] tickets[i].intent) {
        Some(ExecutionError::Protocol(ProtocolError::Length))
    } else {
        None
    }
}

/// The calldata of a batch: the number of its tickets, where they are executed, and their forms.
pub open spec fn payload_fields(tickets: Seq<RecordedTicketView>, rejection: bool) -> Seq<nat> {
    (if rejection {
        Seq::<nat>::empty()
    } else {
        seq![tickets.len()]
    }) + batch_fields(tickets)
}

/// The calldata of a batch ends with the form of its last ticket.
proof fn lemma_batch_fields_push(tickets: Seq<RecordedTicketView>, ticket: RecordedTicketView)
    ensures
        batch_fields(tickets.push(ticket)) == batch_fields(tickets) + ticket_fields(ticket),
    decreases tickets.len(),
{
    if tickets.len() == 0 {
        reveal_with_fuel(batch_fields, 2);
        assert(tickets.push(ticket).skip(1) =~= Seq::empty());
        assert(batch_fields(tickets.push(ticket)) =~= ticket_fields(ticket));
    } else {
        assert(tickets.push(ticket).skip(1) =~= tickets.skip(1).push(ticket));
        lemma_batch_fields_push(tickets.skip(1), ticket);
        assert(batch_fields(tickets.push(ticket)) =~= batch_fields(tickets) + ticket_fields(
            ticket,
        ));
    }
}

/// The calldata of a batch that is executed, or of a single ticket that is rejected.
pub fn batch_calldata(tickets: &[RecordedTicket], rejection: bool) -> (result: Result<
    Vec<Felt>,
    ExecutionError,
>)
    ensures
        match result {
            Ok(fields) => batch_fault(ticket_views(tickets@), rejection) is None && values(fields@)
                == payload_fields(ticket_views(tickets@), rejection),
            Err(error) => batch_fault(ticket_views(tickets@), rejection) == Some(error),
        },
{
    let ghost views = ticket_views(tickets@);
    let length: usize = tickets.len();
    if length == 0 || length > MAX_TICKETS {
        return Err(ExecutionError::BatchSize);
    }
    if rejection && length != 1 {
        return Err(ExecutionError::SingleRejection);
    }
    let mut fields: Vec<Felt> = Vec::new();
    if !rejection {
        fields.push(Felt::from_u64(length as u64));
    }
    let ghost count = values(fields@);
    proof {
        assert(count =~= (if rejection {
            Seq::<nat>::empty()
        } else {
            seq![views.len()]
        }));
        assert(views.take(0) =~= Seq::empty());
        assert(values(fields@) =~= count + batch_fields(views.take(0)));
    }
    let mut i: usize = 0;
    while i < length
        invariant
            i <= length == tickets@.len(),
            views == ticket_views(tickets@),
            0 < length <= MAX_TICKETS,
            rejection ==> length == 1,
            values(fields@) == count + batch_fields(views.take(i as int)),
            forall|k: int| 0 <= k < i ==> encodable(#[trigger] views[k].intent),
        decreases length - i,
    {
        let ghost before = fields@;
        assert(views[i as int] == tickets@[i as int]@);
        match tickets[i].calldata() {
            Ok(form) => {
                append_felts(&mut fields, &form);
                proof {
                    assert(values(fields@) =~= values(before) + values(form@));
                    assert(views.take(i + 1) =~= views.take(i as int).push(views[i as int]));
                    lemma_batch_fields_push(views.take(i as int), views[i as int]);
                    assert(values(fields@) =~= count + batch_fields(views.take(i + 1)));
                }
            },
            Err(error) => {
                assert(!encodable(views[i as int].intent));
                return Err(ExecutionError::Protocol(error));
            },
        }
        i = i + 1;
    }
    assert(views.take(length as int) =~= views);
    Ok(fields)
}

/// The keys of the event that records a ticket's result.
pub open spec fn recording_keys() -> Seq<nat> {
    seq![selector("RecordingEvent"@), selector("ExecutionRecorded"@)]
}

/// Whether a contract recorded a ticket's result in an event.
pub open spec fn is_recording(event: Event, emitter: Felt) -> bool {
    event.from_address == emitter && values(event.keys@) == recording_keys()
}

/// The events in which a contract recorded tickets' results.
pub open spec fn recording_events(events: Seq<Event>, emitter: Felt) -> Seq<Event> {
    events.filter(|event: Event| is_recording(event, emitter))
}

/// The error that an event meets where it does not record a ticket's result.
pub open spec fn event_fault(ticket: RecordedTicketView, event: Event) -> Option<ExecutionError> {
    let data = event.data@;
    if data.len() != 7 {
        Some(ExecutionError::MalformedEvent)
    } else if data[0] != ticket.intent.game || data[1] != ticket.intent.actor || data[2]@
        != ticket.intent.nonce || data[4]@ != ticket.envelope.order {
        Some(ExecutionError::MismatchedEvent)
    } else if data[3]@ > 1 || !(1 <= data[5]@ <= 2) {
        Some(ExecutionError::InvalidResult)
    } else {
        None
    }
}

/// What an event says of a ticket.
pub open spec fn recorded_status(
    ticket: RecordedTicketView,
    hash: Felt,
    event: Event,
) -> ActionStatusView {
    ActionStatusView::Recorded {
        action: ticket.envelope.action,
        order: ticket.envelope.order,
        transaction_hash: hash,
        succeeded: event.data@[5]@ == 1,
        reason: event.data@[6],
        nonce_consumed: event.data@[3]@ == 1,
    }
}

/// The error that the first mismatched pair from `i` on meets.
pub open spec fn events_fault(
    tickets: Seq<RecordedTicketView>,
    events: Seq<Event>,
    i: int,
) -> Option<ExecutionError>
    decreases tickets.len() - i,
{
    if i >= tickets.len() {
        None
    } else if event_fault(tickets[i], events[i]) is Some {
        event_fault(tickets[i], events[i])
    } else {
        events_fault(tickets, events, i + 1)
    }
}

/// The error that a receipt meets where it does not record a batch's results.
pub open spec fn receipt_fault(
    tickets: Seq<RecordedTicketView>,
    receipt: TransactionReceipt,
) -> Option<ExecutionError> {
    if tickets.len() == 0 {
        Some(ExecutionError::EmptyAttribution)
    } else {
        let events = recording_events(receipt.events@, tickets[0].intent.deployment);
        if events.len() != tickets.len() {
            Some(ExecutionError::TicketCount)
        } else {
            events_fault(tickets, events, 0)
        }
    }
}

/// The results that a receipt records for a batch, in its tickets' order.
pub open spec fn receipt_statuses(
    tickets: Seq<RecordedTicketView>,
    hash: Felt,
    receipt: TransactionReceipt,
) -> Seq<ActionStatusView> {
    let events = recording_events(receipt.events@, tickets[0].intent.deployment);
    Seq::new(tickets.len(), |i: int| recorded_status(tickets[i], hash, events[i]))
}

/// The selector of the recording event's first key.
fn recording_event_key() -> (result: Felt)
    ensures
        result@ == selector("RecordingEvent"@),
{
    proof {
        reveal_strlit("RecordingEvent");
    }
    known_selector("RecordingEvent")
}

/// The selector of the recording event's second key.
fn execution_recorded_key() -> (result: Felt)
    ensures
        result@ == selector("ExecutionRecorded"@),
{
    proof {
        reveal_strlit("ExecutionRecorded");
    }
    known_selector("ExecutionRecorded")
}

/// The positions of the events in which a contract recorded tickets' results.
fn find_recordings(events: &[Event], emitter: Felt) -> (result: Vec<usize>)
    ensures
        result@.len() == recording_events(events@, emitter).len(),
        forall|k: int|
            0 <= k < result@.len() ==> #[trigger] result@[k] < events@.len()
                && events@[result@[k] as int] == recording_events(events@, emitter)[k],
{
    let keys: [Felt; 2] = [recording_event_key(), execution_recorded_key()];
    assert(values(keys@) =~= recording_keys());
    let ghost pred = |event: Event| is_recording(event, emitter);
    let mut found: Vec<usize> = Vec::new();
    let mut i: usize = 0;
    proof {
        reveal(Seq::filter);
        assert(events@.take(0) =~= Seq::empty());
    }
    while i < events.len()
        invariant
            i <= events@.len(),
            values(keys@) == recording_keys(),
            pred == |event: Event| is_recording(event, emitter),
            found@.len() == events@.take(i as int).filter(pred).len(),
            forall|k: int|
                0 <= k < found@.len() ==> #[trigger] found@[k] < i && events@[found@[k] as int]
                    == events@.take(i as int).filter(pred)[k],
        decreases events@.len() - i,
    {
        proof {
            reveal(Seq::filter);
            assert(events@.take(i + 1).drop_last() =~= events@.take(i as int));
            assert(events@.take(i + 1).last() == events@[i as int]);
            if values(events@[i as int].keys@) == values(keys@) {
                crate::felt::lemma_values_injective(events@[i as int].keys@, keys@);
            }
        }
        if events[i].from_address == emitter && crate::slices::same_felts(&events[i].keys, &keys) {
            assert(pred(events@[i as int]));
            found.push(i);
        } else {
            assert(!pred(events@[i as int]));
        }
        i = i + 1;
    }
    assert(events@.take(i as int) =~= events@);
    found
}

/// What an event says of a ticket.
fn event_outcome(ticket: &RecordedTicket, hash: Felt, event: &Event) -> (result: Result<
    ActionStatus,
    ExecutionError,
>)
    ensures
        match result {
            Ok(status) => event_fault(ticket@, *event) is None && status@ == recorded_status(
                ticket@,
                hash,
                *event,
            ),
            Err(error) => event_fault(ticket@, *event) == Some(error),
        },
{
    let data: &Vec<Felt> = &event.data;
    if data.len() != 7 {
        return Err(ExecutionError::MalformedEvent);
    }
    if data[0] != ticket.intent.game || data[1] != ticket.intent.actor || data[2] != Felt::from_u64(
        ticket.intent.nonce,
    ) || data[4] != Felt::from_u64(ticket.envelope.order) {
        return Err(ExecutionError::MismatchedEvent);
    }
    let (zero, one, two) = (Felt::zero(), Felt::one(), Felt::two());
    if !(data[3] == zero || data[3] == one) || !(data[5] == one || data[5] == two) {
        return Err(ExecutionError::InvalidResult);
    }
    Ok(
        ActionStatus::Recorded {
            action: ticket.envelope.action,
            order: ticket.envelope.order,
            transaction_hash: hash,
            succeeded: data[5] == one,
            reason: data[6],
            nonce_consumed: data[3] == one,
        },
    )
}

/// What a receipt says of the tickets that its transaction carried.
pub fn receipt_outcomes(
    tickets: &[RecordedTicket],
    hash: Felt,
    receipt: &TransactionReceipt,
) -> (result: Result<Vec<ActionStatus>, ExecutionError>)
    ensures
        match result {
            Ok(statuses) => receipt_fault(ticket_views(tickets@), *receipt) is None && status_views(
                statuses@,
            ) == receipt_statuses(ticket_views(tickets@), hash, *receipt),
            Err(error) => receipt_fault(ticket_views(tickets@), *receipt) == Some(error),
        },
{
    let ghost views = ticket_views(tickets@);
    if tickets.len() == 0 {
        return Err(ExecutionError::EmptyAttribution);
    }
    assert(views[0] == tickets@[0]@);
    let emitter: Felt = tickets[0].intent.deployment;
    let found: Vec<usize> = find_recordings(&receipt.events, emitter);
    let ghost events = recording_events(receipt.events@, emitter);
    if found.len() != tickets.len() {
        return Err(ExecutionError::TicketCount);
    }
    let mut statuses: Vec<ActionStatus> = Vec::new();
    let mut i: usize = 0;
    while i < tickets.len()
        invariant
            i <= tickets@.len(),
            views == ticket_views(tickets@),
            found@.len() == tickets@.len() == events.len(),
            views.len() > 0,
            events == recording_events(receipt.events@, views[0].intent.deployment),
            forall|k: int|
                0 <= k < found@.len() ==> #[trigger] found@[k] < receipt.events@.len()
                    && receipt.events@[found@[k] as int] == events[k],
            statuses@.len() == i,
            forall|k: int|
                0 <= k < i ==> (#[trigger] statuses@[k])@ == recorded_status(
                    views[k],
                    hash,
                    events[k],
                ),
            events_fault(views, events, 0) == events_fault(views, events, i as int),
        decreases tickets@.len() - i,
    {
        assert(views[i as int] == tickets@[i as int]@);
        let at: usize = found[i];
        let status: ActionStatus = event_outcome(&tickets[i], hash, &receipt.events[at])?;
        statuses.push(status);
        i = i + 1;
    }
    assert(status_views(statuses@) =~= receipt_statuses(views, hash, *receipt));
    Ok(statuses)
}

/// What the tickets' clients are told once a transaction that carries them is submitted.
pub fn submitted_statuses(tickets: &[RecordedTicket], hash: Felt) -> (result: Vec<ActionStatus>)
    ensures
        result@.len() == tickets@.len(),
        forall|i: int|
            0 <= i < tickets@.len() ==> (#[trigger] result@[i])@ == (ActionStatusView::Submitted {
                action: tickets@[i].envelope.action,
                order: tickets@[i].envelope.order,
                transaction_hash: hash,
            }),
{
    let mut statuses: Vec<ActionStatus> = Vec::new();
    let mut i: usize = 0;
    while i < tickets.len()
        invariant
            i <= tickets@.len(),
            statuses@.len() == i,
            forall|k: int|
                0 <= k < i ==> (#[trigger] statuses@[k])@ == (ActionStatusView::Submitted {
                    action: tickets@[k].envelope.action,
                    order: tickets@[k].envelope.order,
                    transaction_hash: hash,
                }),
        decreases tickets@.len() - i,
    {
        statuses.push(
            ActionStatus::Submitted {
                action: tickets[i].envelope.action,
                order: tickets[i].envelope.order,
                transaction_hash: hash,
            },
        );
        i = i + 1;
    }
    statuses
}

/// What a submission's outcome means for the tickets that it carried.
#[derive(Debug, PartialEq, Eq)]
pub enum Verdict {
    /// The chain recorded every ticket's result.
    Recorded(Vec<ActionStatus>),
    /// The batch failed for a reason of its own: it is bisected, or its single ticket rejected.
    Failed,
    /// Nothing is known of the tickets: the transaction is submitted again.
    Unresolved,
}

/// Whether an outcome proves that a batch fails however often it is submitted.
pub open spec fn proves_failure(outcome: Execution) -> bool {
    match outcome {
        Execution::Included(receipt) => match receipt.execution_result {
            ExecutionResult::Succeeded => false,
            ExecutionResult::Reverted { reason } => !names_authentication_failure(reason@),
        },
        Execution::Refused(reason) => names_deterministic_limit(reason@),
    }
}

/// Whether an outcome is a receipt of a transaction that succeeded.
pub open spec fn succeeded(outcome: Execution) -> bool {
    outcome matches Execution::Included(receipt) && receipt.execution_result is Succeeded
}

/// Whether a verdict, or an error, is what an outcome means for the tickets that a submission
/// carried.
pub open spec fn judged(
    tickets: Seq<RecordedTicketView>,
    hash: Felt,
    outcome: Execution,
    result: Result<Verdict, ExecutionError>,
) -> bool {
    match result {
        Ok(Verdict::Recorded(statuses)) => {
            &&& succeeded(outcome)
            &&& receipt_fault(tickets, outcome->Included_0) is None
            &&& status_views(statuses@) == receipt_statuses(tickets, hash, outcome->Included_0)
        },
        Ok(Verdict::Failed) => proves_failure(outcome),
        Ok(Verdict::Unresolved) => !succeeded(outcome) && !proves_failure(outcome),
        Err(error) => succeeded(outcome) && receipt_fault(tickets, outcome->Included_0) == Some(
            error,
        ),
    }
}

/// What a receipt means for the tickets that its transaction carried.
pub fn judge_receipt(tickets: &[RecordedTicket], hash: Felt, receipt: &TransactionReceipt) -> (result:
    Result<Verdict, ExecutionError>)
    ensures
        judged(ticket_views(tickets@), hash, Execution::Included(*receipt), result),
{
    match &receipt.execution_result {
        ExecutionResult::Succeeded => match receipt_outcomes(tickets, hash, receipt) {
            Ok(statuses) => Ok(Verdict::Recorded(statuses)),
            Err(error) => Err(error),
        },
        ExecutionResult::Reverted { reason } => if authentication_revert(reason.as_str()) {
            Ok(Verdict::Unresolved)
        } else {
            Ok(Verdict::Failed)
        },
    }
}

/// What a submission's outcome means for the tickets that it carried. A transient refusal and a
/// revert of the submission itself settle nothing.
pub fn judge(tickets: &[RecordedTicket], hash: Felt, outcome: &Execution) -> (result: Result<
    Verdict,
    ExecutionError,
>)
    ensures
        judged(ticket_views(tickets@), hash, *outcome, result),
{
    match outcome {
        Execution::Included(receipt) => judge_receipt(tickets, hash, receipt),
        Execution::Refused(reason) => if deterministic_limit(reason.as_str()) {
            Ok(Verdict::Failed)
        } else {
            Ok(Verdict::Unresolved)
        },
    }
}

/// Where the submission of one transaction stands. Attempts are counted from zero.
#[derive(Clone, Copy, Debug, PartialEq, Eq, Structural)]
pub enum RangeStage {
    /// The transaction is to be submitted.
    Submit(u32),
    /// The submission failed or took too long: its receipt is to be looked for.
    Reconcile(u32),
    /// The outcome settled nothing: the chain's head is to be read.
    ReadHead(u32),
    /// The head does not cover the tickets: the node's state is to change before another attempt.
    Wait(u32),
    /// The tickets' results were recorded.
    Recorded,
    /// The batch fails however often it is submitted.
    Failed,
}

/// What happened outside while a transaction was submitted.
#[derive(Debug, PartialEq, Eq)]
pub enum RangeEvent {
    /// The submission ended, with an outcome where one was observed.
    Observed(Option<Execution>),
    /// The receipt was looked for.
    Receipt(Option<TransactionReceipt>),
    /// The chain's head was read.
    Head(u64),
    /// The node's state changed, or the wait for it ended.
    Changed,
}

/// What an outcome makes of a submission, and what the tickets' clients are told.
pub open spec fn range_settled(
    attempt: u32,
    outcome: Execution,
    tickets: Seq<RecordedTicketView>,
    hash: Felt,
) -> Result<(RangeStage, Seq<ActionStatusView>), ExecutionError> {
    if succeeded(outcome) {
        match receipt_fault(tickets, outcome->Included_0) {
            Some(error) => Err(error),
            None => Ok(
                (RangeStage::Recorded, receipt_statuses(tickets, hash, outcome->Included_0)),
            ),
        }
    } else if proves_failure(outcome) {
        Ok((RangeStage::Failed, Seq::empty()))
    } else {
        Ok((RangeStage::ReadHead(attempt), Seq::empty()))
    }
}

/// What an event makes of a submission, and what the tickets' clients are told. A submission that
/// was not observed to its end is reconciled: a receipt that is found after all is judged as any
/// other. An event that the stage does not wait for changes nothing.
pub open spec fn range_next(
    stage: RangeStage,
    event: RangeEvent,
    tickets: Seq<RecordedTicketView>,
    hash: Felt,
) -> Result<(RangeStage, Seq<ActionStatusView>), ExecutionError> {
    let none = Seq::<ActionStatusView>::empty();
    match (stage, event) {
        (RangeStage::Submit(attempt), RangeEvent::Observed(observed)) => match observed {
            Some(outcome) => range_settled(attempt, outcome, tickets, hash),
            None => Ok((RangeStage::Reconcile(attempt), none)),
        },
        (RangeStage::Reconcile(attempt), RangeEvent::Receipt(found)) => match found {
            Some(receipt) => range_settled(attempt, Execution::Included(receipt), tickets, hash),
            None => Ok((RangeStage::ReadHead(attempt), none)),
        },
        (RangeStage::ReadHead(attempt), RangeEvent::Head(head)) => if head
            < tickets[0].envelope.order {
            Ok((RangeStage::Wait(attempt), none))
        } else {
            Err(ExecutionError::HeadCovers)
        },
        (RangeStage::Wait(attempt), RangeEvent::Changed) => if attempt + 1 < MAX_ATTEMPTS {
            Ok((RangeStage::Submit((attempt + 1) as u32), none))
        } else {
            Err(ExecutionError::Paused)
        },
        _ => Ok((stage, none)),
    }
}

/// A stage and the statuses told, by the statuses' fields.
pub open spec fn range_result(
    result: Result<(RangeStage, Vec<ActionStatus>), ExecutionError>,
) -> Result<(RangeStage, Seq<ActionStatusView>), ExecutionError> {
    match result {
        Ok((stage, statuses)) => Ok((stage, status_views(statuses@))),
        Err(error) => Err(error),
    }
}

/// Goes on with a submission after a verdict.
fn settle(attempt: u32, verdict: Result<Verdict, ExecutionError>) -> (result: Result<
    (RangeStage, Vec<ActionStatus>),
    ExecutionError,
>)
    ensures
        forall|tickets: Seq<RecordedTicketView>, hash: Felt, outcome: Execution| #[trigger]
            judged(tickets, hash, outcome, verdict) ==> range_result(result) == range_settled(
                attempt,
                outcome,
                tickets,
                hash,
            ),
{
    let none: Vec<ActionStatus> = Vec::new();
    assert(status_views(none@) =~= Seq::<ActionStatusView>::empty());
    match verdict {
        Ok(Verdict::Recorded(statuses)) => Ok((RangeStage::Recorded, statuses)),
        Ok(Verdict::Failed) => Ok((RangeStage::Failed, none)),
        Ok(Verdict::Unresolved) => Ok((RangeStage::ReadHead(attempt), none)),
        Err(error) => Err(error),
    }
}

/// Goes on with the submission of a transaction after an event.
pub fn range_step(
    stage: RangeStage,
    event: &RangeEvent,
    tickets: &[RecordedTicket],
    hash: Felt,
) -> (result: Result<(RangeStage, Vec<ActionStatus>), ExecutionError>)
    requires
        tickets@.len() > 0,
    ensures
        range_result(result) == range_next(stage, *event, ticket_views(tickets@), hash),
{
    let none: Vec<ActionStatus> = Vec::new();
    assert(status_views(none@) =~= Seq::<ActionStatusView>::empty());
    match (stage, event) {
        (RangeStage::Submit(attempt), RangeEvent::Observed(observed)) => match observed {
            Some(outcome) => settle(attempt, judge(tickets, hash, outcome)),
            None => Ok((RangeStage::Reconcile(attempt), none)),
        },
        (RangeStage::Reconcile(attempt), RangeEvent::Receipt(found)) => match found {
            Some(receipt) => settle(attempt, judge_receipt(tickets, hash, receipt)),
            None => Ok((RangeStage::ReadHead(attempt), none)),
        },
        (RangeStage::ReadHead(attempt), RangeEvent::Head(head)) => {
            assert(ticket_views(tickets@)[0] == tickets@[0]@);
            if *head < tickets[0].envelope.order {
                Ok((RangeStage::Wait(attempt), none))
            } else {
                Err(ExecutionError::HeadCovers)
            }
        },
        (RangeStage::Wait(attempt), RangeEvent::Changed) => if attempt < MAX_ATTEMPTS - 1 {
            Ok((RangeStage::Submit(attempt + 1), none))
        } else {
            Err(ExecutionError::Paused)
        },
        _ => Ok((stage, none)),
    }
}

/// How far a submission is from its first attempt.
pub open spec fn stage_progress(stage: RangeStage) -> nat {
    match stage {
        RangeStage::Submit(attempt) => 4 * attempt as nat,
        RangeStage::Reconcile(attempt) => 4 * attempt as nat + 1,
        RangeStage::ReadHead(attempt) => 4 * attempt as nat + 2,
        RangeStage::Wait(attempt) => 4 * attempt as nat + 3,
        RangeStage::Recorded => 4 * MAX_ATTEMPTS as nat,
        RangeStage::Failed => 4 * MAX_ATTEMPTS as nat,
    }
}

/// A submission ends: every event that it waits for takes it further, and it goes no further than
/// its last attempt.
pub proof fn law_attempts_are_bounded(
    stage: RangeStage,
    event: RangeEvent,
    tickets: Seq<RecordedTicketView>,
    hash: Felt,
)
    requires
        stage_progress(stage) < 4 * MAX_ATTEMPTS,
        range_next(stage, event, tickets, hash) is Ok,
    ensures
        ({
            let next = range_next(stage, event, tickets, hash)->Ok_0.0;
            &&& stage_progress(next) <= 4 * MAX_ATTEMPTS
            &&& next == stage || stage_progress(next) > stage_progress(stage)
        }),
{
}

/// A lost submission's receipt is adopted: where a submission was not observed to its end and its
/// receipt is found, the tickets are told what the receipt records, as if it had been observed, and
/// nothing is submitted again or rejected.
pub proof fn law_lost_receipt_is_adopted(
    attempt: u32,
    receipt: TransactionReceipt,
    tickets: Seq<RecordedTicketView>,
    hash: Felt,
)
    ensures
        range_next(RangeStage::Submit(attempt), RangeEvent::Observed(None), tickets, hash) == Ok::<
            (RangeStage, Seq<ActionStatusView>),
            ExecutionError,
        >((RangeStage::Reconcile(attempt), Seq::empty())),
        range_next(
            RangeStage::Reconcile(attempt),
            RangeEvent::Receipt(Some(receipt)),
            tickets,
            hash,
        ) == range_next(
            RangeStage::Submit(attempt),
            RangeEvent::Observed(Some(Execution::Included(receipt))),
            tickets,
            hash,
        ),
        receipt.execution_result is Succeeded && receipt_fault(tickets, receipt) is None
            ==> range_next(
            RangeStage::Reconcile(attempt),
            RangeEvent::Receipt(Some(receipt)),
            tickets,
            hash,
        ) == Ok::<(RangeStage, Seq<ActionStatusView>), ExecutionError>(
            (RangeStage::Recorded, receipt_statuses(tickets, hash, receipt)),
        ),
{
}

/// The entry point that a batch is submitted to.
pub fn batch_entry_point(rejection: bool) -> (result: &'static str)
    ensures
        result@ == (if rejection {
            "reject_execution"@
        } else {
            "execute_batch"@
        }),
{
    if rejection {
        "reject_execution"
    } else {
        "execute_batch"
    }
}

/// A batch is rejected or bisected only on proof: neither a submission that was not observed, nor a
/// receipt that was not found, nor an outcome that says that the submission was not authentic or not
/// current, ever fails a ticket.
pub proof fn law_transient_outcomes_fail_no_ticket(
    stage: RangeStage,
    event: RangeEvent,
    tickets: Seq<RecordedTicketView>,
    hash: Felt,
)
    requires
        !(stage is Failed),
        range_next(stage, event, tickets, hash) matches Ok(next) && next.0 is Failed,
    ensures
        settling(stage, event) is Some,
        proves_failure(settling(stage, event)->0),
        !succeeded(settling(stage, event)->0),
        settling(stage, event)->0 matches Execution::Included(receipt) ==> (
        receipt.execution_result matches ExecutionResult::Reverted { reason }
            && !names_authentication_failure(reason@)),
{
}

/// The outcome that an event reports at a stage, where it reports one.
pub open spec fn settling(stage: RangeStage, event: RangeEvent) -> Option<Execution> {
    match (stage, event) {
        (RangeStage::Submit(_), RangeEvent::Observed(observed)) => observed,
        (RangeStage::Reconcile(_), RangeEvent::Receipt(Some(receipt))) => Some(
            Execution::Included(receipt),
        ),
        _ => None,
    }
}

/// Whether a message stands somewhere in a text, with anything before and after it.
pub open spec fn stands_in(message: Seq<char>, text: Seq<char>) -> bool {
    exists|before: Seq<char>, after: Seq<char>| text == #[trigger] ((before + message) + after)
}

/// A text that contains a message is made of what stands before it, the message and what follows.
proof fn lemma_contains_is_stands_in(message: Seq<char>, text: Seq<char>)
    ensures
        crate::text::contains_text(text, message) == stands_in(message, text),
{
    if crate::text::contains_text(text, message) {
        let i = choose|i: int|
            0 <= i <= text.len() - message.len() && #[trigger] text.subrange(i, i + message.len())
                == message;
        let before = text.take(i);
        let after = text.skip(i + message.len());
        assert(text =~= (before + message) + after) by {
            assert forall|k: int| 0 <= k < text.len() implies text[k] == ((before + message)
                + after)[k] by {
                if i <= k < i + message.len() {
                    assert(text.subrange(i, i + message.len())[k - i] == text[k]);
                }
            }
        }
    }
    if stands_in(message, text) {
        let (before, after) = choose|before: Seq<char>, after: Seq<char>|
            text == #[trigger] ((before + message) + after);
        let i = before.len() as int;
        assert(text.subrange(i, i + message.len()) =~= message);
    }
}

/// Whether a revert's reason holds one of the messages with which the contract refuses a submission.
pub open spec fn refuses_submission(reason: Seq<char>) -> bool {
    ||| stands_in("out of order"@, reason)
    ||| stands_in("only sequencing submitter"@, reason)
    ||| stands_in("invalid authority signature"@, reason)
    ||| stands_in("execution config mismatch"@, reason)
    ||| stands_in("future execution time"@, reason)
    ||| stands_in("backwards execution time"@, reason)
    ||| stands_in("malformed envelope"@, reason)
    ||| stands_in("invalid acceptance"@, reason)
    ||| stands_in("order outside randomness epoch"@, reason)
    ||| stands_in("revealed epoch cannot execute"@, reason)
}

/// A revert fails a batch exactly where its reason holds none of the messages with which the contract
/// refuses the submission itself, wherever in the reason a message stands. Where it holds one,
/// nothing is settled.
pub proof fn law_reverts_are_judged_by_their_messages(
    tickets: &[RecordedTicket],
    hash: Felt,
    receipt: TransactionReceipt,
    reason: String,
    result: Result<Verdict, ExecutionError>,
)
    requires
        receipt.execution_result == (ExecutionResult::Reverted { reason }),
        call_ensures(judge, (tickets, hash, &Execution::Included(receipt)), result),
    ensures
        refuses_submission(reason@) ==> result == Ok::<Verdict, ExecutionError>(
            Verdict::Unresolved,
        ),
        !refuses_submission(reason@) ==> result == Ok::<Verdict, ExecutionError>(Verdict::Failed),
{
    let text = reason@;
    lemma_contains_is_stands_in("out of order"@, text);
    lemma_contains_is_stands_in("only sequencing submitter"@, text);
    lemma_contains_is_stands_in("invalid authority signature"@, text);
    lemma_contains_is_stands_in("execution config mismatch"@, text);
    lemma_contains_is_stands_in("future execution time"@, text);
    lemma_contains_is_stands_in("backwards execution time"@, text);
    lemma_contains_is_stands_in("malformed envelope"@, text);
    lemma_contains_is_stands_in("invalid acceptance"@, text);
    lemma_contains_is_stands_in("order outside randomness epoch"@, text);
    lemma_contains_is_stands_in("revealed epoch cannot execute"@, text);
}

/// Whether a message is one with which the contract refuses a submission.
pub open spec fn is_refusal_message(message: Seq<char>) -> bool {
    ||| message == "out of order"@
    ||| message == "only sequencing submitter"@
    ||| message == "invalid authority signature"@
    ||| message == "execution config mismatch"@
    ||| message == "future execution time"@
    ||| message == "backwards execution time"@
    ||| message == "malformed envelope"@
    ||| message == "invalid acceptance"@
    ||| message == "order outside randomness epoch"@
    ||| message == "revealed epoch cannot execute"@
}

/// A message with which the contract refuses a submission settles nothing, whatever stands before and
/// after it: the tickets are neither bisected nor rejected, and the transaction goes on to be
/// submitted again once the head is read.
pub proof fn law_refused_submission_settles_nothing(
    before: Seq<char>,
    message: Seq<char>,
    after: Seq<char>,
    tickets: &[RecordedTicket],
    hash: Felt,
    receipt: TransactionReceipt,
    reason: String,
    judgement: Result<Verdict, ExecutionError>,
    attempt: u32,
    step: Result<(RangeStage, Vec<ActionStatus>), ExecutionError>,
)
    requires
        is_refusal_message(message),
        reason@ == (before + message) + after,
        receipt.execution_result == (ExecutionResult::Reverted { reason }),
        call_ensures(judge, (tickets, hash, &Execution::Included(receipt)), judgement),
        call_ensures(
            range_step,
            (
                RangeStage::Submit(attempt),
                &RangeEvent::Observed(Some(Execution::Included(receipt))),
                tickets,
                hash,
            ),
            step,
        ),
    ensures
        judgement == Ok::<Verdict, ExecutionError>(Verdict::Unresolved),
        step matches Ok((next, told)) && next == RangeStage::ReadHead(attempt) && told@.len() == 0,
{
    assert(stands_in(message, reason@));
    law_reverts_are_judged_by_their_messages(tickets, hash, receipt, reason, judgement);
    lemma_contains_is_stands_in(message, reason@);
    assert(step->Ok_0.1@.len() == status_views(step->Ok_0.1@).len());
}

/// A refusal before inclusion fails a batch exactly where it names one of the executor's limits on
/// events, wherever in the reason the limit stands. Any other refusal settles nothing.
pub proof fn law_refusals_are_judged_by_their_limits(
    tickets: &[RecordedTicket],
    hash: Felt,
    reason: String,
    result: Result<Verdict, ExecutionError>,
)
    requires
        call_ensures(judge, (tickets, hash, &Execution::Refused(reason)), result),
    ensures
        ({
            let limited = stands_in("Exceeded the maximum number of events,"@, reason@)
                || stands_in("Exceeded the maximum data length,"@, reason@) || stands_in(
                "Exceeded the maximum keys length,"@,
                reason@,
            );
            &&& limited ==> result == Ok::<Verdict, ExecutionError>(Verdict::Failed)
            &&& !limited ==> result == Ok::<Verdict, ExecutionError>(Verdict::Unresolved)
        }),
{
    lemma_contains_is_stands_in("Exceeded the maximum number of events,"@, reason@);
    lemma_contains_is_stands_in("Exceeded the maximum data length,"@, reason@);
    lemma_contains_is_stands_in("Exceeded the maximum keys length,"@, reason@);
}

/// A batch has calldata exactly where it holds one ticket at least and sixty-four at most, every
/// ticket has a form, and, where it is rejected, it holds a single ticket.
pub proof fn law_batch_holds_up_to_its_limit(
    tickets: &[RecordedTicket],
    rejection: bool,
    result: Result<Vec<Felt>, ExecutionError>,
)
    requires
        call_ensures(batch_calldata, (tickets, rejection), result),
    ensures
        ({
            let sized = 1 <= tickets@.len() <= 64;
            let single = rejection ==> tickets@.len() == 1;
            let formed = forall|i: int|
                0 <= i < tickets@.len() ==> (#[trigger] tickets@[i]).intent.arguments@.len()
                    <= u32::MAX;
            &&& result is Ok <==> sized && single && formed
            &&& !sized ==> result->Err_0 == ExecutionError::BatchSize
            &&& sized && !single ==> result->Err_0 == ExecutionError::SingleRejection
            &&& sized && single && !formed ==> result->Err_0 == ExecutionError::Protocol(
                ProtocolError::Length,
            )
        }),
{
    let views = ticket_views(tickets@);
    assert forall|i: int| 0 <= i < tickets@.len() implies #[trigger] views[i].intent
        == tickets@[i].intent@ by {}
    if exists|i: int| 0 <= i < views.len() && !encodable(#[trigger] views[i].intent) {
        let i = choose|i: int| 0 <= i < views.len() && !encodable(#[trigger] views[i].intent);
        assert(tickets@[i].intent.arguments@.len() > u32::MAX);
    } else {
        assert forall|i: int| 0 <= i < tickets@.len() implies (
        #[trigger] tickets@[i]).intent.arguments@.len() <= u32::MAX by {
            assert(encodable(views[i].intent));
        }
    }
}

/// A batch of one ticket is executed as the count of one and the ticket's calldata, and rejected as
/// the ticket's calldata alone. A batch with one more ticket is executed as the count of them, what
/// the shorter batch is executed as behind its count, and the calldata of the last.
#[verifier::spinoff_prover]
pub proof fn law_batch_calldata_joins_its_tickets(
    single: &[RecordedTicket],
    shorter: &[RecordedTicket],
    longer: &[RecordedTicket],
    last: &RecordedTicket,
    form: Result<Vec<Felt>, ProtocolError>,
    executed: Result<Vec<Felt>, ExecutionError>,
    rejected: Result<Vec<Felt>, ExecutionError>,
    first: Result<Vec<Felt>, ExecutionError>,
    second: Result<Vec<Felt>, ExecutionError>,
    one: Felt,
    count: Felt,
)
    requires
        single@ == seq![*last],
        longer@ == shorter@.push(*last),
        0 < shorter@.len() < 64,
        one@ == 1,
        count@ == longer@.len(),
        call_ensures(RecordedTicket::calldata, (last,), form),
        call_ensures(batch_calldata, (single, false), executed),
        call_ensures(batch_calldata, (single, true), rejected),
        call_ensures(batch_calldata, (shorter, false), first),
        call_ensures(batch_calldata, (longer, false), second),
    ensures
        form is Ok ==> executed is Ok && executed->Ok_0@ == seq![one] + form->Ok_0@,
        form is Ok ==> rejected is Ok && rejected->Ok_0@ == form->Ok_0@,
        form is Ok && first is Ok ==> second is Ok && second->Ok_0@ == seq![count]
            + first->Ok_0@.skip(1) + form->Ok_0@,
        first is Ok ==> first->Ok_0@[0]@ == shorter@.len(),
{
    if form is Ok {
        let alone = ticket_views(single@);
        let few = ticket_views(shorter@);
        let more = ticket_views(longer@);
        assert(alone =~= Seq::empty().push(last@));
        assert(alone[0] == last@);
        assert(more =~= few.push(last@));
        lemma_batch_fields_push(Seq::empty(), last@);
        lemma_batch_fields_push(few, last@);
        assert(batch_fields(alone) =~= ticket_fields(last@));
        assert(encodable(last@.intent));
        assert(forall|i: int| 0 <= i < alone.len() ==> encodable(#[trigger] alone[i].intent));
        let built = seq![one] + form->Ok_0@;
        assert(values(built) =~= seq![1nat] + values(form->Ok_0@));
        assert(values(executed->Ok_0@) =~= values(built));
        crate::felt::lemma_values_injective(executed->Ok_0@, built);
        assert(values(rejected->Ok_0@) =~= values(form->Ok_0@));
        crate::felt::lemma_values_injective(rejected->Ok_0@, form->Ok_0@);
        if first is Ok {
            assert forall|i: int| 0 <= i < more.len() implies encodable(
                #[trigger] more[i].intent,
            ) by {
                if i < few.len() {
                    assert(more[i] == few[i]);
                    assert(encodable(few[i].intent));
                }
            }
            let front = first->Ok_0@;
            assert(values(front).len() == front.len());
            assert(values(front).skip(1) =~= batch_fields(few));
            let joined = seq![count] + front.skip(1) + form->Ok_0@;
            assert(values(joined) =~= seq![count@] + values(front).skip(1) + values(form->Ok_0@));
            assert(values(second->Ok_0@) =~= values(joined));
            crate::felt::lemma_values_injective(second->Ok_0@, joined);
        }
    }
    if first is Ok {
        assert(values(first->Ok_0@).len() == first->Ok_0@.len());
        assert(values(first->Ok_0@)[0] == ticket_views(shorter@).len());
        assert(values(first->Ok_0@)[0] == first->Ok_0@[0]@);
    }
}

/// A batch is executed through `execute_batch` and a ticket rejected through `reject_execution`.
pub proof fn law_entry_points_are_told_apart(rejection: bool, name: &'static str)
    requires
        call_ensures(batch_entry_point, (rejection,), name),
    ensures
        rejection ==> name@ == "reject_execution"@,
        !rejection ==> name@ == "execute_batch"@,
{
}

/// Whether the events at the given places, and no others, are a contract's records of results: the
/// contract emitted them, under the keys of `RecordingEvent` and `ExecutionRecorded`.
pub open spec fn records_stand_at(events: Seq<Event>, emitter: Felt, places: Seq<int>) -> bool {
    &&& forall|k: int, l: int|
        0 <= k < l < places.len() ==> #[trigger] places[k] < #[trigger] places[l]
    &&& forall|k: int|
        0 <= k < places.len() ==> 0 <= (#[trigger] places[k]) < events.len()
    &&& forall|i: int|
        0 <= i < events.len() ==> (places.contains(i) <==> (
        #[trigger] events[i]).from_address == emitter && events[i].keys@.len() == 2
            && events[i].keys@[0]@ == selector("RecordingEvent"@) && events[i].keys@[1]@
            == selector("ExecutionRecorded"@))
}

/// An event has a record's keys exactly where it has the two of them.
proof fn lemma_recording_keys(event: Event)
    ensures
        values(event.keys@) == recording_keys() <==> event.keys@.len() == 2 && event.keys@[0]@
            == selector("RecordingEvent"@) && event.keys@[1]@ == selector("ExecutionRecorded"@),
{
    let keys = values(event.keys@);
    assert(keys.len() == event.keys@.len());
    if event.keys@.len() == 2 {
        assert(keys[0] == event.keys@[0]@ && keys[1] == event.keys@[1]@);
        assert(recording_keys()[0] == selector("RecordingEvent"@) && recording_keys()[1]
            == selector("ExecutionRecorded"@));
        if event.keys@[0]@ == selector("RecordingEvent"@) && event.keys@[1]@ == selector(
            "ExecutionRecorded"@,
        ) {
            assert(keys =~= recording_keys());
        }
    }
}

/// The records of results are the events at their places.
#[verifier::spinoff_prover]
proof fn lemma_records_are_found(events: Seq<Event>, emitter: Felt, places: Seq<int>)
    requires
        records_stand_at(events, emitter, places),
    ensures
        recording_events(events, emitter) == Seq::new(places.len(), |k: int| events[places[k]]),
    decreases events.len(),
{
    reveal(Seq::filter);
    let found = Seq::new(places.len(), |k: int| events[places[k]]);
    if events.len() == 0 {
        if places.len() > 0 {
            assert(0 <= places[0] < events.len());
        }
        assert(recording_events(events, emitter) =~= found);
    } else {
        let before = events.drop_last();
        let last = events.len() - 1;
        lemma_recording_keys(events[last]);
        if places.contains(last) {
            let k = choose|k: int| 0 <= k < places.len() && places[k] == last;
            if k < places.len() - 1 {
                assert(places[k] < places[places.len() - 1]);
            }
            let rest = places.drop_last();
            assert forall|i: int| 0 <= i < before.len() implies (rest.contains(i) <==> (
            #[trigger] before[i]).from_address == emitter && before[i].keys@.len() == 2
                && before[i].keys@[0]@ == selector("RecordingEvent"@) && before[i].keys@[1]@
                == selector("ExecutionRecorded"@)) by {
                assert(before[i] == events[i]);
                if places.contains(i) {
                    let j = choose|j: int| 0 <= j < places.len() && places[j] == i;
                    assert(rest[j] == i);
                }
                if rest.contains(i) {
                    let j = choose|j: int| 0 <= j < rest.len() && rest[j] == i;
                    assert(places[j] == i);
                }
            }
            assert forall|j: int| 0 <= j < rest.len() implies 0 <= (#[trigger] rest[j])
                < before.len() by {
                assert(places[j] < places[places.len() - 1]);
            }
            assert(records_stand_at(before, emitter, rest));
            lemma_records_are_found(before, emitter, rest);
            assert(recording_events(events, emitter) =~= recording_events(before, emitter).push(
                events[last],
            ));
            assert forall|j: int| 0 <= j < found.len() implies #[trigger] found[j]
                == recording_events(events, emitter)[j] by {
                if j < rest.len() {
                    assert(rest[j] == places[j]);
                    assert(0 <= rest[j] < before.len());
                }
            }
        } else {
            assert forall|i: int| 0 <= i < before.len() implies (places.contains(i) <==> (
            #[trigger] before[i]).from_address == emitter && before[i].keys@.len() == 2
                && before[i].keys@[0]@ == selector("RecordingEvent"@) && before[i].keys@[1]@
                == selector("ExecutionRecorded"@)) by {
                assert(before[i] == events[i]);
            }
            assert forall|j: int| 0 <= j < places.len() implies 0 <= (#[trigger] places[j])
                < before.len() by {
                if places[j] == last {
                    assert(places.contains(last));
                }
            }
            assert(records_stand_at(before, emitter, places));
            lemma_records_are_found(before, emitter, places);
            assert forall|j: int| 0 <= j < found.len() implies #[trigger] found[j]
                == recording_events(events, emitter)[j] by {
                assert(0 <= places[j] < before.len());
            }
        }
        assert(recording_events(events, emitter) =~= found);
    }
}

/// Pairs of tickets and events that all agree meet no error.
proof fn lemma_events_agree(tickets: Seq<RecordedTicketView>, events: Seq<Event>, i: int)
    requires
        0 <= i,
    ensures
        events_fault(tickets, events, i) is None <==> forall|k: int|
            i <= k < tickets.len() ==> event_fault(#[trigger] tickets[k], events[k]) is None,
    decreases tickets.len() - i,
{
    if i < tickets.len() {
        lemma_events_agree(tickets, events, i + 1);
        if event_fault(tickets[i], events[i]) is None && events_fault(tickets, events, i + 1)
            is None {
            assert forall|k: int| i <= k < tickets.len() implies event_fault(
                #[trigger] tickets[k],
                events[k],
            ) is None by {
                if k > i {
                    assert(i + 1 <= k);
                }
            }
        }
    }
}

/// Whether an event's seven elements record a ticket's result: the game, the actor and its nonce,
/// whether the nonce was consumed, the order, the status and the reason.
pub open spec fn records(ticket: RecordedTicket, event: Event) -> bool {
    &&& event.data@.len() == 7
    &&& event.data@[0] == ticket.intent.game
    &&& event.data@[1] == ticket.intent.actor
    &&& event.data@[2]@ == ticket.intent.nonce
    &&& event.data@[3]@ == 0 || event.data@[3]@ == 1
    &&& event.data@[4]@ == ticket.envelope.order
    &&& event.data@[5]@ == 1 || event.data@[5]@ == 2
}

/// A receipt tells each ticket what the deployment's record at the ticket's place says of it: it
/// succeeded where the status is one and failed where it is two, its nonce was consumed where the
/// event's fourth element is one, and the last element is the reason. Another number of records than
/// tickets, or a record of another action, is an error, and no other event counts.
#[verifier::spinoff_prover]
pub proof fn law_receipt_tells_each_ticket_its_record(
    tickets: &[RecordedTicket],
    hash: Felt,
    receipt: &TransactionReceipt,
    places: Seq<int>,
    result: Result<Vec<ActionStatus>, ExecutionError>,
)
    requires
        tickets@.len() > 0,
        records_stand_at(receipt.events@, tickets@[0].intent.deployment, places),
        call_ensures(receipt_outcomes, (tickets, hash, receipt), result),
    ensures
        result is Ok <==> places.len() == tickets@.len() && forall|k: int|
            0 <= k < tickets@.len() ==> records(
                #[trigger] tickets@[k],
                receipt.events@[places[k]],
            ),
        places.len() != tickets@.len() ==> result->Err_0 == ExecutionError::TicketCount,
        result is Ok ==> result->Ok_0@.len() == tickets@.len() && forall|k: int|
            0 <= k < tickets@.len() ==> (#[trigger] result->Ok_0@[k])@ == (
            ActionStatusView::Recorded {
                action: tickets@[k].envelope.action,
                order: tickets@[k].envelope.order,
                transaction_hash: hash,
                succeeded: receipt.events@[places[k]].data@[5]@ == 1,
                reason: receipt.events@[places[k]].data@[6],
                nonce_consumed: receipt.events@[places[k]].data@[3]@ == 1,
            }),
{
    let views = ticket_views(tickets@);
    assert(views[0] == tickets@[0]@);
    let events = recording_events(receipt.events@, tickets@[0].intent.deployment);
    lemma_records_are_found(receipt.events@, tickets@[0].intent.deployment, places);
    assert(events.len() == places.len());
    if places.len() == tickets@.len() {
        lemma_events_agree(views, events, 0);
        assert forall|k: int| 0 <= k < tickets@.len() implies (event_fault(
            #[trigger] views[k],
            events[k],
        ) is None <==> records(tickets@[k], receipt.events@[places[k]])) by {
            assert(views[k] == tickets@[k]@);
            assert(events[k] == receipt.events@[places[k]]);
        }
        if result is Ok {
            assert forall|k: int| 0 <= k < tickets@.len() implies records(
                #[trigger] tickets@[k],
                receipt.events@[places[k]],
            ) by {
                assert(event_fault(views[k], events[k]) is None);
            }
            let statuses = result->Ok_0@;
            assert(status_views(statuses).len() == statuses.len());
            assert forall|k: int| 0 <= k < tickets@.len() implies (#[trigger] statuses[k])@ == (
            ActionStatusView::Recorded {
                action: tickets@[k].envelope.action,
                order: tickets@[k].envelope.order,
                transaction_hash: hash,
                succeeded: receipt.events@[places[k]].data@[5]@ == 1,
                reason: receipt.events@[places[k]].data@[6],
                nonce_consumed: receipt.events@[places[k]].data@[3]@ == 1,
            }) by {
                assert(status_views(statuses)[k] == statuses[k]@);
                assert(views[k] == tickets@[k]@);
                assert(events[k] == receipt.events@[places[k]]);
            }
        } else {
            if forall|k: int|
                0 <= k < tickets@.len() ==> records(
                    #[trigger] tickets@[k],
                    receipt.events@[places[k]],
                ) {
                assert forall|k: int| 0 <= k < views.len() implies event_fault(
                    #[trigger] views[k],
                    events[k],
                ) is None by {
                    assert(records(tickets@[k], receipt.events@[places[k]]));
                }
            }
        }
    }
}

/// A range is cut in half, the earlier half first and never the longer one, in front of all that
/// waits: the halves join where they are cut, and their lengths differ by one at most.
pub proof fn law_ranges_are_halved(
    batches: &mut VecDeque<Range<usize>>,
    range: Range<usize>,
    done: (),
)
    requires
        range.start <= range.end,
        call_ensures(split_front, (batches, range), done),
    ensures
        ({
            let after = final(batches)@;
            let (first, second) = (after[0], after[1]);
            &&& after.len() == old(batches)@.len() + 2
            &&& after.skip(2) == old(batches)@
            &&& first.start == range.start
            &&& first.end == second.start
            &&& second.end == range.end
            &&& 0 <= (second.end - second.start) - (first.end - first.start) <= 1
        }),
{
    assert(final(batches)@.skip(2) =~= old(batches)@);
}

/// A bisection starts with all tickets. A failed attempt at more than one ticket is followed by its
/// earlier half, a failed attempt at one by that ticket's rejection, and a failed rejection by
/// nothing. A recorded attempt is followed by what comes after it, until nothing does.
#[verifier::spinoff_prover]
pub proof fn law_bisection_halves_what_failed(
    count: usize,
    started: Bisection,
    bisection: &mut Bisection,
    recorded: bool,
    result: Result<(), ExecutionError>,
)
    requires
        call_ensures(Bisection::start, (count,), started),
        call_ensures(Bisection::advance, (bisection, recorded), result),
    ensures
        started@.active == Some(
            Attempt { range: Range { start: 0, end: count }, rejection: false },
        ),
        started@.pending.len() == 0,
        old(bisection)@.active is Some && old(bisection)@.active->0.range.start
            < old(bisection)@.active->0.range.end ==> {
            let before = old(bisection)@;
            let after = final(bisection)@;
            let attempt = before.active->0;
            let length = attempt.range.end - attempt.range.start;
            &&& result is Err <==> !recorded && attempt.rejection
            &&& result is Err ==> result->Err_0 == ExecutionError::TerminalRejection && after
                == before
            &&& recorded && before.pending.len() == 0 ==> after.active is None
            &&& recorded && before.pending.len() > 0 ==> after.active == Some(
                Attempt { range: before.pending[0], rejection: false },
            ) && after.pending == before.pending.skip(1)
            &&& !recorded && !attempt.rejection && length == 1 ==> after.active == Some(
                Attempt { range: attempt.range, rejection: true },
            ) && after.pending == before.pending
            &&& !recorded && !attempt.rejection && length > 1 ==> {
                let half = after.active->0.range;
                let rest = after.pending[0];
                &&& after.active is Some && !after.active->0.rejection
                &&& half.start == attempt.range.start
                &&& half.end == attempt.range.start + length / 2
                &&& rest.start == half.end
                &&& rest.end == attempt.range.end
                &&& after.pending.skip(1) == before.pending
            }
        },
{
    if old(bisection)@.active is Some {
        let attempt = old(bisection)@.active->0;
        let mid = middle(attempt.range) as usize;
        assert((seq![Range { start: mid, end: attempt.range.end }] + old(bisection)@.pending).skip(1)
            =~= old(bisection)@.pending);
    }
}

/// A receipt of a transaction that succeeded means what it tells its tickets, and one that is looked
/// up means what an observed one does.
pub proof fn law_success_is_judged_by_the_receipt(
    tickets: &[RecordedTicket],
    hash: Felt,
    receipt: TransactionReceipt,
    told: Result<Vec<ActionStatus>, ExecutionError>,
    observed: Result<Verdict, ExecutionError>,
    found: Result<Verdict, ExecutionError>,
)
    requires
        receipt.execution_result is Succeeded,
        call_ensures(receipt_outcomes, (tickets, hash, &receipt), told),
        call_ensures(judge, (tickets, hash, &Execution::Included(receipt)), observed),
        call_ensures(judge_receipt, (tickets, hash, &receipt), found),
    ensures
        told is Err ==> observed is Err && observed->Err_0 == told->Err_0 && found is Err
            && found->Err_0 == told->Err_0,
        told is Ok ==> observed is Ok && observed->Ok_0 is Recorded && status_views(
            observed->Ok_0->Recorded_0@,
        ) == status_views(told->Ok_0@),
        told is Ok ==> found is Ok && found->Ok_0 is Recorded && status_views(
            found->Ok_0->Recorded_0@,
        ) == status_views(told->Ok_0@),
{
}

/// What a submission's outcome means decides how it goes on. Recorded tickets are told their results
/// and failed ones nothing, and neither are sent again. What is unresolved has the chain's head read,
/// at the same attempt.
pub proof fn law_submission_goes_by_its_verdict(
    tickets: &[RecordedTicket],
    hash: Felt,
    attempt: u32,
    outcome: Execution,
    verdict: Result<Verdict, ExecutionError>,
    result: Result<(RangeStage, Vec<ActionStatus>), ExecutionError>,
)
    requires
        tickets@.len() > 0,
        call_ensures(judge, (tickets, hash, &outcome), verdict),
        call_ensures(
            range_step,
            (RangeStage::Submit(attempt), &RangeEvent::Observed(Some(outcome)), tickets, hash),
            result,
        ),
    ensures
        verdict is Err ==> result is Err && result->Err_0 == verdict->Err_0,
        verdict is Ok ==> result is Ok,
        verdict is Ok && verdict->Ok_0 is Recorded ==> (result->Ok_0).0 == RangeStage::Recorded
            && status_views((result->Ok_0).1@) == status_views(verdict->Ok_0->Recorded_0@),
        verdict is Ok && verdict->Ok_0 is Failed ==> (result->Ok_0).0 == RangeStage::Failed
            && (result->Ok_0).1@.len() == 0,
        verdict is Ok && verdict->Ok_0 is Unresolved ==> (result->Ok_0).0 == RangeStage::ReadHead(
            attempt,
        ) && (result->Ok_0).1@.len() == 0,
{
    if result is Ok {
        assert(status_views((result->Ok_0).1@).len() == (result->Ok_0).1@.len());
    }
}

/// An attempt that settled nothing is followed by another of the same transaction only where the
/// chain's head is before the first ticket's order and the node changed, and three attempts are made
/// at most. A head that covers the first ticket stops the submission, and so does a third attempt
/// that settled nothing.
pub proof fn law_submission_is_repeated_behind_the_head(
    tickets: &[RecordedTicket],
    hash: Felt,
    attempt: u32,
    head: u64,
    covered: Result<(RangeStage, Vec<ActionStatus>), ExecutionError>,
    repeated: Result<(RangeStage, Vec<ActionStatus>), ExecutionError>,
    lost: Result<(RangeStage, Vec<ActionStatus>), ExecutionError>,
    missing: Result<(RangeStage, Vec<ActionStatus>), ExecutionError>,
)
    requires
        tickets@.len() > 0,
        call_ensures(
            range_step,
            (RangeStage::ReadHead(attempt), &RangeEvent::Head(head), tickets, hash),
            covered,
        ),
        call_ensures(
            range_step,
            (RangeStage::Wait(attempt), &RangeEvent::Changed, tickets, hash),
            repeated,
        ),
        call_ensures(
            range_step,
            (RangeStage::Submit(attempt), &RangeEvent::Observed(None), tickets, hash),
            lost,
        ),
        call_ensures(
            range_step,
            (RangeStage::Reconcile(attempt), &RangeEvent::Receipt(None), tickets, hash),
            missing,
        ),
    ensures
        head >= tickets@[0].envelope.order ==> covered is Err && covered->Err_0
            == ExecutionError::HeadCovers,
        head < tickets@[0].envelope.order ==> covered is Ok && (covered->Ok_0).0
            == RangeStage::Wait(attempt) && (covered->Ok_0).1@.len() == 0,
        attempt < 2 ==> repeated is Ok && (repeated->Ok_0).0 == RangeStage::Submit(
            (attempt + 1) as u32,
        ) && (repeated->Ok_0).1@.len() == 0,
        attempt >= 2 ==> repeated is Err && repeated->Err_0 == ExecutionError::Paused,
        lost is Ok && (lost->Ok_0).0 == RangeStage::Reconcile(attempt) && (lost->Ok_0).1@.len()
            == 0,
        missing is Ok && (missing->Ok_0).0 == RangeStage::ReadHead(attempt)
            && (missing->Ok_0).1@.len() == 0,
{
    assert(ticket_views(tickets@)[0] == tickets@[0]@);
    if covered is Ok {
        assert(status_views((covered->Ok_0).1@).len() == (covered->Ok_0).1@.len());
    }
    if repeated is Ok {
        assert(status_views((repeated->Ok_0).1@).len() == (repeated->Ok_0).1@.len());
    }
    assert(status_views((lost->Ok_0).1@).len() == (lost->Ok_0).1@.len());
    assert(status_views((missing->Ok_0).1@).len() == (missing->Ok_0).1@.len());
}

/// Each ticket of a submission is told its own action and order and the transaction's hash, in the
/// tickets' order.
pub proof fn law_submission_is_told_ticket_by_ticket(
    tickets: &[RecordedTicket],
    hash: Felt,
    told: Vec<ActionStatus>,
)
    requires
        call_ensures(submitted_statuses, (tickets, hash), told),
    ensures
        told@.len() == tickets@.len(),
        forall|i: int|
            0 <= i < tickets@.len() ==> (#[trigger] told@[i]) is Submitted
                && told@[i]->Submitted_action == tickets@[i].envelope.action
                && told@[i]->Submitted_order == tickets@[i].envelope.order
                && told@[i]->Submitted_transaction_hash == hash,
{
    assert forall|i: int| 0 <= i < tickets@.len() implies (#[trigger] told@[i]) is Submitted
        && told@[i]->Submitted_action == tickets@[i].envelope.action && told@[i]->Submitted_order
        == tickets@[i].envelope.order && told@[i]->Submitted_transaction_hash == hash by {
        assert(told@[i]@ is Submitted);
    }
}

/// An execution's errors are told in words of their own.
pub proof fn law_execution_errors_have_their_words(error: &ExecutionError, words: &'static str)
    requires
        call_ensures(ExecutionError::message, (error,), words),
    ensures
        *error is BatchSize ==> words@ == "invalid execution batch size"@,
        *error is SingleRejection ==> words@ == "only a single ticket can be rejected"@,
        *error is TerminalRejection ==> words@ == "terminal rejection failed to record"@,
        *error is HeadCovers ==> words@
            == "head already covers pending ticket but its matching receipt is unavailable"@,
        *error is Paused ==> words@
            == "game submission paused after three unresolved attempts; node state remains authoritative"@,
        *error is EmptyAttribution ==> words@ == "empty receipt attribution"@,
        *error is TicketCount ==> words@ == "execution receipt ticket count mismatch"@,
        *error is MalformedEvent ==> words@ == "malformed execution event"@,
        *error is MismatchedEvent ==> words@ == "execution event does not match submitted ticket"@,
        *error is InvalidResult ==> words@ == "invalid execution result"@,
        *error is TruncatedBatch ==> words@ == "truncated recorded batch"@,
        *error is RecordedBatchSize ==> words@ == "invalid recorded batch size"@,
        *error is TrailingData ==> words@ == "trailing recorded transaction data"@,
        *error is Value ==> words@ == "Failed to convert `Felt` into primitive type"@,
{
}

/// An error that comes from a part is told in the part's words.
pub proof fn law_execution_errors_keep_the_words_of_their_parts(
    form: ProtocolError,
    form_words: (&'static str, &'static str),
)
    requires
        call_ensures(ProtocolError::message, (&form,), form_words.0),
        call_ensures(ExecutionError::message, (&ExecutionError::Protocol(form),), form_words.1),
    ensures
        form_words.1@ == form_words.0@,
{
}

/// An event that a submission does not wait for changes nothing and tells nothing.
pub proof fn law_unawaited_events_leave_a_range(
    stage: RangeStage,
    event: &RangeEvent,
    tickets: &[RecordedTicket],
    hash: Felt,
    result: Result<(RangeStage, Vec<ActionStatus>), ExecutionError>,
)
    requires
        tickets@.len() > 0,
        call_ensures(range_step, (stage, event, tickets, hash), result),
        !(stage is Submit && *event is Observed),
        !(stage is Reconcile && *event is Receipt),
        !(stage is ReadHead && *event is Head),
        !(stage is Wait && *event is Changed),
    ensures
        result is Ok,
        (result->Ok_0).0 == stage,
        (result->Ok_0).1@.len() == 0,
{
    assert(status_views((result->Ok_0).1@).len() == (result->Ok_0).1@.len());
}

/// A receipt that is found for a lost submission is judged as an observed one is.
pub proof fn law_found_receipt_is_judged_as_observed(
    tickets: &[RecordedTicket],
    hash: Felt,
    attempt: u32,
    receipt: TransactionReceipt,
    observed: Result<(RangeStage, Vec<ActionStatus>), ExecutionError>,
    found: Result<(RangeStage, Vec<ActionStatus>), ExecutionError>,
)
    requires
        tickets@.len() > 0,
        call_ensures(
            range_step,
            (
                RangeStage::Submit(attempt),
                &RangeEvent::Observed(Some(Execution::Included(receipt))),
                tickets,
                hash,
            ),
            observed,
        ),
        call_ensures(
            range_step,
            (RangeStage::Reconcile(attempt), &RangeEvent::Receipt(Some(receipt)), tickets, hash),
            found,
        ),
    ensures
        range_result(found) == range_result(observed),
{
}

/// A record is refused for the first of these that holds: it has another number of elements than
/// seven, it is of another action, its result is none. No tickets have no records.
pub proof fn law_record_is_refused_for_its_first_fault(
    tickets: &[RecordedTicket],
    hash: Felt,
    receipt: &TransactionReceipt,
    place: int,
    result: Result<Vec<ActionStatus>, ExecutionError>,
)
    requires
        tickets@.len() <= 1,
        tickets@.len() == 1 ==> records_stand_at(
            receipt.events@,
            tickets@[0].intent.deployment,
            seq![place],
        ),
        call_ensures(receipt_outcomes, (tickets, hash, receipt), result),
    ensures
        tickets@.len() == 0 ==> result is Err && result->Err_0 == ExecutionError::EmptyAttribution,
        tickets@.len() == 1 ==> {
            let data = receipt.events@[place].data@;
            let ticket = tickets@[0];
            let sized = data.len() == 7;
            let same = data[0] == ticket.intent.game && data[1] == ticket.intent.actor && data[2]@
                == ticket.intent.nonce && data[4]@ == ticket.envelope.order;
            let valid = data[3]@ <= 1 && (data[5]@ == 1 || data[5]@ == 2);
            &&& !sized ==> result is Err && result->Err_0 == ExecutionError::MalformedEvent
            &&& sized && !same ==> result is Err && result->Err_0 == ExecutionError::MismatchedEvent
            &&& sized && same && !valid ==> result is Err && result->Err_0
                == ExecutionError::InvalidResult
            &&& sized && same && valid ==> result is Ok
        },
{
    if tickets@.len() == 1 {
        let views = ticket_views(tickets@);
        assert(views[0] == tickets@[0]@);
        let emitter = tickets@[0].intent.deployment;
        lemma_records_are_found(receipt.events@, emitter, seq![place]);
        assert(recording_events(receipt.events@, emitter)[0] == receipt.events@[place]);
        reveal_with_fuel(events_fault, 2);
    }
}

} // verus!
