//! The execution of a batch of accepted tickets from its first submission until every ticket is
//! settled.

use crate::execution::{
    batch_calldata, batch_fault, batch_entry_point, law_bisection_settles_in_order,
    lemma_tiles_bound, payload_fields, proves_failure, range_next, range_step, receipt_fault,
    receipt_statuses, settling, submitted_statuses, succeeded, Bisection, BisectionView,
    ExecutionError, RangeEvent, RangeStage, MAX_TICKETS,
};
use crate::felt::{values, Felt};
use crate::recorded::{
    status_views, ticket_views, ActionStatus, ActionStatusView, Execution, RecordedTicket,
    RecordedTicketView,
};
use std::ops::Range;
use vstd::prelude::*;
use vstd::slice::slice_subrange;

verus! {

/// Tickets under execution: which of them are submitted together, under which transaction, and how
/// far that submission is. The tickets themselves never change.
pub struct BatchExecution {
    tickets: Vec<RecordedTicket>,
    bisection: Bisection,
    prepared: Option<(Felt, RangeStage)>,
}

/// The contents of a [`BatchExecution`].
#[verifier::ext_equal]
pub struct BatchView {
    pub tickets: Seq<RecordedTicketView>,
    pub bisection: BisectionView,
    pub prepared: Option<(Felt, RangeStage)>,
}

impl View for BatchExecution {
    type V = BatchView;

    closed spec fn view(&self) -> BatchView {
        BatchView {
            tickets: ticket_views(self.tickets@),
            bisection: self.bisection@,
            prepared: self.prepared,
        }
    }
}

/// What happened while a batch was executed.
pub enum BatchEvent {
    /// The transaction of the attempt under way was prepared, under the given hash.
    Prepared(Felt),
    /// Something happened to the submission under way.
    Range(RangeEvent),
}

impl BatchView {
    /// A batch of which nothing was submitted.
    pub open spec fn start(tickets: Seq<RecordedTicketView>) -> BatchView {
        BatchView {
            tickets,
            bisection: BisectionView::start(tickets.len() as usize),
            prepared: None,
        }
    }

    /// The number of tickets.
    pub open spec fn count(self) -> usize {
        self.tickets.len() as usize
    }

    /// What holds of a batch at all times: the attempts are in order, and a transaction is prepared
    /// only for an attempt that is not settled.
    pub open spec fn valid(self) -> bool {
        &&& 0 < self.tickets.len() <= MAX_TICKETS
        &&& self.bisection.valid(self.count())
        &&& self.bisection.active matches Some(attempt) ==> attempt.range.end <= self.tickets.len()
        &&& self.prepared matches Some((_, stage)) ==> {
            &&& self.bisection.active is Some
            &&& !(stage is Recorded)
            &&& !(stage is Failed)
        }
    }

    /// The tickets of a range.
    pub open spec fn within(self, range: Range<usize>) -> Seq<RecordedTicketView> {
        self.tickets.subrange(range.start as int, range.end as int)
    }

    /// The tickets of the attempt under way.
    pub open spec fn selected(self) -> Seq<RecordedTicketView> {
        self.within(self.bisection.active->0.range)
    }

    /// What an event makes of the batch, and what the selected tickets' clients are told. An event
    /// that the batch does not wait for changes nothing.
    pub open spec fn next(self, event: BatchEvent) -> Result<
        (BatchView, Seq<ActionStatusView>),
        ExecutionError,
    > {
        let none = Seq::<ActionStatusView>::empty();
        match (self.prepared, event) {
            (None, BatchEvent::Prepared(hash)) => if self.bisection.active is Some {
                Ok((BatchView { prepared: Some((hash, RangeStage::Submit(0))), ..self }, none))
            } else {
                Ok((self, none))
            },
            (Some((hash, stage)), BatchEvent::Range(event)) => match range_next(
                stage,
                event,
                self.selected(),
                hash,
            ) {
                Err(error) => Err(error),
                Ok((next, statuses)) => if next is Recorded || next is Failed {
                    match self.bisection.next(next is Recorded) {
                        Some(bisection) => Ok(
                            (BatchView { bisection, prepared: None, ..self }, statuses),
                        ),
                        None => Err(ExecutionError::TerminalRejection),
                    }
                } else {
                    Ok((BatchView { prepared: Some((hash, next)), ..self }, statuses))
                },
            },
            _ => Ok((self, none)),
        }
    }
}

/// The next attempt's range does not pass the last ticket.
proof fn lemma_attempts_fit(batch: BatchView, bisection: BisectionView)
    requires
        batch.tickets.len() <= MAX_TICKETS,
        bisection.valid(batch.count()),
    ensures
        bisection.active matches Some(attempt) ==> attempt.range.end <= batch.tickets.len(),
{
    if bisection.active is Some {
        lemma_tiles_bound(
            bisection.pending,
            bisection.active->0.range.end as int,
            batch.count() as int,
        );
    }
}

/// Every event keeps a valid batch valid.
pub proof fn law_batch_stays_valid(batch: BatchView, event: BatchEvent)
    requires
        batch.valid(),
        batch.next(event) is Ok,
    ensures
        batch.next(event)->Ok_0.0.valid(),
        batch.next(event)->Ok_0.0.tickets == batch.tickets,
{
    match (batch.prepared, event) {
        (Some((hash, stage)), BatchEvent::Range(event)) => {
            let next = range_next(stage, event, batch.selected(), hash)->Ok_0.0;
            if next is Recorded || next is Failed {
                law_bisection_settles_in_order(batch.bisection, batch.count(), next is Recorded);
                lemma_attempts_fit(batch, batch.bisection.next(next is Recorded)->0);
            }
        },
        _ => {},
    }
}

impl BatchExecution {
    /// A batch of which nothing was submitted. It holds a ticket, and not too many.
    pub fn start(tickets: Vec<RecordedTicket>) -> (result: Result<BatchExecution, ExecutionError>)
        ensures
            match result {
                Ok(batch) => 0 < tickets@.len() <= MAX_TICKETS && batch@ == BatchView::start(
                    ticket_views(tickets@),
                ) && batch@.valid(),
                Err(error) => !(0 < tickets@.len() <= MAX_TICKETS) && error
                    == ExecutionError::BatchSize,
            },
    {
        let count: usize = tickets.len();
        if count == 0 || count > MAX_TICKETS {
            return Err(ExecutionError::BatchSize);
        }
        let batch: BatchExecution = BatchExecution {
            tickets,
            bisection: Bisection::start(count),
            prepared: None,
        };
        assert(batch@ =~= BatchView::start(ticket_views(tickets@)));
        Ok(batch)
    }

    /// The tickets that are submitted together, and whether to reject the one; nothing once every
    /// ticket is settled.
    pub fn attempt(&self) -> (result: Option<(Range<usize>, bool)>)
        ensures
            match (result, self@.bisection.active) {
                (Some((range, rejection)), Some(attempt)) => range == attempt.range && rejection
                    == attempt.rejection,
                (None, None) => true,
                _ => false,
            },
    {
        self.bisection.attempt()
    }

    /// The hash of the transaction that is submitted and how far its submission is; nothing where
    /// the transaction is still to be prepared.
    pub fn prepared(&self) -> (result: Option<(Felt, RangeStage)>)
        ensures
            result == self@.prepared,
    {
        self.prepared
    }

    /// The entry point and the calldata of the attempt under way.
    pub fn payload(&self) -> (result: Result<(&'static str, Vec<Felt>), ExecutionError>)
        requires
            self@.valid(),
            self@.bisection.active is Some,
        ensures
            ({
                let attempt = self@.bisection.active->0;
                match result {
                    Ok((entry_point, calldata)) => {
                        &&& batch_fault(self@.selected(), attempt.rejection) is None
                        &&& entry_point@ == (if attempt.rejection {
                            "reject_execution"@
                        } else {
                            "execute_batch"@
                        })
                        &&& values(calldata@) == payload_fields(self@.selected(), attempt.rejection)
                    },
                    Err(error) => batch_fault(self@.selected(), attempt.rejection) == Some(error),
                }
            }),
    {
        match self.bisection.attempt() {
            Some((range, rejection)) => {
                let selected: &[RecordedTicket] = slice_subrange(
                    self.tickets.as_slice(),
                    range.start,
                    range.end,
                );
                assert(ticket_views(selected@) =~= self@.selected());
                let calldata: Vec<Felt> = batch_calldata(selected, rejection)?;
                Ok((batch_entry_point(rejection), calldata))
            },
            None => Err(ExecutionError::BatchSize),
        }
    }

    /// Takes the hash of the transaction that was prepared for the attempt under way. Every
    /// submission of the attempt is of this transaction.
    pub fn prepare(&mut self, hash: Felt)
        requires
            old(self)@.valid(),
            old(self)@.bisection.active is Some,
            old(self)@.prepared is None,
        ensures
            old(self)@.next(BatchEvent::Prepared(hash)) == Ok::<
                (BatchView, Seq<ActionStatusView>),
                ExecutionError,
            >((final(self)@, Seq::empty())),
            final(self)@.valid(),
    {
        self.prepared = Some((hash, RangeStage::Submit(0)));
    }

    /// What the selected tickets' clients are told at each submission.
    pub fn submitted(&self, hash: Felt) -> (result: Vec<ActionStatus>)
        requires
            self@.valid(),
            self@.bisection.active is Some,
        ensures
            status_views(result@) == Seq::new(
                self@.selected().len(),
                |i: int|
                    ActionStatusView::Submitted {
                        action: self@.selected()[i].envelope.action,
                        order: self@.selected()[i].envelope.order,
                        transaction_hash: hash,
                    },
            ),
    {
        match self.bisection.attempt() {
            Some((range, _)) => {
                let selected: &[RecordedTicket] = slice_subrange(
                    self.tickets.as_slice(),
                    range.start,
                    range.end,
                );
                let statuses: Vec<ActionStatus> = submitted_statuses(selected, hash);
                proof {
                    assert(ticket_views(selected@) =~= self@.selected());
                    assert forall|i: int| 0 <= i < selected@.len() implies (
                    #[trigger] statuses@[i])@ == (ActionStatusView::Submitted {
                        action: self@.selected()[i].envelope.action,
                        order: self@.selected()[i].envelope.order,
                        transaction_hash: hash,
                    }) by {
                        assert(ticket_views(selected@)[i] == selected@[i]@);
                    }
                    assert(status_views(statuses@) =~= Seq::new(
                        self@.selected().len(),
                        |i: int|
                            ActionStatusView::Submitted {
                                action: self@.selected()[i].envelope.action,
                                order: self@.selected()[i].envelope.order,
                                transaction_hash: hash,
                            },
                    ));
                }
                statuses
            },
            None => Vec::new(),
        }
    }

    /// Goes on with the submission under way after an event, and says what the selected tickets'
    /// clients are told.
    pub fn step(&mut self, event: &RangeEvent) -> (result: Result<
        Vec<ActionStatus>,
        ExecutionError,
    >)
        requires
            old(self)@.valid(),
            old(self)@.prepared is Some,
        ensures
            match result {
                Ok(statuses) => old(self)@.next(BatchEvent::Range(*event)) == Ok::<
                    (BatchView, Seq<ActionStatusView>),
                    ExecutionError,
                >((final(self)@, status_views(statuses@))) && final(self)@.valid(),
                Err(error) => old(self)@.next(BatchEvent::Range(*event)) == Err::<
                    (BatchView, Seq<ActionStatusView>),
                    ExecutionError,
                >(error) && final(self)@ == old(self)@,
            },
    {
        let none: Vec<ActionStatus> = Vec::new();
        let (hash, stage) = match self.prepared {
            Some(prepared) => prepared,
            None => {
                return Ok(none);
            },
        };
        let (range, _) = match self.bisection.attempt() {
            Some(attempt) => attempt,
            None => {
                return Ok(none);
            },
        };
        let (next, statuses) = {
            let selected: &[RecordedTicket] = slice_subrange(
                self.tickets.as_slice(),
                range.start,
                range.end,
            );
            assert(ticket_views(selected@) =~= self@.selected());
            range_step(stage, event, selected, hash)?
        };
        let recorded: bool = matches!(next, RangeStage::Recorded);
        if recorded || matches!(next, RangeStage::Failed) {
            self.bisection.advance(recorded)?;
            self.prepared = None;
        } else {
            self.prepared = Some((hash, next));
        }
        proof {
            law_batch_stays_valid(old(self)@, BatchEvent::Range(*event));
        }
        Ok(statuses)
    }
}

/// A transaction that settled an attempt, with the outcome that settled it.
#[verifier::ext_equal]
pub struct Settled {
    pub range: Range<usize>,
    pub rejection: bool,
    pub hash: Felt,
    pub outcome: Execution,
}

/// A batch under execution, with the transactions that were seen to succeed and those that were
/// seen to fail, each in order, and the results that the tickets' clients were told.
#[verifier::ext_equal]
pub struct History {
    pub batch: BatchView,
    pub recorded: Seq<Settled>,
    pub failed: Seq<Settled>,
    pub results: Seq<ActionStatusView>,
}

impl History {
    /// The transaction that an event settles.
    pub open spec fn settled_by(self, event: RangeEvent) -> Settled {
        let attempt = self.batch.bisection.active->0;
        let (hash, stage) = self.batch.prepared->0;
        Settled {
            range: attempt.range,
            rejection: attempt.rejection,
            hash,
            outcome: settling(stage, event)->0,
        }
    }

    /// The history after an event; nothing where the execution stops with an error.
    pub open spec fn next(self, event: BatchEvent) -> Option<History> {
        match self.batch.next(event) {
            Err(_) => None,
            Ok((batch, statuses)) => match (self.batch.prepared, event) {
                (Some((hash, stage)), BatchEvent::Range(event)) => {
                    let next = range_next(stage, event, self.batch.selected(), hash)->Ok_0.0;
                    if next is Recorded {
                        Some(
                            History {
                                batch,
                                recorded: self.recorded.push(self.settled_by(event)),
                                results: self.results + statuses,
                                ..self
                            },
                        )
                    } else if next is Failed {
                        Some(
                            History { batch, failed: self.failed.push(self.settled_by(event)), ..self },
                        )
                    } else {
                        Some(History { batch, ..self })
                    }
                },
                _ => Some(History { batch, ..self }),
            },
        }
    }
}

/// The history of tickets under execution after events; nothing where it stopped with an error.
pub open spec fn history(tickets: Seq<RecordedTicketView>, events: Seq<BatchEvent>) -> Option<
    History,
>
    decreases events.len(),
{
    if events.len() == 0 {
        Some(
            History {
                batch: BatchView::start(tickets),
                recorded: Seq::empty(),
                failed: Seq::empty(),
                results: Seq::empty(),
            },
        )
    } else {
        match history(tickets, events.drop_last()) {
            Some(before) => before.next(events.last()),
            None => None,
        }
    }
}

/// Whether transactions follow one another without a gap from the first ticket up to a position,
/// each with a ticket in it.
pub open spec fn contiguous(recorded: Seq<Settled>, position: int) -> bool
    decreases recorded.len(),
{
    if recorded.len() == 0 {
        position == 0
    } else {
        &&& recorded.last().range.start < recorded.last().range.end
        &&& recorded.last().range.end == position
        &&& contiguous(recorded.drop_last(), recorded.last().range.start as int)
    }
}

/// Whether a transaction that was seen to succeed carries a ticket.
pub open spec fn carried(recorded: Seq<Settled>, i: int) -> bool {
    exists|k: int|
        0 <= k < recorded.len() && (#[trigger] recorded[k]).range.start <= i
            < recorded[k].range.end
}

/// Whether the execution of exactly a range of tickets was seen to fail.
pub open spec fn execution_failed(failed: Seq<Settled>, range: Range<usize>) -> bool {
    exists|k: int|
        0 <= k < failed.len() && (#[trigger] failed[k]).range == range && !failed[k].rejection
}

/// Whether a transaction was seen to succeed and its receipt records each of its tickets.
pub open spec fn seen_to_succeed(batch: BatchView, settled: Settled) -> bool {
    &&& settled.range.end <= batch.tickets.len()
    &&& succeeded(settled.outcome)
    &&& receipt_fault(batch.within(settled.range), settled.outcome->Included_0) is None
}

/// Whether a status is a ticket's recorded result.
pub open spec fn told(ticket: RecordedTicketView, status: ActionStatusView) -> bool {
    &&& status is Recorded
    &&& status->Recorded_action == ticket.envelope.action
    &&& status->Recorded_order == ticket.envelope.order
}

impl History {
    /// What holds of an execution at all times. The transactions that were seen to succeed carry the
    /// first tickets, in their order and each once. A transaction that rejects carries one ticket,
    /// whose execution by itself was seen to fail before. Every failure was proved by its outcome.
    /// The tickets that were carried were told their recorded results.
    pub open spec fn sound(self) -> bool {
        &&& self.batch.valid()
        &&& contiguous(self.recorded, self.batch.bisection.position(self.batch.count()))
        &&& forall|k: int|
            0 <= k < self.recorded.len() ==> seen_to_succeed(
                self.batch,
                #[trigger] self.recorded[k],
            )
        &&& forall|k: int|
            0 <= k < self.recorded.len() && (#[trigger] self.recorded[k]).rejection
                ==> self.recorded[k].range.end == self.recorded[k].range.start + 1
                && execution_failed(self.failed, self.recorded[k].range)
        &&& self.batch.bisection.active matches Some(attempt) ==> attempt.rejection
            ==> execution_failed(self.failed, attempt.range)
        &&& forall|k: int|
            0 <= k < self.failed.len() ==> proves_failure((#[trigger] self.failed[k]).outcome)
        &&& self.results.len() == self.batch.bisection.position(self.batch.count())
        &&& forall|i: int|
            0 <= i < self.results.len() ==> told(
                self.batch.tickets[i],
                #[trigger] self.results[i],
            )
    }
}

/// One more failure undoes none.
proof fn lemma_failures_stay(failed: Seq<Settled>, settled: Settled, range: Range<usize>)
    requires
        execution_failed(failed, range),
    ensures
        execution_failed(failed.push(settled), range),
{
    let k = choose|k: int|
        0 <= k < failed.len() && (#[trigger] failed[k]).range == range && !failed[k].rejection;
    assert(failed.push(settled)[k] == failed[k]);
}

/// A transaction that was seen to succeed keeps an execution sound.
proof fn lemma_record_stays_sound(before: History, event: RangeEvent)
    requires
        before.sound(),
        before.next(BatchEvent::Range(event)) is Some,
        before.batch.prepared is Some,
        range_next(
            (before.batch.prepared->0).1,
            event,
            before.batch.selected(),
            (before.batch.prepared->0).0,
        )->Ok_0.0 is Recorded,
    ensures
        before.next(BatchEvent::Range(event))->0.sound(),
{
    let (hash, stage) = before.batch.prepared->0;
    let after = before.next(BatchEvent::Range(event))->0;
    let count = before.batch.count();
    let attempt = before.batch.bisection.active->0;
    let selected = before.batch.selected();
    let settled = before.settled_by(event);
    law_batch_stays_valid(before.batch, BatchEvent::Range(event));
    law_bisection_settles_in_order(before.batch.bisection, count, true);
    assert(after.recorded.drop_last() =~= before.recorded);
    assert(seen_to_succeed(before.batch, settled));
    assert(contiguous(after.recorded, attempt.range.end as int));
    assert forall|k: int| 0 <= k < after.recorded.len() implies seen_to_succeed(
        after.batch,
        #[trigger] after.recorded[k],
    ) by {
        if k < before.recorded.len() {
            assert(seen_to_succeed(before.batch, before.recorded[k]));
        }
    }
    assert forall|k: int|
        0 <= k < after.recorded.len() && (
        #[trigger] after.recorded[k]).rejection implies after.recorded[k].range.end
        == after.recorded[k].range.start + 1 && execution_failed(
        after.failed,
        after.recorded[k].range,
    ) by {
        if k < before.recorded.len() {
            assert(after.recorded[k] == before.recorded[k]);
        }
    }
    let statuses = receipt_statuses(selected, hash, settled.outcome->Included_0);
    assert forall|i: int| 0 <= i < after.results.len() implies told(
        after.batch.tickets[i],
        #[trigger] after.results[i],
    ) by {
        if i < before.results.len() {
            assert(told(before.batch.tickets[i], before.results[i]));
        } else {
            let at = i - before.results.len();
            assert(after.results[i] == statuses[at]);
            assert(selected[at] == before.batch.tickets[i]);
        }
    }
}

/// A transaction that was seen to fail keeps an execution sound.
proof fn lemma_failure_stays_sound(before: History, event: RangeEvent)
    requires
        before.sound(),
        before.next(BatchEvent::Range(event)) is Some,
        before.batch.prepared is Some,
        range_next(
            (before.batch.prepared->0).1,
            event,
            before.batch.selected(),
            (before.batch.prepared->0).0,
        )->Ok_0.0 is Failed,
    ensures
        before.next(BatchEvent::Range(event))->0.sound(),
{
    let after = before.next(BatchEvent::Range(event))->0;
    let attempt = before.batch.bisection.active->0;
    let settled = before.settled_by(event);
    law_batch_stays_valid(before.batch, BatchEvent::Range(event));
    law_bisection_settles_in_order(before.batch.bisection, before.batch.count(), false);
    assert forall|k: int| 0 <= k < after.recorded.len() implies seen_to_succeed(
        after.batch,
        #[trigger] after.recorded[k],
    ) by {
        assert(seen_to_succeed(before.batch, before.recorded[k]));
    }
    assert forall|k: int|
        0 <= k < after.recorded.len() && (
        #[trigger] after.recorded[k]).rejection implies after.recorded[k].range.end
        == after.recorded[k].range.start + 1 && execution_failed(
        after.failed,
        after.recorded[k].range,
    ) by {
        lemma_failures_stay(before.failed, settled, after.recorded[k].range);
    }
    if after.batch.bisection.active is Some && after.batch.bisection.active->0.rejection {
        assert(after.failed[after.failed.len() - 1] == settled);
    }
    assert forall|k: int| 0 <= k < after.failed.len() implies proves_failure(
        (#[trigger] after.failed[k]).outcome,
    ) by {
        if k < before.failed.len() {
            assert(after.failed[k] == before.failed[k]);
        }
    }
}

/// Every event keeps an execution sound.
proof fn lemma_history_stays_sound(before: History, event: BatchEvent)
    requires
        before.sound(),
        before.next(event) is Some,
    ensures
        before.next(event)->0.sound(),
        before.next(event)->0.batch.tickets == before.batch.tickets,
{
    law_batch_stays_valid(before.batch, event);
    let after = before.next(event)->0;
    match (before.batch.prepared, event) {
        (Some((hash, stage)), BatchEvent::Range(event)) => {
            let next = range_next(stage, event, before.batch.selected(), hash)->Ok_0.0;
            if next is Recorded {
                lemma_record_stays_sound(before, event);
            } else if next is Failed {
                lemma_failure_stays_sound(before, event);
            } else {
                assert forall|k: int| 0 <= k < after.recorded.len() implies seen_to_succeed(
                    after.batch,
                    #[trigger] after.recorded[k],
                ) by {
                    assert(seen_to_succeed(before.batch, before.recorded[k]));
                }
            }
        },
        _ => {
            assert forall|k: int| 0 <= k < after.recorded.len() implies seen_to_succeed(
                after.batch,
                #[trigger] after.recorded[k],
            ) by {
                assert(seen_to_succeed(before.batch, before.recorded[k]));
            }
        },
    }
}

/// Of transactions that follow one another, none ends after the last.
proof fn lemma_contiguous_bound(recorded: Seq<Settled>, position: int, k: int)
    requires
        contiguous(recorded, position),
        0 <= k < recorded.len(),
    ensures
        recorded[k].range.end <= position,
    decreases recorded.len(),
{
    if k < recorded.len() - 1 {
        assert(recorded.drop_last()[k] == recorded[k]);
        lemma_contiguous_bound(recorded.drop_last(), recorded.last().range.start as int, k);
    }
}

/// Of transactions that follow one another, an earlier one ends before a later one starts.
proof fn lemma_contiguous_grows(recorded: Seq<Settled>, position: int, j: int, k: int)
    requires
        contiguous(recorded, position),
        0 <= j < k < recorded.len(),
    ensures
        recorded[j].range.end <= recorded[k].range.start,
    decreases recorded.len(),
{
    let front = recorded.drop_last();
    assert(front[j] == recorded[j]);
    if k == recorded.len() - 1 {
        lemma_contiguous_bound(front, recorded.last().range.start as int, j);
    } else {
        assert(front[k] == recorded[k]);
        lemma_contiguous_grows(front, recorded.last().range.start as int, j, k);
    }
}

/// Transactions that follow one another leave out no ticket before their end.
proof fn lemma_contiguous_covers(recorded: Seq<Settled>, position: int, i: int)
    requires
        contiguous(recorded, position),
        0 <= i < position,
    ensures
        carried(recorded, i),
    decreases recorded.len(),
{
    let last = recorded.len() - 1;
    if recorded[last].range.start <= i {
        assert(recorded[last].range.start <= i < recorded[last].range.end);
    } else {
        let front = recorded.drop_last();
        lemma_contiguous_covers(front, recorded[last].range.start as int, i);
        let k = choose|k: int|
            0 <= k < front.len() && (#[trigger] front[k]).range.start <= i < front[k].range.end;
        assert(recorded[k] == front[k]);
    }
}

/// The law of a whole execution, at every moment of it. Each ticket up to the position that was
/// reached is in exactly one transaction that was seen to succeed, these follow the tickets' order,
/// and each of those tickets was told its recorded result. A transaction that rejects carries one
/// ticket, and there is one, prepared or recorded, only after the execution of that ticket by itself
/// was proved to fail. The tickets go out as they came in. Once no attempt is left, this holds of
/// every ticket.
pub proof fn law_execution_settles_every_ticket_once(
    tickets: Seq<RecordedTicketView>,
    events: Seq<BatchEvent>,
)
    requires
        0 < tickets.len() <= MAX_TICKETS,
        history(tickets, events) is Some,
    ensures
        ({
            let reached = history(tickets, events)->0;
            let position = reached.batch.bisection.position(reached.batch.count());
            &&& reached.sound()
            &&& reached.batch.tickets == tickets
            &&& reached.batch.bisection.active is None ==> position == tickets.len()
            &&& forall|i: int| 0 <= i < position ==> #[trigger] carried(reached.recorded, i)
            &&& forall|j: int, k: int|
                0 <= j < k < reached.recorded.len() ==> (#[trigger] reached.recorded[j]).range.end
                    <= (#[trigger] reached.recorded[k]).range.start
        }),
    decreases events.len(),
{
    if events.len() > 0 {
        law_execution_settles_every_ticket_once(tickets, events.drop_last());
        lemma_history_stays_sound(history(tickets, events.drop_last())->0, events.last());
    }
    let reached = history(tickets, events)->0;
    let position = reached.batch.bisection.position(reached.batch.count());
    assert(reached.sound());
    assert forall|i: int| 0 <= i < position implies #[trigger] carried(reached.recorded, i) by {
        lemma_contiguous_covers(reached.recorded, position, i);
    }
    assert forall|j: int, k: int| 0 <= j < k < reached.recorded.len() implies (
    #[trigger] reached.recorded[j]).range.end <= (#[trigger] reached.recorded[k]).range.start by {
        lemma_contiguous_grows(reached.recorded, position, j, k);
    }
}

/// A batch of one ticket at least and sixty-four at most starts with the execution of all of them in
/// their order, with no transaction prepared; another number starts nothing.
pub proof fn law_batch_starts_with_all_its_tickets(
    tickets: Vec<RecordedTicket>,
    result: Result<BatchExecution, ExecutionError>,
    attempt: Option<(Range<usize>, bool)>,
    prepared: Option<(Felt, RangeStage)>,
)
    requires
        call_ensures(BatchExecution::start, (tickets,), result),
        result is Ok ==> call_ensures(BatchExecution::attempt, (&result->Ok_0,), attempt)
            && call_ensures(BatchExecution::prepared, (&result->Ok_0,), prepared),
    ensures
        result is Ok <==> 1 <= tickets@.len() <= 64,
        result is Err ==> result->Err_0 == ExecutionError::BatchSize,
        result is Ok ==> attempt is Some && (attempt->0).0.start == 0 && (attempt->0).0.end
            == tickets@.len() && !(attempt->0).1 && prepared is None,
        result is Ok ==> forall|i: int|
            0 <= i < tickets@.len() ==> (#[trigger] result->Ok_0@.tickets[i]) == tickets@[i]@,
{
    if result is Ok {
        assert forall|i: int| 0 <= i < tickets@.len() implies (
        #[trigger] result->Ok_0@.tickets[i]) == tickets@[i]@ by {
            assert(ticket_views(tickets@)[i] == tickets@[i]@);
        }
    }
}

/// The attempt under way is submitted as the batch of exactly its tickets, executed or rejected as the
/// attempt says, and each of these tickets is told of it.
pub proof fn law_attempt_submits_its_tickets(
    batch: &BatchExecution,
    selected: &[RecordedTicket],
    hash: Felt,
    attempt: Option<(Range<usize>, bool)>,
    name: &'static str,
    calldata: Result<Vec<Felt>, ExecutionError>,
    statuses: Vec<ActionStatus>,
    result: Result<(&'static str, Vec<Felt>), ExecutionError>,
    told: Vec<ActionStatus>,
)
    requires
        batch@.valid(),
        call_ensures(BatchExecution::attempt, (batch,), attempt),
        attempt is Some,
        ticket_views(selected@) == batch@.tickets.subrange(
            (attempt->0).0.start as int,
            (attempt->0).0.end as int,
        ),
        call_ensures(batch_entry_point, ((attempt->0).1,), name),
        call_ensures(batch_calldata, (selected, (attempt->0).1), calldata),
        call_ensures(submitted_statuses, (selected, hash), statuses),
        call_ensures(BatchExecution::payload, (batch,), result),
        call_ensures(BatchExecution::submitted, (batch, hash), told),
    ensures
        calldata is Err ==> result is Err && result->Err_0 == calldata->Err_0,
        calldata is Ok ==> result is Ok && (result->Ok_0).0@ == name@ && (result->Ok_0).1@
            == calldata->Ok_0@,
        status_views(told@) == status_views(statuses@),
{
    if calldata is Ok {
        crate::felt::lemma_values_injective((result->Ok_0).1@, calldata->Ok_0@);
    }
    let views = ticket_views(selected@);
    assert(views.len() == selected@.len());
    assert(status_views(told@).len() == told@.len());
    assert forall|i: int| 0 <= i < statuses@.len() implies #[trigger] status_views(told@)[i]
        == status_views(statuses@)[i] by {
        assert(views[i] == selected@[i]@);
        assert(status_views(statuses@)[i] == statuses@[i]@);
    }
    assert(status_views(told@) =~= status_views(statuses@));
}

/// A prepared transaction is submitted for the first time, and changes neither the tickets nor the
/// attempts.
pub proof fn law_prepared_transaction_is_submitted_first(
    batch: &mut BatchExecution,
    hash: Felt,
    done: (),
)
    requires
        old(batch)@.valid(),
        old(batch)@.bisection.active is Some,
        old(batch)@.prepared is None,
        call_ensures(BatchExecution::prepare, (batch, hash), done),
    ensures
        final(batch)@.prepared == Some((hash, RangeStage::Submit(0))),
        final(batch)@.tickets == old(batch)@.tickets,
        final(batch)@.bisection == old(batch)@.bisection,
{
}

/// A batch goes on as the submission of its attempt's tickets does. A submission that goes on keeps
/// its transaction. One that ends has its attempt settled as recorded or failed, and the next attempt
/// is prepared anew; what it tells is told. One that stops with an error stops the batch with it.
pub proof fn law_batch_follows_its_submission(
    batch: &mut BatchExecution,
    event: &RangeEvent,
    selected: &[RecordedTicket],
    bisection: &mut Bisection,
    ranged: Result<(RangeStage, Vec<ActionStatus>), ExecutionError>,
    advanced: Result<(), ExecutionError>,
    result: Result<Vec<ActionStatus>, ExecutionError>,
)
    requires
        old(batch)@.valid(),
        old(batch)@.prepared is Some,
        ticket_views(selected@) == old(batch)@.tickets.subrange(
            old(batch)@.bisection.active->0.range.start as int,
            old(batch)@.bisection.active->0.range.end as int,
        ),
        call_ensures(
            range_step,
            ((old(batch)@.prepared->0).1, event, selected, (old(batch)@.prepared->0).0),
            ranged,
        ),
        old(bisection)@ == old(batch)@.bisection,
        ranged is Ok ==> call_ensures(
            Bisection::advance,
            (bisection, (ranged->Ok_0).0 is Recorded),
            advanced,
        ),
        call_ensures(BatchExecution::step, (batch, event), result),
    ensures
        ({
            let before = old(batch)@;
            let after = final(batch)@;
            let ends = ranged is Ok && ((ranged->Ok_0).0 is Recorded || (ranged->Ok_0).0 is Failed);
            &&& ranged is Err ==> result is Err && result->Err_0 == ranged->Err_0
            &&& ends && advanced is Err ==> result is Err && result->Err_0 == advanced->Err_0
            &&& ranged is Ok && !ends ==> result is Ok && after.prepared == Some(
                ((before.prepared->0).0, (ranged->Ok_0).0),
            ) && after.bisection == before.bisection
            &&& ends && advanced is Ok ==> result is Ok && after.prepared is None
                && after.bisection == final(bisection)@
            &&& result is Ok ==> status_views(result->Ok_0@) == status_views((ranged->Ok_0).1@)
            &&& result is Err ==> after == before
            &&& after.tickets == before.tickets
        }),
{
}

} // verus!
