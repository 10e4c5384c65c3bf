//! Refusals of outstanding submissions. Only these need attribution before inclusion: receipts and
//! the mempool remain authoritative for every included transaction.

use crate::felt::Felt;
use crate::map::{lookup, FeltMap};
use vstd::prelude::*;

verus! {

broadcast use crate::felt::lemma_felt_injective;

/// The submissions of an account whose refusal is awaited, each with the reason once there is one.
pub struct ExecutionObservers {
    account: Felt,
    waiting: FeltMap<Option<String>>,
}

/// The contents of an [`ExecutionObservers`].
#[verifier::ext_equal]
pub struct ObserversView {
    pub account: Felt,
    pub waiting: Map<Felt, Option<String>>,
}

impl View for ExecutionObservers {
    type V = ObserversView;

    closed spec fn view(&self) -> ObserversView {
        ObserversView { account: self.account, waiting: self.waiting@ }
    }
}

impl ObserversView {
    /// Whether a transaction's refusal is awaited.
    pub open spec fn watches(self, transaction: Felt) -> bool {
        self.waiting.dom().contains(transaction)
    }

    /// The observers once a transaction is watched: a reason from before is forgotten.
    pub open spec fn watched(self, transaction: Felt) -> ObserversView {
        ObserversView { waiting: self.waiting.insert(transaction, None), ..self }
    }

    /// The observers once a refusal is reported: one that nobody awaits is dropped.
    pub open spec fn reported(self, transaction: Felt, reason: String) -> ObserversView {
        if self.watches(transaction) {
            ObserversView { waiting: self.waiting.insert(transaction, Some(reason)), ..self }
        } else {
            self
        }
    }

    /// The observers once a transaction is no longer watched.
    pub open spec fn unwatched(self, transaction: Felt) -> ObserversView {
        ObserversView { waiting: self.waiting.remove(transaction), ..self }
    }
}

impl ExecutionObservers {
    /// Observers of an account's submissions.
    pub fn new(account: Felt) -> (result: ExecutionObservers)
        ensures
            result@ == (ObserversView { account, waiting: Map::empty() }),
    {
        ExecutionObservers { account, waiting: FeltMap::new() }
    }

    /// The account whose submissions are observed.
    pub fn account(&self) -> (result: Felt)
        ensures
            result == self@.account,
    {
        self.account
    }

    /// Awaits the refusal of a transaction.
    pub fn watch(&mut self, transaction: Felt)
        ensures
            final(self)@ == old(self)@.watched(transaction),
    {
        self.waiting.insert(transaction, None);
    }

    /// Whether a transaction's refusal is awaited, so that its executor reports one.
    pub fn reporter(&self, transaction: Felt) -> (result: bool)
        ensures
            result == self@.watches(transaction),
    {
        self.waiting.get(transaction).is_some()
    }

    /// Reports the refusal of a transaction.
    pub fn report(&mut self, transaction: Felt, reason: String)
        ensures
            final(self)@ == old(self)@.reported(transaction, reason),
    {
        if self.reporter(transaction) {
            self.waiting.insert(transaction, Some(reason));
        }
    }

    /// The reason for which a watched transaction was refused.
    pub fn refusal(&self, transaction: Felt) -> (result: Option<&String>)
        ensures
            match result {
                Some(reason) => lookup(self@.waiting, transaction) == Some(Some(*reason)),
                None => !(lookup(self@.waiting, transaction) matches Some(Some(_))),
            },
    {
        match self.waiting.get(transaction) {
            Some(Some(reason)) => Some(reason),
            _ => None,
        }
    }

    /// No longer awaits the refusal of a transaction.
    pub fn unwatch(&mut self, transaction: Felt)
        ensures
            final(self)@ == old(self)@.unwatched(transaction),
    {
        self.waiting.remove(transaction);
    }
}

/// Which transactions of a batch report their refusal.
pub fn observe_batch(observers: &ExecutionObservers, transactions: &[Felt]) -> (result: Vec<bool>)
    ensures
        result@.len() == transactions@.len(),
        forall|i: int|
            0 <= i < transactions@.len() ==> #[trigger] result@[i] == observers@.watches(
                transactions@[i],
            ),
{
    let mut reporters: Vec<bool> = Vec::new();
    let mut i: usize = 0;
    while i < transactions.len()
        invariant
            i <= transactions@.len(),
            reporters@.len() == i,
            forall|k: int|
                0 <= k < i ==> #[trigger] reporters@[k] == observers@.watches(transactions@[k]),
        decreases transactions@.len() - i,
    {
        reporters.push(observers.reporter(transactions[i]));
        i = i + 1;
    }
    reporters
}

/// A refusal reaches the transaction that it is reported for, and no other one.
pub proof fn law_refusals_reach_their_transaction(
    observers: ObserversView,
    transaction: Felt,
    other: Felt,
    reason: String,
)
    requires
        transaction != other,
    ensures
        lookup(observers.watched(transaction).reported(transaction, reason).waiting, transaction)
            == Some(Some(reason)),
        lookup(observers.reported(transaction, reason).waiting, other) == lookup(
            observers.waiting,
            other,
        ),
        !observers.watched(transaction).unwatched(transaction).watches(transaction),
{
}

/// A transaction that is watched awaits its refusal with no reason yet, even where it was refused
/// before; what is reported for it is its reason, and what is reported for one that is not watched is
/// dropped. No other transaction learns of either.
pub proof fn law_refusals_are_awaited_and_told(
    observers: &mut ExecutionObservers,
    before: &ExecutionObservers,
    after: &ExecutionObservers,
    transaction: Felt,
    other: Felt,
    reason: String,
    watched: bool,
    told: Option<&String>,
    earlier: Option<&String>,
    later: Option<&String>,
    still: (bool, bool),
    done: (),
)
    requires
        *before == *old(observers),
        *after == *final(observers),
        other != transaction,
        call_ensures(ExecutionObservers::reporter, (before, transaction), watched),
        call_ensures(ExecutionObservers::report, (observers, transaction, reason), done),
        call_ensures(ExecutionObservers::refusal, (after, transaction), told),
        call_ensures(ExecutionObservers::refusal, (before, other), earlier),
        call_ensures(ExecutionObservers::refusal, (after, other), later),
        call_ensures(ExecutionObservers::reporter, (before, other), still.0),
        call_ensures(ExecutionObservers::reporter, (after, other), still.1),
    ensures
        watched ==> told is Some && *told->0 == reason,
        !watched ==> told is None && after@ == before@,
        earlier is Some <==> later is Some,
        earlier is Some ==> *earlier->0 == *later->0,
        still.0 == still.1,
        after@.account == before@.account,
{
}

/// Watching a transaction awaits its refusal anew, and unwatching it awaits it no longer; every other
/// transaction stays as it was.
pub proof fn law_watching_concerns_one_transaction(
    watching: &mut ExecutionObservers,
    watched: &ExecutionObservers,
    leaving: &mut ExecutionObservers,
    left: &ExecutionObservers,
    transaction: Felt,
    other: Felt,
    reports: (bool, bool),
    told: (Option<&String>, Option<&String>),
    done: ((), ()),
)
    requires
        *watched == *final(watching),
        *left == *final(leaving),
        other != transaction,
        call_ensures(ExecutionObservers::watch, (watching, transaction), done.0),
        call_ensures(ExecutionObservers::unwatch, (leaving, transaction), done.1),
        call_ensures(ExecutionObservers::reporter, (watched, transaction), reports.0),
        call_ensures(ExecutionObservers::reporter, (left, transaction), reports.1),
        call_ensures(ExecutionObservers::refusal, (watched, transaction), told.0),
        call_ensures(ExecutionObservers::refusal, (left, transaction), told.1),
    ensures
        reports.0,
        told.0 is None,
        !reports.1,
        told.1 is None,
        lookup(watched@.waiting, other) == lookup(old(watching)@.waiting, other),
        lookup(left@.waiting, other) == lookup(old(leaving)@.waiting, other),
        watched@.account == old(watching)@.account,
        left@.account == old(leaving)@.account,
{
}

/// A batch's transactions report exactly where each alone does, in the batch's order.
pub proof fn law_batch_reports_one_by_one(
    observers: &ExecutionObservers,
    transactions: &[Felt],
    reports: Vec<bool>,
    i: int,
    alone: bool,
)
    requires
        call_ensures(observe_batch, (observers, transactions), reports),
        0 <= i < transactions@.len(),
        call_ensures(ExecutionObservers::reporter, (observers, transactions@[i]), alone),
    ensures
        reports@.len() == transactions@.len(),
        reports@[i] == alone,
{
}

/// New observers observe the given account and await no refusal.
pub proof fn law_observers_start_without_a_wait(
    account: Felt,
    transaction: Felt,
    observers: &ExecutionObservers,
    observed: Felt,
    watched: bool,
)
    requires
        call_ensures(ExecutionObservers::new, (account,), *observers),
        call_ensures(ExecutionObservers::account, (observers,), observed),
        call_ensures(ExecutionObservers::reporter, (observers, transaction), watched),
    ensures
        observed == account,
        !watched,
{
}

} // verus!
