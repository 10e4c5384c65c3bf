//! What the sequencer concludes from its node: which recorded transaction carries an intent, where
//! the head stands, which transactions a restart left behind and how a submission ended.

use crate::execution::{
    receipt_fault, receipt_outcomes, receipt_statuses, ExecutionError, MAX_TICKETS,
};
use crate::felt::{values, Felt};
use crate::invoke::{hash_fields, invoke_hash, sdk_hash};
use crate::protocol::{encodable, Intent, IntentView, ProtocolError};
use crate::recorded::{
    batch_fields, law_ticket_form_is_read_back, law_ticket_form_is_unique, leading_ticket,
    status_views, ticket_fault, ticket_fields, ticket_views, ActionStatus, ActionStatusView,
    ExecutionResult, RecordedTicket, RecordedTicketView, TransactionReceipt,
};
use crate::slices::append_felts;
use crate::stark::{
    entry_point, known_selector, selector, sign, signature_of, unsignable,
};
use starknet_providers::jsonrpc::{HttpTransport, JsonRpcClient};
use vstd::prelude::*;
use vstd::slice::slice_subrange;
use vstd::utf8::is_ascii_chars;

verus! {

broadcast use crate::felt::lemma_felt_injective;

/// The number of blocks that a reconnecting client's action is looked for in.
pub const RECONNECT_BLOCKS: u32 = 256;

/// The calldata of an account that makes one call.
pub open spec fn call_fields(to: nat, function: nat, payload: Seq<nat>) -> Seq<nat> {
    seq![1, to, function, payload.len()] + payload
}

/// The calldata of an account that calls a contract's function; a name that is not ASCII names no
/// function.
pub fn invoke_calldata(to: Felt, name: &str, payload: &[Felt]) -> (result: Option<Vec<Felt>>)
    ensures
        result is Some <==> is_ascii_chars(name@),
        result matches Some(fields) ==> values(fields@) == call_fields(
            to@,
            selector(name@),
            values(payload@),
        ),
{
    let function: Felt = entry_point(name)?;
    let length: usize = payload.len();
    let mut fields: Vec<Felt> = Vec::new();
    fields.push(Felt::one());
    fields.push(to);
    fields.push(function);
    fields.push(Felt::from_u64(length as u64));
    let ghost front = fields@;
    append_felts(&mut fields, payload);
    assert(values(fields@) =~= values(front) + values(payload@));
    assert(values(front) =~= seq![1, to@, function@, values(payload@).len()]);
    Some(fields)
}

/// A signed transaction that an account makes one call with, with a bound on the amount of L2 gas and
/// prices of zero.
#[derive(Debug, PartialEq, Eq)]
pub struct PreparedTransaction {
    pub sender_address: Felt,
    pub nonce: Felt,
    pub calldata: Vec<Felt>,
    pub l2_gas: u64,
    pub signature: Vec<Felt>,
}

/// Why no transaction was prepared.
#[derive(Clone, Copy, Debug, PartialEq, Eq, Structural)]
pub enum PrepareError {
    /// The name is not ASCII, so that it names no function.
    Name,
    /// The secret key gives the transaction's hash no signature.
    Signature,
}

/// An account that makes one call a transaction: its chain, its address, its secret key and its bound
/// on the amount of L2 gas.
#[derive(Clone, Copy)]
pub struct CallingAccount {
    pub chain: Felt,
    pub address: Felt,
    pub secret: Felt,
    pub l2_gas: u64,
}

impl CallingAccount {
    /// The values that the hash of a call is computed from: no tip, a bound on the amount of L2 gas
    /// and otherwise no resource, and prices of zero.
    pub open spec fn call_hash_fields(
        self,
        nonce: Felt,
        to: Felt,
        name: Seq<char>,
        payload: Seq<Felt>,
    ) -> Seq<nat> {
        seq![
            self.chain@,
            self.address@,
            nonce@,
            to@,
            selector(name),
            0,
            0,
            0,
            self.l2_gas as nat,
            0,
            0,
            0,
        ] + values(payload)
    }

    /// Whether the secret key signs a hash.
    pub open spec fn signs(self, hash: nat) -> bool {
        !unsignable(self.secret@, hash) && signature_of(self.secret@, hash) is Some
    }

    /// The error that preparing a call meets.
    pub open spec fn prepare_fault(
        self,
        nonce: Felt,
        to: Felt,
        name: Seq<char>,
        payload: Seq<Felt>,
    ) -> Option<PrepareError> {
        if !is_ascii_chars(name) {
            Some(PrepareError::Name)
        } else if !self.signs(invoke_hash(self.call_hash_fields(nonce, to, name, payload))) {
            Some(PrepareError::Signature)
        } else {
            None
        }
    }

    /// The transaction in which the account calls a contract's function, signed with its secret key,
    /// and the transaction's hash.
    pub fn prepare(
        &self,
        rpc: &JsonRpcClient<HttpTransport>,
        nonce: Felt,
        to: Felt,
        name: &str,
        payload: &[Felt],
    ) -> (result: Result<(Felt, PreparedTransaction), PrepareError>)
        ensures
            match result {
                Ok((hash, transaction)) => {
                    &&& self.prepare_fault(nonce, to, name@, payload@) is None
                    &&& hash@ == invoke_hash(self.call_hash_fields(nonce, to, name@, payload@))
                    &&& transaction.sender_address == self.address
                    &&& transaction.nonce == nonce
                    &&& values(transaction.calldata@) == call_fields(
                        to@,
                        selector(name@),
                        values(payload@),
                    )
                    &&& transaction.l2_gas == self.l2_gas
                    &&& values(transaction.signature@) == seq![
                        (signature_of(self.secret@, hash@)->0).0,
                        (signature_of(self.secret@, hash@)->0).1,
                    ]
                },
                Err(error) => self.prepare_fault(nonce, to, name@, payload@) == Some(error),
            },
    {
        let function: Felt = match entry_point(name) {
            Some(function) => function,
            None => {
                return Err(PrepareError::Name);
            },
        };
        let calldata: Vec<Felt> = match invoke_calldata(to, name, payload) {
            Some(calldata) => calldata,
            None => {
                return Err(PrepareError::Name);
            },
        };
        let felts: [Felt; 5] = [self.chain, self.address, nonce, to, function];
        let bounds: [(u64, u128); 3] = [(0, 0), (self.l2_gas, 0), (0, 0)];
        assert(hash_fields(values(felts@), 0, bounds@, values(payload@)) =~= self.call_hash_fields(
            nonce,
            to,
            name@,
            payload@,
        ));
        let hash: Felt = sdk_hash(rpc, felts, 0, bounds, payload);
        match sign(self.secret, hash) {
            Some((r, s)) => {
                let mut signature: Vec<Felt> = Vec::new();
                signature.push(r);
                signature.push(s);
                assert(values(signature@) =~= seq![r@, s@]);
                let transaction: PreparedTransaction = PreparedTransaction {
                    sender_address: self.address,
                    nonce,
                    calldata,
                    l2_gas: self.l2_gas,
                    signature,
                };
                Ok((hash, transaction))
            },
            None => Err(PrepareError::Signature),
        }
    }
}

/// The ticket whose form stands at the start of a sequence.
pub open spec fn first_ticket(fields: Seq<nat>) -> RecordedTicketView {
    choose|ticket: RecordedTicketView|
        ticket.envelope.root.len() == 32 && #[trigger] ticket_fields(ticket) == fields.take(
            leading_ticket(fields),
        )
}

/// The error that reading `count` tickets from the start of a sequence meets.
pub open spec fn tickets_fault(fields: Seq<nat>, count: nat) -> Option<ProtocolError>
    decreases count,
{
    if count == 0 {
        None
    } else if ticket_fault(fields) is Some {
        ticket_fault(fields)
    } else {
        tickets_fault(fields.skip(leading_ticket(fields)), (count - 1) as nat)
    }
}

/// The first `count` tickets of a sequence.
pub open spec fn first_tickets(fields: Seq<nat>, count: nat) -> Seq<RecordedTicketView>
    decreases count,
{
    if count == 0 {
        Seq::empty()
    } else {
        seq![first_ticket(fields)] + first_tickets(
            fields.skip(leading_ticket(fields)),
            (count - 1) as nat,
        )
    }
}

/// What follows the first `count` tickets of a sequence.
pub open spec fn after_tickets(fields: Seq<nat>, count: nat) -> Seq<nat>
    decreases count,
{
    if count == 0 {
        fields
    } else {
        after_tickets(fields.skip(leading_ticket(fields)), (count - 1) as nat)
    }
}

/// The position of the first ticket from `i` on that carries an intent.
pub open spec fn carrier(tickets: Seq<RecordedTicketView>, intent: IntentView, i: int) -> Option<
    int,
>
    decreases tickets.len() - i,
{
    if i >= tickets.len() {
        None
    } else if tickets[i].intent == intent {
        Some(i)
    } else {
        carrier(tickets, intent, i + 1)
    }
}

/// What a receipt says of an intent that one of `count` recorded tickets may carry.
pub open spec fn attributed(
    fields: Seq<nat>,
    count: nat,
    receipt: TransactionReceipt,
    intent: IntentView,
) -> Result<Option<ActionStatusView>, ExecutionError> {
    let tickets = first_tickets(fields, count);
    if count == 0 || count > MAX_TICKETS {
        Err(ExecutionError::RecordedBatchSize)
    } else if tickets_fault(fields, count) is Some {
        Err(ExecutionError::Protocol(tickets_fault(fields, count)->0))
    } else if after_tickets(fields, count).len() != 0 {
        Err(ExecutionError::TrailingData)
    } else if carrier(tickets, intent, 0) is None {
        Ok(None)
    } else if receipt_fault(tickets, receipt) is Some {
        Err(receipt_fault(tickets, receipt)->0)
    } else {
        Ok(
            Some(
                receipt_statuses(tickets, receipt.transaction_hash, receipt)[carrier(
                    tickets,
                    intent,
                    0,
                )->0],
            ),
        )
    }
}

/// What a recorded transaction says of an intent: nothing, unless it calls the intent's deployment
/// to execute or reject tickets one of which carries the intent.
pub open spec fn recorded(calldata: Seq<nat>, receipt: TransactionReceipt, intent: IntentView) -> Result<
    Option<ActionStatusView>,
    ExecutionError,
> {
    let payload = calldata.skip(4);
    if calldata.len() < 4 || calldata[0] != 1 || calldata[1] != intent.deployment@ {
        Ok(None)
    } else if calldata[3] > usize::MAX {
        Err(ExecutionError::Value)
    } else if calldata[3] != payload.len() {
        Ok(None)
    } else if calldata[2] == selector("execute_batch"@) {
        if payload.len() == 0 {
            Err(ExecutionError::TruncatedBatch)
        } else if payload[0] > usize::MAX {
            Err(ExecutionError::Value)
        } else {
            attributed(payload.skip(1), payload[0], receipt, intent)
        }
    } else if calldata[2] == selector("execute"@) || calldata[2] == selector(
        "reject_execution"@,
    ) {
        attributed(payload, 1, receipt, intent)
    } else {
        Ok(None)
    }
}

/// A status by its fields, where there is one.
pub open spec fn optional_status(status: Option<ActionStatus>) -> Option<ActionStatusView> {
    match status {
        Some(status) => Some(status@),
        None => None,
    }
}

/// A looked-up status by its fields.
pub open spec fn status_result(result: Result<Option<ActionStatus>, ExecutionError>) -> Result<
    Option<ActionStatusView>,
    ExecutionError,
> {
    match result {
        Ok(status) => Ok(optional_status(status)),
        Err(error) => Err(error),
    }
}

/// The ticket that `take_calldata` reads is the one that the elements determine.
proof fn lemma_first_ticket(ticket: RecordedTicketView, fields: Seq<nat>)
    requires
        ticket.envelope.root.len() == 32,
        ticket_fields(ticket) == fields.take(leading_ticket(fields)),
    ensures
        first_ticket(fields) == ticket,
{
    let found = first_ticket(fields);
    law_ticket_form_is_unique(found, Seq::empty(), ticket, Seq::empty());
}

/// The first `count` tickets of a slice, and the number of elements that they take.
fn take_tickets(fields: &[Felt], count: usize) -> (result: Result<
    (Vec<RecordedTicket>, usize),
    ProtocolError,
>)
    ensures
        match result {
            Ok((tickets, length)) => {
                &&& tickets_fault(values(fields@), count as nat) is None
                &&& ticket_views(tickets@) == first_tickets(values(fields@), count as nat)
                &&& length <= fields@.len()
                &&& values(fields@).skip(length as int) == after_tickets(
                    values(fields@),
                    count as nat,
                )
            },
            Err(error) => tickets_fault(values(fields@), count as nat) == Some(error),
        },
{
    let ghost all = values(fields@);
    let length: usize = fields.len();
    let mut tickets: Vec<RecordedTicket> = Vec::new();
    let mut at: usize = 0;
    let mut i: usize = 0;
    proof {
        assert(all.skip(0) =~= all);
        assert(first_tickets(all, count as nat) =~= ticket_views(tickets@) + first_tickets(
            all.skip(0),
            count as nat,
        ));
    }
    while i < count
        invariant
            i <= count,
            at <= length == fields@.len(),
            all == values(fields@),
            tickets@.len() == i,
            tickets_fault(all, count as nat) == tickets_fault(
                all.skip(at as int),
                (count - i) as nat,
            ),
            after_tickets(all, count as nat) == after_tickets(
                all.skip(at as int),
                (count - i) as nat,
            ),
            first_tickets(all, count as nat) == ticket_views(tickets@) + first_tickets(
                all.skip(at as int),
                (count - i) as nat,
            ),
        decreases count - i,
    {
        let rest: &[Felt] = slice_subrange(fields, at, length);
        let ghost tail = all.skip(at as int);
        assert(values(rest@) =~= tail);
        let (ticket, taken) = RecordedTicket::take_calldata(rest)?;
        proof {
            lemma_first_ticket(ticket@, tail);
            assert(tail.skip(taken as int) =~= all.skip(at + taken));
            assert(ticket_views(tickets@.push(ticket)) =~= ticket_views(tickets@).push(ticket@));
            assert(first_tickets(all, count as nat) =~= ticket_views(tickets@.push(ticket))
                + first_tickets(all.skip(at + taken), (count - i - 1) as nat));
        }
        tickets.push(ticket);
        at = at + taken;
        i = i + 1;
    }
    assert(ticket_views(tickets@) + first_tickets(all.skip(at as int), 0) =~= ticket_views(
        tickets@,
    ));
    Ok((tickets, at))
}

/// What a receipt says of an intent that one of `count` recorded tickets may carry.
fn attribute(fields: &[Felt], count: usize, receipt: &TransactionReceipt, intent: &Intent) -> (result:
    Result<Option<ActionStatus>, ExecutionError>)
    ensures
        status_result(result) == attributed(values(fields@), count as nat, *receipt, intent@),
{
    if count == 0 || count > MAX_TICKETS {
        return Err(ExecutionError::RecordedBatchSize);
    }
    let (tickets, length) = match take_tickets(fields, count) {
        Ok(taken) => taken,
        Err(error) => {
            return Err(ExecutionError::Protocol(error));
        },
    };
    if length != fields.len() {
        return Err(ExecutionError::TrailingData);
    }
    let ghost views = ticket_views(tickets@);
    let mut i: usize = 0;
    while i < tickets.len() && !tickets[i].intent.same(intent)
        invariant
            i <= tickets@.len(),
            views == ticket_views(tickets@),
            carrier(views, intent@, 0) == carrier(views, intent@, i as int),
        decreases tickets@.len() - i,
    {
        assert(views[i as int] == tickets@[i as int]@);
        i = i + 1;
    }
    if i == tickets.len() {
        return Ok(None);
    }
    assert(views[i as int] == tickets@[i as int]@);
    let statuses: Vec<ActionStatus> = receipt_outcomes(
        &tickets,
        receipt.transaction_hash,
        receipt,
    )?;
    assert(statuses@.len() == status_views(statuses@).len());
    assert(status_views(statuses@)[i as int] == statuses@[i as int]@);
    Ok(Some(statuses[i].clone()))
}

/// The selector of the function that executes a batch.
fn execute_batch_selector() -> (result: Felt)
    ensures
        result@ == selector("execute_batch"@),
{
    proof {
        reveal_strlit("execute_batch");
    }
    known_selector("execute_batch")
}

/// The selector of the function that executes one ticket.
fn execute_selector() -> (result: Felt)
    ensures
        result@ == selector("execute"@),
{
    proof {
        reveal_strlit("execute");
    }
    known_selector("execute")
}

/// The selector of the function that rejects one ticket.
fn reject_selector() -> (result: Felt)
    ensures
        result@ == selector("reject_execution"@),
{
    proof {
        reveal_strlit("reject_execution");
    }
    known_selector("reject_execution")
}

/// What a recorded transaction says of an intent.
pub fn recorded_intent(calldata: &[Felt], receipt: &TransactionReceipt, intent: &Intent) -> (result:
    Result<Option<ActionStatus>, ExecutionError>)
    ensures
        status_result(result) == recorded(values(calldata@), *receipt, intent@),
{
    let ghost fields = values(calldata@);
    let length: usize = calldata.len();
    if length < 4 {
        return Ok(None);
    }
    assert forall|i: int| 0 <= i < fields.len() implies #[trigger] fields[i] == calldata@[i]@ by {}
    if calldata[0] != Felt::one() || calldata[1] != intent.deployment {
        return Ok(None);
    }
    match calldata[3].to_usize() {
        Some(stated) => if stated != length - 4 {
            return Ok(None);
        },
        None => {
            return Err(ExecutionError::Value);
        },
    }
    let payload: &[Felt] = slice_subrange(calldata, 4, length);
    assert(values(payload@) =~= fields.skip(4));
    let function: Felt = calldata[2];
    if function == execute_batch_selector() {
        if payload.len() == 0 {
            return Err(ExecutionError::TruncatedBatch);
        }
        let count: usize = match payload[0].to_usize() {
            Some(count) => count,
            None => {
                return Err(ExecutionError::Value);
            },
        };
        let rest: &[Felt] = slice_subrange(payload, 1, payload.len());
        assert(values(rest@) =~= fields.skip(4).skip(1));
        attribute(rest, count, receipt, intent)
    } else if function == execute_selector() || function == reject_selector() {
        attribute(payload, 1, receipt, intent)
    } else {
        Ok(None)
    }
}

/// The forms of a batch's tickets are read back as those tickets, and nothing is left over.
pub proof fn law_batch_is_read_back(tickets: Seq<RecordedTicketView>)
    requires
        forall|i: int|
            0 <= i < tickets.len() ==> encodable(#[trigger] tickets[i].intent)
                && tickets[i].envelope.root.len() == 32,
    ensures
        tickets_fault(batch_fields(tickets), tickets.len()) is None,
        first_tickets(batch_fields(tickets), tickets.len()) == tickets,
        after_tickets(batch_fields(tickets), tickets.len()).len() == 0,
    decreases tickets.len(),
{
    if tickets.len() > 0 {
        let fields = batch_fields(tickets);
        let rest = batch_fields(tickets.skip(1));
        assert(encodable(tickets[0].intent));
        law_ticket_form_is_read_back(tickets[0], rest);
        assert(fields.take(leading_ticket(fields)) =~= ticket_fields(tickets[0]));
        assert(fields.skip(leading_ticket(fields)) =~= rest);
        lemma_first_ticket(tickets[0], fields);
        assert forall|i: int| 0 <= i < tickets.skip(1).len() implies encodable(
            #[trigger] tickets.skip(1)[i].intent,
        ) && tickets.skip(1)[i].envelope.root.len() == 32 by {
            assert(tickets.skip(1)[i] == tickets[i + 1]);
            assert(encodable(tickets[i + 1].intent));
        }
        law_batch_is_read_back(tickets.skip(1));
        assert(first_tickets(fields, tickets.len()) =~= tickets);
    } else {
        assert(first_tickets(batch_fields(tickets), 0) =~= tickets);
    }
}

/// The transaction that executes a batch is recognized by each intent in it: what its receipt says
/// of the ticket is what the intent's client is told.
pub proof fn law_submitted_batch_is_recognized(
    tickets: Seq<RecordedTicketView>,
    receipt: TransactionReceipt,
    i: int,
)
    requires
        0 < tickets.len() <= MAX_TICKETS,
        forall|k: int|
            0 <= k < tickets.len() ==> encodable(#[trigger] tickets[k].intent)
                && tickets[k].envelope.root.len() == 32,
        0 <= i < tickets.len(),
        forall|k: int| 0 <= k < i ==> (#[trigger] tickets[k]).intent != tickets[i].intent,
        receipt_fault(tickets, receipt) is None,
        batch_fields(tickets).len() < usize::MAX,
    ensures
        recorded(
            call_fields(
                tickets[i].intent.deployment@,
                selector("execute_batch"@),
                crate::execution::payload_fields(tickets, false),
            ),
            receipt,
            tickets[i].intent,
        ) == Ok::<Option<ActionStatusView>, ExecutionError>(
            Some(receipt_statuses(tickets, receipt.transaction_hash, receipt)[i]),
        ),
{
    let payload = crate::execution::payload_fields(tickets, false);
    let calldata = call_fields(
        tickets[i].intent.deployment@,
        selector("execute_batch"@),
        payload,
    );
    assert(calldata.skip(4) =~= payload);
    assert(payload.skip(1) =~= batch_fields(tickets));
    law_batch_is_read_back(tickets);
    lemma_carrier(tickets, i, 0);
}

/// The first ticket that carries an intent is found.
proof fn lemma_carrier(tickets: Seq<RecordedTicketView>, i: int, from: int)
    requires
        0 <= from <= i < tickets.len(),
        forall|k: int| 0 <= k < i ==> (#[trigger] tickets[k]).intent != tickets[i].intent,
    ensures
        carrier(tickets, tickets[i].intent, from) == Some(i),
    decreases i - from,
{
    if from < i {
        assert(tickets[from].intent != tickets[i].intent);
        lemma_carrier(tickets, i, from + 1);
    }
}

/// The call that an invoke transaction makes.
pub struct InvokeCall {
    pub sender_address: Felt,
    pub calldata: Vec<Felt>,
}

/// A transaction of a block; only an invoke transaction makes a call.
pub struct BlockTransaction {
    pub invoke: Option<InvokeCall>,
    pub receipt: TransactionReceipt,
}

/// Whether a transaction is one that an account sent and that succeeded.
pub open spec fn sent_by(transaction: BlockTransaction, account: Felt) -> bool {
    &&& transaction.invoke matches Some(invoke) && invoke.sender_address == account
    &&& transaction.receipt.execution_result is Succeeded
}

/// What the latest of the first `i` transactions of a block that says anything of an intent says.
pub open spec fn scanned(
    transactions: Seq<BlockTransaction>,
    i: int,
    account: Felt,
    intent: IntentView,
) -> Result<Option<ActionStatusView>, ExecutionError>
    decreases i,
{
    if i <= 0 {
        Ok(None)
    } else {
        let transaction = transactions[i - 1];
        let found = recorded(
            values(transaction.invoke->0.calldata@),
            transaction.receipt,
            intent,
        );
        if sent_by(transaction, account) && !(found matches Ok(None)) {
            found
        } else {
            scanned(transactions, i - 1, account, intent)
        }
    }
}

/// What a block says of an intent, its latest transaction first.
pub fn scan_block(transactions: &[BlockTransaction], account: Felt, intent: &Intent) -> (result:
    Result<Option<ActionStatus>, ExecutionError>)
    ensures
        status_result(result) == scanned(
            transactions@,
            transactions@.len() as int,
            account,
            intent@,
        ),
{
    let mut i: usize = transactions.len();
    while i > 0
        invariant
            i <= transactions@.len(),
            scanned(transactions@, transactions@.len() as int, account, intent@) == scanned(
                transactions@,
                i as int,
                account,
                intent@,
            ),
        decreases i,
    {
        let transaction: &BlockTransaction = &transactions[i - 1];
        if let Some(invoke) = &transaction.invoke {
            if invoke.sender_address == account && matches!(transaction.receipt.execution_result, ExecutionResult::Succeeded) {
                let found: Option<ActionStatus> = recorded_intent(
                    &invoke.calldata,
                    &transaction.receipt,
                    intent,
                )?;
                if found.is_some() {
                    return Ok(found);
                }
            }
        }
        i = i - 1;
    }
    Ok(None)
}

/// How many more blocks a reconnecting client's action is looked for in.
pub struct ReconnectScan {
    remaining: u32,
}

impl View for ReconnectScan {
    type V = nat;

    closed spec fn view(&self) -> nat {
        self.remaining as nat
    }
}

impl ReconnectScan {
    /// A look through the latest blocks.
    pub fn start() -> (result: ReconnectScan)
        ensures
            result@ == RECONNECT_BLOCKS,
    {
        ReconnectScan { remaining: RECONNECT_BLOCKS }
    }

    /// Whether one more block is looked at.
    pub fn take(&mut self) -> (result: bool)
        ensures
            result == (old(self)@ > 0),
            final(self)@ == (if old(self)@ > 0 {
                (old(self)@ - 1) as nat
            } else {
                0
            }),
    {
        if self.remaining == 0 {
            return false;
        }
        self.remaining = self.remaining - 1;
        true
    }
}

/// Why an answer of the node was not understood, or a submission not observed to its end.
#[derive(Clone, Copy, Debug, PartialEq, Eq, Structural)]
pub enum NodeError {
    /// The head has the wrong number of elements.
    MalformedHead,
    /// A number is out of range.
    Value,
    /// The node accepted the transaction under another hash.
    DifferentHash,
    /// The node did not take the transaction.
    NotSubmitted,
    /// The node stopped reporting on its transactions.
    ObservationStopped,
    /// The executor stopped reporting its refusals.
    RefusalStopped,
    /// The node stopped reporting on a retained transaction.
    RetainedStopped,
}

/// A node error in words.
pub open spec fn node_error_text(error: NodeError) -> Seq<char> {
    match error {
        NodeError::MalformedHead => "malformed execution head"@,
        NodeError::Value => "Failed to convert `Felt` into primitive type"@,
        NodeError::DifferentHash => "validated submission returned a different hash"@,
        NodeError::NotSubmitted => "node did not take the submission"@,
        NodeError::ObservationStopped => "node transaction observation stopped"@,
        NodeError::RefusalStopped => "execution refusal observation stopped"@,
        NodeError::RetainedStopped => "retained transaction observer stopped"@,
    }
}

impl NodeError {
    /// The error in words.
    pub fn message(&self) -> (result: &'static str)
        ensures
            result@ == node_error_text(*self),
    {
        match self {
            NodeError::MalformedHead => "malformed execution head",
            NodeError::Value => "Failed to convert `Felt` into primitive type",
            NodeError::DifferentHash => "validated submission returned a different hash",
            NodeError::NotSubmitted => "node did not take the submission",
            NodeError::ObservationStopped => "node transaction observation stopped",
            NodeError::RefusalStopped => "execution refusal observation stopped",
            NodeError::RetainedStopped => "retained transaction observer stopped",
        }
    }
}

/// The head of the recorded actions.
#[derive(Clone, Copy, Debug, PartialEq, Eq, Structural)]
pub struct Head {
    pub order: u64,
    pub timestamp: u64,
    pub state: Felt,
}

/// The head that the deployment's view returns.
pub fn decode_head(fields: &[Felt]) -> (result: Result<Head, NodeError>)
    ensures
        match result {
            Ok(head) => values(fields@) == seq![
                head.order as nat,
                head.timestamp as nat,
                head.state@,
            ],
            Err(NodeError::MalformedHead) => fields@.len() != 3,
            Err(error) => error == NodeError::Value && fields@.len() == 3 && (fields@[0]@
                > u64::MAX || fields@[1]@ > u64::MAX),
        },
{
    if fields.len() != 3 {
        return Err(NodeError::MalformedHead);
    }
    match (fields[0].to_u64(), fields[1].to_u64()) {
        (Some(order), Some(timestamp)) => {
            let head: Head = Head { order, timestamp, state: fields[2] };
            assert(values(fields@) =~= seq![order as nat, timestamp as nat, head.state@]);
            Ok(head)
        },
        _ => Err(NodeError::Value),
    }
}

/// A transaction that a node holds without having included it.
#[derive(Clone, Copy, Debug, PartialEq, Eq, Structural)]
pub struct HeldTransaction {
    pub hash: Felt,
    pub contract_address: Felt,
}

/// Whether an account sent a transaction with the given hash.
pub open spec fn holds(transactions: Seq<HeldTransaction>, account: Felt, hash: Felt) -> bool {
    exists|i: int|
        0 <= i < transactions.len() && #[trigger] transactions[i] == (HeldTransaction {
            hash,
            contract_address: account,
        })
}

/// Whether hashes are in increasing order, none of them twice.
pub open spec fn increasing(hashes: Seq<Felt>) -> bool {
    forall|i: int, j: int|
        0 <= i < j < hashes.len() ==> (#[trigger] hashes[i])@ < (#[trigger] hashes[j])@
}

/// Adds a hash to hashes in increasing order, where it is not among them.
fn insert_hash(hashes: &mut Vec<Felt>, hash: Felt)
    requires
        increasing(old(hashes)@),
    ensures
        increasing(final(hashes)@),
        forall|felt: Felt|
            final(hashes)@.contains(felt) <==> old(hashes)@.contains(felt) || felt == hash,
{
    let mut at: usize = 0;
    while at < hashes.len() && hashes[at].less_than(&hash)
        invariant
            at <= hashes@.len(),
            hashes@ == old(hashes)@,
            forall|k: int| 0 <= k < at ==> (#[trigger] hashes@[k])@ < hash@,
        decreases hashes@.len() - at,
    {
        at = at + 1;
    }
    let ghost before = hashes@;
    if at < hashes.len() && hashes[at] == hash {
        assert(before[at as int] == hash);
        return ;
    }
    hashes.insert(at, hash);
    proof {
        let after = hashes@;
        assert(after =~= before.insert(at as int, hash));
        if at < before.len() {
            assert(before[at as int]@ != hash@);
            assert(before[at as int]@ > hash@);
            assert forall|k: int| at <= k < before.len() implies (#[trigger] before[k])@ > hash@ by {
                if k > at {
                    assert(before[at as int]@ < before[k]@);
                }
            }
        }
        assert forall|i: int, j: int| 0 <= i < j < after.len() implies (#[trigger] after[i])@ < (
        #[trigger] after[j])@ by {
            if i < at {
                assert(after[i] == before[i]);
                if j > at {
                    assert(after[j] == before[j - 1]);
                } else if j < at {
                    assert(after[j] == before[j]);
                }
            } else if i == at {
                assert(after[j] == before[j - 1]);
            } else {
                assert(after[i] == before[i - 1]);
                assert(after[j] == before[j - 1]);
            }
        }
        assert forall|felt: Felt| after.contains(felt) <==> before.contains(felt) || felt
            == hash by {
            if before.contains(felt) {
                let k = choose|k: int| 0 <= k < before.len() && before[k] == felt;
                if k < at {
                    assert(after[k] == felt);
                } else {
                    assert(after[k + 1] == felt);
                }
            }
            if felt == hash {
                assert(after[at as int] == felt);
            }
            if after.contains(felt) {
                let k = choose|k: int| 0 <= k < after.len() && after[k] == felt;
                if k < at {
                    assert(before[k] == felt);
                } else if k > at {
                    assert(before[k - 1] == felt);
                }
            }
        }
    }
}

/// Adds the hashes of an account's transactions to hashes in increasing order.
fn insert_held(hashes: &mut Vec<Felt>, transactions: &[HeldTransaction], account: Felt)
    requires
        increasing(old(hashes)@),
    ensures
        increasing(final(hashes)@),
        forall|felt: Felt|
            final(hashes)@.contains(felt) <==> old(hashes)@.contains(felt) || holds(
                transactions@,
                account,
                felt,
            ),
{
    let ghost before = hashes@;
    let mut i: usize = 0;
    while i < transactions.len()
        invariant
            i <= transactions@.len(),
            increasing(hashes@),
            forall|felt: Felt|
                #[trigger] hashes@.contains(felt) <==> before.contains(felt) || holds(
                    transactions@.take(i as int),
                    account,
                    felt,
                ),
        decreases transactions@.len() - i,
    {
        let ghost earlier = hashes@;
        let transaction: HeldTransaction = transactions[i];
        if transaction.contract_address == account {
            insert_hash(hashes, transaction.hash);
        }
        proof {
            let (part, more) = (transactions@.take(i as int), transactions@.take(i + 1));
            assert forall|felt: Felt| #[trigger]
                hashes@.contains(felt) <==> before.contains(felt) || holds(
                more,
                account,
                felt,
            ) by {
                assert(earlier.contains(felt) <==> before.contains(felt) || holds(
                    part,
                    account,
                    felt,
                ));
                if holds(part, account, felt) {
                    let k = choose|k: int|
                        0 <= k < part.len() && #[trigger] part[k] == (HeldTransaction {
                            hash: felt,
                            contract_address: account,
                        });
                    assert(more[k] == part[k]);
                }
                if holds(more, account, felt) {
                    let k = choose|k: int|
                        0 <= k < more.len() && #[trigger] more[k] == (HeldTransaction {
                            hash: felt,
                            contract_address: account,
                        });
                    if k < i {
                        assert(part[k] == more[k]);
                    }
                }
                if transaction.contract_address == account && felt == transaction.hash {
                    assert(more[i as int] == transaction);
                }
            }
        }
        i = i + 1;
    }
    assert(transactions@.take(i as int) =~= transactions@);
}

/// The hashes of the transactions that an account left in the mempool or among the candidates, in
/// increasing order, each once.
pub fn retained_hashes(
    mempool: &[HeldTransaction],
    candidates: &[HeldTransaction],
    account: Felt,
) -> (result: Vec<Felt>)
    ensures
        increasing(result@),
        forall|hash: Felt|
            result@.contains(hash) <==> holds(mempool@, account, hash) || holds(
                candidates@,
                account,
                hash,
            ),
{
    let mut hashes: Vec<Felt> = Vec::new();
    insert_held(&mut hashes, mempool, account);
    insert_held(&mut hashes, candidates, account);
    hashes
}

/// Where the wait for a retained transaction stands.
#[derive(Clone, Copy, Debug, PartialEq, Eq, Structural)]
pub enum RetainedStage {
    /// The node is to be asked for the transaction.
    Observe,
    /// The transaction is on its way: news of it is awaited.
    Wait,
    /// The transaction was included, or the node let go of it.
    Settled,
}

/// What was learned of a retained transaction.
#[derive(Clone, Copy, Debug, PartialEq, Eq, Structural)]
pub enum RetainedEvent {
    /// Whether the chain holds its receipt, whether the node reports a status of it and whether it
    /// is a candidate for the next block. A restored candidate may have no status yet.
    Observed { receipt: bool, status: bool, candidate: bool },
    /// News of the transaction came, or its source ended.
    News(bool),
}

/// What an event makes of the wait for a retained transaction. An event that the stage does not
/// wait for changes nothing.
pub open spec fn retained_next(stage: RetainedStage, event: RetainedEvent) -> Result<
    RetainedStage,
    NodeError,
> {
    match (stage, event) {
        (RetainedStage::Observe, RetainedEvent::Observed { receipt, status, candidate }) => {
            if !receipt && (status || candidate) {
                Ok(RetainedStage::Wait)
            } else {
                Ok(RetainedStage::Settled)
            }
        },
        (RetainedStage::Wait, RetainedEvent::News(live)) => if live {
            Ok(RetainedStage::Observe)
        } else {
            Err(NodeError::RetainedStopped)
        },
        _ => Ok(stage),
    }
}

/// Goes on with the wait for a retained transaction after an event.
pub fn retained_step(stage: RetainedStage, event: RetainedEvent) -> (result: Result<
    RetainedStage,
    NodeError,
>)
    ensures
        result == retained_next(stage, event),
{
    match (stage, event) {
        (RetainedStage::Observe, RetainedEvent::Observed { receipt, status, candidate }) => {
            if !receipt && (status || candidate) {
                Ok(RetainedStage::Wait)
            } else {
                Ok(RetainedStage::Settled)
            }
        },
        (RetainedStage::Wait, RetainedEvent::News(live)) => if live {
            Ok(RetainedStage::Observe)
        } else {
            Err(NodeError::RetainedStopped)
        },
        _ => Ok(stage),
    }
}

/// Orders are assigned only past every retained transaction: the wait for one ends only where the
/// chain holds its receipt or the node holds it no longer.
pub proof fn law_retained_transactions_are_drained(stage: RetainedStage, event: RetainedEvent)
    requires
        !(stage is Settled),
        retained_next(stage, event) == Ok::<RetainedStage, NodeError>(RetainedStage::Settled),
    ensures
        event matches RetainedEvent::Observed { receipt, status, candidate } && (receipt || !status
            && !candidate),
{
}

/// Where the submission of a transaction to the node stands.
#[derive(Clone, Copy, Debug, PartialEq, Eq, Structural)]
pub enum SubmissionStage {
    /// The chain may hold the receipt already.
    FirstReceipt,
    /// The node may hold the transaction already.
    Status,
    /// The transaction is to be submitted.
    Submit,
    /// The submission failed, perhaps after the node took the transaction.
    Confirm,
    /// The receipt is looked for.
    Receipt,
    /// There is no receipt: a refusal is looked for.
    Refusal,
    /// There is neither: news of either is awaited.
    Wait,
    /// The chain holds the receipt.
    Included,
    /// The executor refused the transaction.
    Refused,
}

/// What was observed while a transaction was submitted.
#[derive(Clone, Copy, Debug, PartialEq, Eq, Structural)]
pub enum SubmissionEvent {
    /// Whether the chain holds the receipt.
    Receipt(bool),
    /// Whether the node holds the transaction.
    Status(bool),
    /// The node took a transaction with the given hash.
    Accepted(Felt),
    /// The submission failed.
    Failed,
    /// Whether the executor refused the transaction.
    Refusal(bool),
    /// News of the transaction came, or its source ended.
    StatusNews(bool),
    /// News of a refusal came, or its source ended.
    RefusalNews(bool),
}

/// What an event makes of the submission of the transaction with a hash. An event that the stage
/// does not wait for changes nothing.
pub open spec fn submission_next(
    stage: SubmissionStage,
    event: SubmissionEvent,
    hash: Felt,
) -> Result<SubmissionStage, NodeError> {
    match (stage, event) {
        (SubmissionStage::FirstReceipt, SubmissionEvent::Receipt(found)) => if found {
            Ok(SubmissionStage::Included)
        } else {
            Ok(SubmissionStage::Status)
        },
        (SubmissionStage::Status, SubmissionEvent::Status(held)) => if held {
            Ok(SubmissionStage::Receipt)
        } else {
            Ok(SubmissionStage::Submit)
        },
        (SubmissionStage::Submit, SubmissionEvent::Accepted(accepted)) => if accepted == hash {
            Ok(SubmissionStage::Receipt)
        } else {
            Err(NodeError::DifferentHash)
        },
        (SubmissionStage::Submit, SubmissionEvent::Failed) => Ok(SubmissionStage::Confirm),
        (SubmissionStage::Confirm, SubmissionEvent::Status(held)) => if held {
            Ok(SubmissionStage::Receipt)
        } else {
            Err(NodeError::NotSubmitted)
        },
        (SubmissionStage::Receipt, SubmissionEvent::Receipt(found)) => if found {
            Ok(SubmissionStage::Included)
        } else {
            Ok(SubmissionStage::Refusal)
        },
        (SubmissionStage::Refusal, SubmissionEvent::Refusal(refused)) => if refused {
            Ok(SubmissionStage::Refused)
        } else {
            Ok(SubmissionStage::Wait)
        },
        (SubmissionStage::Wait, SubmissionEvent::StatusNews(live)) => if live {
            Ok(SubmissionStage::Receipt)
        } else {
            Err(NodeError::ObservationStopped)
        },
        (SubmissionStage::Wait, SubmissionEvent::RefusalNews(live)) => if live {
            Ok(SubmissionStage::Receipt)
        } else {
            Err(NodeError::RefusalStopped)
        },
        _ => Ok(stage),
    }
}

/// Goes on with the submission of a transaction after an event.
pub fn submission_step(stage: SubmissionStage, event: SubmissionEvent, hash: Felt) -> (result:
    Result<SubmissionStage, NodeError>)
    ensures
        result == submission_next(stage, event, hash),
{
    match (stage, event) {
        (SubmissionStage::FirstReceipt, SubmissionEvent::Receipt(found)) => if found {
            Ok(SubmissionStage::Included)
        } else {
            Ok(SubmissionStage::Status)
        },
        (SubmissionStage::Status, SubmissionEvent::Status(held)) => if held {
            Ok(SubmissionStage::Receipt)
        } else {
            Ok(SubmissionStage::Submit)
        },
        (SubmissionStage::Submit, SubmissionEvent::Accepted(accepted)) => if accepted == hash {
            Ok(SubmissionStage::Receipt)
        } else {
            Err(NodeError::DifferentHash)
        },
        (SubmissionStage::Submit, SubmissionEvent::Failed) => Ok(SubmissionStage::Confirm),
        (SubmissionStage::Confirm, SubmissionEvent::Status(held)) => if held {
            Ok(SubmissionStage::Receipt)
        } else {
            Err(NodeError::NotSubmitted)
        },
        (SubmissionStage::Receipt, SubmissionEvent::Receipt(found)) => if found {
            Ok(SubmissionStage::Included)
        } else {
            Ok(SubmissionStage::Refusal)
        },
        (SubmissionStage::Refusal, SubmissionEvent::Refusal(refused)) => if refused {
            Ok(SubmissionStage::Refused)
        } else {
            Ok(SubmissionStage::Wait)
        },
        (SubmissionStage::Wait, SubmissionEvent::StatusNews(live)) => if live {
            Ok(SubmissionStage::Receipt)
        } else {
            Err(NodeError::ObservationStopped)
        },
        (SubmissionStage::Wait, SubmissionEvent::RefusalNews(live)) => if live {
            Ok(SubmissionStage::Receipt)
        } else {
            Err(NodeError::RefusalStopped)
        },
        _ => Ok(stage),
    }
}

/// A transaction is submitted at most once: nothing that follows its submission leads back to it.
pub proof fn law_transaction_is_submitted_once(
    stage: SubmissionStage,
    events: Seq<SubmissionEvent>,
    hash: Felt,
)
    requires
        !(stage is FirstReceipt || stage is Status || stage is Submit),
    ensures
        ({
            let after = submission_run(stage, events, hash);
            after matches Ok(after) ==> !(after is FirstReceipt || after is Status
                || after is Submit)
        }),
    decreases events.len(),
{
    if events.len() > 0 {
        law_transaction_is_submitted_once(stage, events.drop_last(), hash);
    }
}

/// What a sequence of events makes of a submission.
pub open spec fn submission_run(
    stage: SubmissionStage,
    events: Seq<SubmissionEvent>,
    hash: Felt,
) -> Result<SubmissionStage, NodeError>
    decreases events.len(),
{
    if events.len() == 0 {
        Ok(stage)
    } else {
        match submission_run(stage, events.drop_last(), hash) {
            Ok(before) => submission_next(before, events.last(), hash),
            Err(error) => Err(error),
        }
    }
}

/// An account's calldata for one call holds the count of one, the contract, the selector of the
/// function's name, the payload's length and the payload, in this order.
#[verifier::spinoff_prover]
pub proof fn law_call_is_made_of_its_parts(
    to: Felt,
    name: &str,
    payload: &[Felt],
    result: Option<Vec<Felt>>,
)
    requires
        call_ensures(invoke_calldata, (to, name, payload), result),
    ensures
        result is Some <==> is_ascii_chars(name@),
        result is Some ==> {
            let fields = result->0@;
            &&& fields.len() == 4 + payload@.len()
            &&& fields[0]@ == 1
            &&& fields[1] == to
            &&& fields[2]@ == selector(name@)
            &&& fields[3]@ == payload@.len()
            &&& fields.skip(4) == payload@
        },
{
    if result is Some {
        let fields = result->0@;
        let form = values(fields);
        assert(form.len() == fields.len());
        assert(values(payload@).len() == payload@.len());
        assert(form[0] == fields[0]@ && form[1] == fields[1]@ && form[2] == fields[2]@ && form[3]
            == fields[3]@);
        assert forall|i: int| 0 <= i < payload@.len() implies fields.skip(4)[i] == payload@[i] by {
            assert(form[4 + i] == values(payload@)[i]);
            assert(form[4 + i] == fields[4 + i]@);
            assert(values(payload@)[i] == payload@[i]@);
        }
        assert(fields.skip(4) =~= payload@);
    }
}

/// A prepared transaction makes the call that was asked for, under the account's address, the given
/// nonce and its bound on L2 gas, and carries the signature that the account's secret gives its hash.
/// The hash is that of the call without a tip and without any other bound or price.
#[verifier::spinoff_prover]
pub proof fn law_prepared_transaction_is_the_signed_call(
    account: &CallingAccount,
    rpc: &JsonRpcClient<HttpTransport>,
    nonce: Felt,
    to: Felt,
    name: &str,
    payload: &[Felt],
    calldata: Option<Vec<Felt>>,
    result: Result<(Felt, PreparedTransaction), PrepareError>,
    signature: Option<(Felt, Felt)>,
)
    requires
        call_ensures(invoke_calldata, (to, name, payload), calldata),
        call_ensures(CallingAccount::prepare, (account, rpc, nonce, to, name, payload), result),
        result is Ok ==> call_ensures(sign, (account.secret, (result->Ok_0).0), signature),
    ensures
        calldata is None <==> result == Err::<(Felt, PreparedTransaction), PrepareError>(
            PrepareError::Name,
        ),
        result is Ok ==> {
            let (hash, transaction) = result->Ok_0;
            &&& transaction.calldata@ == calldata->0@
            &&& transaction.sender_address == account.address
            &&& transaction.nonce == nonce
            &&& transaction.l2_gas == account.l2_gas
            &&& signature is Some
            &&& transaction.signature@ == seq![(signature->0).0, (signature->0).1]
            &&& hash@ == invoke_hash(
                seq![
                    account.chain@,
                    account.address@,
                    nonce@,
                    to@,
                    selector(name@),
                    0,
                    0,
                    0,
                    account.l2_gas as nat,
                    0,
                    0,
                    0,
                ] + values(payload@),
            )
        },
{
    if result is Ok {
        let (hash, transaction) = result->Ok_0;
        crate::felt::lemma_values_injective(transaction.calldata@, calldata->0@);
        let given = seq![(signature->0).0, (signature->0).1];
        assert(values(given) =~= seq![(signature->0).0@, (signature->0).1@]);
        crate::felt::lemma_values_injective(transaction.signature@, given);
    }
}

/// The head's three elements are the order, the time and the state, in this order; the first two must
/// be numbers of sixty-four bits.
pub proof fn law_head_is_read_by_its_elements(fields: &[Felt], result: Result<Head, NodeError>)
    requires
        call_ensures(decode_head, (fields,), result),
    ensures
        result is Ok <==> fields@.len() == 3 && fields@[0]@ <= u64::MAX && fields@[1]@ <= u64::MAX,
        result is Ok ==> result->Ok_0.order == fields@[0]@ && result->Ok_0.timestamp == fields@[1]@
            && result->Ok_0.state == fields@[2],
        fields@.len() != 3 ==> result == Err::<Head, NodeError>(NodeError::MalformedHead),
        fields@.len() == 3 && result is Err ==> result->Err_0 == NodeError::Value,
{
    if result is Ok {
        let form = values(fields@);
        assert(form.len() == fields@.len());
        assert(form[0] == fields@[0]@ && form[1] == fields@[1]@ && form[2] == fields@[2]@);
    }
}

/// What was submitted is recognized: the transaction in which an account executes a batch, or rejects
/// a ticket, says of each intent in it what its receipt tells the intent's ticket, where no earlier
/// ticket carries the same intent. The `name` and the `payload` are the ones that the batch is
/// submitted with.
#[verifier::spinoff_prover]
pub proof fn law_submission_is_recognized(
    tickets: &[RecordedTicket],
    rejection: bool,
    name: &'static str,
    payload: &[Felt],
    calldata: &[Felt],
    receipt: &TransactionReceipt,
    written: (Vec<Felt>, Vec<Felt>),
    told: Vec<ActionStatus>,
    i: int,
    found: Result<Option<ActionStatus>, ExecutionError>,
)
    requires
        call_ensures(crate::execution::batch_entry_point, (rejection,), name),
        call_ensures(crate::execution::batch_calldata, (tickets, rejection), Ok(written.0)),
        payload@ == written.0@,
        0 <= i < tickets@.len(),
        call_ensures(
            invoke_calldata,
            (tickets@[i].intent.deployment, name, payload),
            Some(written.1),
        ),
        calldata@ == written.1@,
        call_ensures(receipt_outcomes, (tickets, receipt.transaction_hash, receipt), Ok(told)),
        call_ensures(recorded_intent, (calldata, receipt, &tickets@[i].intent), found),
        forall|k: int| 0 <= k < i ==> (#[trigger] tickets@[k]).intent@ != tickets@[i].intent@,
        payload@.len() < usize::MAX,
        selector("execute_batch"@) != selector("reject_execution"@),
    ensures
        found is Ok,
        found->Ok_0 is Some,
        found->Ok_0->0@ == told@[i]@,
{
    let views = ticket_views(tickets@);
    assert forall|k: int| 0 <= k < views.len() implies encodable(#[trigger] views[k].intent)
        && views[k].envelope.root.len() == 32 && views[k] == tickets@[k]@ by {}
    assert forall|k: int| 0 <= k < i implies (#[trigger] views[k]).intent != views[i].intent by {
        assert(views[k] == tickets@[k]@);
    }
    assert(status_views(told@).len() == told@.len());
    assert(status_views(told@)[i] == told@[i]@);
    assert(values(payload@).len() == payload@.len());
    if rejection {
        assert(values(payload@) =~= batch_fields(views));
        let fields = values(calldata@);
        assert(fields.skip(4) =~= batch_fields(views));
        law_batch_is_read_back(views);
        lemma_carrier(views, i, 0);
    } else {
        assert(values(payload@) == crate::execution::payload_fields(views, false));
        assert(batch_fields(views).len() < usize::MAX);
        law_submitted_batch_is_recognized(views, *receipt, i);
    }
}

/// A transaction that calls another contract, another function, or with another number of elements
/// than it states says nothing of an intent, and neither does one that is no single call.
pub proof fn law_other_calls_say_nothing(
    calldata: &[Felt],
    receipt: &TransactionReceipt,
    intent: &Intent,
    found: Result<Option<ActionStatus>, ExecutionError>,
)
    requires
        call_ensures(recorded_intent, (calldata, receipt, intent), found),
        ({
            let c = calldata@;
            ||| c.len() < 4
            ||| c[0]@ != 1
            ||| c[1] != intent.deployment
            ||| c[3]@ <= usize::MAX && c[3]@ != c.len() - 4
            ||| c[3]@ <= usize::MAX && c[2]@ != selector("execute_batch"@) && c[2]@ != selector(
                "execute"@,
            ) && c[2]@ != selector("reject_execution"@)
        }),
    ensures
        found is Ok,
        found->Ok_0 is None,
{
    let form = values(calldata@);
    assert(form.len() == calldata@.len());
    assert(forall|k: int| 0 <= k < form.len() ==> #[trigger] form[k] == calldata@[k]@);
    if form.len() >= 4 {
        assert(form[0] == calldata@[0]@ && form[1] == calldata@[1]@ && form[2] == calldata@[2]@
            && form[3] == calldata@[3]@);
        assert(form.skip(4).len() == form.len() - 4);
    }
}

/// A block is looked through from its end: what the latest transaction that says anything of an intent
/// says is what the block says. Only an account's own transactions that succeeded are asked.
#[verifier::spinoff_prover]
pub proof fn law_block_is_scanned_from_its_end(
    transactions: &[BlockTransaction],
    account: Felt,
    intent: &Intent,
    k: int,
    calldata: &[Felt],
    found: Result<Option<ActionStatus>, ExecutionError>,
    result: Result<Option<ActionStatus>, ExecutionError>,
)
    requires
        0 <= k < transactions@.len(),
        transactions@[k].invoke is Some,
        transactions@[k].invoke->0.sender_address == account,
        transactions@[k].invoke->0.calldata@ == calldata@,
        transactions@[k].receipt.execution_result is Succeeded,
        call_ensures(
            recorded_intent,
            (calldata, &transactions@[k].receipt, intent),
            found,
        ),
        !(found is Ok && found->Ok_0 is None),
        forall|j: int|
            k < j < transactions@.len() ==> (#[trigger] transactions@[j]).invoke is None
                || transactions@[j].invoke->0.sender_address != account
                || transactions@[j].receipt.execution_result is Reverted || recorded(
                values(transactions@[j].invoke->0.calldata@),
                transactions@[j].receipt,
                intent@,
            ) == Ok::<Option<ActionStatusView>, ExecutionError>(None),
        call_ensures(scan_block, (transactions, account, intent), result),
    ensures
        status_result(result) == status_result(found),
{
    lemma_scanned_skips(transactions@, transactions@.len() as int, k, account, intent@);
}

/// Transactions that say nothing are passed over.
proof fn lemma_scanned_skips(
    transactions: Seq<BlockTransaction>,
    i: int,
    k: int,
    account: Felt,
    intent: IntentView,
)
    requires
        0 <= k < i <= transactions.len(),
        sent_by(transactions[k], account),
        recorded(values(transactions[k].invoke->0.calldata@), transactions[k].receipt, intent)
            != Ok::<Option<ActionStatusView>, ExecutionError>(None),
        forall|j: int|
            k < j < i ==> (#[trigger] transactions[j]).invoke is None
                || transactions[j].invoke->0.sender_address != account
                || transactions[j].receipt.execution_result is Reverted || recorded(
                values(transactions[j].invoke->0.calldata@),
                transactions[j].receipt,
                intent,
            ) == Ok::<Option<ActionStatusView>, ExecutionError>(None),
    ensures
        scanned(transactions, i, account, intent) == recorded(
            values(transactions[k].invoke->0.calldata@),
            transactions[k].receipt,
            intent,
        ),
    decreases i,
{
    if i - 1 > k {
        assert(transactions[i - 1].invoke is None || transactions[i - 1].invoke->0.sender_address
            != account || transactions[i - 1].receipt.execution_result is Reverted || recorded(
            values(transactions[i - 1].invoke->0.calldata@),
            transactions[i - 1].receipt,
            intent,
        ) == Ok::<Option<ActionStatusView>, ExecutionError>(None));
        lemma_scanned_skips(transactions, i - 1, k, account, intent);
    }
}

/// A reconnecting client's action is looked for in 256 blocks: each one that is looked at leaves one
/// less, and after the last no other is.
pub proof fn law_reconnect_looks_at_its_blocks(
    started: ReconnectScan,
    scan: &mut ReconnectScan,
    result: bool,
)
    requires
        call_ensures(ReconnectScan::start, (), started),
        call_ensures(ReconnectScan::take, (scan,), result),
    ensures
        started@ == 256,
        result <==> old(scan)@ != 0,
        result ==> final(scan)@ + 1 == old(scan)@,
        !result ==> final(scan)@ == 0,
{
}

/// The transactions that an account left behind are exactly its own in the mempool or among the
/// candidates, each once and in increasing order of their hashes.
pub proof fn law_retained_hashes_are_the_accounts_own(
    mempool: &[HeldTransaction],
    candidates: &[HeldTransaction],
    account: Felt,
    hash: Felt,
    result: Vec<Felt>,
)
    requires
        call_ensures(retained_hashes, (mempool, candidates, account), result),
    ensures
        result@.contains(hash) <==> mempool@.contains(
            HeldTransaction { hash, contract_address: account },
        ) || candidates@.contains(HeldTransaction { hash, contract_address: account }),
        forall|i: int, j: int|
            0 <= i < j < result@.len() ==> (#[trigger] result@[i])@ < (#[trigger] result@[j])@,
{
    let held = HeldTransaction { hash, contract_address: account };
    assert(holds(mempool@, account, hash) <==> mempool@.contains(held));
    assert(holds(candidates@, account, hash) <==> candidates@.contains(held));
}

/// A retained transaction is waited for exactly while the chain does not hold its receipt and the node
/// still holds it, by a status or as a candidate; news of it has the node asked again, and the end of
/// the news is an error.
pub proof fn law_retained_transaction_is_waited_for_while_held(
    receipt: bool,
    status: bool,
    candidate: bool,
    live: bool,
    observed: Result<RetainedStage, NodeError>,
    heard: Result<RetainedStage, NodeError>,
)
    requires
        call_ensures(
            retained_step,
            (RetainedStage::Observe, RetainedEvent::Observed { receipt, status, candidate }),
            observed,
        ),
        call_ensures(retained_step, (RetainedStage::Wait, RetainedEvent::News(live)), heard),
    ensures
        observed == Ok::<RetainedStage, NodeError>(RetainedStage::Wait) <==> !receipt && (status
            || candidate),
        observed == Ok::<RetainedStage, NodeError>(RetainedStage::Settled) <==> receipt || !(status
            || candidate),
        live ==> heard == Ok::<RetainedStage, NodeError>(RetainedStage::Observe),
        !live ==> heard == Err::<RetainedStage, NodeError>(NodeError::RetainedStopped),
{
}

/// A transaction is submitted exactly where neither the chain holds its receipt nor the node holds it.
/// A submission that failed is taken for one that the node took only where the node holds it. What is
/// held is included once its receipt is there, and refused only where it is not and the executor
/// refused it; otherwise news is awaited, and the end of either source of news is an error.
pub proof fn law_submission_is_followed_to_its_end(
    answer: bool,
    accepted: Felt,
    hash: Felt,
    first: Result<SubmissionStage, NodeError>,
    held: Result<SubmissionStage, NodeError>,
    taken: Result<SubmissionStage, NodeError>,
    failed: Result<SubmissionStage, NodeError>,
    confirmed: Result<SubmissionStage, NodeError>,
    found: Result<SubmissionStage, NodeError>,
    refused: Result<SubmissionStage, NodeError>,
    heard: (Result<SubmissionStage, NodeError>, Result<SubmissionStage, NodeError>),
)
    requires
        call_ensures(
            submission_step,
            (SubmissionStage::FirstReceipt, SubmissionEvent::Receipt(answer), hash),
            first,
        ),
        call_ensures(
            submission_step,
            (SubmissionStage::Status, SubmissionEvent::Status(answer), hash),
            held,
        ),
        call_ensures(
            submission_step,
            (SubmissionStage::Submit, SubmissionEvent::Accepted(accepted), hash),
            taken,
        ),
        call_ensures(
            submission_step,
            (SubmissionStage::Submit, SubmissionEvent::Failed, hash),
            failed,
        ),
        call_ensures(
            submission_step,
            (SubmissionStage::Confirm, SubmissionEvent::Status(answer), hash),
            confirmed,
        ),
        call_ensures(
            submission_step,
            (SubmissionStage::Receipt, SubmissionEvent::Receipt(answer), hash),
            found,
        ),
        call_ensures(
            submission_step,
            (SubmissionStage::Refusal, SubmissionEvent::Refusal(answer), hash),
            refused,
        ),
        call_ensures(
            submission_step,
            (SubmissionStage::Wait, SubmissionEvent::StatusNews(answer), hash),
            heard.0,
        ),
        call_ensures(
            submission_step,
            (SubmissionStage::Wait, SubmissionEvent::RefusalNews(answer), hash),
            heard.1,
        ),
    ensures
        first == Ok::<SubmissionStage, NodeError>(
            if answer {
                SubmissionStage::Included
            } else {
                SubmissionStage::Status
            },
        ),
        held == Ok::<SubmissionStage, NodeError>(
            if answer {
                SubmissionStage::Receipt
            } else {
                SubmissionStage::Submit
            },
        ),
        accepted == hash ==> taken == Ok::<SubmissionStage, NodeError>(SubmissionStage::Receipt),
        accepted != hash ==> taken == Err::<SubmissionStage, NodeError>(NodeError::DifferentHash),
        failed == Ok::<SubmissionStage, NodeError>(SubmissionStage::Confirm),
        answer ==> confirmed == Ok::<SubmissionStage, NodeError>(SubmissionStage::Receipt),
        !answer ==> confirmed == Err::<SubmissionStage, NodeError>(NodeError::NotSubmitted),
        found == Ok::<SubmissionStage, NodeError>(
            if answer {
                SubmissionStage::Included
            } else {
                SubmissionStage::Refusal
            },
        ),
        refused == Ok::<SubmissionStage, NodeError>(
            if answer {
                SubmissionStage::Refused
            } else {
                SubmissionStage::Wait
            },
        ),
        answer ==> heard.0 == Ok::<SubmissionStage, NodeError>(SubmissionStage::Receipt) && heard.1
            == Ok::<SubmissionStage, NodeError>(SubmissionStage::Receipt),
        !answer ==> heard.0 == Err::<SubmissionStage, NodeError>(NodeError::ObservationStopped)
            && heard.1 == Err::<SubmissionStage, NodeError>(NodeError::RefusalStopped),
{
}

/// The node's errors are told in words of their own.
pub proof fn law_node_errors_have_their_words(error: &NodeError, words: &'static str)
    requires
        call_ensures(NodeError::message, (error,), words),
    ensures
        *error is MalformedHead ==> words@ == "malformed execution head"@,
        *error is Value ==> words@ == "Failed to convert `Felt` into primitive type"@,
        *error is DifferentHash ==> words@ == "validated submission returned a different hash"@,
        *error is NotSubmitted ==> words@ == "node did not take the submission"@,
        *error is ObservationStopped ==> words@ == "node transaction observation stopped"@,
        *error is RefusalStopped ==> words@ == "execution refusal observation stopped"@,
        *error is RetainedStopped ==> words@ == "retained transaction observer stopped"@,
{
}

/// The transaction in which an account executes a single ticket by itself says of the ticket's intent
/// what its receipt tells the ticket.
#[verifier::spinoff_prover]
pub proof fn law_single_execution_is_recognized(
    ticket: &RecordedTicket,
    single: &[RecordedTicket],
    name: &str,
    payload: &[Felt],
    calldata: &[Felt],
    receipt: &TransactionReceipt,
    written: (Vec<Felt>, Vec<Felt>),
    told: Vec<ActionStatus>,
    found: Result<Option<ActionStatus>, ExecutionError>,
)
    requires
        single@ == seq![*ticket],
        name@ == "execute"@,
        call_ensures(RecordedTicket::calldata, (ticket,), Ok(written.0)),
        payload@ == written.0@,
        call_ensures(
            invoke_calldata,
            (ticket.intent.deployment, name, payload),
            Some(written.1),
        ),
        calldata@ == written.1@,
        call_ensures(receipt_outcomes, (single, receipt.transaction_hash, receipt), Ok(told)),
        call_ensures(recorded_intent, (calldata, receipt, &ticket.intent), found),
        payload@.len() < usize::MAX,
        selector("execute"@) != selector("execute_batch"@),
    ensures
        found is Ok,
        found->Ok_0 is Some,
        found->Ok_0->0@ == told@[0]@,
{
    let views = ticket_views(single@);
    assert(views =~= seq![ticket@]);
    assert(views.skip(1) =~= Seq::empty());
    reveal_with_fuel(batch_fields, 2);
    assert(batch_fields(views) =~= ticket_fields(ticket@));
    assert(status_views(told@).len() == told@.len());
    assert(status_views(told@)[0] == told@[0]@);
    assert(values(payload@).len() == payload@.len());
    let fields = values(calldata@);
    assert(fields.skip(4) =~= batch_fields(views));
    assert forall|k: int| 0 <= k < views.len() implies encodable(#[trigger] views[k].intent)
        && views[k].envelope.root.len() == 32 by {}
    law_batch_is_read_back(views);
    lemma_carrier(views, 0, 0);
}

/// The forms of tickets are read back as those tickets, and what follows them is left over.
#[verifier::spinoff_prover]
proof fn lemma_tickets_leave_the_rest(tickets: Seq<RecordedTicketView>, rest: Seq<nat>)
    requires
        forall|i: int|
            0 <= i < tickets.len() ==> encodable(#[trigger] tickets[i].intent)
                && tickets[i].envelope.root.len() == 32,
    ensures
        tickets_fault(batch_fields(tickets) + rest, tickets.len()) is None,
        first_tickets(batch_fields(tickets) + rest, tickets.len()) == tickets,
        after_tickets(batch_fields(tickets) + rest, tickets.len()) == rest,
    decreases tickets.len(),
{
    let fields = batch_fields(tickets) + rest;
    if tickets.len() > 0 {
        let others = tickets.skip(1);
        let tail = batch_fields(others) + rest;
        assert(encodable(tickets[0].intent));
        law_ticket_form_is_read_back(tickets[0], tail);
        assert(fields =~= ticket_fields(tickets[0]) + tail);
        let taken = leading_ticket(fields);
        assert(taken == ticket_fields(tickets[0]).len());
        assert(fields.take(taken) =~= ticket_fields(tickets[0]));
        assert(fields.skip(taken) =~= tail);
        lemma_first_ticket(tickets[0], fields);
        assert forall|i: int| 0 <= i < others.len() implies encodable(#[trigger] others[i].intent)
            && others[i].envelope.root.len() == 32 by {
            assert(others[i] == tickets[i + 1]);
            assert(encodable(tickets[i + 1].intent));
        }
        lemma_tickets_leave_the_rest(others, rest);
        assert(first_tickets(fields, tickets.len()) =~= tickets);
    } else {
        assert(fields =~= rest);
        assert(first_tickets(fields, 0) =~= tickets);
    }
}

proof fn lemma_no_carrier(tickets: Seq<RecordedTicketView>, intent: IntentView, from: int)
    requires
        0 <= from,
        forall|k: int| 0 <= k < tickets.len() ==> (#[trigger] tickets[k]).intent != intent,
    ensures
        carrier(tickets, intent, from) is None,
    decreases tickets.len() - from,
{
    if from < tickets.len() {
        assert(tickets[from].intent != intent);
        lemma_no_carrier(tickets, intent, from + 1);
    }
}

/// A recorded batch is read whole: elements behind its tickets are an error, whoever asks. A batch that
/// is whole says nothing of an intent that none of its tickets carries.
#[verifier::spinoff_prover]
pub proof fn law_recorded_batch_is_read_whole(
    tickets: &[RecordedTicket],
    rest: Seq<Felt>,
    written: Vec<Felt>,
    calldata: &[Felt],
    receipt: &TransactionReceipt,
    intent: &Intent,
    found: Result<Option<ActionStatus>, ExecutionError>,
)
    requires
        call_ensures(crate::execution::batch_calldata, (tickets, false), Ok(written)),
        4 < calldata@.len() <= usize::MAX,
        calldata@[0]@ == 1,
        calldata@[1] == intent.deployment,
        calldata@[2]@ == selector("execute_batch"@),
        calldata@[3]@ == calldata@.len() - 4,
        calldata@.skip(4) == written@ + rest,
        call_ensures(recorded_intent, (calldata, receipt, intent), found),
    ensures
        rest.len() > 0 ==> found is Err && found->Err_0 == ExecutionError::TrailingData,
        rest.len() == 0 && (forall|k: int|
            0 <= k < tickets@.len() ==> (#[trigger] tickets@[k]).intent@ != intent@) ==> found is Ok
            && found->Ok_0 is None,
{
    let views = ticket_views(tickets@);
    let fields = values(calldata@);
    assert(fields.len() == calldata@.len());
    assert(fields[0] == calldata@[0]@ && fields[1] == calldata@[1]@ && fields[2] == calldata@[2]@
        && fields[3] == calldata@[3]@);
    assert(values(calldata@.skip(4)) =~= fields.skip(4));
    assert(values(written@ + rest) =~= values(written@) + values(rest));
    assert(values(written@) == crate::execution::payload_fields(views, false));
    assert(fields.skip(4).skip(1) =~= batch_fields(views) + values(rest));
    assert(fields.skip(4)[0] == views.len());
    assert(values(rest).len() == rest.len());
    assert forall|k: int| 0 <= k < views.len() implies encodable(#[trigger] views[k].intent)
        && views[k].envelope.root.len() == 32 && views[k] == tickets@[k]@ by {}
    lemma_tickets_leave_the_rest(views, values(rest));
    if forall|k: int| 0 <= k < tickets@.len() ==> (#[trigger] tickets@[k]).intent@ != intent@ {
        assert forall|k: int| 0 <= k < views.len() implies (#[trigger] views[k]).intent
            != intent@ by {
            assert(views[k] == tickets@[k]@);
        }
        lemma_no_carrier(views, intent@, 0);
    }
}

/// A recorded batch must state a count, of one ticket at least and sixty-four at most.
pub proof fn law_recorded_batch_states_its_count(
    calldata: &[Felt],
    receipt: &TransactionReceipt,
    intent: &Intent,
    found: Result<Option<ActionStatus>, ExecutionError>,
)
    requires
        4 <= calldata@.len() <= usize::MAX,
        calldata@[0]@ == 1,
        calldata@[1] == intent.deployment,
        calldata@[2]@ == selector("execute_batch"@),
        calldata@[3]@ == calldata@.len() - 4,
        call_ensures(recorded_intent, (calldata, receipt, intent), found),
    ensures
        calldata@.len() == 4 ==> found is Err && found->Err_0 == ExecutionError::TruncatedBatch,
        calldata@.len() > 4 && (calldata@[4]@ == 0 || 64 < calldata@[4]@ <= usize::MAX) ==> found
            is Err && found->Err_0 == ExecutionError::RecordedBatchSize,
        calldata@.len() > 4 && calldata@[4]@ > usize::MAX ==> found is Err && found->Err_0
            == ExecutionError::Value,
{
    let fields = values(calldata@);
    assert(fields.len() == calldata@.len());
    assert(fields[0] == calldata@[0]@ && fields[1] == calldata@[1]@ && fields[2] == calldata@[2]@
        && fields[3] == calldata@[3]@);
    assert(fields.skip(4).len() == fields.len() - 4);
    if calldata@.len() > 4 {
        assert(fields[4] == calldata@[4]@);
        assert(fields.skip(4)[0] == fields[4]);
    }
}

/// An event that the wait for a retained transaction does not wait for changes nothing.
pub proof fn law_unawaited_events_leave_a_retained_transaction(
    stage: RetainedStage,
    event: RetainedEvent,
    result: Result<RetainedStage, NodeError>,
)
    requires
        call_ensures(retained_step, (stage, event), result),
        !(stage is Observe && event is Observed),
        !(stage is Wait && event is News),
    ensures
        result == Ok::<RetainedStage, NodeError>(stage),
{
}

/// An event that a submission does not wait for changes nothing.
pub proof fn law_unawaited_events_leave_a_submission(
    stage: SubmissionStage,
    event: SubmissionEvent,
    hash: Felt,
    result: Result<SubmissionStage, NodeError>,
)
    requires
        call_ensures(submission_step, (stage, event, hash), result),
        !((stage is FirstReceipt || stage is Receipt) && event is Receipt),
        !((stage is Status || stage is Confirm) && event is Status),
        !(stage is Submit && (event is Accepted || event is Failed)),
        !(stage is Refusal && event is Refusal),
        !(stage is Wait && (event is StatusNews || event is RefusalNews)),
    ensures
        result == Ok::<SubmissionStage, NodeError>(stage),
{
}

/// A call is prepared exactly where its function has a name and the account's secret signs its hash:
/// the hash of the chain, the account and its nonce, the contract and the function, no tip, the bound
/// on L2 gas alone, and the payload.
pub proof fn law_call_is_prepared_where_its_hash_is_signed(
    account: &CallingAccount,
    rpc: &JsonRpcClient<HttpTransport>,
    nonce: Felt,
    to: Felt,
    name: &str,
    payload: &[Felt],
    hash: Felt,
    signature: Option<(Felt, Felt)>,
    result: Result<(Felt, PreparedTransaction), PrepareError>,
)
    requires
        hash@ == invoke_hash(
            seq![
                account.chain@,
                account.address@,
                nonce@,
                to@,
                selector(name@),
                0,
                0,
                0,
                account.l2_gas as nat,
                0,
                0,
                0,
            ] + values(payload@),
        ),
        call_ensures(sign, (account.secret, hash), signature),
        call_ensures(CallingAccount::prepare, (account, rpc, nonce, to, name, payload), result),
    ensures
        result is Ok <==> is_ascii_chars(name@) && signature is Some,
        result is Ok ==> (result->Ok_0).0 == hash,
        is_ascii_chars(name@) && signature is None ==> result->Err_0 == PrepareError::Signature,
{
}

/// A recorded call whose payload is no ticket's calldata is refused for what is wrong with the form,
/// and a length that is no machine word's is refused as a value.
pub proof fn law_recorded_ticket_is_refused_for_its_form(
    calldata: &[Felt],
    payload: &[Felt],
    receipt: &TransactionReceipt,
    intent: &Intent,
    read: Result<(RecordedTicket, usize), ProtocolError>,
    found: Result<Option<ActionStatus>, ExecutionError>,
)
    requires
        4 <= calldata@.len() <= usize::MAX,
        calldata@[0]@ == 1,
        calldata@[1] == intent.deployment,
        payload@ == calldata@.skip(4),
        call_ensures(RecordedTicket::take_calldata, (payload,), read),
        call_ensures(recorded_intent, (calldata, receipt, intent), found),
    ensures
        calldata@[3]@ > usize::MAX ==> found is Err && found->Err_0 == ExecutionError::Value,
        calldata@[3]@ == payload@.len() && calldata@[2]@ != selector("execute_batch"@) && (
        calldata@[2]@ == selector("execute"@) || calldata@[2]@ == selector("reject_execution"@)) ==> {
            &&& read is Err ==> found is Err && found->Err_0 == ExecutionError::Protocol(
                read->Err_0,
            )
            &&& read is Ok && (read->Ok_0).1 < payload@.len() ==> found is Err && found->Err_0
                == ExecutionError::TrailingData
            &&& read is Ok && (read->Ok_0).1 == payload@.len() && (read->Ok_0).0.intent@ != intent@
                ==> found is Ok && found->Ok_0 is None
        },
{
    let fields = values(calldata@);
    assert(fields.len() == calldata@.len());
    assert(fields[0] == calldata@[0]@ && fields[1] == calldata@[1]@ && fields[2] == calldata@[2]@
        && fields[3] == calldata@[3]@);
    assert(values(payload@) =~= fields.skip(4));
    assert(values(payload@).len() == payload@.len());
    let form = values(payload@);
    reveal_with_fuel(tickets_fault, 2);
    reveal_with_fuel(first_tickets, 2);
    reveal_with_fuel(after_tickets, 2);
    if read is Ok {
        lemma_first_ticket((read->Ok_0).0@, form);
        let tickets = first_tickets(form, 1);
        assert(tickets[0] == (read->Ok_0).0@);
        assert(tickets.len() == 1);
        reveal_with_fuel(carrier, 2);
    }
}

/// A transaction that carries an intent but whose receipt does not record its tickets is an error for
/// the intent, and the receipt's own.
#[verifier::spinoff_prover]
pub proof fn law_unrecorded_submission_is_an_error(
    tickets: &[RecordedTicket],
    payload: &[Felt],
    calldata: &[Felt],
    name: &str,
    receipt: &TransactionReceipt,
    written: (Vec<Felt>, Vec<Felt>),
    refused: ExecutionError,
    i: int,
    found: Result<Option<ActionStatus>, ExecutionError>,
)
    requires
        name@ == "execute_batch"@,
        call_ensures(crate::execution::batch_calldata, (tickets, false), Ok(written.0)),
        payload@ == written.0@,
        0 <= i < tickets@.len(),
        call_ensures(
            invoke_calldata,
            (tickets@[i].intent.deployment, name, payload),
            Some(written.1),
        ),
        calldata@ == written.1@,
        call_ensures(receipt_outcomes, (tickets, receipt.transaction_hash, receipt), Err(refused)),
        call_ensures(recorded_intent, (calldata, receipt, &tickets@[i].intent), found),
        forall|k: int| 0 <= k < i ==> (#[trigger] tickets@[k]).intent@ != tickets@[i].intent@,
        payload@.len() < usize::MAX,
    ensures
        found is Err,
        found->Err_0 == refused,
{
    let views = ticket_views(tickets@);
    assert forall|k: int| 0 <= k < views.len() implies encodable(#[trigger] views[k].intent)
        && views[k].envelope.root.len() == 32 && views[k] == tickets@[k]@ by {}
    assert forall|k: int| 0 <= k < i implies (#[trigger] views[k]).intent != views[i].intent by {
        assert(views[k] == tickets@[k]@);
    }
    assert(values(payload@).len() == payload@.len());
    let form = crate::execution::payload_fields(views, false);
    assert(values(payload@) == form);
    let fields = values(calldata@);
    assert(fields.skip(4) =~= form);
    assert(form.skip(1) =~= batch_fields(views));
    law_batch_is_read_back(views);
    lemma_carrier(views, i, 0);
}

} // verus!
