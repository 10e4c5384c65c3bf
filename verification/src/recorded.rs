//! Tickets as the chain records them: their form in a transaction's calldata, and what a receipt
//! says of them.

use crate::felt::{lemma_values_injective, values, Felt};
use crate::protocol::{
    encodable, intent_fault, intent_fields, law_intent_form_is_unique, lemma_limbs_injective, limbs,
    root_from_limbs, root_limbs, Intent, IntentView, ProtocolError, ENVELOPE_TAG, INTENT_HEADER,
    VERSION,
};
use crate::slices::{append_felts, copy_felts};
use vstd::prelude::*;
use vstd::slice::slice_subrange;

verus! {

broadcast use crate::felt::lemma_felt_injective;

/// The number of elements of a recorded envelope's form.
pub const RECORDED_ENVELOPE_FIELDS: usize = 9;

/// What the sequencer records beside an intent: the action's order in its game, the context it
/// executes in and the root that its draws derive from.
#[derive(Clone, Copy, Debug, PartialEq, Eq)]
pub struct RecordedEnvelope {
    pub action: Felt,
    pub order: u64,
    pub timestamp: u64,
    pub execution_config: Felt,
    pub epoch: u64,
    pub root: [u8; 32],
}

/// The fields of a [`RecordedEnvelope`].
#[verifier::ext_equal]
pub struct RecordedEnvelopeView {
    pub action: Felt,
    pub order: u64,
    pub timestamp: u64,
    pub execution_config: Felt,
    pub epoch: u64,
    pub root: Seq<u8>,
}

impl View for RecordedEnvelope {
    type V = RecordedEnvelopeView;

    open spec fn view(&self) -> RecordedEnvelopeView {
        RecordedEnvelopeView {
            action: self.action,
            order: self.order,
            timestamp: self.timestamp,
            execution_config: self.execution_config,
            epoch: self.epoch,
            root: self.root@,
        }
    }
}

/// A recorded envelope's form.
pub open spec fn recorded_envelope_fields(envelope: RecordedEnvelopeView) -> Seq<nat> {
    seq![
        ENVELOPE_TAG as nat,
        VERSION as nat,
        envelope.action@,
        envelope.order as nat,
        envelope.timestamp as nat,
        envelope.execution_config@,
        envelope.epoch as nat,
        limbs(envelope.root).0,
        limbs(envelope.root).1,
    ]
}

/// The error that a sequence of elements meets where it is no recorded envelope's form.
pub open spec fn recorded_envelope_fault(fields: Seq<nat>) -> Option<ProtocolError> {
    if fields.len() != RECORDED_ENVELOPE_FIELDS {
        Some(ProtocolError::Length)
    } else if fields[0] != ENVELOPE_TAG || fields[1] != VERSION {
        Some(ProtocolError::Header)
    } else if fields[3] > u64::MAX || fields[4] > u64::MAX || fields[6] > u64::MAX || fields[7]
        > u128::MAX || fields[8] > u128::MAX {
        Some(ProtocolError::Value)
    } else {
        None
    }
}

impl RecordedEnvelope {
    /// The envelope's form.
    pub fn encode(&self) -> (result: Vec<Felt>)
        ensures
            values(result@) == recorded_envelope_fields(self@),
    {
        let (low, high) = root_limbs(self.root);
        let mut fields: Vec<Felt> = Vec::new();
        fields.push(Felt::from_u128(ENVELOPE_TAG));
        fields.push(Felt::from_u64(VERSION));
        fields.push(self.action);
        fields.push(Felt::from_u64(self.order));
        fields.push(Felt::from_u64(self.timestamp));
        fields.push(self.execution_config);
        fields.push(Felt::from_u64(self.epoch));
        fields.push(Felt::from_u128(low));
        fields.push(Felt::from_u128(high));
        assert(values(fields@) =~= recorded_envelope_fields(self@));
        fields
    }

    /// The envelope that a form belongs to.
    pub fn decode(fields: &[Felt]) -> (result: Result<RecordedEnvelope, ProtocolError>)
        ensures
            match result {
                Ok(envelope) => recorded_envelope_fault(values(fields@)) is None
                    && recorded_envelope_fields(envelope@) == values(fields@),
                Err(error) => recorded_envelope_fault(values(fields@)) == Some(error),
            },
    {
        if fields.len() != RECORDED_ENVELOPE_FIELDS {
            return Err(ProtocolError::Length);
        }
        assert forall|i: int| 0 <= i < fields@.len() implies #[trigger] values(fields@)[i]
            == fields@[i]@ by {}
        if fields[0] != Felt::from_u128(ENVELOPE_TAG) || fields[1] != Felt::from_u64(VERSION) {
            return Err(ProtocolError::Header);
        }
        match (
            fields[3].to_u64(),
            fields[4].to_u64(),
            fields[6].to_u64(),
            fields[7].to_u128(),
            fields[8].to_u128(),
        ) {
            (Some(order), Some(timestamp), Some(epoch), Some(low), Some(high)) => {
                let envelope: RecordedEnvelope = RecordedEnvelope {
                    action: fields[2],
                    order,
                    timestamp,
                    execution_config: fields[5],
                    epoch,
                    root: root_from_limbs(low, high),
                };
                assert(recorded_envelope_fields(envelope@) =~= values(fields@));
                Ok(envelope)
            },
            _ => Err(ProtocolError::Value),
        }
    }
}

/// An accepted intent with its envelope and the signature that authorizes it.
#[derive(Debug, PartialEq, Eq)]
pub struct RecordedTicket {
    pub intent: Intent,
    pub envelope: RecordedEnvelope,
    pub signature: Vec<Felt>,
}

/// The fields of a [`RecordedTicket`].
#[verifier::ext_equal]
pub struct RecordedTicketView {
    pub intent: IntentView,
    pub envelope: RecordedEnvelopeView,
    pub signature: Seq<Felt>,
}

impl View for RecordedTicket {
    type V = RecordedTicketView;

    open spec fn view(&self) -> RecordedTicketView {
        RecordedTicketView {
            intent: self.intent@,
            envelope: self.envelope@,
            signature: self.signature@,
        }
    }
}

/// The tickets of a batch, by their fields.
pub open spec fn ticket_views(tickets: Seq<RecordedTicket>) -> Seq<RecordedTicketView> {
    Seq::new(tickets.len(), |i: int| tickets[i]@)
}

/// A ticket's form in calldata: its intent's, its envelope's and its signature behind the
/// signature's length.
pub open spec fn ticket_fields(ticket: RecordedTicketView) -> Seq<nat> {
    intent_fields(ticket.intent) + recorded_envelope_fields(ticket.envelope) + seq![
        ticket.signature.len(),
    ] + values(ticket.signature)
}

/// The forms of tickets, one after the other.
pub open spec fn batch_fields(tickets: Seq<RecordedTicketView>) -> Seq<nat>
    decreases tickets.len(),
{
    if tickets.len() == 0 {
        Seq::empty()
    } else {
        ticket_fields(tickets[0]) + batch_fields(tickets.skip(1))
    }
}

/// The number of elements that the intent at the start of a sequence takes.
pub open spec fn leading_intent(fields: Seq<nat>) -> int {
    INTENT_HEADER + fields[12]
}

/// The number of elements that the ticket at the start of a sequence takes.
pub open spec fn leading_ticket(fields: Seq<nat>) -> int {
    leading_intent(fields) + RECORDED_ENVELOPE_FIELDS + 1 + fields[leading_intent(fields)
        + RECORDED_ENVELOPE_FIELDS]
}

/// The error that a sequence of elements meets where no ticket's form stands at its start.
pub open spec fn ticket_fault(fields: Seq<nat>) -> Option<ProtocolError> {
    if fields.len() < INTENT_HEADER {
        Some(ProtocolError::Length)
    } else if fields[12] > u32::MAX {
        Some(ProtocolError::Value)
    } else {
        let intent = leading_intent(fields);
        let envelope = intent + RECORDED_ENVELOPE_FIELDS;
        if fields.len() < intent {
            Some(ProtocolError::Length)
        } else if intent_fault(fields.take(intent)) is Some {
            intent_fault(fields.take(intent))
        } else if fields.len() <= envelope {
            Some(ProtocolError::Length)
        } else if recorded_envelope_fault(fields.subrange(intent, envelope)) is Some {
            recorded_envelope_fault(fields.subrange(intent, envelope))
        } else if fields[envelope] > fields.len() - envelope - 1 {
            Some(ProtocolError::Length)
        } else {
            None
        }
    }
}

impl Clone for RecordedTicket {
    fn clone(&self) -> (result: Self)
        ensures
            result@ == self@,
    {
        RecordedTicket {
            intent: self.intent.clone(),
            envelope: self.envelope,
            signature: copy_felts(&self.signature),
        }
    }
}

impl RecordedTicket {
    /// The ticket's form in calldata.
    pub fn calldata(&self) -> (result: Result<Vec<Felt>, ProtocolError>)
        ensures
            match result {
                Ok(fields) => encodable(self@.intent) && values(fields@) == ticket_fields(self@),
                Err(error) => !encodable(self@.intent) && error == ProtocolError::Length,
            },
    {
        let mut fields: Vec<Felt> = self.intent.encode()?;
        let ghost intent = fields@;
        let envelope: Vec<Felt> = self.envelope.encode();
        append_felts(&mut fields, &envelope);
        let count: usize = self.signature.len();
        fields.push(Felt::from_u64(count as u64));
        append_felts(&mut fields, &self.signature);
        assert(values(fields@) =~= values(intent) + values(envelope@) + seq![
            self.signature@.len(),
        ] + values(self.signature@));
        Ok(fields)
    }

    /// The ticket whose form stands at the start of a slice, and the number of its elements.
    pub fn take_calldata(fields: &[Felt]) -> (result: Result<
        (RecordedTicket, usize),
        ProtocolError,
    >)
        ensures
            match result {
                Ok((ticket, length)) => {
                    &&& ticket_fault(values(fields@)) is None
                    &&& encodable(ticket@.intent)
                    &&& length == leading_ticket(values(fields@))
                    &&& length <= fields@.len()
                    &&& ticket_fields(ticket@) == values(fields@).take(length as int)
                },
                Err(error) => ticket_fault(values(fields@)) == Some(error),
            },
    {
        let length: usize = fields.len();
        let ghost all = values(fields@);
        assert forall|i: int| 0 <= i < all.len() implies #[trigger] all[i] == fields@[i]@ by {}
        if length < INTENT_HEADER {
            return Err(ProtocolError::Length);
        }
        let count: usize = match fields[12].to_u32() {
            Some(count) => count as usize,
            None => {
                return Err(ProtocolError::Value);
            },
        };
        if length - INTENT_HEADER < count {
            return Err(ProtocolError::Length);
        }
        let envelope_at: usize = INTENT_HEADER + count;
        let intent_felts: &[Felt] = slice_subrange(fields, 0, envelope_at);
        assert(values(intent_felts@) =~= all.take(leading_intent(all)));
        let intent: Intent = Intent::decode(intent_felts)?;
        if length - envelope_at <= RECORDED_ENVELOPE_FIELDS {
            return Err(ProtocolError::Length);
        }
        let signature_at: usize = envelope_at + RECORDED_ENVELOPE_FIELDS;
        let envelope_felts: &[Felt] = slice_subrange(fields, envelope_at, signature_at);
        assert(values(envelope_felts@) =~= all.subrange(
            leading_intent(all),
            leading_intent(all) + RECORDED_ENVELOPE_FIELDS,
        ));
        let envelope: RecordedEnvelope = RecordedEnvelope::decode(envelope_felts)?;
        let signature_count: usize = match fields[signature_at].to_usize() {
            Some(count) => count,
            None => {
                return Err(ProtocolError::Length);
            },
        };
        if length - signature_at - 1 < signature_count {
            return Err(ProtocolError::Length);
        }
        let end: usize = signature_at + 1 + signature_count;
        let signature: Vec<Felt> = copy_felts(slice_subrange(fields, signature_at + 1, end));
        assert(values(signature@) =~= all.subrange(signature_at + 1, end as int));
        let ticket: RecordedTicket = RecordedTicket { intent, envelope, signature };
        assert(ticket_fields(ticket@) =~= all.take(end as int));
        Ok((ticket, end))
    }
}

/// A ticket is read back from its form, whatever follows it.
pub proof fn law_ticket_form_is_read_back(ticket: RecordedTicketView, rest: Seq<nat>)
    requires
        encodable(ticket.intent),
        ticket.envelope.root.len() == 32,
    ensures
        ticket_fault(ticket_fields(ticket) + rest) is None,
        leading_ticket(ticket_fields(ticket) + rest) == ticket_fields(ticket).len(),
{
    let fields = ticket_fields(ticket) + rest;
    let intent = intent_fields(ticket.intent);
    let envelope = recorded_envelope_fields(ticket.envelope);
    assert(fields[12] == ticket.intent.arguments.len());
    assert(fields.take(intent.len() as int) =~= intent);
    let at = intent.len() as int;
    assert(fields.subrange(at, at + 9) =~= envelope);
    assert(fields[at + 9] == ticket.signature.len());
    crate::felt::lemma_be_value_bound(ticket.envelope.root.subrange(0, 16));
    crate::felt::lemma_be_value_bound(ticket.envelope.root.subrange(16, 32));
    reveal_with_fuel(crate::felt::scale, 17);
}

/// A recorded envelope is determined by its form.
pub proof fn law_recorded_envelope_form_is_unique(a: RecordedEnvelopeView, b: RecordedEnvelopeView)
    requires
        a.root.len() == 32,
        b.root.len() == 32,
        recorded_envelope_fields(a) == recorded_envelope_fields(b),
    ensures
        a == b,
{
    let fields = recorded_envelope_fields(a);
    assert(fields[2] == a.action@ && fields[2] == b.action@);
    assert(fields[3] == a.order && fields[3] == b.order);
    assert(fields[4] == a.timestamp && fields[4] == b.timestamp);
    assert(fields[5] == a.execution_config@ && fields[5] == b.execution_config@);
    assert(fields[6] == a.epoch && fields[6] == b.epoch);
    assert(fields[7] == limbs(a.root).0 && fields[7] == limbs(b.root).0);
    assert(fields[8] == limbs(a.root).1 && fields[8] == limbs(b.root).1);
    lemma_limbs_injective(a.root, b.root);
    assert(a =~= b);
}

/// A ticket is determined by its form, and no ticket's form is the start of another's.
pub proof fn law_ticket_form_is_unique(
    a: RecordedTicketView,
    after_a: Seq<nat>,
    b: RecordedTicketView,
    after_b: Seq<nat>,
)
    requires
        a.envelope.root.len() == 32,
        b.envelope.root.len() == 32,
        ticket_fields(a) + after_a == ticket_fields(b) + after_b,
    ensures
        a == b,
        after_a == after_b,
{
    let fields = ticket_fields(a) + after_a;
    let intent = intent_fields(a.intent);
    assert(fields[12] == a.intent.arguments.len());
    assert((ticket_fields(b) + after_b)[12] == b.intent.arguments.len());
    assert(intent =~= fields.take(intent.len() as int));
    assert(intent_fields(b.intent) =~= fields.take(intent.len() as int));
    law_intent_form_is_unique(a.intent, b.intent);
    let at = intent.len() as int;
    assert(recorded_envelope_fields(a.envelope) =~= fields.subrange(at, at + 9));
    assert(recorded_envelope_fields(b.envelope) =~= (ticket_fields(b) + after_b).subrange(
        at,
        at + 9,
    ));
    law_recorded_envelope_form_is_unique(a.envelope, b.envelope);
    assert(fields[at + 9] == a.signature.len());
    assert((ticket_fields(b) + after_b)[at + 9] == b.signature.len());
    let end = at + 10 + a.signature.len();
    assert(values(a.signature) =~= fields.subrange(at + 10, end));
    assert(values(b.signature) =~= (ticket_fields(b) + after_b).subrange(at + 10, end));
    lemma_values_injective(a.signature, b.signature);
    assert(after_a =~= fields.skip(end));
    assert(after_b =~= (ticket_fields(b) + after_b).skip(end));
    assert(a =~= b);
}

/// What a client is told of its action.
#[allow(inconsistent_fields)]
#[derive(Debug, PartialEq, Eq)]
pub enum ActionStatus {
    /// The action has an order.
    Accepted { action: Felt, order: u64 },
    /// A transaction that carries the action was submitted.
    Submitted { action: Felt, order: u64, transaction_hash: Felt },
    /// The chain recorded the action's result.
    Recorded {
        action: Felt,
        order: u64,
        transaction_hash: Felt,
        succeeded: bool,
        reason: Felt,
        nonce_consumed: bool,
    },
    /// The action was not accepted.
    Refused { action: Felt, reason: String },
}

/// The fields of an [`ActionStatus`].
#[allow(inconsistent_fields)]
#[verifier::ext_equal]
pub enum ActionStatusView {
    Accepted { action: Felt, order: u64 },
    Submitted { action: Felt, order: u64, transaction_hash: Felt },
    Recorded {
        action: Felt,
        order: u64,
        transaction_hash: Felt,
        succeeded: bool,
        reason: Felt,
        nonce_consumed: bool,
    },
    Refused { action: Felt, reason: Seq<char> },
}

impl View for ActionStatus {
    type V = ActionStatusView;

    open spec fn view(&self) -> ActionStatusView {
        match *self {
            ActionStatus::Accepted { action, order } => ActionStatusView::Accepted {
                action,
                order,
            },
            ActionStatus::Submitted { action, order, transaction_hash } =>
                ActionStatusView::Submitted { action, order, transaction_hash },
            ActionStatus::Recorded {
                action,
                order,
                transaction_hash,
                succeeded,
                reason,
                nonce_consumed,
            } => ActionStatusView::Recorded {
                action,
                order,
                transaction_hash,
                succeeded,
                reason,
                nonce_consumed,
            },
            ActionStatus::Refused { action, reason } => ActionStatusView::Refused {
                action,
                reason: reason@,
            },
        }
    }
}

/// The statuses of a batch, by their fields.
pub open spec fn status_views(statuses: Seq<ActionStatus>) -> Seq<ActionStatusView> {
    Seq::new(statuses.len(), |i: int| statuses[i]@)
}

impl Clone for ActionStatus {
    fn clone(&self) -> (result: Self)
        ensures
            result@ == self@,
    {
        match self {
            ActionStatus::Accepted { action, order } => ActionStatus::Accepted {
                action: *action,
                order: *order,
            },
            ActionStatus::Submitted { action, order, transaction_hash } => ActionStatus::Submitted {
                action: *action,
                order: *order,
                transaction_hash: *transaction_hash,
            },
            ActionStatus::Recorded {
                action,
                order,
                transaction_hash,
                succeeded,
                reason,
                nonce_consumed,
            } => ActionStatus::Recorded {
                action: *action,
                order: *order,
                transaction_hash: *transaction_hash,
                succeeded: *succeeded,
                reason: *reason,
                nonce_consumed: *nonce_consumed,
            },
            ActionStatus::Refused { action, reason } => ActionStatus::Refused {
                action: *action,
                reason: reason.clone(),
            },
        }
    }
}

impl ActionStatus {
    /// Whether nothing follows the status.
    pub fn is_final(&self) -> (result: bool)
        ensures
            result == (self@ is Recorded || self@ is Refused),
    {
        matches!(self, ActionStatus::Recorded { .. } | ActionStatus::Refused { .. })
    }
}

/// An event that a transaction emitted.
#[derive(Debug, PartialEq, Eq)]
pub struct Event {
    pub from_address: Felt,
    pub keys: Vec<Felt>,
    pub data: Vec<Felt>,
}

/// How a transaction's execution ended.
#[derive(Debug, PartialEq, Eq)]
pub enum ExecutionResult {
    Succeeded,
    Reverted { reason: String },
}

/// What the chain holds of an included transaction.
#[derive(Debug, PartialEq, Eq)]
pub struct TransactionReceipt {
    pub transaction_hash: Felt,
    pub events: Vec<Event>,
    pub execution_result: ExecutionResult,
}

/// How the submission of a transaction ended.
#[derive(Debug, PartialEq, Eq)]
pub enum Execution {
    /// The chain holds the transaction.
    Included(TransactionReceipt),
    /// The executor refused the transaction, for the given reason.
    Refused(String),
}

/// A recorded envelope's form holds its fields in their places behind the tag and the version: the
/// action, its order, the time, the configuration, the epoch, and the root's lower and upper half.
#[verifier::spinoff_prover]
pub proof fn law_recorded_envelope_form_holds_its_fields(
    envelope: &RecordedEnvelope,
    written: Vec<Felt>,
    halves: (u128, u128),
)
    requires
        call_ensures(RecordedEnvelope::encode, (envelope,), written),
        call_ensures(root_limbs, (envelope.root,), halves),
    ensures
        written@.len() == 9,
        written@[0]@ == 0x455445524e554d5f42494e44494e47,
        written@[1]@ == 1,
        written@[2]@ == envelope.action@,
        written@[3]@ == envelope.order,
        written@[4]@ == envelope.timestamp,
        written@[5]@ == envelope.execution_config@,
        written@[6]@ == envelope.epoch,
        written@[7]@ == halves.0,
        written@[8]@ == halves.1,
{
    let form = values(written@);
    assert(form.len() == written@.len());
    assert(form[0] == written@[0]@ && form[1] == written@[1]@ && form[2] == written@[2]@ && form[3]
        == written@[3]@ && form[4] == written@[4]@ && form[5] == written@[5]@ && form[6]
        == written@[6]@ && form[7] == written@[7]@ && form[8] == written@[8]@);
}

/// A recorded envelope is read back from its form, and a form that is read is written again.
pub proof fn law_recorded_envelope_is_read_back(
    envelope: &RecordedEnvelope,
    written: Vec<Felt>,
    fields: &[Felt],
    read: Result<RecordedEnvelope, ProtocolError>,
)
    requires
        call_ensures(RecordedEnvelope::encode, (envelope,), written),
        call_ensures(RecordedEnvelope::decode, (fields,), read),
    ensures
        fields@ == written@ ==> read is Ok && read->Ok_0@ == envelope@,
        read is Ok && envelope@ == read->Ok_0@ ==> written@ == fields@,
{
    crate::felt::lemma_be_value_bound(envelope.root@.subrange(0, 16));
    crate::felt::lemma_be_value_bound(envelope.root@.subrange(16, 32));
    reveal_with_fuel(crate::felt::scale, 17);
    if fields@ == written@ {
        law_recorded_envelope_form_is_unique(envelope@, read->Ok_0@);
    }
    if read is Ok && envelope@ == read->Ok_0@ {
        lemma_values_injective(written@, fields@);
    }
}

/// Elements that are no recorded envelope's form are refused for what is wrong with them: their
/// number, their tag or version, or an order, a time, an epoch or a limb that is out of range.
pub proof fn law_recorded_envelope_is_refused_for_its_fault(
    fields: &[Felt],
    read: Result<RecordedEnvelope, ProtocolError>,
)
    requires
        call_ensures(RecordedEnvelope::decode, (fields,), read),
    ensures
        ({
            let f = fields@;
            let tagged = f[0]@ == 0x455445524e554d5f42494e44494e47 && f[1]@ == 1;
            let ranged = f[3]@ <= u64::MAX && f[4]@ <= u64::MAX && f[6]@ <= u64::MAX && f[7]@
                <= u128::MAX && f[8]@ <= u128::MAX;
            &&& read is Ok <==> f.len() == 9 && tagged && ranged
            &&& f.len() != 9 ==> read == Err::<RecordedEnvelope, ProtocolError>(
                ProtocolError::Length,
            )
            &&& f.len() == 9 && !tagged ==> read == Err::<RecordedEnvelope, ProtocolError>(
                ProtocolError::Header,
            )
            &&& f.len() == 9 && tagged && !ranged ==> read == Err::<RecordedEnvelope, ProtocolError>(
                ProtocolError::Value,
            )
        }),
{
    let form = values(fields@);
    assert(form.len() == fields@.len());
    assert(forall|i: int| 0 <= i < form.len() ==> #[trigger] form[i] == fields@[i]@);
}

/// A ticket's calldata is its intent's form, its envelope's form, and its signature behind the
/// signature's length. A ticket whose intent has no form has none.
#[verifier::spinoff_prover]
pub proof fn law_ticket_calldata_is_made_of_its_parts(
    ticket: &RecordedTicket,
    intent: Result<Vec<Felt>, ProtocolError>,
    envelope: Vec<Felt>,
    length: Felt,
    written: Result<Vec<Felt>, ProtocolError>,
)
    requires
        call_ensures(Intent::encode, (&ticket.intent,), intent),
        call_ensures(RecordedEnvelope::encode, (&ticket.envelope,), envelope),
        length@ == ticket.signature@.len(),
        call_ensures(RecordedTicket::calldata, (ticket,), written),
    ensures
        written is Ok <==> intent is Ok,
        written is Err ==> written->Err_0 == intent->Err_0,
        written is Ok ==> written->Ok_0@ == intent->Ok_0@ + envelope@ + seq![length]
            + ticket.signature@,
{
    if written is Ok {
        let parts = intent->Ok_0@ + envelope@ + seq![length] + ticket.signature@;
        assert(values(parts) =~= values(intent->Ok_0@) + values(envelope@) + seq![length@] + values(
            ticket.signature@,
        ));
        lemma_values_injective(written->Ok_0@, parts);
    }
}

/// A ticket is read back from the start of its calldata, whatever follows it, and takes exactly the
/// elements that it was written as; and what is read is written again.
#[verifier::spinoff_prover]
pub proof fn law_ticket_is_read_back(
    ticket: &RecordedTicket,
    written: Result<Vec<Felt>, ProtocolError>,
    rest: Seq<Felt>,
    fields: &[Felt],
    read: Result<(RecordedTicket, usize), ProtocolError>,
)
    requires
        call_ensures(RecordedTicket::calldata, (ticket,), written),
        call_ensures(RecordedTicket::take_calldata, (fields,), read),
    ensures
        written is Ok && fields@ == written->Ok_0@ + rest ==> read is Ok && (read->Ok_0).0@
            == ticket@ && (read->Ok_0).1 == written->Ok_0@.len(),
        read is Ok && ticket@ == (read->Ok_0).0@ ==> written is Ok && written->Ok_0@
            == fields@.take((read->Ok_0).1 as int),
{
    if written is Ok && fields@ == written->Ok_0@ + rest {
        let form = values(written->Ok_0@);
        assert(values(fields@) =~= form + values(rest));
        law_ticket_form_is_read_back(ticket@, values(rest));
        assert(form.len() == written->Ok_0@.len());
        assert(values(fields@).take(form.len() as int) =~= form);
        law_ticket_form_is_unique(ticket@, Seq::empty(), (read->Ok_0).0@, Seq::empty());
    }
    if read is Ok && ticket@ == (read->Ok_0).0@ {
        let taken = fields@.take((read->Ok_0).1 as int);
        assert(values(taken) =~= values(fields@).take((read->Ok_0).1 as int));
        lemma_values_injective(written->Ok_0@, taken);
    }
}

/// Nothing follows a recorded or a refused action, and something follows every other.
pub proof fn law_recorded_and_refused_are_final(status: &ActionStatus, result: bool)
    requires
        call_ensures(ActionStatus::is_final, (status,), result),
    ensures
        result <==> !(*status is Accepted) && !(*status is Submitted),
{
}

/// Elements that start with no ticket's calldata are refused for the first part that is none: too few
/// for an intent, a count of arguments out of range, an intent's form, an envelope's form with a
/// signature's length behind it, and the signature. The `parts` are the elements of the intent's form
/// and of the envelope's, by the stated count.
#[verifier::spinoff_prover]
pub proof fn law_ticket_is_refused_for_its_first_fault(
    fields: &[Felt],
    parts: (&[Felt], &[Felt]),
    intent: Result<Intent, ProtocolError>,
    envelope: Result<RecordedEnvelope, ProtocolError>,
    read: Result<(RecordedTicket, usize), ProtocolError>,
)
    requires
        call_ensures(RecordedTicket::take_calldata, (fields,), read),
        call_ensures(Intent::decode, (parts.0,), intent),
        call_ensures(RecordedEnvelope::decode, (parts.1,), envelope),
        fields@.len() >= 13 && fields@.len() >= 13 + fields@[12]@ ==> parts.0@ == fields@.take(
            13 + fields@[12]@ as int,
        ),
        fields@.len() >= 13 && fields@.len() >= 22 + fields@[12]@ ==> parts.1@ == fields@.subrange(
            13 + fields@[12]@ as int,
            22 + fields@[12]@ as int,
        ),
    ensures
        ({
            let length = fields@.len();
            let count = fields@[12]@;
            &&& length < 13 ==> read is Err && read->Err_0 == ProtocolError::Length
            &&& length >= 13 && count > u32::MAX ==> read is Err && read->Err_0
                == ProtocolError::Value
            &&& length >= 13 && count <= u32::MAX && length < 13 + count ==> read is Err
                && read->Err_0 == ProtocolError::Length
            &&& length >= 13 && count <= u32::MAX && length >= 13 + count ==> {
                let stated = fields@[22 + count as int]@;
                &&& intent is Err ==> read is Err && read->Err_0 == intent->Err_0
                &&& intent is Ok && length <= 22 + count ==> read is Err && read->Err_0
                    == ProtocolError::Length
                &&& intent is Ok && length > 22 + count && envelope is Err ==> read is Err
                    && read->Err_0 == envelope->Err_0
                &&& intent is Ok && length > 22 + count && envelope is Ok && length < 23 + count
                    + stated ==> read is Err && read->Err_0 == ProtocolError::Length
                &&& intent is Ok && length > 22 + count && envelope is Ok && length >= 23 + count
                    + stated ==> read is Ok && (read->Ok_0).1 == 23 + count + stated
                    && (read->Ok_0).0.intent@ == intent->Ok_0@ && (read->Ok_0).0.envelope@
                    == envelope->Ok_0@
            }
        }),
{
    let all = values(fields@);
    assert(all.len() == fields@.len());
    if fields@.len() >= 13 {
        assert(all[12] == fields@[12]@);
        let at = 13 + fields@[12]@ as int;
        if fields@.len() >= at {
            assert(values(parts.0@) =~= all.take(at));
            if fields@.len() > at + 9 {
                assert(values(parts.1@) =~= all.subrange(at, at + 9));
                assert(all[at + 9] == fields@[at + 9]@);
                if intent is Ok && envelope is Ok && read is Ok {
                    let ticket = (read->Ok_0).0@;
                    let form = ticket_fields(ticket);
                    let taken = (read->Ok_0).1 as int;
                    assert(form == all.take(taken));
                    assert(form[12] == all[12]);
                    assert(intent_fields(ticket.intent) =~= all.take(at));
                    law_intent_form_is_unique(ticket.intent, intent->Ok_0@);
                    assert(intent_fields(ticket.intent).len() == at);
                    assert(recorded_envelope_fields(ticket.envelope) =~= form.subrange(at, at + 9));
                    assert(form.subrange(at, at + 9) =~= all.subrange(at, at + 9));
                    law_recorded_envelope_form_is_unique(ticket.envelope, envelope->Ok_0@);
                }
            }
        }
    }
}

/// A status is known by its own fields.
pub proof fn law_status_is_known_by_its_fields(status: ActionStatus)
    ensures
        status matches ActionStatus::Accepted { action, order } ==> status@ == (
        ActionStatusView::Accepted { action, order }),
        status matches ActionStatus::Submitted { action, order, transaction_hash } ==> status@ == (
        ActionStatusView::Submitted { action, order, transaction_hash }),
        status matches ActionStatus::Recorded {
            action,
            order,
            transaction_hash,
            succeeded,
            reason,
            nonce_consumed,
        } ==> status@ == (ActionStatusView::Recorded {
            action,
            order,
            transaction_hash,
            succeeded,
            reason,
            nonce_consumed,
        }),
        status matches ActionStatus::Refused { action, reason } ==> status@ == (
        ActionStatusView::Refused { action, reason: reason@ }),
{
}

} // verus!
