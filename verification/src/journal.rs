//! The replicated journal of accepted actions: what its rows say, when a prefix of them agrees
//! with the chain, and how an action is accepted into it.

use crate::felt::{
    all_canonical, be_value, felt_of, lemma_canonical, lemma_felt_of, values, Felt,
};
use crate::protocol::{
    bytes_fault, chunks, context_fields, decode_bytes, encodable, encode_bytes, envelope_binding,
    envelope_fault, envelope_fields, field_bytes, intent_fault, intent_fields, intent_identity,
    law_bytes_are_accepted, law_envelope_form_is_accepted, law_envelope_form_is_unique,
    law_intent_form_is_accepted, law_intent_form_is_unique, law_sequence_has_one_byte_string,
    lemma_chunks, nonce_fields, Envelope, EnvelopeView, Intent, IntentView, ProtocolError,
};
use crate::slices::same_bytes;
use crate::stark::{poseidon_array, signature_valid, verify_signature};
use crate::text::same_text;
use crate::ticket::{
    context_fault, context_from_envelope, context_of, os_answer, os_source, Context, State, Ticket,
    TicketError,
};
use vstd::prelude::*;

verus! {

broadcast use crate::felt::lemma_felt_injective;

/// Why the journal refused an operation.
#[derive(Clone, Copy, Debug, PartialEq, Eq, Structural)]
pub enum JournalError {
    /// The storage failed.
    Storage,
    /// A stored value has no canonical form.
    Protocol(ProtocolError),
    /// The ticket refused the operation.
    Ticket(TicketError),
    /// The journal is missing an entry, is corrupt or disagrees with the chain.
    Prefix,
    /// A proposal reserved its sampling and left no root.
    UnresolvedProposal,
    /// An epoch or an order is too large for the journal.
    Capacity,
    /// The reader is no physical standby.
    Standby,
    /// The accepted player's signature is not valid.
    Signature,
}

/// A journal error in words.
pub open spec fn journal_error_text(error: JournalError) -> Seq<char> {
    match error {
        JournalError::Storage => "journal storage operation failed"@,
        JournalError::Protocol(error) => crate::protocol::protocol_error_text(error),
        JournalError::Ticket(error) => crate::ticket::ticket_error_text(error),
        JournalError::Prefix =>
            "journal prefix is missing, corrupt or inconsistent with chain progress"@,
        JournalError::UnresolvedProposal =>
            "unresolved proposal: sampling ownership cannot be recreated"@,
        JournalError::Capacity => "authority epoch or order exceeds journal capacity"@,
        JournalError::Standby => "journal reader must be a physical standby"@,
        JournalError::Signature => "invalid accepted player signature"@,
    }
}

impl JournalError {
    /// The error in words.
    pub fn message(&self) -> (result: &'static str)
        ensures
            result@ == journal_error_text(*self),
    {
        match self {
            JournalError::Storage => "journal storage operation failed",
            JournalError::Protocol(error) => error.message(),
            JournalError::Ticket(error) => error.message(),
            JournalError::Prefix =>
                "journal prefix is missing, corrupt or inconsistent with chain progress",
            JournalError::UnresolvedProposal =>
                "unresolved proposal: sampling ownership cannot be recreated",
            JournalError::Capacity => "authority epoch or order exceeds journal capacity",
            JournalError::Standby => "journal reader must be a physical standby",
            JournalError::Signature => "invalid accepted player signature",
        }
    }
}

/// The accepted gameplay key and its signature, which are retained outside the action's identity.
#[derive(Clone, Copy, Debug, PartialEq, Eq, Structural)]
pub struct Authorization {
    pub public_key: Felt,
    pub r: Felt,
    pub s: Felt,
}

/// The elements that an authorization is stored as.
pub open spec fn authorization_fields(authorization: Authorization) -> Seq<nat> {
    seq![authorization.public_key@, authorization.r@, authorization.s@]
}

/// Whether an authorization signs an action.
pub open spec fn authorizes(authorization: Authorization, action: nat) -> bool {
    signature_valid(authorization.public_key@, action, authorization.r@, authorization.s@)
}

impl Authorization {
    /// Whether the authorization signs an action.
    pub fn verify(&self, action: Felt) -> (result: Result<(), JournalError>)
        ensures
            result == (if authorizes(*self, action@) {
                Ok::<(), JournalError>(())
            } else {
                Err(JournalError::Signature)
            }),
    {
        if verify_signature(self.public_key, action, self.r, self.s) {
            Ok(())
        } else {
            Err(JournalError::Signature)
        }
    }

    /// The bytes that the authorization is stored as.
    pub fn encode(&self) -> (result: Vec<u8>)
        ensures
            field_bytes(authorization_fields(*self), result@),
    {
        let fields: [Felt; 3] = [self.public_key, self.r, self.s];
        assert(values(fields@) =~= authorization_fields(*self));
        encode_bytes(&fields)
    }
}

/// One accepted action as the journal records it.
pub struct Record {
    pub intent: Intent,
    pub envelope: Envelope,
    pub authorization: Authorization,
    pub result: Option<Felt>,
    pub following_state: Option<Felt>,
    pub rejected: Option<bool>,
    pub state: State,
}

/// The fields of a [`Record`].
#[verifier::ext_equal]
pub struct RecordView {
    pub intent: IntentView,
    pub envelope: EnvelopeView,
    pub authorization: Authorization,
    pub result: Option<Felt>,
    pub following_state: Option<Felt>,
    pub rejected: Option<bool>,
    pub state: State,
}

impl View for Record {
    type V = RecordView;

    open spec fn view(&self) -> RecordView {
        RecordView {
            intent: self.intent@,
            envelope: self.envelope@,
            authorization: self.authorization,
            result: self.result,
            following_state: self.following_state,
            rejected: self.rejected,
            state: self.state,
        }
    }
}

impl Record {
    /// The ticket that the record is the journal's entry of.
    pub fn restore_ticket(self) -> (outcome: Result<Ticket, TicketError>)
        ensures
            match outcome {
                Ok(ticket) => crate::ticket::restore_fault(
                    self@.intent,
                    self@.envelope,
                    self@.state,
                    self@.result,
                ) is None && ticket@ == crate::ticket::TicketView::restored(
                    self@.intent,
                    self@.envelope,
                    self@.state,
                    self@.result,
                ),
                Err(error) => crate::ticket::restore_fault(
                    self@.intent,
                    self@.envelope,
                    self@.state,
                    self@.result,
                ) == Some(error),
            },
    {
        Ticket::restore(self.intent, self.envelope, self.state, self.result)
    }
}

/// A row of the journal as the storage hands it out.
pub struct StoredRow {
    pub envelope: Option<Vec<u8>>,
    pub intent: Vec<u8>,
    pub auth_witness: Vec<u8>,
    pub action: Vec<u8>,
    pub binding: Vec<u8>,
    pub ticket_order: i64,
    pub context: Vec<u8>,
    pub nonce_key: Vec<u8>,
    pub status: String,
    pub result: Option<Vec<u8>>,
    pub following_state: Option<Vec<u8>>,
    pub rejected: Option<bool>,
}

/// The fields of a [`StoredRow`].
#[verifier::ext_equal]
pub struct RowView {
    pub envelope: Option<Seq<u8>>,
    pub intent: Seq<u8>,
    pub auth_witness: Seq<u8>,
    pub action: Seq<u8>,
    pub binding: Seq<u8>,
    pub ticket_order: i64,
    pub context: Seq<u8>,
    pub nonce_key: Seq<u8>,
    pub status: Seq<char>,
    pub result: Option<Seq<u8>>,
    pub following_state: Option<Seq<u8>>,
    pub rejected: Option<bool>,
}

/// The bytes of a column that may be null.
pub open spec fn column(bytes: Option<Vec<u8>>) -> Option<Seq<u8>> {
    match bytes {
        Some(bytes) => Some(bytes@),
        None => None,
    }
}

impl View for StoredRow {
    type V = RowView;

    open spec fn view(&self) -> RowView {
        RowView {
            envelope: column(self.envelope),
            intent: self.intent@,
            auth_witness: self.auth_witness@,
            action: self.action@,
            binding: self.binding@,
            ticket_order: self.ticket_order,
            context: self.context@,
            nonce_key: self.nonce_key@,
            status: self.status@,
            result: column(self.result),
            following_state: column(self.following_state),
            rejected: self.rejected,
        }
    }
}

/// The word that the journal stores for a state; a proposal has none.
pub open spec fn status_text(state: State) -> Option<Seq<char>> {
    match state {
        State::Proposed => None,
        State::Committed => Some("committed"@),
        State::Submitted => Some("submitted"@),
        State::Executed => Some("executed"@),
        State::TerminalRejected => Some("terminal-rejected"@),
        State::Consumed => Some("consumed"@),
    }
}

/// The state that a stored word names, where it names one.
pub fn decode_status(status: &str) -> (result: Option<State>)
    ensures
        match result {
            Some(state) => status_text(state) == Some(status@),
            None => forall|other: State| #[trigger] status_text(other) != Some(status@),
        },
{
    if same_text(status, "committed") {
        Some(State::Committed)
    } else if same_text(status, "submitted") {
        Some(State::Submitted)
    } else if same_text(status, "executed") {
        Some(State::Executed)
    } else if same_text(status, "terminal-rejected") {
        Some(State::TerminalRejected)
    } else if same_text(status, "consumed") {
        Some(State::Consumed)
    } else {
        None
    }
}

/// States are stored under different words.
pub proof fn lemma_status_text_is_unique(a: State, b: State)
    requires
        status_text(a) is Some,
        status_text(a) == status_text(b),
    ensures
        a == b,
{
    reveal_strlit("committed");
    reveal_strlit("submitted");
    reveal_strlit("executed");
    reveal_strlit("terminal-rejected");
    reveal_strlit("consumed");
    assert("committed"@[0] == 'c');
    assert("consumed"@[2] == 'n');
    assert("committed"@[2] == 'm');
    assert("submitted"@[0] == 's');
    assert("executed"@[0] == 'e');
    assert("terminal-rejected"@[0] == 't');
}

/// The error that a byte string meets where it is no single element.
pub open spec fn element_fault(bytes: Seq<u8>) -> Option<JournalError> {
    match bytes_fault(bytes) {
        Some(error) => Some(JournalError::Protocol(error)),
        None => if bytes.len() == 32 {
            None
        } else {
            Some(JournalError::Prefix)
        },
    }
}

/// The element that a byte string is the bytes of.
pub fn felt_bytes(bytes: &[u8]) -> (result: Result<Felt, JournalError>)
    ensures
        match result {
            Ok(felt) => element_fault(bytes@) is None && field_bytes(seq![felt@], bytes@)
                && felt.canonical(),
            Err(error) => element_fault(bytes@) == Some(error),
        },
{
    let fields: Vec<Felt> = match decode_bytes(bytes) {
        Ok(fields) => fields,
        Err(error) => {
            return Err(JournalError::Protocol(error));
        },
    };
    if fields.len() != 1 {
        return Err(JournalError::Prefix);
    }
    assert(seq![fields@[0]@] =~= values(fields@));
    Ok(fields[0])
}

/// The element of a column that may be null.
pub fn optional_felt(bytes: &Option<Vec<u8>>) -> (result: Result<Option<Felt>, JournalError>)
    ensures
        match result {
            Ok(felt) => optional_fault(column(*bytes)) is None && holds_optional(
                column(*bytes),
                felt,
            ) && (felt matches Some(felt) ==> felt.canonical()),
            Err(error) => optional_fault(column(*bytes)) == Some(error),
        },
{
    match bytes {
        Some(bytes) => match felt_bytes(bytes) {
            Ok(felt) => Ok(Some(felt)),
            Err(error) => Err(error),
        },
        None => Ok(None),
    }
}

/// The error of a column that may be null.
pub open spec fn optional_fault(bytes: Option<Seq<u8>>) -> Option<JournalError> {
    match bytes {
        Some(bytes) => element_fault(bytes),
        None => None,
    }
}

/// Whether a column that may be null holds an optional element.
pub open spec fn holds_optional(bytes: Option<Seq<u8>>, felt: Option<Felt>) -> bool {
    match (bytes, felt) {
        (Some(bytes), Some(felt)) => field_bytes(seq![felt@], bytes),
        (None, None) => true,
        _ => false,
    }
}

/// Whether a row is the journal's entry of a record.
pub open spec fn row_holds(row: RowView, record: RecordView) -> bool {
    &&& row.envelope is Some
    &&& record.envelope.root.len() == 32
    &&& field_bytes(envelope_fields(record.envelope), row.envelope->0)
    &&& encodable(record.intent)
    &&& field_bytes(intent_fields(record.intent), row.intent)
    &&& field_bytes(authorization_fields(record.authorization), row.auth_witness)
    &&& record.envelope.action@ == intent_identity(record.intent)
    &&& field_bytes(seq![record.envelope.action@], row.action)
    &&& field_bytes(seq![envelope_binding(record.envelope)], row.binding)
    &&& record.envelope.order == row.ticket_order
    &&& field_bytes(context_fields(record.envelope), row.context)
    &&& field_bytes(nonce_fields(record.intent), row.nonce_key)
    &&& context_fault(context_of(record.envelope), record.intent) is None
    &&& status_text(record.state) == Some(row.status)
    &&& authorizes(record.authorization, record.envelope.action@)
    &&& holds_optional(row.result, record.result)
    &&& holds_optional(row.following_state, record.following_state)
    &&& row.rejected == record.rejected
}

/// The error that a row meets where it is no record's entry, in the order in which its columns
/// are read.
pub open spec fn row_fault(row: RowView) -> Option<JournalError> {
    if row.envelope is None {
        Some(JournalError::UnresolvedProposal)
    } else {
        let envelope = chunks(row.envelope->0);
        let intent = chunks(row.intent);
        let witness = chunks(row.auth_witness);
        if bytes_fault(row.envelope->0) is Some {
            Some(JournalError::Protocol(bytes_fault(row.envelope->0)->0))
        } else if envelope_fault(envelope) is Some {
            Some(JournalError::Protocol(envelope_fault(envelope)->0))
        } else if bytes_fault(row.intent) is Some {
            Some(JournalError::Protocol(bytes_fault(row.intent)->0))
        } else if intent_fault(intent) is Some {
            Some(JournalError::Protocol(intent_fault(intent)->0))
        } else if bytes_fault(row.auth_witness) is Some {
            Some(JournalError::Protocol(bytes_fault(row.auth_witness)->0))
        } else if witness.len() != 3 || poseidon_array(intent) != envelope[2] {
            Some(JournalError::Prefix)
        } else if element_fault(row.action) is Some {
            element_fault(row.action)
        } else if chunks(row.action)[0] != envelope[2] {
            Some(JournalError::Prefix)
        } else if element_fault(row.binding) is Some {
            element_fault(row.binding)
        } else if chunks(row.binding)[0] != poseidon_array(envelope) {
            Some(JournalError::Prefix)
        } else if envelope[3] > i64::MAX {
            Some(JournalError::Capacity)
        } else if envelope[3] != row.ticket_order || !field_bytes(envelope.take(9), row.context)
            || !field_bytes(
            seq![intent[2], intent[3], intent[4], intent[5], intent[6]],
            row.nonce_key,
        ) {
            Some(JournalError::Prefix)
        } else if envelope[3] == 0 || envelope[3] > intent[11] || envelope[6] < intent[9]
            || envelope[6] > intent[10] || envelope[8] == 0 {
            Some(JournalError::Ticket(TicketError::Context))
        } else if forall|state: State| #[trigger] status_text(state) != Some(row.status) {
            Some(JournalError::Prefix)
        } else if !signature_valid(witness[0], envelope[2], witness[1], witness[2]) {
            Some(JournalError::Signature)
        } else if optional_fault(row.result) is Some {
            optional_fault(row.result)
        } else {
            optional_fault(row.following_state)
        }
    }
}

/// The record that a row is the journal's entry of.
pub fn decode_record(row: &StoredRow) -> (outcome: Result<Record, JournalError>)
    ensures
        match outcome {
            Ok(record) => row_fault(row@) is None && row_holds(row@, record@),
            Err(error) => row_fault(row@) == Some(error),
        },
{
    let encoded: &Vec<u8> = match &row.envelope {
        Some(encoded) => encoded,
        None => {
            return Err(JournalError::UnresolvedProposal);
        },
    };
    let envelope_felts: Vec<Felt> = match decode_bytes(encoded) {
        Ok(fields) => fields,
        Err(error) => {
            return Err(JournalError::Protocol(error));
        },
    };
    proof {
        lemma_chunks(values(envelope_felts@), encoded@);
    }
    let envelope: Envelope = match Envelope::decode(&envelope_felts) {
        Ok(envelope) => envelope,
        Err(error) => {
            return Err(JournalError::Protocol(error));
        },
    };
    let intent_felts: Vec<Felt> = match decode_bytes(&row.intent) {
        Ok(fields) => fields,
        Err(error) => {
            return Err(JournalError::Protocol(error));
        },
    };
    proof {
        lemma_chunks(values(intent_felts@), row.intent@);
    }
    let intent: Intent = match Intent::decode(&intent_felts) {
        Ok(intent) => intent,
        Err(error) => {
            return Err(JournalError::Protocol(error));
        },
    };
    let witness: Vec<Felt> = match decode_bytes(&row.auth_witness) {
        Ok(fields) => fields,
        Err(error) => {
            return Err(JournalError::Protocol(error));
        },
    };
    proof {
        lemma_chunks(values(witness@), row.auth_witness@);
    }
    let ghost envelope_form = envelope_fields(envelope@);
    let ghost intent_form = intent_fields(intent@);
    let identity: Felt = match intent.identity() {
        Ok(identity) => identity,
        Err(error) => {
            return Err(JournalError::Protocol(error));
        },
    };
    if witness.len() != 3 || identity != envelope.action {
        return Err(JournalError::Prefix);
    }
    let action: Felt = felt_bytes(&row.action)?;
    proof {
        lemma_chunks(seq![action@], row.action@);
    }
    if envelope.action != action {
        return Err(JournalError::Prefix);
    }
    let binding: Felt = felt_bytes(&row.binding)?;
    proof {
        lemma_chunks(seq![binding@], row.binding@);
    }
    let expected_binding: Felt = envelope.binding();
    if expected_binding != binding {
        return Err(JournalError::Prefix);
    }
    if envelope.order > i64::MAX as u64 {
        return Err(JournalError::Capacity);
    }
    let context_felts: Vec<Felt> = envelope.encode_context();
    let context_bytes: Vec<u8> = encode_bytes(&context_felts);
    let nonce_felts: Vec<Felt> = intent.nonce_key();
    let nonce_bytes: Vec<u8> = encode_bytes(&nonce_felts);
    proof {
        assert(envelope_form.take(9) =~= context_fields(envelope@));
        assert(seq![
            intent_form[2],
            intent_form[3],
            intent_form[4],
            intent_form[5],
            intent_form[6],
        ] =~= nonce_fields(intent@));
        if field_bytes(context_fields(envelope@), row.context@) {
            law_sequence_has_one_byte_string(
                context_fields(envelope@),
                context_bytes@,
                row.context@,
            );
        }
        if field_bytes(nonce_fields(intent@), row.nonce_key@) {
            law_sequence_has_one_byte_string(nonce_fields(intent@), nonce_bytes@, row.nonce_key@);
        }
    }
    if envelope.order as i64 != row.ticket_order || !same_bytes(&context_bytes, &row.context)
        || !same_bytes(&nonce_bytes, &row.nonce_key) {
        return Err(JournalError::Prefix);
    }
    if let Err(error) = context_from_envelope(&envelope).validate(&intent) {
        return Err(JournalError::Ticket(error));
    }
    let state: State = match decode_status(row.status.as_str()) {
        Some(state) => state,
        None => {
            return Err(JournalError::Prefix);
        },
    };
    let authorization: Authorization = Authorization {
        public_key: witness[0],
        r: witness[1],
        s: witness[2],
    };
    assert(authorization_fields(authorization) =~= values(witness@));
    authorization.verify(envelope.action)?;
    let result: Option<Felt> = optional_felt(&row.result)?;
    let following_state: Option<Felt> = optional_felt(&row.following_state)?;
    Ok(
        Record {
            intent,
            envelope,
            authorization,
            result,
            following_state,
            rejected: row.rejected,
            state,
        },
    )
}

/// The journal's entry of a record belongs to no other record.
pub proof fn law_row_names_one_record(row: RowView, a: RecordView, b: RecordView)
    requires
        row_holds(row, a),
        row_holds(row, b),
    ensures
        a == b,
{
    lemma_chunks(envelope_fields(a.envelope), row.envelope->0);
    lemma_chunks(envelope_fields(b.envelope), row.envelope->0);
    law_envelope_form_is_unique(a.envelope, b.envelope);
    lemma_chunks(intent_fields(a.intent), row.intent);
    lemma_chunks(intent_fields(b.intent), row.intent);
    law_intent_form_is_unique(a.intent, b.intent);
    let witness = chunks(row.auth_witness);
    lemma_chunks(authorization_fields(a.authorization), row.auth_witness);
    lemma_chunks(authorization_fields(b.authorization), row.auth_witness);
    assert(witness[0] == a.authorization.public_key@ && witness[0] == b.authorization.public_key@);
    assert(witness[1] == a.authorization.r@ && witness[1] == b.authorization.r@);
    assert(witness[2] == a.authorization.s@ && witness[2] == b.authorization.s@);
    lemma_status_text_is_unique(a.state, b.state);
    lemma_optional_is_unique(row.result, a.result, b.result);
    lemma_optional_is_unique(row.following_state, a.following_state, b.following_state);
    assert(a =~= b);
}

/// A column that may be null holds one optional element at most.
pub proof fn lemma_optional_is_unique(bytes: Option<Seq<u8>>, a: Option<Felt>, b: Option<Felt>)
    requires
        holds_optional(bytes, a),
        holds_optional(bytes, b),
    ensures
        a == b,
{
    if bytes is Some {
        lemma_chunks(seq![a->0@], bytes->0);
        lemma_chunks(seq![b->0@], bytes->0);
        assert(chunks(bytes->0)[0] == a->0@);
        assert(chunks(bytes->0)[0] == b->0@);
    }
}

/// Whether every element of an intent is canonical, as every element that exists is.
pub open spec fn intent_canonical(intent: IntentView) -> bool {
    &&& intent.chain.canonical()
    &&& intent.deployment.canonical()
    &&& intent.game.canonical()
    &&& intent.actor.canonical()
    &&& intent.command.canonical()
    &&& intent.rules.canonical()
    &&& all_canonical(intent.arguments)
}

/// Whether every element of an envelope is canonical, as every element that exists is.
pub open spec fn envelope_canonical(envelope: EnvelopeView) -> bool {
    &&& envelope.action.canonical()
    &&& envelope.predecessor.canonical()
    &&& envelope.preceding_state.canonical()
    &&& envelope.execution_config.canonical()
}

/// Whether every element of a record is canonical, as every element that exists is.
pub open spec fn record_canonical(record: RecordView) -> bool {
    &&& intent_canonical(record.intent)
    &&& envelope_canonical(record.envelope)
    &&& record.authorization.public_key.canonical()
    &&& record.authorization.r.canonical()
    &&& record.authorization.s.canonical()
    &&& record.result matches Some(felt) ==> felt.canonical()
    &&& record.following_state matches Some(felt) ==> felt.canonical()
}

/// The bytes of an intent's form are decoded.
pub proof fn lemma_intent_bytes_are_accepted(intent: IntentView, bytes: Seq<u8>)
    requires
        encodable(intent),
        intent_canonical(intent),
        field_bytes(intent_fields(intent), bytes),
    ensures
        bytes_fault(bytes) is None,
        intent_fault(chunks(bytes)) is None,
{
    let fields = intent_fields(intent);
    lemma_canonical(intent.chain);
    lemma_canonical(intent.deployment);
    lemma_canonical(intent.game);
    lemma_canonical(intent.actor);
    lemma_canonical(intent.command);
    lemma_canonical(intent.rules);
    assert forall|i: int| 0 <= i < fields.len() implies #[trigger] fields[i]
        < crate::felt::prime() by {
        if i >= 13 {
            assert(fields[i] == intent.arguments[i - 13]@);
            lemma_canonical(intent.arguments[i - 13]);
        }
    }
    law_bytes_are_accepted(fields, bytes);
    law_intent_form_is_accepted(intent);
    lemma_chunks(fields, bytes);
}

/// The bytes of an envelope's form are decoded.
pub proof fn lemma_envelope_bytes_are_accepted(envelope: EnvelopeView, bytes: Seq<u8>)
    requires
        envelope.root.len() == 32,
        envelope_canonical(envelope),
        field_bytes(envelope_fields(envelope), bytes),
    ensures
        bytes_fault(bytes) is None,
        envelope_fault(chunks(bytes)) is None,
{
    let fields = envelope_fields(envelope);
    lemma_canonical(envelope.action);
    lemma_canonical(envelope.predecessor);
    lemma_canonical(envelope.preceding_state);
    lemma_canonical(envelope.execution_config);
    law_envelope_form_is_accepted(envelope);
    law_bytes_are_accepted(fields, bytes);
    lemma_chunks(fields, bytes);
}

/// The bytes of one element are decoded.
pub proof fn lemma_element_is_accepted(felt: Felt, bytes: Seq<u8>)
    requires
        felt.canonical(),
        field_bytes(seq![felt@], bytes),
    ensures
        element_fault(bytes) is None,
        chunks(bytes) == seq![felt@],
{
    lemma_canonical(felt);
    law_bytes_are_accepted(seq![felt@], bytes);
    lemma_chunks(seq![felt@], bytes);
}

/// The journal's entry of a record is read back: every record that the journal can hold is decoded
/// from its row, whatever its state. The `binding` is the envelope's.
pub proof fn law_recorded_row_is_read_back(row: RowView, record: RecordView, binding: Felt)
    requires
        row_holds(row, record),
        record_canonical(record),
        binding@ == envelope_binding(record.envelope),
        binding.canonical(),
    ensures
        row_fault(row) is None,
{
    lemma_envelope_bytes_are_accepted(record.envelope, row.envelope->0);
    lemma_chunks(envelope_fields(record.envelope), row.envelope->0);
    lemma_intent_bytes_are_accepted(record.intent, row.intent);
    lemma_chunks(intent_fields(record.intent), row.intent);
    let witness = authorization_fields(record.authorization);
    lemma_canonical(record.authorization.public_key);
    lemma_canonical(record.authorization.r);
    lemma_canonical(record.authorization.s);
    law_bytes_are_accepted(witness, row.auth_witness);
    lemma_chunks(witness, row.auth_witness);
    lemma_element_is_accepted(record.envelope.action, row.action);
    lemma_element_is_accepted(binding, row.binding);
    let envelope = envelope_fields(record.envelope);
    let intent = intent_fields(record.intent);
    assert(envelope.take(9) =~= context_fields(record.envelope));
    assert(seq![intent[2], intent[3], intent[4], intent[5], intent[6]] =~= nonce_fields(
        record.intent,
    ));
    assert(status_text(record.state) == Some(row.status));
    if record.result is Some {
        lemma_element_is_accepted(record.result->0, row.result->0);
    }
    if record.following_state is Some {
        lemma_element_is_accepted(record.following_state->0, row.following_state->0);
    }
}

/// What the chain reports of one executed action.
#[derive(Clone, Copy, Debug, PartialEq, Eq, Structural)]
pub struct ChainProgress {
    pub order: u64,
    pub binding: Felt,
    pub state: Felt,
    pub result: Felt,
}

/// The records that the journal holds, by their fields.
pub open spec fn record_views(records: Seq<Record>) -> Seq<RecordView> {
    Seq::new(records.len(), |i: int| records[i]@)
}

/// The binding that the record at `i` must name as its predecessor.
pub open spec fn preceding_binding(records: Seq<RecordView>, i: int) -> nat {
    if i == 0 {
        0
    } else {
        envelope_binding(records[i - 1].envelope)
    }
}

/// The state that the record at `i` must name as the one it follows.
pub open spec fn preceding_state(chain: Seq<ChainProgress>, i: int) -> nat {
    if i == 0 {
        0
    } else {
        chain[i - 1].state@
    }
}

/// Whether the nonce of the record at `i` was used by an earlier record.
pub open spec fn nonce_reused(records: Seq<RecordView>, i: int) -> bool {
    exists|j: int|
        0 <= j < i && #[trigger] nonce_fields(records[j].intent) == nonce_fields(records[i].intent)
}

/// Whether the record at `i` agrees with what the chain reports: an executed one with its
/// progress, one that the chain has not executed by being the last and unfinished.
pub open spec fn agrees_with_chain(
    records: Seq<RecordView>,
    chain: Seq<ChainProgress>,
    i: int,
) -> bool {
    let record = records[i];
    if i < chain.len() {
        &&& chain[i].order == record.envelope.order
        &&& chain[i].binding@ == envelope_binding(record.envelope)
        &&& record.result matches Some(result) ==> chain[i].result == result
        &&& record.following_state matches Some(state) ==> chain[i].state == state
    } else {
        &&& record.result is None
        &&& !(record.state is Consumed)
        &&& i + 1 == records.len()
    }
}

/// The error that the record at `i` meets where those before it meet none.
pub open spec fn record_fault(
    records: Seq<RecordView>,
    chain: Seq<ChainProgress>,
    i: int,
) -> Option<JournalError> {
    let record = records[i];
    if record.envelope.order != i + 1 || record.envelope.predecessor@ != preceding_binding(
        records,
        i,
    ) || record.envelope.preceding_state@ != preceding_state(chain, i) {
        Some(JournalError::Prefix)
    } else if !encodable(record.intent) {
        Some(JournalError::Protocol(ProtocolError::Length))
    } else if record.envelope.action@ != intent_identity(record.intent) || nonce_reused(records, i)
        || !agrees_with_chain(records, chain, i) {
        Some(JournalError::Prefix)
    } else {
        None
    }
}

/// The error that the first faulty record from `i` on meets.
pub open spec fn fault_from(
    records: Seq<RecordView>,
    chain: Seq<ChainProgress>,
    i: int,
) -> Option<JournalError>
    decreases records.len() - i,
{
    if i >= records.len() {
        None
    } else if record_fault(records, chain, i) is Some {
        record_fault(records, chain, i)
    } else {
        fault_from(records, chain, i + 1)
    }
}

/// The error that a journal meets where it disagrees with the chain.
pub open spec fn prefix_fault(records: Seq<RecordView>, chain: Seq<ChainProgress>) -> Option<
    JournalError,
> {
    if chain.len() > records.len() {
        Some(JournalError::Prefix)
    } else {
        fault_from(records, chain, 0)
    }
}

/// Whether the nonce of the record at `index` was used by an earlier record.
fn reuses_nonce(records: &[Record], index: usize) -> (result: bool)
    requires
        index < records@.len(),
    ensures
        result == nonce_reused(record_views(records@), index as int),
{
    let intent: &Intent = &records[index].intent;
    let mut j: usize = 0;
    while j < index
        invariant
            j <= index < records@.len(),
            *intent == records@[index as int].intent,
            forall|k: int|
                0 <= k < j ==> #[trigger] nonce_fields(record_views(records@)[k].intent)
                    != nonce_fields(intent@),
        decreases index - j,
    {
        let other: &Intent = &records[j].intent;
        proof {
            let a = nonce_fields(intent@);
            let b = nonce_fields(other@);
            if a == b {
                assert(a[0] == intent.chain@ && b[0] == other.chain@);
                assert(a[1] == intent.deployment@ && b[1] == other.deployment@);
                assert(a[2] == intent.game@ && b[2] == other.game@);
                assert(a[3] == intent.actor@ && b[3] == other.actor@);
                assert(a[4] == intent.nonce && b[4] == other.nonce);
            }
            assert(record_views(records@)[j as int].intent == other@);
        }
        if intent.chain == other.chain && intent.deployment == other.deployment && intent.game
            == other.game && intent.actor == other.actor && intent.nonce == other.nonce {
            assert(nonce_fields(record_views(records@)[j as int].intent) == nonce_fields(
                record_views(records@)[index as int].intent,
            ));
            return true;
        }
        j = j + 1;
    }
    assert(record_views(records@)[index as int].intent == intent@);
    false
}

/// Whether the record that `progress` reports on agrees with it.
fn matches_progress(record: &Record, binding: Felt, progress: &ChainProgress) -> (result: bool)
    requires
        binding@ == envelope_binding(record@.envelope),
    ensures
        result == ({
            &&& progress.order == record@.envelope.order
            &&& progress.binding@ == envelope_binding(record@.envelope)
            &&& record@.result matches Some(result) ==> progress.result == result
            &&& record@.following_state matches Some(state) ==> progress.state == state
        }),
{
    let result_agrees: bool = match record.result {
        Some(result) => progress.result == result,
        None => true,
    };
    let state_agrees: bool = match record.following_state {
        Some(following) => progress.state == following,
        None => true,
    };
    progress.order == record.envelope.order && progress.binding == binding && result_agrees
        && state_agrees
}

/// Whether a journal agrees with the chain: its records are numbered from one, each names the
/// binding and the state before it, no nonce occurs twice, and what the chain has executed is
/// what the records say, with one unexecuted record behind it at most.
pub fn verify_prefix(records: &[Record], chain: &[ChainProgress]) -> (outcome: Result<
    (),
    JournalError,
>)
    ensures
        outcome == (match prefix_fault(record_views(records@), chain@) {
            None => Ok::<(), JournalError>(()),
            Some(error) => Err(error),
        }),
{
    let ghost views = record_views(records@);
    if chain.len() > records.len() {
        return Err(JournalError::Prefix);
    }
    let length: usize = records.len();
    let mut predecessor: Felt = Felt::zero();
    let mut state: Felt = Felt::zero();
    let mut index: usize = 0;
    while index < length
        invariant
            index <= length == records@.len(),
            chain@.len() <= length,
            views == record_views(records@),
            predecessor@ == preceding_binding(views, index as int),
            index < length ==> state@ == preceding_state(chain@, index as int),
            index < length ==> index <= chain@.len(),
            fault_from(views, chain@, 0) == fault_from(views, chain@, index as int),
        decreases length - index,
    {
        let record: &Record = &records[index];
        assert(views[index as int] == record@);
        let ghost fault = record_fault(views, chain@, index as int);
        assert(fault is Some ==> fault_from(views, chain@, 0) == fault);
        if record.envelope.order == 0 || record.envelope.order - 1 != index as u64
            || record.envelope.predecessor != predecessor || record.envelope.preceding_state
            != state {
            return Err(JournalError::Prefix);
        }
        let identity: Felt = match record.intent.identity() {
            Ok(identity) => identity,
            Err(error) => {
                return Err(JournalError::Protocol(error));
            },
        };
        if record.envelope.action != identity || reuses_nonce(records, index) {
            return Err(JournalError::Prefix);
        }
        let binding: Felt = record.envelope.binding();
        if index < chain.len() {
            if !matches_progress(record, binding, &chain[index]) {
                return Err(JournalError::Prefix);
            }
            state = chain[index].state;
        } else if record.result.is_some() || record.state == State::Consumed || index + 1
            != length {
            return Err(JournalError::Prefix);
        }
        predecessor = binding;
        index = index + 1;
    }
    Ok(())
}

/// Every record of a journal that agrees with the chain is without fault.
pub proof fn lemma_no_fault(records: Seq<RecordView>, chain: Seq<ChainProgress>, from: int, i: int)
    requires
        0 <= from <= i < records.len(),
        fault_from(records, chain, from) is None,
    ensures
        record_fault(records, chain, i) is None,
    decreases i - from,
{
    if from < i {
        lemma_no_fault(records, chain, from + 1, i);
    }
}

/// In a journal that agrees with the chain, the chain has executed all records but the last at
/// most, the records are numbered from one without a gap, and no nonce is used twice.
pub proof fn law_verified_prefix(records: Seq<RecordView>, chain: Seq<ChainProgress>)
    requires
        prefix_fault(records, chain) is None,
    ensures
        chain.len() <= records.len() <= chain.len() + 1,
        forall|i: int| 0 <= i < records.len() ==> (#[trigger] records[i]).envelope.order == i + 1,
        forall|i: int, j: int|
            0 <= i < j < records.len() ==> nonce_fields(#[trigger] records[i].intent)
                != nonce_fields(#[trigger] records[j].intent),
        forall|i: int|
            0 <= i < chain.len() ==> (#[trigger] chain[i]).binding@ == envelope_binding(
                records[i].envelope,
            ),
{
    assert forall|i: int| 0 <= i < records.len() implies record_fault(records, chain, i) is None by {
        lemma_no_fault(records, chain, 0, i);
    }
    if records.len() > chain.len() {
        let i = chain.len() as int;
        assert(record_fault(records, chain, i) is None);
    }
    assert forall|i: int| 0 <= i < records.len() implies (#[trigger] records[i]).envelope.order == i
        + 1 by {
        assert(record_fault(records, chain, i) is None);
    }
    assert forall|i: int, j: int| 0 <= i < j < records.len() implies nonce_fields(
        #[trigger] records[i].intent,
    ) != nonce_fields(#[trigger] records[j].intent) by {
        assert(record_fault(records, chain, j) is None);
    }
    assert forall|i: int| 0 <= i < chain.len() implies (#[trigger] chain[i]).binding@
        == envelope_binding(records[i].envelope) by {
        assert(record_fault(records, chain, i) is None);
    }
}

/// Each record of a journal that agrees with the chain continues the one before it: it names the
/// binding of that record and the state that the chain reached by executing it.
pub proof fn law_records_are_chained(records: Seq<RecordView>, chain: Seq<ChainProgress>, i: int)
    requires
        prefix_fault(records, chain) is None,
        0 < i < records.len(),
    ensures
        records[i].envelope.predecessor@ == envelope_binding(records[i - 1].envelope),
        records[i].envelope.preceding_state == chain[i - 1].state,
{
    lemma_no_fault(records, chain, 0, i);
    law_verified_prefix(records, chain);
}

/// A journal is accepted where its records are numbered from one, each names the binding of the
/// one before it and the state that the chain reached by it, each carries its intent's identity,
/// no two share chain, deployment, game, actor and nonce, and what the chain reports is what the
/// records say, with one unfinished record behind it at most.
#[verifier::spinoff_prover]
pub proof fn law_sound_journal_is_accepted(
    records: &[Record],
    chain: &[ChainProgress],
    outcome: Result<(), JournalError>,
)
    requires
        call_ensures(verify_prefix, (records, chain), outcome),
        chain@.len() <= records@.len() <= chain@.len() + 1,
        forall|i: int| 0 <= i < records@.len() ==> (#[trigger] records@[i]).envelope.order == i + 1,
        records@.len() > 0 ==> records@[0].envelope.predecessor@ == 0
            && records@[0].envelope.preceding_state@ == 0,
        forall|i: int, j: int|
            #![trigger records@[i], records@[j]]
            0 <= i && j == i + 1 && j < records@.len() ==> records@[j].envelope.predecessor@
                == envelope_binding(records@[i].envelope@) && records@[j].envelope.preceding_state
                == chain@[i].state,
        forall|i: int|
            0 <= i < records@.len() ==> (#[trigger] records@[i]).intent.arguments@.len() <= u32::MAX
                && records@[i].envelope.action@ == intent_identity(records@[i].intent@),
        forall|i: int, j: int|
            #![trigger records@[i], records@[j]]
            0 <= i < j < records@.len() ==> records@[i].intent.chain != records@[j].intent.chain
                || records@[i].intent.deployment != records@[j].intent.deployment
                || records@[i].intent.game != records@[j].intent.game || records@[i].intent.actor
                != records@[j].intent.actor || records@[i].intent.nonce != records@[j].intent.nonce,
        forall|i: int|
            0 <= i < chain@.len() ==> (#[trigger] chain@[i]).order == i + 1 && chain@[i].binding@
                == envelope_binding(records@[i].envelope@) && (records@[i].result is Some
                ==> records@[i].result->0 == chain@[i].result) && (
            records@[i].following_state is Some ==> records@[i].following_state->0
                == chain@[i].state),
        records@.len() > chain@.len() ==> records@[chain@.len() as int].result is None
            && records@[chain@.len() as int].state != State::Consumed,
    ensures
        outcome is Ok,
{
    let views = record_views(records@);
    assert forall|i: int| 0 <= i < views.len() implies #[trigger] record_fault(views, chain@, i)
        is None by {
        assert(views[i] == records@[i]@);
        if i > 0 {
            assert(views[i - 1] == records@[i - 1]@);
        }
        assert forall|j: int| 0 <= j < i implies #[trigger] nonce_fields(views[j].intent)
            != nonce_fields(views[i].intent) by {
            let a = nonce_fields(views[j].intent);
            let b = nonce_fields(views[i].intent);
            assert(views[j] == records@[j]@);
            assert(a[0] == records@[j].intent.chain@ && b[0] == records@[i].intent.chain@);
            assert(a[1] == records@[j].intent.deployment@ && b[1]
                == records@[i].intent.deployment@);
            assert(a[2] == records@[j].intent.game@ && b[2] == records@[i].intent.game@);
            assert(a[3] == records@[j].intent.actor@ && b[3] == records@[i].intent.actor@);
            assert(a[4] == records@[j].intent.nonce && b[4] == records@[i].intent.nonce);
        }
        if i < chain@.len() {
            assert(chain@[i].order == i + 1);
        }
    }
    lemma_faultless(views, chain@, 0);
}

/// A journal whose records are without fault from `i` on meets no error there.
proof fn lemma_faultless(records: Seq<RecordView>, chain: Seq<ChainProgress>, i: int)
    requires
        0 <= i,
        forall|k: int|
            0 <= k < records.len() ==> #[trigger] record_fault(records, chain, k) is None,
    ensures
        fault_from(records, chain, i) is None,
    decreases records.len() - i,
{
    if i < records.len() {
        assert(record_fault(records, chain, i) is None);
        lemma_faultless(records, chain, i + 1);
    }
}

/// A journal that is accepted is sound: its records are numbered from one, each names the binding
/// of the one before it and the state that the chain reached by it, each carries its intent's
/// identity, no two share chain, deployment, game, actor and nonce, and what the chain reports is
/// what the records say, with one unfinished record behind it at most.
#[verifier::spinoff_prover]
pub proof fn law_accepted_journal_is_sound(
    records: &[Record],
    chain: &[ChainProgress],
    outcome: Result<(), JournalError>,
)
    requires
        call_ensures(verify_prefix, (records, chain), outcome),
        outcome is Ok,
    ensures
        chain@.len() <= records@.len() <= chain@.len() + 1,
        forall|i: int| 0 <= i < records@.len() ==> (#[trigger] records@[i]).envelope.order == i + 1,
        records@.len() > 0 ==> records@[0].envelope.predecessor@ == 0
            && records@[0].envelope.preceding_state@ == 0,
        forall|i: int, j: int|
            #![trigger records@[i], records@[j]]
            0 <= i && j == i + 1 && j < records@.len() ==> records@[j].envelope.predecessor@
                == envelope_binding(records@[i].envelope@) && records@[j].envelope.preceding_state
                == chain@[i].state,
        forall|i: int|
            0 <= i < records@.len() ==> (#[trigger] records@[i]).intent.arguments@.len() <= u32::MAX
                && records@[i].envelope.action@ == intent_identity(records@[i].intent@),
        forall|i: int, j: int|
            #![trigger records@[i], records@[j]]
            0 <= i < j < records@.len() ==> records@[i].intent.chain != records@[j].intent.chain
                || records@[i].intent.deployment != records@[j].intent.deployment
                || records@[i].intent.game != records@[j].intent.game || records@[i].intent.actor
                != records@[j].intent.actor || records@[i].intent.nonce != records@[j].intent.nonce,
        forall|i: int|
            0 <= i < chain@.len() ==> (#[trigger] chain@[i]).order == i + 1 && chain@[i].binding@
                == envelope_binding(records@[i].envelope@) && (records@[i].result is Some
                ==> records@[i].result->0 == chain@[i].result) && (
            records@[i].following_state is Some ==> records@[i].following_state->0
                == chain@[i].state),
        records@.len() > chain@.len() ==> records@[chain@.len() as int].result is None
            && records@[chain@.len() as int].state != State::Consumed,
{
    let views = record_views(records@);
    law_verified_prefix(views, chain@);
    assert forall|i: int| 0 <= i < records@.len() implies #[trigger] record_fault(views, chain@, i)
        is None && views[i] == records@[i]@ by {
        lemma_no_fault(views, chain@, 0, i);
    }
    assert forall|i: int| 0 <= i < records@.len() implies (#[trigger] records@[i]).envelope.order
        == i + 1 && records@[i].intent.arguments@.len() <= u32::MAX
        && records@[i].envelope.action@ == intent_identity(records@[i].intent@) by {
        assert(record_fault(views, chain@, i) is None);
    }
    assert forall|i: int, j: int|
        #![trigger records@[i], records@[j]]
        0 <= i && j == i + 1 && j < records@.len() implies records@[j].envelope.predecessor@
        == envelope_binding(records@[i].envelope@) && records@[j].envelope.preceding_state
        == chain@[i].state by {
        lemma_no_fault(views, chain@, 0, j);
        assert(views[i] == records@[i]@);
        assert(views[j] == records@[j]@);
    }
    if records@.len() > 0 {
        assert(record_fault(views, chain@, 0) is None);
    }
    assert forall|i: int, j: int|
        #![trigger records@[i], records@[j]]
        0 <= i < j < records@.len() implies records@[i].intent.chain != records@[j].intent.chain
        || records@[i].intent.deployment != records@[j].intent.deployment
        || records@[i].intent.game != records@[j].intent.game || records@[i].intent.actor
        != records@[j].intent.actor || records@[i].intent.nonce != records@[j].intent.nonce by {
        assert(record_fault(views, chain@, j) is None);
        assert(views[i] == records@[i]@);
        assert(nonce_fields(views[i].intent) != nonce_fields(views[j].intent));
        if records@[i].intent.chain == records@[j].intent.chain && records@[i].intent.deployment
            == records@[j].intent.deployment && records@[i].intent.game == records@[j].intent.game
            && records@[i].intent.actor == records@[j].intent.actor && records@[i].intent.nonce
            == records@[j].intent.nonce {
            assert(nonce_fields(views[i].intent) =~= nonce_fields(views[j].intent));
        }
    }
    assert forall|i: int| 0 <= i < chain@.len() implies (#[trigger] chain@[i]).order == i + 1
        && chain@[i].binding@ == envelope_binding(records@[i].envelope@) && (records@[i].result
        is Some ==> records@[i].result->0 == chain@[i].result) && (records@[i].following_state
        is Some ==> records@[i].following_state->0 == chain@[i].state) by {
        assert(record_fault(views, chain@, i) is None);
        assert(views[i] == records@[i]@);
    }
    if records@.len() > chain@.len() {
        assert(record_fault(views, chain@, chain@.len() as int) is None);
    }
}

/// The record that a row is the journal's entry of.
pub open spec fn record_of(row: RowView) -> RecordView {
    choose|record: RecordView| row_holds(row, record)
}

/// The fields of a journal's rows.
pub open spec fn row_views(rows: Seq<StoredRow>) -> Seq<RowView> {
    Seq::new(rows.len(), |i: int| rows[i]@)
}

/// The records that rows are the journal's entries of.
pub open spec fn records_of(rows: Seq<RowView>) -> Seq<RecordView> {
    Seq::new(rows.len(), |i: int| record_of(rows[i]))
}

/// The error that the first faulty row from `i` on meets.
pub open spec fn rows_fault(rows: Seq<RowView>, i: int) -> Option<JournalError>
    decreases rows.len() - i,
{
    if i >= rows.len() {
        None
    } else if row_fault(rows[i]) is Some {
        row_fault(rows[i])
    } else {
        rows_fault(rows, i + 1)
    }
}

/// The records that rows are the journal's entries of.
pub fn decode_records(rows: &[StoredRow]) -> (outcome: Result<Vec<Record>, JournalError>)
    ensures
        match outcome {
            Ok(records) => rows_fault(row_views(rows@), 0) is None && record_views(records@)
                == records_of(row_views(rows@)) && forall|i: int|
                0 <= i < rows@.len() ==> row_holds(
                    row_views(rows@)[i],
                    #[trigger] record_views(records@)[i],
                ),
            Err(error) => rows_fault(row_views(rows@), 0) == Some(error),
        },
{
    let ghost views = row_views(rows@);
    let mut records: Vec<Record> = Vec::new();
    let mut i: usize = 0;
    while i < rows.len()
        invariant
            i <= rows@.len(),
            views == row_views(rows@),
            records@.len() == i,
            rows_fault(views, 0) == rows_fault(views, i as int),
            forall|k: int| 0 <= k < i ==> row_holds(views[k], (#[trigger] records@[k])@),
        decreases rows@.len() - i,
    {
        assert(views[i as int] == rows@[i as int]@);
        let record: Record = decode_record(&rows[i])?;
        records.push(record);
        i = i + 1;
    }
    proof {
        let found = record_views(records@);
        assert forall|k: int| 0 <= k < found.len() implies #[trigger] found[k] == records_of(
            views,
        )[k] by {
            assert(row_holds(views[k], records@[k]@));
            law_row_names_one_record(views[k], found[k], record_of(views[k]));
        }
        assert(found =~= records_of(views));
    }
    Ok(records)
}

/// The head of the journal as the storage hands it out.
pub struct StoredHead {
    pub accepted_order: i64,
    pub executed_order: i64,
    pub state: Vec<u8>,
    pub binding: Vec<u8>,
}

/// The number of records before the first that has no result.
pub open spec fn completed(records: Seq<RecordView>) -> nat
    decreases records.len(),
{
    if records.len() == 0 || records[0].result is None {
        0
    } else {
        1 + completed(records.skip(1))
    }
}

/// The binding of the last record.
pub open spec fn last_binding(records: Seq<RecordView>) -> nat {
    preceding_binding(records, records.len() as int)
}

/// The error that a head meets where it does not describe the records.
pub open spec fn head_fault(
    head: StoredHead,
    records: Seq<RecordView>,
    chain: Seq<ChainProgress>,
) -> Option<JournalError> {
    let done = completed(records) as int;
    if done > 0 && records[done - 1].following_state is None {
        Some(JournalError::Prefix)
    } else if head.accepted_order != records.len() || head.executed_order != done || done
        > chain.len() {
        Some(JournalError::Prefix)
    } else if element_fault(head.state@) is Some {
        element_fault(head.state@)
    } else if chunks(head.state@)[0] != (if done == 0 {
        0
    } else {
        records[done - 1].following_state->0@
    }) {
        Some(JournalError::Prefix)
    } else if element_fault(head.binding@) is Some {
        element_fault(head.binding@)
    } else if chunks(head.binding@)[0] != last_binding(records) {
        Some(JournalError::Prefix)
    } else {
        None
    }
}

/// The error that a recovery meets.
pub open spec fn recovery_fault(
    head: StoredHead,
    rows: Seq<RowView>,
    chain: Seq<ChainProgress>,
) -> Option<JournalError> {
    if rows_fault(rows, 0) is Some {
        rows_fault(rows, 0)
    } else if head_fault(head, records_of(rows), chain) is Some {
        head_fault(head, records_of(rows), chain)
    } else {
        prefix_fault(records_of(rows), chain)
    }
}

/// Whether a stored count is a length.
fn counts(stored: i64, length: usize) -> (result: bool)
    ensures
        result == (stored == length),
{
    stored >= 0 && stored as u64 == length as u64
}

/// The number of records before the first that has no result.
fn count_completed(records: &[Record]) -> (result: usize)
    ensures
        result == completed(record_views(records@)),
        result <= records@.len(),
{
    let ghost views = record_views(records@);
    let mut count: usize = 0;
    assert(views.skip(0) =~= views);
    while count < records.len() && records[count].result.is_some()
        invariant
            count <= records@.len(),
            views == record_views(records@),
            completed(views) == count + completed(views.skip(count as int)),
        decreases records@.len() - count,
    {
        proof {
            assert(views.skip(count as int)[0] == records@[count as int]@);
            assert(views.skip(count as int).skip(1) =~= views.skip(count + 1));
        }
        count = count + 1;
    }
    proof {
        if count < records@.len() {
            assert(views.skip(count as int)[0] == records@[count as int]@);
        }
        assert(completed(views.skip(count as int)) == 0);
    }
    count
}

/// The records of a snapshot of the journal, where its head describes them and they agree with
/// the chain.
pub fn recover_records(head: &StoredHead, rows: &[StoredRow], chain: &[ChainProgress]) -> (outcome:
    Result<Vec<Record>, JournalError>)
    ensures
        match outcome {
            Ok(records) => recovery_fault(*head, row_views(rows@), chain@) is None && record_views(
                records@,
            ) == records_of(row_views(rows@)),
            Err(error) => recovery_fault(*head, row_views(rows@), chain@) == Some(error),
        },
{
    let records: Vec<Record> = decode_records(rows)?;
    let ghost views = record_views(records@);
    let done: usize = count_completed(&records);
    let persisted: Felt = if done == 0 {
        Felt::zero()
    } else {
        assert(views[done - 1] == records@[done - 1]@);
        match records[done - 1].following_state {
            Some(state) => state,
            None => {
                return Err(JournalError::Prefix);
            },
        }
    };
    if !counts(head.accepted_order, records.len()) || !counts(head.executed_order, done) || done
        > chain.len() {
        return Err(JournalError::Prefix);
    }
    let state: Felt = felt_bytes(&head.state)?;
    proof {
        lemma_chunks(seq![state@], head.state@);
    }
    if state != persisted {
        return Err(JournalError::Prefix);
    }
    let binding: Felt = felt_bytes(&head.binding)?;
    proof {
        lemma_chunks(seq![binding@], head.binding@);
    }
    let last: Felt = if records.len() == 0 {
        Felt::zero()
    } else {
        assert(views[records@.len() - 1] == records@[records@.len() - 1]@);
        records[records.len() - 1].envelope.binding()
    };
    if binding != last {
        return Err(JournalError::Prefix);
    }
    verify_prefix(&records, chain)?;
    Ok(records)
}

/// A recovered journal holds every action that the chain executed, each under the binding that the
/// chain reports, and one unexecuted action behind them at most.
pub proof fn law_recovery_covers_the_chain(
    head: StoredHead,
    rows: Seq<RowView>,
    chain: Seq<ChainProgress>,
)
    requires
        recovery_fault(head, rows, chain) is None,
    ensures
        chain.len() <= rows.len() <= chain.len() + 1,
        head.accepted_order == rows.len(),
        head.executed_order <= chain.len(),
        forall|i: int|
            0 <= i < chain.len() ==> (#[trigger] chain[i]).binding@ == envelope_binding(
                record_of(rows[i]).envelope,
            ),
{
    law_verified_prefix(records_of(rows), chain);
    assert forall|i: int| 0 <= i < chain.len() implies (#[trigger] chain[i]).binding@
        == envelope_binding(record_of(rows[i]).envelope) by {
        assert(records_of(rows)[i] == record_of(rows[i]));
    }
}

/// The writer's epoch as the journal stores it.
pub fn writer_epoch(epoch: u64) -> (result: Result<i64, JournalError>)
    ensures
        match result {
            Ok(stored) => stored == epoch,
            Err(error) => epoch > i64::MAX && error == JournalError::Capacity,
        },
{
    if epoch > i64::MAX as u64 {
        return Err(JournalError::Capacity);
    }
    Ok(epoch as i64)
}

/// Refuses a reader that is not recovering from a primary.
pub fn require_standby(recovering: bool) -> (result: Result<(), JournalError>)
    ensures
        result == (if recovering {
            Ok::<(), JournalError>(())
        } else {
            Err(JournalError::Standby)
        }),
{
    if recovering {
        Ok(())
    } else {
        Err(JournalError::Standby)
    }
}

/// One transaction that carried an action.
pub struct Submission {
    pub action: Felt,
    pub transaction_hash: Felt,
    pub epoch: u64,
    pub bytes: Vec<u8>,
    pub refusal: Option<String>,
}

/// A row of pending submissions as the storage hands it out.
pub struct SubmissionRow {
    pub action: Vec<u8>,
    pub transaction_hash: Vec<u8>,
    pub epoch: i64,
    pub transaction_bytes: Vec<u8>,
    pub refusal: Option<String>,
}

/// The error that a row of submissions meets.
pub open spec fn submission_fault(row: SubmissionRow) -> Option<JournalError> {
    if element_fault(row.action@) is Some {
        element_fault(row.action@)
    } else if element_fault(row.transaction_hash@) is Some {
        element_fault(row.transaction_hash@)
    } else if row.epoch < 0 {
        Some(JournalError::Prefix)
    } else {
        None
    }
}

/// Whether a row holds a submission.
pub open spec fn holds_submission(row: SubmissionRow, submission: Submission) -> bool {
    &&& field_bytes(seq![submission.action@], row.action@)
    &&& field_bytes(seq![submission.transaction_hash@], row.transaction_hash@)
    &&& submission.epoch == row.epoch
    &&& submission.bytes == row.transaction_bytes
    &&& submission.refusal == row.refusal
}

/// The submission that a row holds.
pub fn decode_submission(row: SubmissionRow) -> (outcome: Result<Submission, JournalError>)
    ensures
        match outcome {
            Ok(submission) => submission_fault(row) is None && holds_submission(row, submission),
            Err(error) => submission_fault(row) == Some(error),
        },
{
    let action: Felt = felt_bytes(&row.action)?;
    let transaction_hash: Felt = felt_bytes(&row.transaction_hash)?;
    if row.epoch < 0 {
        return Err(JournalError::Prefix);
    }
    Ok(
        Submission {
            action,
            transaction_hash,
            epoch: row.epoch as u64,
            bytes: row.transaction_bytes,
            refusal: row.refusal,
        },
    )
}

/// The error of the first row from `i` on that holds no submission.
pub open spec fn submissions_fault(rows: Seq<SubmissionRow>, i: int) -> Option<JournalError>
    decreases rows.len() - i,
{
    if i >= rows.len() {
        None
    } else if submission_fault(rows[i]) is Some {
        submission_fault(rows[i])
    } else {
        submissions_fault(rows, i + 1)
    }
}

/// The submissions that rows hold, in their order.
pub fn decode_submissions(rows: Vec<SubmissionRow>) -> (outcome: Result<
    Vec<Submission>,
    JournalError,
>)
    ensures
        match outcome {
            Ok(submissions) => submissions_fault(rows@, 0) is None && submissions@.len()
                == rows@.len() && forall|i: int|
                0 <= i < rows@.len() ==> holds_submission(rows@[i], #[trigger] submissions@[i]),
            Err(error) => submissions_fault(rows@, 0) == Some(error),
        },
{
    let ghost all = rows@;
    let mut rest: Vec<SubmissionRow> = rows;
    let mut submissions: Vec<Submission> = Vec::new();
    while rest.len() > 0
        invariant
            all == rows@,
            submissions@.len() + rest@.len() == all.len(),
            rest@ == all.skip(submissions@.len() as int),
            submissions_fault(all, 0) == submissions_fault(all, submissions@.len() as int),
            forall|i: int|
                0 <= i < submissions@.len() ==> holds_submission(all[i], #[trigger] submissions@[i]),
        decreases rest@.len(),
    {
        assert(rest@[0] == all[submissions@.len() as int]);
        let submission: Submission = decode_submission(rest.remove(0))?;
        submissions.push(submission);
        assert(rest@ =~= all.skip(submissions@.len() as int));
    }
    Ok(submissions)
}

/// The error of looking up an action that the journal must hold.
pub open spec fn lookup_fault(row: Option<StoredRow>) -> Option<JournalError> {
    match row {
        Some(row) => row_fault(row@),
        None => Some(JournalError::Prefix),
    }
}

/// The record of an action that the journal must hold.
pub fn accepted_record(row: Option<StoredRow>) -> (outcome: Result<Record, JournalError>)
    ensures
        match outcome {
            Ok(record) => lookup_fault(row) is None && row_holds(row->0@, record@),
            Err(error) => lookup_fault(row) == Some(error),
        },
{
    match row {
        Some(row) => decode_record(&row),
        None => Err(JournalError::Prefix),
    }
}

/// Refuses a submission without a hash or without bytes, before the journal is read.
pub fn check_submission(transaction: Felt, bytes: &[u8]) -> (result: Result<(), JournalError>)
    ensures
        result == (if transaction@ == 0 || bytes@.len() == 0 {
            Err::<(), JournalError>(JournalError::Prefix)
        } else {
            Ok(())
        }),
{
    if transaction == Felt::zero() || bytes.len() == 0 {
        return Err(JournalError::Prefix);
    }
    Ok(())
}

/// Refuses a result of zero, before the journal is read.
pub fn check_result(result: Felt) -> (outcome: Result<(), JournalError>)
    ensures
        outcome == (if result@ == 0 {
            Err::<(), JournalError>(JournalError::Prefix)
        } else {
            Ok(())
        }),
{
    if result == Felt::zero() {
        return Err(JournalError::Prefix);
    }
    Ok(())
}

/// What an operation on the ticket of a looked-up record returns.
pub open spec fn recorded_outcome(
    row: Option<StoredRow>,
    operation: crate::ticket::Operation,
) -> Result<(), JournalError> {
    let record = record_of(row->0@);
    let restored = crate::ticket::TicketView::restored(
        record.intent,
        record.envelope,
        record.state,
        record.result,
    );
    let fault = crate::ticket::restore_fault(
        record.intent,
        record.envelope,
        record.state,
        record.result,
    );
    if lookup_fault(row) is Some {
        Err(lookup_fault(row)->0)
    } else if fault is Some {
        Err(JournalError::Ticket(fault->0))
    } else {
        match restored.apply(operation).0 {
            Ok(_) => Ok(()),
            Err(error) => Err(JournalError::Ticket(error)),
        }
    }
}

/// The ticket of a looked-up record.
fn recorded_ticket(row: Option<StoredRow>) -> (outcome: Result<Ticket, JournalError>)
    ensures
        match outcome {
            Ok(ticket) => {
                let record = record_of(row->0@);
                &&& lookup_fault(row) is None
                &&& crate::ticket::restore_fault(
                    record.intent,
                    record.envelope,
                    record.state,
                    record.result,
                ) is None
                &&& ticket@ == crate::ticket::TicketView::restored(
                    record.intent,
                    record.envelope,
                    record.state,
                    record.result,
                )
            },
            Err(error) => forall|operation: crate::ticket::Operation| #[trigger]
                recorded_outcome(row, operation) == Err::<(), JournalError>(error),
        },
{
    let record: Record = accepted_record(row)?;
    proof {
        law_row_names_one_record(row->0@, record@, record_of(row->0@));
    }
    match record.restore_ticket() {
        Ok(ticket) => Ok(ticket),
        Err(error) => Err(JournalError::Ticket(error)),
    }
}

/// Whether the journal may record that a transaction carries an action.
pub fn record_submission(row: Option<StoredRow>, transaction: Felt) -> (outcome: Result<
    (),
    JournalError,
>)
    ensures
        outcome == recorded_outcome(row, crate::ticket::Operation::Submit(transaction)),
{
    let mut ticket: Ticket = recorded_ticket(row)?;
    match ticket.submitted(transaction) {
        Ok(_) => Ok(()),
        Err(error) => Err(JournalError::Ticket(error)),
    }
}

/// Whether the journal may record an action's outcome.
pub fn record_outcome(row: Option<StoredRow>, result: Felt, rejected: bool) -> (outcome: Result<
    (),
    JournalError,
>)
    ensures
        outcome == recorded_outcome(
            row,
            crate::ticket::Operation::Finish(
                if rejected {
                    State::TerminalRejected
                } else {
                    State::Executed
                },
                result,
            ),
        ),
{
    let mut ticket: Ticket = recorded_ticket(row)?;
    let state: State = if rejected {
        State::TerminalRejected
    } else {
        State::Executed
    };
    match ticket.finish(state, result) {
        Ok(_) => Ok(()),
        Err(error) => Err(JournalError::Ticket(error)),
    }
}

/// Whether the journal may record that an action's nonce was consumed.
pub fn record_consumption(row: Option<StoredRow>) -> (outcome: Result<(), JournalError>)
    ensures
        outcome == recorded_outcome(row, crate::ticket::Operation::Consume),
{
    let mut ticket: Ticket = recorded_ticket(row)?;
    match ticket.consume() {
        Ok(_) => Ok(()),
        Err(error) => Err(JournalError::Ticket(error)),
    }
}

/// What the storage is handed to reserve the sampling of an action.
pub struct Reservation {
    pub nonce_key: Vec<u8>,
    pub action: Vec<u8>,
    pub order: i64,
    pub intent: Vec<u8>,
    pub context: Vec<u8>,
    pub authorization: Vec<u8>,
}

/// An envelope with a context and no root.
pub open spec fn context_only(action: Felt, context: Context) -> EnvelopeView {
    EnvelopeView {
        action,
        order: context.order,
        predecessor: context.predecessor,
        preceding_state: context.preceding_state,
        timestamp: context.timestamp,
        execution_config: context.execution_config,
        l2_gas: context.l2_gas,
        root: Seq::new(32, |i: int| 0u8),
    }
}

/// Whether a reservation holds an action's columns.
pub open spec fn reserves(reservation: Reservation, acceptance: AcceptanceView) -> bool {
    &&& field_bytes(nonce_fields(acceptance.intent), reservation.nonce_key@)
    &&& field_bytes(seq![acceptance.action@], reservation.action@)
    &&& reservation.order == acceptance.context.order
    &&& field_bytes(intent_fields(acceptance.intent), reservation.intent@)
    &&& field_bytes(
        context_fields(context_only(acceptance.action, acceptance.context)),
        reservation.context@,
    )
    &&& field_bytes(authorization_fields(acceptance.authorization), reservation.authorization@)
}

/// What the storage is handed to bind a reserved action to its envelope.
pub struct BindingEntry {
    pub action: Vec<u8>,
    pub envelope: Vec<u8>,
    pub binding: Vec<u8>,
}

/// Whether an entry holds an envelope's columns.
pub open spec fn binds_envelope(entry: BindingEntry, envelope: EnvelopeView) -> bool {
    &&& field_bytes(seq![envelope.action@], entry.action@)
    &&& field_bytes(envelope_fields(envelope), entry.envelope@)
    &&& field_bytes(seq![envelope_binding(envelope)], entry.binding@)
}

/// The bytes of one element.
pub fn element_bytes(felt: Felt) -> (result: Vec<u8>)
    ensures
        field_bytes(seq![felt@], result@),
{
    let fields: [Felt; 1] = [felt];
    assert(values(fields@) =~= seq![felt@]);
    encode_bytes(&fields)
}

/// The columns of a reservation's context: an envelope without a root.
pub fn context_envelope(action: Felt, context: &Context) -> (result: Envelope)
    ensures
        result@ == context_only(action, *context),
{
    let envelope: Envelope = Envelope {
        action,
        order: context.order,
        predecessor: context.predecessor,
        preceding_state: context.preceding_state,
        timestamp: context.timestamp,
        execution_config: context.execution_config,
        l2_gas: context.l2_gas,
        root: [0u8; 32],
    };
    assert(envelope@.root =~= Seq::new(32, |i: int| 0u8));
    envelope
}

/// The columns that bind an action to its envelope.
pub fn binding_entry(envelope: &Envelope) -> (result: BindingEntry)
    ensures
        binds_envelope(result, envelope@),
{
    BindingEntry {
        action: element_bytes(envelope.action),
        envelope: encode_bytes(&envelope.encode()),
        binding: element_bytes(envelope.binding()),
    }
}

/// An action on its way into the journal, before its root is sampled.
pub struct Acceptance {
    intent: Intent,
    context: Context,
    authorization: Authorization,
    action: Felt,
}

/// The fields of an [`Acceptance`].
#[verifier::ext_equal]
pub struct AcceptanceView {
    pub intent: IntentView,
    pub context: Context,
    pub authorization: Authorization,
    pub action: Felt,
}

impl View for Acceptance {
    type V = AcceptanceView;

    closed spec fn view(&self) -> AcceptanceView {
        AcceptanceView {
            intent: self.intent@,
            context: self.context,
            authorization: self.authorization,
            action: self.action,
        }
    }
}

impl AcceptanceView {
    /// Why an action that the journal does not hold cannot be reserved.
    pub open spec fn fault(self) -> Option<JournalError> {
        if context_fault(self.context, self.intent) is Some {
            Some(JournalError::Ticket(context_fault(self.context, self.intent)->0))
        } else if !authorizes(self.authorization, self.action@) {
            Some(JournalError::Signature)
        } else if self.context.order > i64::MAX {
            Some(JournalError::Capacity)
        } else {
            None
        }
    }

    /// What sampling makes of the proposal.
    pub open spec fn sampled(self, filled: Result<Seq<u8>, TicketError>) -> (
        Result<(), TicketError>,
        crate::ticket::TicketView,
    ) {
        crate::ticket::TicketView::proposed(self.intent, self.context).sampled(filled)
    }

    /// What a source's answer makes of the action: the ticket that is proposed and sampled.
    pub open spec fn proposal(self, answer: Result<[u8; 32], TicketError>) -> Result<
        crate::ticket::TicketView,
        JournalError,
    > {
        match context_fault(self.context, self.intent) {
            Some(error) => Err(JournalError::Ticket(error)),
            None => match self.sampled(crate::ticket::filled_view(answer)) {
                (Ok(_), ticket) => Ok(ticket),
                (Err(error), _) => Err(JournalError::Ticket(error)),
            },
        }
    }
}

/// A proposal by its ticket, where there is one.
pub open spec fn proposal_result(outcome: Result<Proposal, JournalError>) -> Result<
    crate::ticket::TicketView,
    JournalError,
> {
    match outcome {
        Ok(proposal) => Ok(proposal@),
        Err(error) => Err(error),
    }
}

/// What the storage's answer leads to, by the proposal's ticket: nothing where the record must be
/// read.
pub open spec fn reserved_result(outcome: Result<Reserved, JournalError>) -> Result<
    Option<crate::ticket::TicketView>,
    JournalError,
> {
    match outcome {
        Ok(Reserved::Read) => Ok(None),
        Ok(Reserved::Commit(proposal)) => Ok(Some(proposal@)),
        Err(error) => Err(error),
    }
}

/// What the journal's answer on an action calls for.
pub enum Lookup {
    /// The journal holds the action: its record stands.
    Known(Record),
    /// The journal does not hold the action: its sampling must be reserved.
    Reserve(Acceptance, Reservation),
}

/// What the storage's answer on a reservation calls for.
pub enum Reserved {
    /// Another writer reserved the action: its record must be read.
    Read,
    /// The reservation is ours: the sampled envelope must be committed.
    Commit(Proposal),
}

/// A sampled action whose envelope the journal has not acknowledged.
pub struct Proposal {
    ticket: Ticket,
}

impl View for Proposal {
    type V = crate::ticket::TicketView;

    closed spec fn view(&self) -> crate::ticket::TicketView {
        self.ticket@
    }
}

impl Acceptance {
    /// An action to accept.
    pub fn begin(intent: Intent, context: Context, authorization: Authorization) -> (outcome:
        Result<Acceptance, JournalError>)
        ensures
            match outcome {
                Ok(acceptance) => encodable(intent@) && acceptance@ == (AcceptanceView {
                    intent: intent@,
                    context,
                    authorization,
                    action: felt_of(intent_identity(intent@)),
                }) && acceptance@.action@ == intent_identity(intent@),
                Err(error) => !encodable(intent@) && error == JournalError::Protocol(
                    ProtocolError::Length,
                ),
            },
    {
        match intent.identity() {
            Ok(action) => {
                proof {
                    lemma_felt_of(action);
                }
                Ok(Acceptance { intent, context, authorization, action })
            },
            Err(error) => Err(JournalError::Protocol(error)),
        }
    }

    /// The identity that the journal is asked for.
    pub fn action(&self) -> (result: Felt)
        ensures
            result == self@.action,
    {
        self.action
    }

    /// What follows from the journal's answer on the action. A record that stands is returned as
    /// it stands, whatever the context and the authorization of this request.
    pub fn looked_up(self, row: Option<StoredRow>) -> (outcome: Result<Lookup, JournalError>)
        ensures
            match row {
                Some(row) => match outcome {
                    Ok(lookup) => row_fault(row@) is None && lookup is Known && row_holds(
                        row@,
                        lookup->Known_0@,
                    ),
                    Err(error) => row_fault(row@) == Some(error),
                },
                None => match outcome {
                    Ok(lookup) => self@.fault() is None && lookup is Reserve && lookup->Reserve_0@
                        == self@ && reserves(lookup->Reserve_1, self@),
                    Err(error) => self@.fault() == Some(error),
                },
            },
    {
        if let Some(row) = row {
            return match decode_record(&row) {
                Ok(record) => Ok(Lookup::Known(record)),
                Err(error) => Err(error),
            };
        }
        if let Err(error) = self.context.validate(&self.intent) {
            return Err(JournalError::Ticket(error));
        }
        self.authorization.verify(self.action)?;
        if self.context.order > i64::MAX as u64 {
            return Err(JournalError::Capacity);
        }
        let signed: Vec<Felt> = match self.intent.encode() {
            Ok(fields) => fields,
            Err(error) => {
                return Err(JournalError::Protocol(error));
            },
        };
        let reservation: Reservation = Reservation {
            nonce_key: encode_bytes(&self.intent.nonce_key()),
            action: element_bytes(self.action),
            order: self.context.order as i64,
            intent: encode_bytes(&signed),
            context: encode_bytes(&context_envelope(self.action, &self.context).encode_context()),
            authorization: self.authorization.encode(),
        };
        Ok(Lookup::Reserve(self, reservation))
    }

    /// What follows from the storage's answer on the reservation: the root is sampled only where
    /// this reservation created the sampling ownership, and then from the operating system.
    pub fn reserved(self, created: bool) -> (outcome: Result<Reserved, JournalError>)
        ensures
            !created ==> reserved_result(outcome) == Ok::<
                Option<crate::ticket::TicketView>,
                JournalError,
            >(None),
            created ==> exists|answer: Result<[u8; 32], TicketError>| #[trigger]
                os_answer(answer) && reserved_result(outcome) == (match self@.proposal(answer) {
                    Ok(ticket) => Ok::<Option<crate::ticket::TicketView>, JournalError>(
                        Some(ticket),
                    ),
                    Err(error) => Err(error),
                }),
    {
        if !created {
            return Ok(Reserved::Read);
        }
        let answer: Result<[u8; 32], TicketError> = os_source();
        match self.sampled(answer) {
            Ok(proposal) => Ok(Reserved::Commit(proposal)),
            Err(error) => Err(error),
        }
    }

    /// The proposal that a source's answer makes of the action.
    pub fn sampled(self, filled: Result<[u8; 32], TicketError>) -> (outcome: Result<
        Proposal,
        JournalError,
    >)
        ensures
            proposal_result(outcome) == self@.proposal(filled),
    {
        let mut ticket: Ticket = match Ticket::propose(self.intent, self.context) {
            Ok(ticket) => ticket,
            Err(error) => {
                return Err(JournalError::Ticket(error));
            },
        };
        let fill = || -> (given: Result<[u8; 32], TicketError>)
            ensures
                given == filled,
            { filled };
        match ticket.sample_with(fill) {
            Ok(_) => Ok(Proposal { ticket }),
            Err(error) => Err(JournalError::Ticket(error)),
        }
    }
}

impl Proposal {
    /// The columns that commit the sampled envelope.
    pub fn entry(&self) -> (outcome: Result<BindingEntry, JournalError>)
        ensures
            match outcome {
                Ok(entry) => self@.envelope is Some && binds_envelope(entry, self@.envelope->0),
                Err(error) => self@.envelope is None && error == JournalError::Ticket(
                    TicketError::Uncommitted,
                ),
            },
    {
        match self.ticket.envelope_for_journal() {
            Ok(envelope) => Ok(binding_entry(envelope)),
            Err(error) => Err(JournalError::Ticket(error)),
        }
    }

    /// The record that the standby acknowledges, which must bind the sampled envelope.
    pub fn witnessed(self, row: Option<StoredRow>) -> (outcome: Result<Record, JournalError>)
        ensures
            match outcome {
                Ok(record) => lookup_fault(row) is None && row_holds(row->0@, record@)
                    && self@.committed().0 is Ok && self@.envelope == Some(record@.envelope),
                Err(error) => if lookup_fault(row) is Some {
                    lookup_fault(row) == Some(error)
                } else {
                    match self@.committed().0 {
                        Err(source) => error == JournalError::Ticket(source),
                        Ok(_) => error == JournalError::Prefix && self@.envelope != Some(
                            record_of(row->0@).envelope,
                        ),
                    }
                },
            },
    {
        let record: Record = accepted_record(row)?;
        proof {
            law_row_names_one_record(row->0@, record@, record_of(row->0@));
        }
        let mut ticket: Ticket = self.ticket;
        if let Err(error) = ticket.committed() {
            return Err(JournalError::Ticket(error));
        }
        let agrees: bool = match ticket.envelope() {
            Ok(envelope) => envelope.same(&record.envelope),
            Err(error) => {
                return Err(JournalError::Ticket(error));
            },
        };
        if !agrees {
            return Err(JournalError::Prefix);
        }
        Ok(record)
    }
}

/// The row of an action that was reserved and then bound to its sampled envelope is the entry of a
/// record with exactly the intent, the authorization and the envelope that went in, so that what
/// the journal acknowledges is what was sampled.
pub proof fn law_acceptance_is_recorded(
    acceptance: AcceptanceView,
    reservation: Reservation,
    root: Seq<u8>,
    entry: BindingEntry,
    row: RowView,
)
    requires
        root.len() == 32,
        acceptance.action@ == intent_identity(acceptance.intent),
        acceptance.fault() is None,
        reserves(reservation, acceptance),
        binds_envelope(entry, acceptance.sampled(Ok(root)).1.envelope->0),
        row == (RowView {
            envelope: Some(entry.envelope@),
            intent: reservation.intent@,
            auth_witness: reservation.authorization@,
            action: reservation.action@,
            binding: entry.binding@,
            ticket_order: reservation.order,
            context: reservation.context@,
            nonce_key: reservation.nonce_key@,
            status: "committed"@,
            result: None,
            following_state: None,
            rejected: None,
        }),
    ensures
        row_holds(
            row,
            (RecordView {
                intent: acceptance.intent,
                envelope: acceptance.sampled(Ok(root)).1.envelope->0,
                authorization: acceptance.authorization,
                result: None,
                following_state: None,
                rejected: None,
                state: State::Committed,
            }),
        ),
{
    let envelope = acceptance.sampled(Ok(root)).1.envelope->0;
    lemma_felt_of(acceptance.action);
    assert(envelope.action == acceptance.action);
    assert(context_fields(envelope) =~= context_fields(
        context_only(acceptance.action, acceptance.context),
    ));
    assert(context_of(envelope) == acceptance.context);
}

/// A stored word names the state that it is the word of, and no other word names one.
pub proof fn law_states_are_stored_as_their_words(status: &str, result: Option<State>)
    requires
        call_ensures(decode_status, (status,), result),
    ensures
        result == Some(State::Committed) <==> status@ == "committed"@,
        result == Some(State::Submitted) <==> status@ == "submitted"@,
        result == Some(State::Executed) <==> status@ == "executed"@,
        result == Some(State::TerminalRejected) <==> status@ == "terminal-rejected"@,
        result == Some(State::Consumed) <==> status@ == "consumed"@,
        result != Some(State::Proposed),
{
    assert(status_text(State::Committed) == Some("committed"@));
    assert(status_text(State::Submitted) == Some("submitted"@));
    assert(status_text(State::Executed) == Some("executed"@));
    assert(status_text(State::TerminalRejected) == Some("terminal-rejected"@));
    assert(status_text(State::Consumed) == Some("consumed"@));
    if result is Some {
        let found = result->0;
        if status@ == "committed"@ {
            lemma_status_text_is_unique(found, State::Committed);
        }
        if status@ == "submitted"@ {
            lemma_status_text_is_unique(found, State::Submitted);
        }
        if status@ == "executed"@ {
            lemma_status_text_is_unique(found, State::Executed);
        }
        if status@ == "terminal-rejected"@ {
            lemma_status_text_is_unique(found, State::TerminalRejected);
        }
        if status@ == "consumed"@ {
            lemma_status_text_is_unique(found, State::Consumed);
        }
    }
}

/// An authorization signs an action exactly where its key verifies its signature of the action, and
/// it is stored as the bytes of its key and the signature's two elements.
pub proof fn law_authorization_is_its_key_and_signature(
    authorization: &Authorization,
    action: Felt,
    verified: Result<(), JournalError>,
    stored: Vec<u8>,
    fields: &[Felt],
    bytes: Vec<u8>,
)
    requires
        call_ensures(Authorization::verify, (authorization, action), verified),
        call_ensures(Authorization::encode, (authorization,), stored),
        fields@ == seq![authorization.public_key, authorization.r, authorization.s],
        call_ensures(encode_bytes, (fields,), bytes),
    ensures
        verified is Ok <==> signature_valid(
            authorization.public_key@,
            action@,
            authorization.r@,
            authorization.s@,
        ),
        verified is Err ==> verified->Err_0 == JournalError::Signature,
        stored@ == bytes@,
{
    assert(values(fields@) =~= authorization_fields(*authorization));
    law_sequence_has_one_byte_string(authorization_fields(*authorization), stored@, bytes@);
}

/// One element is stored as its thirty-two bytes and read back from them. Bytes of several elements or
/// of none are no element, and a column without bytes holds none.
pub proof fn law_element_is_read_back(
    felt: Felt,
    stored: Vec<u8>,
    bytes: Vec<u8>,
    slice: &[u8],
    read: Result<Felt, JournalError>,
    present: Result<Option<Felt>, JournalError>,
    absent: Result<Option<Felt>, JournalError>,
)
    requires
        felt.canonical(),
        slice@ == bytes@,
        call_ensures(element_bytes, (felt,), stored),
        call_ensures(felt_bytes, (slice,), read),
        call_ensures(optional_felt, (&Some(bytes),), present),
        call_ensures(optional_felt, (&None::<Vec<u8>>,), absent),
    ensures
        stored@.len() == 32,
        bytes@ == stored@ ==> read == Ok::<Felt, JournalError>(felt),
        read is Ok && felt == read->Ok_0 ==> bytes@ == stored@,
        bytes@.len() % 32 != 0 ==> read == Err::<Felt, JournalError>(
            JournalError::Protocol(ProtocolError::Length),
        ),
        read is Ok ==> bytes@.len() == 32,
        bytes@.len() == 0 ==> read == Err::<Felt, JournalError>(JournalError::Prefix),
        read is Ok ==> present == Ok::<Option<Felt>, JournalError>(Some(read->Ok_0)),
        read is Err ==> present is Err && present->Err_0 == read->Err_0,
        absent == Ok::<Option<Felt>, JournalError>(None),
{
    lemma_element_is_accepted(felt, stored@);
    if bytes@ == stored@ {
        lemma_chunks(seq![read->Ok_0@], bytes@);
        assert(chunks(bytes@)[0] == felt@);
        assert(chunks(bytes@)[0] == read->Ok_0@);
    }
    if read is Ok {
        if felt == read->Ok_0 {
            law_sequence_has_one_byte_string(seq![felt@], bytes@, stored@);
        }
        let found = present->Ok_0;
        lemma_optional_is_unique(Some(bytes@), found, Some(read->Ok_0));
    }
}

/// The elements that an envelope is stored as.
pub open spec fn stored_envelope(envelope: Envelope) -> Seq<nat> {
    seq![
        0x455445524e554d5f42494e44494e47,
        1,
        envelope.action@,
        envelope.order as nat,
        envelope.predecessor@,
        envelope.preceding_state@,
        envelope.timestamp as nat,
        envelope.execution_config@,
        envelope.l2_gas as nat,
        be_value(envelope.root@.subrange(16, 32)),
        be_value(envelope.root@.subrange(0, 16)),
    ]
}

/// The elements that an intent is stored as.
pub open spec fn stored_intent(intent: Intent) -> Seq<nat> {
    seq![
        0x455445524e554d5f494e54454e54,
        1,
        intent.chain@,
        intent.deployment@,
        intent.game@,
        intent.actor@,
        intent.nonce as nat,
        intent.command@,
        intent.rules@,
        intent.valid_from as nat,
        intent.valid_until as nat,
        intent.last_order as nat,
        intent.arguments@.len(),
    ] + values(intent.arguments@)
}

/// Whether a column that may be null holds the bytes of an optional element.
pub open spec fn stored_optional(column: Option<Vec<u8>>, felt: Option<Felt>) -> bool {
    &&& column is Some <==> felt is Some
    &&& column is Some ==> field_bytes(seq![felt->0@], column->0@)
}

/// Whether a row stores a record, column by column: the envelope's elements and those of its context,
/// the intent's elements and those of its nonce, the key and the signature, the action, which hashes
/// the intent, the binding, which hashes the envelope, the order, the state's word and what the chain
/// said of the action. The envelope's context lies within the intent's limits, and the signature is
/// valid for the action.
pub open spec fn stores(row: StoredRow, record: Record) -> bool {
    let envelope = record.envelope;
    let intent = record.intent;
    let authorization = record.authorization;
    &&& row.envelope is Some
    &&& field_bytes(stored_envelope(envelope), row.envelope->0@)
    &&& field_bytes(stored_envelope(envelope).take(9), row.context@)
    &&& field_bytes(stored_intent(intent), row.intent@)
    &&& field_bytes(
        seq![intent.chain@, intent.deployment@, intent.game@, intent.actor@, intent.nonce as nat],
        row.nonce_key@,
    )
    &&& field_bytes(
        seq![authorization.public_key@, authorization.r@, authorization.s@],
        row.auth_witness@,
    )
    &&& field_bytes(seq![envelope.action@], row.action@)
    &&& envelope.action@ == poseidon_array(stored_intent(intent))
    &&& field_bytes(seq![poseidon_array(stored_envelope(envelope))], row.binding@)
    &&& row.ticket_order == envelope.order
    &&& intent.arguments@.len() <= u32::MAX
    &&& 1 <= envelope.order <= intent.last_order
    &&& intent.valid_from <= envelope.timestamp <= intent.valid_until
    &&& envelope.l2_gas >= 1
    &&& signature_valid(
        authorization.public_key@,
        envelope.action@,
        authorization.r@,
        authorization.s@,
    )
    &&& match record.state {
        State::Proposed => false,
        State::Committed => row.status@ == "committed"@,
        State::Submitted => row.status@ == "submitted"@,
        State::Executed => row.status@ == "executed"@,
        State::TerminalRejected => row.status@ == "terminal-rejected"@,
        State::Consumed => row.status@ == "consumed"@,
    }
    &&& stored_optional(row.result, record.result)
    &&& stored_optional(row.following_state, record.following_state)
    &&& row.rejected == record.rejected
}

proof fn lemma_stores(row: StoredRow, record: Record)
    ensures
        stores(row, record) <==> row_holds(row@, record@),
{
    assert(stored_envelope(record.envelope) =~= envelope_fields(record.envelope@));
    assert(stored_envelope(record.envelope).take(9) =~= context_fields(record.envelope@));
    assert(stored_intent(record.intent) =~= intent_fields(record.intent@));
    assert(record.envelope@.root.len() == 32);
}

/// A row is read as a record exactly where it stores the record, column by column. The elements are
/// canonical, as every element that exists is, and the `binding` is the envelope's.
#[verifier::spinoff_prover]
pub proof fn law_row_is_read_as_what_it_stores(
    row: &StoredRow,
    record: Record,
    binding: Felt,
    result: Result<Record, JournalError>,
)
    requires
        record_canonical(record@),
        binding@ == poseidon_array(stored_envelope(record.envelope)),
        binding.canonical(),
        call_ensures(decode_record, (row,), result),
    ensures
        (result is Ok && result->Ok_0@ == record@) <==> stores(*row, record),
{
    assert(stored_envelope(record.envelope) =~= envelope_fields(record.envelope@));
    lemma_stores(*row, record);
    if stores(*row, record) {
        law_recorded_row_is_read_back(row@, record@, binding);
        law_row_names_one_record(row@, record@, result->Ok_0@);
    }
}

/// Whatever a row is read as, the row stores it.
pub proof fn law_read_row_stores_its_record(row: &StoredRow, result: Result<Record, JournalError>)
    requires
        call_ensures(decode_record, (row,), result),
    ensures
        row.envelope is None ==> result is Err && result->Err_0 == JournalError::UnresolvedProposal,
        result is Ok ==> stores(*row, result->Ok_0),
{
    if result is Ok {
        lemma_stores(*row, result->Ok_0);
    }
}

/// Rows are read one by one and in their order, and the first that stores no record is what the whole
/// is refused for.
#[verifier::spinoff_prover]
pub proof fn law_rows_are_read_in_order(
    rows: &[StoredRow],
    k: int,
    single: Result<Record, JournalError>,
    result: Result<Vec<Record>, JournalError>,
)
    requires
        0 <= k < rows@.len(),
        call_ensures(decode_record, (&rows@[k],), single),
        call_ensures(decode_records, (rows,), result),
    ensures
        result is Ok ==> result->Ok_0@.len() == rows@.len() && single is Ok
            && result->Ok_0@[k]@ == single->Ok_0@,
        result is Err && single is Err && (forall|j: int|
            0 <= j < k ==> row_fault((#[trigger] rows@[j])@) is None) ==> result->Err_0
            == single->Err_0,
        single is Err ==> result is Err,
{
    let views = row_views(rows@);
    assert(views[k] == rows@[k]@);
    if rows_fault(views, 0) is None {
        lemma_rows_without_fault(views, 0, k);
    }
    if result is Ok {
        assert(record_views(result->Ok_0@).len() == result->Ok_0@.len());
        assert(record_views(result->Ok_0@)[k] == result->Ok_0@[k]@);
        assert(row_holds(views[k], record_views(result->Ok_0@)[k]));
        law_row_names_one_record(views[k], result->Ok_0@[k]@, single->Ok_0@);
    } else if single is Err && (forall|j: int|
        0 <= j < k ==> row_fault((#[trigger] rows@[j])@) is None) {
        assert forall|j: int| 0 <= j < k implies row_fault(#[trigger] views[j]) is None by {
            assert(views[j] == rows@[j]@);
        }
        lemma_first_faulty_row(views, 0, k);
    }
}

proof fn lemma_rows_without_fault(rows: Seq<RowView>, i: int, k: int)
    requires
        0 <= i <= k < rows.len(),
        rows_fault(rows, i) is None,
    ensures
        row_fault(rows[k]) is None,
    decreases k - i,
{
    if i < k {
        lemma_rows_without_fault(rows, i + 1, k);
    }
}

proof fn lemma_first_faulty_row(rows: Seq<RowView>, i: int, k: int)
    requires
        0 <= i <= k < rows.len(),
        row_fault(rows[k]) is Some,
        forall|j: int| 0 <= j < k ==> row_fault(#[trigger] rows[j]) is None,
    ensures
        rows_fault(rows, i) == row_fault(rows[k]),
    decreases k - i,
{
    if i < k {
        assert(row_fault(rows[i]) is None);
        lemma_first_faulty_row(rows, i + 1, k);
    }
}

/// A journal is recovered exactly where its rows are read, its records agree with the chain and its
/// head describes them: it counts all of them and those that have a result before the first that has
/// none, and it holds the state that the last of these reached and the binding of the last record of
/// all, each zero where there is no such record. What is recovered is what was read.
#[verifier::spinoff_prover]
pub proof fn law_recovery_reads_checks_and_describes(
    head: &StoredHead,
    rows: &[StoredRow],
    chain: &[ChainProgress],
    read: Result<Vec<Record>, JournalError>,
    slice: &[Record],
    verified: Result<(), JournalError>,
    state: Result<Felt, JournalError>,
    binding: Result<Felt, JournalError>,
    head_bytes: (&[u8], &[u8]),
    done: nat,
    result: Result<Vec<Record>, JournalError>,
)
    requires
        call_ensures(decode_records, (rows,), read),
        read is Ok ==> slice@ == read->Ok_0@,
        call_ensures(verify_prefix, (slice, chain), verified),
        head_bytes.0@ == head.state@,
        head_bytes.1@ == head.binding@,
        call_ensures(felt_bytes, (head_bytes.0,), state),
        call_ensures(felt_bytes, (head_bytes.1,), binding),
        done <= slice@.len(),
        forall|i: int| 0 <= i < done ==> (#[trigger] slice@[i]).result is Some,
        done < slice@.len() ==> slice@[done as int].result is None,
        call_ensures(recover_records, (head, rows, chain), result),
    ensures
        result is Ok <==> {
            &&& read is Ok
            &&& verified is Ok
            &&& head.accepted_order == rows@.len()
            &&& head.executed_order == done
            &&& done <= chain@.len()
            &&& state is Ok
            &&& done == 0 ==> state->Ok_0@ == 0
            &&& done > 0 ==> slice@[done - 1].following_state == Some(state->Ok_0)
            &&& binding is Ok
            &&& slice@.len() == 0 ==> binding->Ok_0@ == 0
            &&& slice@.len() > 0 ==> binding->Ok_0@ == envelope_binding(slice@.last().envelope@)
        },
        result is Ok ==> record_views(result->Ok_0@) == record_views(read->Ok_0@),
        read is Err ==> result is Err && result->Err_0 == read->Err_0,
{
    if read is Ok {
        let views = record_views(slice@);
        assert(views == records_of(row_views(rows@)));
        assert(views.len() == slice@.len());
        lemma_completed(slice@, done, 0);
        assert(views.skip(0) =~= views);
        assert(completed(views) == done);
        if done > 0 {
            assert(views[done - 1] == slice@[done - 1]@);
        }
        if slice@.len() > 0 {
            assert(views[slice@.len() - 1] == slice@[slice@.len() - 1]@);
        }
        if state is Ok {
            lemma_chunks(seq![state->Ok_0@], head.state@);
            assert(chunks(head.state@)[0] == state->Ok_0@);
        }
        if binding is Ok {
            lemma_chunks(seq![binding->Ok_0@], head.binding@);
            assert(chunks(head.binding@)[0] == binding->Ok_0@);
        }
    }
}

proof fn lemma_completed(records: Seq<Record>, done: nat, i: nat)
    requires
        i <= done <= records.len(),
        forall|k: int| 0 <= k < done ==> (#[trigger] records[k]).result is Some,
        done < records.len() ==> records[done as int].result is None,
    ensures
        completed(record_views(records).skip(i as int)) == done - i,
    decreases done - i,
{
    let rest = record_views(records).skip(i as int);
    if i < records.len() {
        assert(rest[0] == records[i as int]@);
    }
    if i < done {
        lemma_completed(records, done, i + 1);
        assert(rest.skip(1) =~= record_views(records).skip(i as int + 1));
    }
}

/// A row of submissions holds an action, a transaction's hash, the epoch that it was made under and
/// its bytes, each in its own column, with the refusal where there is one; an epoch below zero is
/// refused.
pub proof fn law_submission_is_read_by_its_columns(
    row: SubmissionRow,
    bytes: (&[u8], &[u8]),
    action: Result<Felt, JournalError>,
    hash: Result<Felt, JournalError>,
    result: Result<Submission, JournalError>,
)
    requires
        bytes.0@ == row.action@,
        bytes.1@ == row.transaction_hash@,
        call_ensures(felt_bytes, (bytes.0,), action),
        call_ensures(felt_bytes, (bytes.1,), hash),
        call_ensures(decode_submission, (row,), result),
    ensures
        result is Ok <==> action is Ok && hash is Ok && row.epoch >= 0,
        result is Ok ==> result->Ok_0.action == action->Ok_0 && result->Ok_0.transaction_hash
            == hash->Ok_0 && result->Ok_0.epoch == row.epoch && result->Ok_0.bytes@
            == row.transaction_bytes@ && result->Ok_0.refusal == row.refusal,
        action is Err ==> result->Err_0 == action->Err_0,
        action is Ok && hash is Err ==> result->Err_0 == hash->Err_0,
        action is Ok && hash is Ok && row.epoch < 0 ==> result->Err_0 == JournalError::Prefix,
{
    if result is Ok {
        lemma_chunks(seq![result->Ok_0.action@], row.action@);
        lemma_chunks(seq![action->Ok_0@], row.action@);
        assert(chunks(row.action@)[0] == result->Ok_0.action@);
        assert(chunks(row.action@)[0] == action->Ok_0@);
        lemma_chunks(seq![result->Ok_0.transaction_hash@], row.transaction_hash@);
        lemma_chunks(seq![hash->Ok_0@], row.transaction_hash@);
        assert(chunks(row.transaction_hash@)[0] == result->Ok_0.transaction_hash@);
        assert(chunks(row.transaction_hash@)[0] == hash->Ok_0@);
    }
}

/// Submissions are read one by one and in their order.
pub proof fn law_submissions_are_read_in_order(
    rows: Vec<SubmissionRow>,
    k: int,
    single: Result<Submission, JournalError>,
    result: Result<Vec<Submission>, JournalError>,
)
    requires
        0 <= k < rows@.len(),
        call_ensures(decode_submission, (rows@[k],), single),
        call_ensures(decode_submissions, (rows,), result),
    ensures
        result is Ok ==> result->Ok_0@.len() == rows@.len() && single is Ok && result->Ok_0@[k]
            == single->Ok_0,
        single is Err ==> result is Err,
{
    if submissions_fault(rows@, 0) is None {
        lemma_submissions_without_fault(rows@, 0, k);
    }
    if result is Ok {
        let row = rows@[k];
        let found = result->Ok_0@[k];
        assert(holds_submission(row, found));
        lemma_chunks(seq![found.action@], row.action@);
        lemma_chunks(seq![single->Ok_0.action@], row.action@);
        assert(chunks(row.action@)[0] == found.action@);
        assert(chunks(row.action@)[0] == single->Ok_0.action@);
        lemma_chunks(seq![found.transaction_hash@], row.transaction_hash@);
        lemma_chunks(seq![single->Ok_0.transaction_hash@], row.transaction_hash@);
        assert(chunks(row.transaction_hash@)[0] == found.transaction_hash@);
        assert(chunks(row.transaction_hash@)[0] == single->Ok_0.transaction_hash@);
    }
}

proof fn lemma_submissions_without_fault(rows: Seq<SubmissionRow>, i: int, k: int)
    requires
        0 <= i <= k < rows.len(),
        submissions_fault(rows, i) is None,
    ensures
        submission_fault(rows[k]) is None,
    decreases k - i,
{
    if i < k {
        lemma_submissions_without_fault(rows, i + 1, k);
    }
}

/// What the journal may record of an action follows from its record alone: a transaction of a
/// committed or submitted action, an outcome of a submitted one or the same outcome again, and the
/// consumption of an executed, rejected or consumed one. An action that the journal does not hold has
/// nothing recorded.
#[verifier::spinoff_prover]
#[verifier::rlimit(40)]
pub proof fn law_journal_records_what_the_ticket_allows(
    row: StoredRow,
    record: Result<Record, JournalError>,
    ticket: Result<Ticket, TicketError>,
    transaction: Felt,
    value: Felt,
    rejected: bool,
    submitted: Result<(), JournalError>,
    ended: Result<(), JournalError>,
    consumed: Result<(), JournalError>,
)
    requires
        call_ensures(decode_record, (&row,), record),
        record is Ok ==> call_ensures(Record::restore_ticket, (record->Ok_0,), ticket),
        call_ensures(record_submission, (Some(row), transaction), submitted),
        call_ensures(record_outcome, (Some(row), value, rejected), ended),
        call_ensures(record_consumption, (Some(row),), consumed),
    ensures
        record is Err ==> submitted == Err::<(), JournalError>(record->Err_0) && ended == Err::<
            (),
            JournalError,
        >(record->Err_0) && consumed == Err::<(), JournalError>(record->Err_0),
        record is Ok && ticket is Err ==> submitted == Err::<(), JournalError>(
            JournalError::Ticket(ticket->Err_0),
        ) && ended == submitted && consumed == submitted,
        record is Ok && ticket is Ok ==> {
            let state = record->Ok_0.state;
            let target = if rejected {
                State::TerminalRejected
            } else {
                State::Executed
            };
            &&& submitted is Ok <==> transaction@ != 0 && (state == State::Committed || state
                == State::Submitted)
            &&& ended is Ok <==> value@ != 0 && (state == State::Submitted || state == target
                && record->Ok_0.result == Some(value))
            &&& consumed is Ok <==> state == State::Executed || state == State::TerminalRejected
                || state == State::Consumed
            &&& submitted is Err ==> submitted->Err_0 == JournalError::Ticket(
                TicketError::Transition,
            )
            &&& consumed is Err ==> consumed->Err_0 == JournalError::Ticket(TicketError::Transition)
            &&& ended is Err && value@ != 0 && state == target ==> ended->Err_0
                == JournalError::Ticket(TicketError::ConflictingResult)
            &&& ended is Err && (value@ == 0 || state != target) ==> ended->Err_0
                == JournalError::Ticket(TicketError::Transition)
        },
{
    if record is Ok {
        law_row_names_one_record(row@, record->Ok_0@, record_of(row@));
    }
}

/// An action that the journal does not hold has nothing recorded of it.
pub proof fn law_missing_action_has_nothing_recorded(
    transaction: Felt,
    value: Felt,
    rejected: bool,
    found: Result<Record, JournalError>,
    submitted: Result<(), JournalError>,
    ended: Result<(), JournalError>,
    consumed: Result<(), JournalError>,
)
    requires
        call_ensures(accepted_record, (None::<StoredRow>,), found),
        call_ensures(record_submission, (None::<StoredRow>, transaction), submitted),
        call_ensures(record_outcome, (None::<StoredRow>, value, rejected), ended),
        call_ensures(record_consumption, (None::<StoredRow>,), consumed),
    ensures
        found is Err && found->Err_0 == JournalError::Prefix,
        submitted == Err::<(), JournalError>(JournalError::Prefix),
        ended == Err::<(), JournalError>(JournalError::Prefix),
        consumed == Err::<(), JournalError>(JournalError::Prefix),
{
}

/// The journal takes no submission without a hash or without bytes, no result of zero, no epoch above
/// the largest signed number, and no reader but one that recovers; it takes all others.
pub proof fn law_journal_refuses_what_it_cannot_hold(
    transaction: Felt,
    bytes: &[u8],
    value: Felt,
    epoch: u64,
    recovering: bool,
    submission: Result<(), JournalError>,
    outcome: Result<(), JournalError>,
    stored: Result<i64, JournalError>,
    reader: Result<(), JournalError>,
)
    requires
        call_ensures(check_submission, (transaction, bytes), submission),
        call_ensures(check_result, (value,), outcome),
        call_ensures(writer_epoch, (epoch,), stored),
        call_ensures(require_standby, (recovering,), reader),
    ensures
        submission is Ok <==> transaction@ != 0 && bytes@.len() != 0,
        submission is Err ==> submission->Err_0 == JournalError::Prefix,
        outcome is Ok <==> value@ != 0,
        outcome is Err ==> outcome->Err_0 == JournalError::Prefix,
        stored is Ok <==> epoch < 0x8000_0000_0000_0000,
        stored is Ok ==> stored->Ok_0 == epoch,
        stored is Err ==> stored->Err_0 == JournalError::Capacity,
        reader is Ok <==> recovering,
        reader is Err ==> reader->Err_0 == JournalError::Standby,
{
}

/// What is reserved for an action that the journal does not hold is what its parts are written as:
/// the bytes of its nonce, its identity, its order, its intent, its context without a root and its
/// authorization. The reservation is refused for a context outside the intent's limits, then for an
/// invalid signature, then for an order above the largest signed number.
#[verifier::spinoff_prover]
pub proof fn law_reservation_holds_the_action(
    intent: Intent,
    context: Context,
    authorization: Authorization,
    begun: Result<Acceptance, JournalError>,
    identity: Result<Felt, ProtocolError>,
    valid: Result<(), TicketError>,
    signed: Result<(), JournalError>,
    action: Felt,
    looked: Result<Lookup, JournalError>,
)
    requires
        call_ensures(Intent::identity, (&intent,), identity),
        call_ensures(Acceptance::begin, (intent, context, authorization), begun),
        call_ensures(Context::validate, (&context, &intent), valid),
        identity is Ok ==> call_ensures(
            Authorization::verify,
            (&authorization, identity->Ok_0),
            signed,
        ),
        begun is Ok ==> call_ensures(Acceptance::action, (&begun->Ok_0,), action) && call_ensures(
            Acceptance::looked_up,
            (begun->Ok_0, None::<StoredRow>),
            looked,
        ),
    ensures
        begun is Ok <==> identity is Ok,
        begun is Err ==> begun->Err_0 == JournalError::Protocol(identity->Err_0),
        begun is Ok ==> {
            &&& action == identity->Ok_0
            &&& looked is Ok <==> valid is Ok && signed is Ok && context.order <= i64::MAX
            &&& valid is Err ==> looked->Err_0 == JournalError::Ticket(valid->Err_0)
            &&& valid is Ok && signed is Err ==> looked->Err_0 == JournalError::Signature
            &&& valid is Ok && signed is Ok && context.order > i64::MAX ==> looked->Err_0
                == JournalError::Capacity
            &&& looked is Ok ==> looked->Ok_0 is Reserve && {
                let reservation = looked->Ok_0->Reserve_1;
                &&& looked->Ok_0->Reserve_0@ == begun->Ok_0@
                &&& field_bytes(
                    seq![
                        intent.chain@,
                        intent.deployment@,
                        intent.game@,
                        intent.actor@,
                        intent.nonce as nat,
                    ],
                    reservation.nonce_key@,
                )
                &&& field_bytes(seq![action@], reservation.action@)
                &&& reservation.order == context.order
                &&& field_bytes(stored_intent(intent), reservation.intent@)
                &&& field_bytes(
                    seq![
                        0x455445524e554d5f42494e44494e47,
                        1,
                        action@,
                        context.order as nat,
                        context.predecessor@,
                        context.preceding_state@,
                        context.timestamp as nat,
                        context.execution_config@,
                        context.l2_gas as nat,
                    ],
                    reservation.context@,
                )
                &&& field_bytes(
                    seq![authorization.public_key@, authorization.r@, authorization.s@],
                    reservation.authorization@,
                )
            }
        },
{
    if identity is Ok {
        lemma_felt_of(identity->Ok_0);
        assert(stored_intent(intent) =~= intent_fields(intent@));
    }
}

/// An action that the journal holds is answered with its record, whatever is asked of it now.
pub proof fn law_known_action_is_answered_with_its_record(
    acceptance: Acceptance,
    row: StoredRow,
    record: Result<Record, JournalError>,
    looked: Result<Lookup, JournalError>,
)
    requires
        call_ensures(decode_record, (&row,), record),
        call_ensures(Acceptance::looked_up, (acceptance, Some(row)), looked),
    ensures
        record is Err ==> looked is Err && looked->Err_0 == record->Err_0,
        record is Ok ==> looked is Ok && looked->Ok_0 is Known && looked->Ok_0->Known_0@
            == record->Ok_0@,
{
    if record is Ok {
        law_row_names_one_record(row@, record->Ok_0@, looked->Ok_0->Known_0@);
    }
}

/// A reservation that another writer made has its record read, and nothing is sampled. What a filled
/// root makes of an action is its identity and its context bound to that root; a source that failed,
/// or a context outside the limits, makes nothing.
#[verifier::spinoff_prover]
pub proof fn law_sampled_action_binds_its_context_to_the_root(
    intent: Intent,
    context: Context,
    authorization: Authorization,
    begun: Acceptance,
    identity: Felt,
    valid: Result<(), TicketError>,
    filled: Result<[u8; 32], TicketError>,
    passed: Result<Reserved, JournalError>,
    result: Result<Proposal, JournalError>,
    entry: Result<BindingEntry, JournalError>,
)
    requires
        call_ensures(Acceptance::begin, (intent, context, authorization), Ok(begun)),
        call_ensures(Intent::identity, (&intent,), Ok(identity)),
        call_ensures(Context::validate, (&context, &intent), valid),
        call_ensures(Acceptance::reserved, (begun, false), passed),
        call_ensures(Acceptance::sampled, (begun, filled), result),
        result is Ok ==> call_ensures(Proposal::entry, (&result->Ok_0,), entry),
    ensures
        passed is Ok && passed->Ok_0 is Read,
        result is Ok <==> valid is Ok && filled is Ok,
        valid is Err ==> result->Err_0 == JournalError::Ticket(valid->Err_0),
        valid is Ok && filled is Err ==> result->Err_0 == JournalError::Ticket(filled->Err_0),
        result is Ok ==> entry is Ok && {
            let root = filled->Ok_0@;
            let envelope = seq![
                0x455445524e554d5f42494e44494e47,
                1,
                identity@,
                context.order as nat,
                context.predecessor@,
                context.preceding_state@,
                context.timestamp as nat,
                context.execution_config@,
                context.l2_gas as nat,
                be_value(root.subrange(16, 32)),
                be_value(root.subrange(0, 16)),
            ];
            &&& field_bytes(seq![identity@], entry->Ok_0.action@)
            &&& field_bytes(envelope, entry->Ok_0.envelope@)
            &&& field_bytes(seq![poseidon_array(envelope)], entry->Ok_0.binding@)
        },
{
    lemma_felt_of(identity);
    if result is Ok {
        let bound = result->Ok_0@.envelope->0;
        let root = filled->Ok_0@;
        assert(bound.action == identity);
        assert(envelope_fields(bound) =~= seq![
            0x455445524e554d5f42494e44494e47,
            1,
            identity@,
            context.order as nat,
            context.predecessor@,
            context.preceding_state@,
            context.timestamp as nat,
            context.execution_config@,
            context.l2_gas as nat,
            be_value(root.subrange(16, 32)),
            be_value(root.subrange(0, 16)),
        ]);
    }
}

/// A sampled action is accepted only under the record that binds its own envelope: a journal that
/// holds none, or another envelope's, is refused.
#[verifier::spinoff_prover]
pub proof fn law_witness_must_bind_the_sampled_envelope(
    proposal: Proposal,
    row: StoredRow,
    record: Result<Record, JournalError>,
    result: Result<Record, JournalError>,
    missing: Result<Record, JournalError>,
)
    requires
        proposal@.state is Proposed,
        proposal@.envelope is Some,
        call_ensures(decode_record, (&row,), record),
        call_ensures(Proposal::witnessed, (proposal, Some(row)), result),
        call_ensures(Proposal::witnessed, (proposal, None::<StoredRow>), missing),
    ensures
        missing is Err && missing->Err_0 == JournalError::Prefix,
        record is Err ==> result is Err && result->Err_0 == record->Err_0,
        record is Ok ==> (result is Ok <==> record->Ok_0.envelope@ == proposal@.envelope->0),
        record is Ok && result is Ok ==> result->Ok_0@ == record->Ok_0@,
        record is Ok && result is Err ==> result->Err_0 == JournalError::Prefix,
{
    if record is Ok {
        law_row_names_one_record(row@, record->Ok_0@, record_of(row@));
        if result is Ok {
            law_row_names_one_record(row@, record->Ok_0@, result->Ok_0@);
        }
    }
}

/// Where a reservation created the sampling ownership, the operating system is asked, and what is to be
/// committed is the action in its context with a root of thirty-two bytes; a source that failed makes
/// nothing of it.
pub proof fn law_created_reservation_samples_its_action(
    acceptance: Acceptance,
    result: Result<Reserved, JournalError>,
)
    requires
        context_fault(acceptance@.context, acceptance@.intent) is None,
        call_ensures(Acceptance::reserved, (acceptance, true), result),
    ensures
        result is Ok ==> result->Ok_0 is Commit && {
            let proposed = result->Ok_0->Commit_0@;
            &&& proposed.intent == acceptance@.intent
            &&& proposed.context == acceptance@.context
            &&& proposed.state == State::Proposed
            &&& proposed.envelope is Some
            &&& proposed.envelope->0.order == acceptance@.context.order
            &&& proposed.envelope->0.predecessor == acceptance@.context.predecessor
            &&& proposed.envelope->0.preceding_state == acceptance@.context.preceding_state
            &&& proposed.envelope->0.timestamp == acceptance@.context.timestamp
            &&& proposed.envelope->0.execution_config == acceptance@.context.execution_config
            &&& proposed.envelope->0.l2_gas == acceptance@.context.l2_gas
            &&& proposed.envelope->0.root.len() == 32
        },
        result is Err ==> result->Err_0 == JournalError::Ticket(TicketError::Entropy),
{
}

/// The journal's errors are told in words of their own.
pub proof fn law_journal_errors_have_their_words(error: &JournalError, words: &'static str)
    requires
        call_ensures(JournalError::message, (error,), words),
    ensures
        *error is Storage ==> words@ == "journal storage operation failed"@,
        *error is Prefix ==> words@
            == "journal prefix is missing, corrupt or inconsistent with chain progress"@,
        *error is UnresolvedProposal ==> words@
            == "unresolved proposal: sampling ownership cannot be recreated"@,
        *error is Capacity ==> words@ == "authority epoch or order exceeds journal capacity"@,
        *error is Standby ==> words@ == "journal reader must be a physical standby"@,
        *error is Signature ==> words@ == "invalid accepted player signature"@,
{
}

/// An error that comes from a part is told in the part's words.
pub proof fn law_journal_errors_keep_the_words_of_their_parts(
    form: ProtocolError,
    form_words: (&'static str, &'static str),
    ticket: TicketError,
    ticket_words: (&'static str, &'static str),
)
    requires
        call_ensures(ProtocolError::message, (&form,), form_words.0),
        call_ensures(JournalError::message, (&JournalError::Protocol(form),), form_words.1),
        call_ensures(TicketError::message, (&ticket,), ticket_words.0),
        call_ensures(JournalError::message, (&JournalError::Ticket(ticket),), ticket_words.1),
    ensures
        form_words.1@ == form_words.0@,
        ticket_words.1@ == ticket_words.0@,
{
}

/// What the parts of a row are read as: the elements and the value of its envelope and of its intent,
/// the elements of its authorization, its action and binding, its state and what the chain said.
pub struct RowParts {
    pub envelope_form: Result<Vec<Felt>, ProtocolError>,
    pub envelope: Result<Envelope, ProtocolError>,
    pub intent_form: Result<Vec<Felt>, ProtocolError>,
    pub intent: Result<Intent, ProtocolError>,
    pub witness: Result<Vec<Felt>, ProtocolError>,
    pub action: Result<Felt, JournalError>,
    pub binding: Result<Felt, JournalError>,
    pub state: Option<State>,
    pub result: Result<Option<Felt>, JournalError>,
    pub following_state: Result<Option<Felt>, JournalError>,
}

/// Whether the parts of a row are what its columns are read as, each from its own bytes.
pub open spec fn row_parts(
    row: StoredRow,
    bytes: (&[u8], &[u8], &[u8], &[u8], &[u8]),
    forms: (&[Felt], &[Felt]),
    status: &str,
    parts: RowParts,
) -> bool {
    &&& row.envelope is Some && bytes.0@ == row.envelope->0@
    &&& bytes.1@ == row.intent@ && bytes.2@ == row.auth_witness@
    &&& bytes.3@ == row.action@ && bytes.4@ == row.binding@
    &&& status@ == row.status@
    &&& call_ensures(decode_bytes, (bytes.0,), parts.envelope_form)
    &&& parts.envelope_form is Ok ==> forms.0@ == parts.envelope_form->Ok_0@
    &&& call_ensures(Envelope::decode, (forms.0,), parts.envelope)
    &&& call_ensures(decode_bytes, (bytes.1,), parts.intent_form)
    &&& parts.intent_form is Ok ==> forms.1@ == parts.intent_form->Ok_0@
    &&& call_ensures(Intent::decode, (forms.1,), parts.intent)
    &&& call_ensures(decode_bytes, (bytes.2,), parts.witness)
    &&& call_ensures(felt_bytes, (bytes.3,), parts.action)
    &&& call_ensures(felt_bytes, (bytes.4,), parts.binding)
    &&& call_ensures(decode_status, (status,), parts.state)
    &&& call_ensures(optional_felt, (&row.result,), parts.result)
    &&& call_ensures(optional_felt, (&row.following_state,), parts.following_state)
}

/// A row that stores no record is refused for the first of its parts that is wrong, in the order of
/// its columns: the envelope, the intent and the authorization by their forms, and the identity; the
/// action and the binding; the order, the context and the nonce; the limits; the state; the signature;
/// and what the chain said. Where no part is wrong it is read.
#[verifier::spinoff_prover]
#[verifier::rlimit(40)]
pub proof fn law_row_is_refused_for_its_first_fault(
    row: &StoredRow,
    bytes: (&[u8], &[u8], &[u8], &[u8], &[u8]),
    forms: (&[Felt], &[Felt]),
    status: &str,
    parts: RowParts,
    read: Result<Record, JournalError>,
)
    requires
        row_parts(*row, bytes, forms, status, parts),
        call_ensures(decode_record, (row,), read),
    ensures
        ({
            let envelope = parts.envelope->Ok_0;
            let intent = parts.intent->Ok_0;
            let witness = parts.witness->Ok_0@;
            let prefix = Err::<Record, JournalError>(JournalError::Prefix);
            if parts.envelope_form is Err {
                read == Err::<Record, JournalError>(
                    JournalError::Protocol(parts.envelope_form->Err_0),
                )
            } else if parts.envelope is Err {
                read == Err::<Record, JournalError>(JournalError::Protocol(parts.envelope->Err_0))
            } else if parts.intent_form is Err {
                read == Err::<Record, JournalError>(JournalError::Protocol(parts.intent_form->Err_0))
            } else if parts.intent is Err {
                read == Err::<Record, JournalError>(JournalError::Protocol(parts.intent->Err_0))
            } else if parts.witness is Err {
                read == Err::<Record, JournalError>(JournalError::Protocol(parts.witness->Err_0))
            } else if witness.len() != 3 || envelope.action@ != poseidon_array(
                stored_intent(intent),
            ) {
                read == prefix
            } else if parts.action is Err {
                read == Err::<Record, JournalError>(parts.action->Err_0)
            } else if parts.action->Ok_0 != envelope.action {
                read == prefix
            } else if parts.binding is Err {
                read == Err::<Record, JournalError>(parts.binding->Err_0)
            } else if parts.binding->Ok_0@ != poseidon_array(stored_envelope(envelope)) {
                read == prefix
            } else if envelope.order > i64::MAX {
                read == Err::<Record, JournalError>(JournalError::Capacity)
            } else if envelope.order != row.ticket_order || !field_bytes(
                stored_envelope(envelope).take(9),
                row.context@,
            ) || !field_bytes(
                seq![
                    intent.chain@,
                    intent.deployment@,
                    intent.game@,
                    intent.actor@,
                    intent.nonce as nat,
                ],
                row.nonce_key@,
            ) {
                read == prefix
            } else if envelope.order == 0 || envelope.order > intent.last_order
                || envelope.timestamp < intent.valid_from || envelope.timestamp > intent.valid_until
                || envelope.l2_gas == 0 {
                read == Err::<Record, JournalError>(JournalError::Ticket(TicketError::Context))
            } else if parts.state is None {
                read == prefix
            } else if !signature_valid(
                witness[0]@,
                envelope.action@,
                witness[1]@,
                witness[2]@,
            ) {
                read == Err::<Record, JournalError>(JournalError::Signature)
            } else if parts.result is Err {
                read == Err::<Record, JournalError>(parts.result->Err_0)
            } else if parts.following_state is Err {
                read == Err::<Record, JournalError>(parts.following_state->Err_0)
            } else {
                read is Ok
            }
        }),
{
    lemma_row_forms(*row, bytes, forms, status, parts);
    if parts.envelope_form is Ok && parts.envelope is Ok && parts.intent_form is Ok && parts.intent
        is Ok && parts.witness is Ok {
        let witness = parts.witness->Ok_0@;
        let envelope = chunks(row.envelope->0@);
        let intent = chunks(row.intent@);
        assert(chunks(row.auth_witness@) == values(witness));
        assert(values(witness).len() == witness.len());
        if witness.len() == 3 {
            assert(values(witness)[0] == witness[0]@ && values(witness)[1] == witness[1]@
                && values(witness)[2] == witness[2]@);
        }
        assert(seq![intent[2], intent[3], intent[4], intent[5], intent[6]] =~= nonce_fields(
            parts.intent->Ok_0@,
        ));
        if parts.action is Ok {
            lemma_chunks(seq![parts.action->Ok_0@], row.action@);
            assert(chunks(row.action@)[0] == parts.action->Ok_0@);
        }
        if parts.binding is Ok {
            lemma_chunks(seq![parts.binding->Ok_0@], row.binding@);
            assert(chunks(row.binding@)[0] == parts.binding->Ok_0@);
        }
        if parts.state is Some {
            assert(status_text(parts.state->0) == Some(row.status@));
        }
    }
}

/// The elements that the forms of a row's columns hold.
proof fn lemma_row_forms(
    row: StoredRow,
    bytes: (&[u8], &[u8], &[u8], &[u8], &[u8]),
    forms: (&[Felt], &[Felt]),
    status: &str,
    parts: RowParts,
)
    requires
        row_parts(row, bytes, forms, status, parts),
    ensures
        parts.envelope_form is Ok ==> chunks(row.envelope->0@) == values(forms.0@),
        parts.intent_form is Ok ==> chunks(row.intent@) == values(forms.1@),
        parts.witness is Ok ==> chunks(row.auth_witness@) == values(parts.witness->Ok_0@),
        parts.envelope_form is Ok && parts.envelope is Ok ==> chunks(row.envelope->0@)
            == stored_envelope(parts.envelope->Ok_0),
        parts.intent_form is Ok && parts.intent is Ok ==> chunks(row.intent@) == stored_intent(
            parts.intent->Ok_0,
        ),
{
    if parts.envelope_form is Ok {
        lemma_chunks(values(forms.0@), row.envelope->0@);
    }
    if parts.intent_form is Ok {
        lemma_chunks(values(forms.1@), row.intent@);
    }
    if parts.witness is Ok {
        lemma_chunks(values(parts.witness->Ok_0@), row.auth_witness@);
    }
    if parts.envelope is Ok {
        assert(stored_envelope(parts.envelope->Ok_0) =~= envelope_fields(parts.envelope->Ok_0@));
    }
    if parts.intent is Ok {
        assert(stored_intent(parts.intent->Ok_0) =~= intent_fields(parts.intent->Ok_0@));
    }
}

/// A recovery is refused for the first of these that is wrong: a row, the head's counts, the head's
/// state and binding, and the records' agreement with the chain.
#[verifier::spinoff_prover]
pub proof fn law_recovery_is_refused_for_its_first_fault(
    head: &StoredHead,
    rows: &[StoredRow],
    chain: &[ChainProgress],
    read: Vec<Record>,
    slice: &[Record],
    verified: Result<(), JournalError>,
    state: Result<Felt, JournalError>,
    binding: Result<Felt, JournalError>,
    head_bytes: (&[u8], &[u8]),
    done: nat,
    result: Result<Vec<Record>, JournalError>,
)
    requires
        call_ensures(decode_records, (rows,), Ok(read)),
        slice@ == read@,
        call_ensures(verify_prefix, (slice, chain), verified),
        head_bytes.0@ == head.state@,
        head_bytes.1@ == head.binding@,
        call_ensures(felt_bytes, (head_bytes.0,), state),
        call_ensures(felt_bytes, (head_bytes.1,), binding),
        done <= slice@.len(),
        forall|i: int| 0 <= i < done ==> (#[trigger] slice@[i]).result is Some,
        done < slice@.len() ==> slice@[done as int].result is None,
        call_ensures(recover_records, (head, rows, chain), result),
    ensures
        ({
            let counted = head.accepted_order == slice@.len() && head.executed_order == done && done
                <= chain@.len() && (done > 0 ==> slice@[done - 1].following_state is Some);
            let reached = if done == 0 {
                0
            } else {
                slice@[done - 1].following_state->0@
            };
            let last = if slice@.len() == 0 {
                0
            } else {
                envelope_binding(slice@.last().envelope@)
            };
            if !counted {
                result is Err && result->Err_0 == JournalError::Prefix
            } else if state is Err {
                result is Err && result->Err_0 == state->Err_0
            } else if state->Ok_0@ != reached {
                result is Err && result->Err_0 == JournalError::Prefix
            } else if binding is Err {
                result is Err && result->Err_0 == binding->Err_0
            } else if binding->Ok_0@ != last {
                result is Err && result->Err_0 == JournalError::Prefix
            } else if verified is Err {
                result is Err && result->Err_0 == verified->Err_0
            } else {
                result is Ok
            }
        }),
{
    let views = record_views(slice@);
    assert(views == records_of(row_views(rows@)));
    assert(views.len() == slice@.len());
    lemma_completed(slice@, done, 0);
    assert(views.skip(0) =~= views);
    if done > 0 {
        assert(views[done - 1] == slice@[done - 1]@);
    }
    if slice@.len() > 0 {
        assert(views[slice@.len() - 1] == slice@[slice@.len() - 1]@);
    }
    if state is Ok {
        lemma_chunks(seq![state->Ok_0@], head.state@);
        assert(chunks(head.state@)[0] == state->Ok_0@);
    }
    if binding is Ok {
        lemma_chunks(seq![binding->Ok_0@], head.binding@);
        assert(chunks(head.binding@)[0] == binding->Ok_0@);
    }
}

/// A journal that is not accepted is refused as disagreeing with the chain, unless the intent of a
/// record has no form.
pub proof fn law_refused_journal_disagrees_with_the_chain(
    records: &[Record],
    chain: &[ChainProgress],
    outcome: Result<(), JournalError>,
)
    requires
        call_ensures(verify_prefix, (records, chain), outcome),
        outcome is Err,
        forall|i: int|
            0 <= i < records@.len() ==> (#[trigger] records@[i]).intent.arguments@.len() <= u32::MAX,
    ensures
        outcome->Err_0 == JournalError::Prefix,
{
    let views = record_views(records@);
    assert forall|i: int| 0 <= i < views.len() implies #[trigger] encodable(views[i].intent) by {
        assert(views[i] == records@[i]@);
        assert(records@[i].intent.arguments@.len() <= u32::MAX);
    }
    lemma_prefix_fault_kind(views, chain@, 0);
}

proof fn lemma_prefix_fault_kind(records: Seq<RecordView>, chain: Seq<ChainProgress>, i: int)
    requires
        0 <= i,
        forall|k: int| 0 <= k < records.len() ==> #[trigger] encodable(records[k].intent),
    ensures
        fault_from(records, chain, i) is Some ==> fault_from(records, chain, i) == Some(
            JournalError::Prefix,
        ),
    decreases records.len() - i,
{
    if i < records.len() {
        assert(encodable(records[i].intent));
        lemma_prefix_fault_kind(records, chain, i + 1);
    }
}

} // verus!
