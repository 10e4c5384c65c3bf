//! Canonical forms of intents and envelopes, their hashes and their bytes.
//!
//! Every value has one form as a sequence of field elements: a tag, a version and its fields in
//! order. Its bytes are those of the elements, thirty-two each. Two values with the same form
//! are the same value.

use crate::felt::{
    all_canonical, be_value, lemma_be_value_bound, lemma_be_value_injective,
    lemma_values_injective, limb_from_bytes, limb_to_bytes, prime, values, Felt,
};
use crate::slices::{append_bytes, append_felts, copy_felts, same_bytes, same_felts};
use crate::stark::{poseidon, poseidon_array};
use vstd::prelude::*;

verus! {

broadcast use crate::felt::lemma_felt_injective;

/// The tag that an intent's form starts with.
pub const INTENT_TAG: u128 = 0x455445524e554d5f494e54454e54;

/// The tag that an envelope's form starts with.
pub const ENVELOPE_TAG: u128 = 0x455445524e554d5f42494e44494e47;

/// The version that every form carries.
pub const VERSION: u64 = 1;

/// The number of elements of an intent's form that stand before its arguments.
pub const INTENT_HEADER: usize = 13;

/// The number of elements of an envelope's form.
pub const ENVELOPE_FIELDS: usize = 11;

/// The number of elements of an envelope's form that stand before its root.
pub const CONTEXT_FIELDS: usize = 9;

/// A sequence of elements or bytes that is no value's form.
#[derive(Clone, Copy, Debug, PartialEq, Eq, Structural)]
pub enum ProtocolError {
    /// The tag or the version is another one.
    Header,
    /// There are too few or too many elements or bytes.
    Length,
    /// A value is out of range.
    Value,
}

/// A protocol error in words.
pub open spec fn protocol_error_text(error: ProtocolError) -> Seq<char> {
    match error {
        ProtocolError::Header => "unknown tag or version"@,
        ProtocolError::Length => "unexpected length"@,
        ProtocolError::Value => "value out of range"@,
    }
}

impl ProtocolError {
    /// The error in words.
    pub fn message(&self) -> (result: &'static str)
        ensures
            result@ == protocol_error_text(*self),
    {
        match self {
            ProtocolError::Header => "unknown tag or version",
            ProtocolError::Length => "unexpected length",
            ProtocolError::Value => "value out of range",
        }
    }
}

/// What a player signs: one command of an actor in a game, and the limits within which it may be
/// accepted.
#[derive(Debug, PartialEq, Eq)]
pub struct Intent {
    pub chain: Felt,
    pub deployment: Felt,
    pub game: Felt,
    pub actor: Felt,
    pub nonce: u64,
    pub command: Felt,
    pub rules: Felt,
    pub valid_from: u64,
    pub valid_until: u64,
    pub last_order: u64,
    pub arguments: Vec<Felt>,
}

/// The fields of an [`Intent`].
#[verifier::ext_equal]
pub struct IntentView {
    pub chain: Felt,
    pub deployment: Felt,
    pub game: Felt,
    pub actor: Felt,
    pub nonce: u64,
    pub command: Felt,
    pub rules: Felt,
    pub valid_from: u64,
    pub valid_until: u64,
    pub last_order: u64,
    pub arguments: Seq<Felt>,
}

impl View for Intent {
    type V = IntentView;

    open spec fn view(&self) -> IntentView {
        IntentView {
            chain: self.chain,
            deployment: self.deployment,
            game: self.game,
            actor: self.actor,
            nonce: self.nonce,
            command: self.command,
            rules: self.rules,
            valid_from: self.valid_from,
            valid_until: self.valid_until,
            last_order: self.last_order,
            arguments: self.arguments@,
        }
    }
}

/// Whether an intent has a form: the count of its arguments fits in 32 bits.
pub open spec fn encodable(intent: IntentView) -> bool {
    intent.arguments.len() <= u32::MAX
}

/// The elements of an intent's form that stand before its arguments.
pub open spec fn intent_header(intent: IntentView) -> Seq<nat> {
    seq![
        INTENT_TAG as nat,
        VERSION as nat,
        intent.chain@,
        intent.deployment@,
        intent.game@,
        intent.actor@,
        intent.nonce as nat,
        intent.command@,
        intent.rules@,
        intent.valid_from as nat,
        intent.valid_until as nat,
        intent.last_order as nat,
        intent.arguments.len(),
    ]
}

/// An intent's form.
pub open spec fn intent_fields(intent: IntentView) -> Seq<nat> {
    intent_header(intent) + values(intent.arguments)
}

/// The identity of the action that an intent asks for. It depends on the intent alone:
/// credentials, request identifiers and transaction hashes do not enter it.
pub open spec fn intent_identity(intent: IntentView) -> nat {
    poseidon_array(intent_fields(intent))
}

/// The elements that identify an actor's nonce: no two accepted intents share them.
pub open spec fn nonce_fields(intent: IntentView) -> Seq<nat> {
    seq![intent.chain@, intent.deployment@, intent.game@, intent.actor@, intent.nonce as nat]
}

/// The error that a sequence of elements meets where it is no intent's form.
pub open spec fn intent_fault(fields: Seq<nat>) -> Option<ProtocolError> {
    if fields.len() < INTENT_HEADER {
        Some(ProtocolError::Length)
    } else if fields[0] != INTENT_TAG || fields[1] != VERSION {
        Some(ProtocolError::Header)
    } else if fields[6] > u64::MAX || fields[9] > u64::MAX || fields[10] > u64::MAX || fields[11]
        > u64::MAX || fields[12] > u32::MAX {
        Some(ProtocolError::Value)
    } else if fields.len() != INTENT_HEADER + fields[12] {
        Some(ProtocolError::Length)
    } else {
        None
    }
}

impl Clone for Intent {
    fn clone(&self) -> (result: Self)
        ensures
            result@ == self@,
    {
        Intent {
            chain: self.chain,
            deployment: self.deployment,
            game: self.game,
            actor: self.actor,
            nonce: self.nonce,
            command: self.command,
            rules: self.rules,
            valid_from: self.valid_from,
            valid_until: self.valid_until,
            last_order: self.last_order,
            arguments: copy_felts(&self.arguments),
        }
    }
}

impl Intent {
    /// Whether two intents have the same fields.
    pub fn same(&self, other: &Intent) -> (result: bool)
        ensures
            result == (self@ == other@),
    {
        self.chain == other.chain && self.deployment == other.deployment && self.game == other.game
            && self.actor == other.actor && self.nonce == other.nonce && self.command
            == other.command && self.rules == other.rules && self.valid_from == other.valid_from
            && self.valid_until == other.valid_until && self.last_order == other.last_order
            && same_felts(&self.arguments, &other.arguments)
    }

    /// The intent's form.
    pub fn encode(&self) -> (result: Result<Vec<Felt>, ProtocolError>)
        ensures
            result is Ok <==> encodable(self@),
            result matches Ok(fields) ==> values(fields@) == intent_fields(self@),
            result matches Err(error) ==> error == ProtocolError::Length,
    {
        if self.arguments.len() > u32::MAX as usize {
            return Err(ProtocolError::Length);
        }
        let mut fields: Vec<Felt> = Vec::new();
        fields.push(Felt::from_u128(INTENT_TAG));
        fields.push(Felt::from_u64(VERSION));
        fields.push(self.chain);
        fields.push(self.deployment);
        fields.push(self.game);
        fields.push(self.actor);
        fields.push(Felt::from_u64(self.nonce));
        fields.push(self.command);
        fields.push(self.rules);
        fields.push(Felt::from_u64(self.valid_from));
        fields.push(Felt::from_u64(self.valid_until));
        fields.push(Felt::from_u64(self.last_order));
        fields.push(Felt::from_u64(self.arguments.len() as u64));
        assert(values(fields@) =~= intent_header(self@));
        let ghost header = fields@;
        append_felts(&mut fields, &self.arguments);
        assert(values(fields@) =~= values(header) + values(self.arguments@));
        Ok(fields)
    }

    /// The intent that a form belongs to.
    pub fn decode(fields: &[Felt]) -> (result: Result<Intent, ProtocolError>)
        ensures
            match result {
                Ok(intent) => intent_fault(values(fields@)) is None && encodable(intent@)
                    && intent_fields(intent@) == values(fields@),
                Err(error) => intent_fault(values(fields@)) == Some(error),
            },
    {
        if fields.len() < INTENT_HEADER {
            return Err(ProtocolError::Length);
        }
        assert forall|i: int| 0 <= i < fields@.len() implies #[trigger] values(fields@)[i]
            == fields@[i]@ by {}
        if fields[0] != Felt::from_u128(INTENT_TAG) || fields[1] != Felt::from_u64(VERSION) {
            return Err(ProtocolError::Header);
        }
        let (nonce, valid_from, valid_until, last_order, count) = match (
            fields[6].to_u64(),
            fields[9].to_u64(),
            fields[10].to_u64(),
            fields[11].to_u64(),
            fields[12].to_u32(),
        ) {
            (Some(nonce), Some(from), Some(until), Some(order), Some(count)) => (
                nonce,
                from,
                until,
                order,
                count,
            ),
            _ => {
                return Err(ProtocolError::Value);
            },
        };
        if fields.len() - INTENT_HEADER != count as usize {
            return Err(ProtocolError::Length);
        }
        let mut arguments: Vec<Felt> = Vec::new();
        let mut i: usize = INTENT_HEADER;
        while i < fields.len()
            invariant
                INTENT_HEADER <= i <= fields@.len(),
                arguments@ == fields@.subrange(INTENT_HEADER as int, i as int),
            decreases fields@.len() - i,
        {
            arguments.push(fields[i]);
            proof {
                assert(fields@.subrange(INTENT_HEADER as int, i + 1) =~= fields@.subrange(
                    INTENT_HEADER as int,
                    i as int,
                ).push(fields@[i as int]));
            }
            i = i + 1;
        }
        let intent: Intent = Intent {
            chain: fields[2],
            deployment: fields[3],
            game: fields[4],
            actor: fields[5],
            nonce,
            command: fields[7],
            rules: fields[8],
            valid_from,
            valid_until,
            last_order,
            arguments,
        };
        assert(intent_fields(intent@) =~= values(fields@));
        Ok(intent)
    }

    /// The identity of the action that the intent asks for.
    pub fn identity(&self) -> (result: Result<Felt, ProtocolError>)
        ensures
            result is Ok <==> encodable(self@),
            result matches Ok(identity) ==> identity@ == intent_identity(self@),
            result matches Err(error) ==> error == ProtocolError::Length,
    {
        let fields: Vec<Felt> = self.encode()?;
        Ok(poseidon(&fields))
    }

    /// The elements that identify the actor's nonce.
    pub fn nonce_key(&self) -> (result: Vec<Felt>)
        ensures
            values(result@) == nonce_fields(self@),
    {
        let mut fields: Vec<Felt> = Vec::new();
        fields.push(self.chain);
        fields.push(self.deployment);
        fields.push(self.game);
        fields.push(self.actor);
        fields.push(Felt::from_u64(self.nonce));
        assert(values(fields@) =~= nonce_fields(self@));
        fields
    }
}

/// The limbs of a root, which denotes a 256-bit number: the low one, then the high one.
pub open spec fn limbs(root: Seq<u8>) -> (nat, nat) {
    (be_value(root.subrange(16, 32)), be_value(root.subrange(0, 16)))
}

/// The low and the high limb of a root.
pub fn root_limbs(root: [u8; 32]) -> (result: (u128, u128))
    ensures
        (result.0 as nat, result.1 as nat) == limbs(root@),
{
    let bytes: &[u8] = &root;
    (limb_from_bytes(bytes, 16), limb_from_bytes(bytes, 0))
}

/// The root with the given limbs.
pub fn root_from_limbs(low: u128, high: u128) -> (result: [u8; 32])
    ensures
        limbs(result@) == (low as nat, high as nat),
{
    let mut root: [u8; 32] = [0u8; 32];
    limb_to_bytes(high, &mut root, 0);
    let ghost first = root@;
    limb_to_bytes(low, &mut root, 16);
    assert(root@.subrange(0, 16) =~= first.subrange(0, 16));
    root
}

/// A root is determined by its limbs.
pub proof fn lemma_limbs_injective(a: Seq<u8>, b: Seq<u8>)
    requires
        a.len() == 32,
        b.len() == 32,
        limbs(a) == limbs(b),
    ensures
        a == b,
{
    lemma_be_value_injective(a.subrange(0, 16), b.subrange(0, 16));
    lemma_be_value_injective(a.subrange(16, 32), b.subrange(16, 32));
    assert(a =~= a.subrange(0, 16) + a.subrange(16, 32));
    assert(b =~= b.subrange(0, 16) + b.subrange(16, 32));
}

/// What the sequencer binds an accepted action to: its place in the order of actions, the context
/// it executes in and the root that its draws derive from.
#[derive(Debug, PartialEq, Eq)]
pub struct Envelope {
    pub action: Felt,
    pub order: u64,
    pub predecessor: Felt,
    pub preceding_state: Felt,
    pub timestamp: u64,
    pub execution_config: Felt,
    pub l2_gas: u64,
    pub root: [u8; 32],
}

/// The fields of an [`Envelope`].
#[verifier::ext_equal]
pub struct EnvelopeView {
    pub action: Felt,
    pub order: u64,
    pub predecessor: Felt,
    pub preceding_state: Felt,
    pub timestamp: u64,
    pub execution_config: Felt,
    pub l2_gas: u64,
    pub root: Seq<u8>,
}

impl View for Envelope {
    type V = EnvelopeView;

    open spec fn view(&self) -> EnvelopeView {
        EnvelopeView {
            action: self.action,
            order: self.order,
            predecessor: self.predecessor,
            preceding_state: self.preceding_state,
            timestamp: self.timestamp,
            execution_config: self.execution_config,
            l2_gas: self.l2_gas,
            root: self.root@,
        }
    }
}

/// The elements of an envelope's form that stand before its root.
pub open spec fn context_fields(envelope: EnvelopeView) -> Seq<nat> {
    seq![
        ENVELOPE_TAG as nat,
        VERSION as nat,
        envelope.action@,
        envelope.order as nat,
        envelope.predecessor@,
        envelope.preceding_state@,
        envelope.timestamp as nat,
        envelope.execution_config@,
        envelope.l2_gas as nat,
    ]
}

/// An envelope's form.
pub open spec fn envelope_fields(envelope: EnvelopeView) -> Seq<nat> {
    context_fields(envelope) + seq![limbs(envelope.root).0, limbs(envelope.root).1]
}

/// The hash that binds an action to its envelope.
pub open spec fn envelope_binding(envelope: EnvelopeView) -> nat {
    poseidon_array(envelope_fields(envelope))
}

/// The error that a sequence of elements meets where it is no envelope's form.
pub open spec fn envelope_fault(fields: Seq<nat>) -> Option<ProtocolError> {
    if fields.len() != ENVELOPE_FIELDS {
        Some(ProtocolError::Length)
    } else if fields[0] != ENVELOPE_TAG || fields[1] != VERSION {
        Some(ProtocolError::Header)
    } else if fields[3] > u64::MAX || fields[6] > u64::MAX || fields[8] > u64::MAX || fields[9]
        > u128::MAX || fields[10] > u128::MAX {
        Some(ProtocolError::Value)
    } else {
        None
    }
}

impl Clone for Envelope {
    fn clone(&self) -> (result: Self)
        ensures
            result@ == self@,
    {
        Envelope {
            action: self.action,
            order: self.order,
            predecessor: self.predecessor,
            preceding_state: self.preceding_state,
            timestamp: self.timestamp,
            execution_config: self.execution_config,
            l2_gas: self.l2_gas,
            root: self.root,
        }
    }
}

impl Envelope {
    /// Whether two envelopes have the same fields.
    pub fn same(&self, other: &Envelope) -> (result: bool)
        ensures
            result == (self@ == other@),
    {
        self.action == other.action && self.order == other.order && self.predecessor
            == other.predecessor && self.preceding_state == other.preceding_state && self.timestamp
            == other.timestamp && self.execution_config == other.execution_config && self.l2_gas
            == other.l2_gas && same_bytes(&self.root, &other.root)
    }

    /// The elements of the envelope's form that stand before its root.
    pub fn encode_context(&self) -> (result: Vec<Felt>)
        ensures
            values(result@) == context_fields(self@),
    {
        let mut fields: Vec<Felt> = Vec::new();
        fields.push(Felt::from_u128(ENVELOPE_TAG));
        fields.push(Felt::from_u64(VERSION));
        fields.push(self.action);
        fields.push(Felt::from_u64(self.order));
        fields.push(self.predecessor);
        fields.push(self.preceding_state);
        fields.push(Felt::from_u64(self.timestamp));
        fields.push(self.execution_config);
        fields.push(Felt::from_u64(self.l2_gas));
        assert(values(fields@) =~= context_fields(self@));
        fields
    }

    /// The envelope's form.
    pub fn encode(&self) -> (result: Vec<Felt>)
        ensures
            values(result@) == envelope_fields(self@),
    {
        let mut fields: Vec<Felt> = self.encode_context();
        let ghost context = fields@;
        let (low, high) = root_limbs(self.root);
        fields.push(Felt::from_u128(low));
        fields.push(Felt::from_u128(high));
        assert(values(fields@) =~= values(context) + seq![low as nat, high as nat]);
        fields
    }

    /// The envelope that a form belongs to.
    pub fn decode(fields: &[Felt]) -> (result: Result<Envelope, ProtocolError>)
        ensures
            match result {
                Ok(envelope) => envelope_fault(values(fields@)) is None && envelope_fields(
                    envelope@,
                ) == values(fields@),
                Err(error) => envelope_fault(values(fields@)) == Some(error),
            },
    {
        if fields.len() != ENVELOPE_FIELDS {
            return Err(ProtocolError::Length);
        }
        assert forall|i: int| 0 <= i < fields@.len() implies #[trigger] values(fields@)[i]
            == fields@[i]@ by {}
        if fields[0] != Felt::from_u128(ENVELOPE_TAG) || fields[1] != Felt::from_u64(VERSION) {
            return Err(ProtocolError::Header);
        }
        match (
            fields[3].to_u64(),
            fields[6].to_u64(),
            fields[8].to_u64(),
            fields[9].to_u128(),
            fields[10].to_u128(),
        ) {
            (Some(order), Some(timestamp), Some(l2_gas), Some(low), Some(high)) => {
                let envelope: Envelope = Envelope {
                    action: fields[2],
                    order,
                    predecessor: fields[4],
                    preceding_state: fields[5],
                    timestamp,
                    execution_config: fields[7],
                    l2_gas,
                    root: root_from_limbs(low, high),
                };
                assert(envelope_fields(envelope@) =~= values(fields@));
                Ok(envelope)
            },
            _ => Err(ProtocolError::Value),
        }
    }

    /// The hash that binds the action to the envelope.
    pub fn binding(&self) -> (result: Felt)
        ensures
            result@ == envelope_binding(self@),
    {
        poseidon(&self.encode())
    }
}

/// The bytes of a sequence of elements, thirty-two each.
pub open spec fn field_bytes(fields: Seq<nat>, bytes: Seq<u8>) -> bool {
    &&& bytes.len() == 32 * fields.len()
    &&& forall|i: int|
        0 <= i < fields.len() ==> be_value(bytes.subrange(32 * i, 32 * i + 32))
            == #[trigger] fields[i]
}

/// What the thirty-two-byte chunks of a byte string denote.
pub open spec fn chunks(bytes: Seq<u8>) -> Seq<nat> {
    Seq::new(bytes.len() / 32, |i: int| be_value(bytes.subrange(32 * i, 32 * i + 32)))
}

/// Whether the chunk of thirty-two bytes at `i` denotes a field element.
pub open spec fn chunk_canonical(bytes: Seq<u8>, i: int) -> bool {
    be_value(bytes.subrange(32 * i, 32 * i + 32)) < prime()
}

/// The error that a byte string meets where it is no sequence of elements.
pub open spec fn bytes_fault(bytes: Seq<u8>) -> Option<ProtocolError> {
    if bytes.len() % 32 != 0 {
        Some(ProtocolError::Length)
    } else if exists|i: int| 0 <= i < bytes.len() / 32 && !chunk_canonical(bytes, i) {
        Some(ProtocolError::Value)
    } else {
        None
    }
}

/// The bytes of a sequence of elements.
pub fn encode_bytes(fields: &[Felt]) -> (result: Vec<u8>)
    ensures
        field_bytes(values(fields@), result@),
{
    let mut bytes: Vec<u8> = Vec::new();
    let mut i: usize = 0;
    while i < fields.len()
        invariant
            i <= fields@.len(),
            bytes@.len() == 32 * i,
            forall|k: int|
                0 <= k < i ==> be_value(bytes@.subrange(32 * k, 32 * k + 32))
                    == #[trigger] fields@[k]@,
        decreases fields@.len() - i,
    {
        let ghost before = bytes@;
        let chunk: [u8; 32] = fields[i].to_be_bytes();
        append_bytes(&mut bytes, &chunk);
        proof {
            assert(bytes@.subrange(32 * i, 32 * i + 32) =~= chunk@);
            assert forall|k: int| 0 <= k < i implies be_value(
                bytes@.subrange(32 * k, 32 * k + 32),
            ) == #[trigger] fields@[k]@ by {
                assert(bytes@.subrange(32 * k, 32 * k + 32) =~= before.subrange(
                    32 * k,
                    32 * k + 32,
                ));
            }
        }
        i = i + 1;
    }
    bytes
}

/// The elements whose bytes these are.
pub fn decode_bytes(bytes: &[u8]) -> (result: Result<Vec<Felt>, ProtocolError>)
    ensures
        match result {
            Ok(fields) => bytes_fault(bytes@) is None && field_bytes(values(fields@), bytes@)
                && all_canonical(fields@),
            Err(error) => bytes_fault(bytes@) == Some(error),
        },
{
    let length: usize = bytes.len();
    if length % 32 != 0 {
        return Err(ProtocolError::Length);
    }
    let mut fields: Vec<Felt> = Vec::new();
    let mut at: usize = 0;
    while at < length
        invariant
            at <= length == bytes@.len(),
            length % 32 == 0,
            at == 32 * fields@.len(),
            all_canonical(fields@),
            forall|k: int|
                0 <= k < fields@.len() ==> be_value(bytes@.subrange(32 * k, 32 * k + 32))
                    == #[trigger] fields@[k]@,
            forall|k: int| 0 <= k < fields@.len() ==> #[trigger] chunk_canonical(bytes@, k),
        decreases length - at,
    {
        match Felt::read_be_bytes(bytes, at) {
            Some(felt) => {
                assert(chunk_canonical(bytes@, fields@.len() as int));
                fields.push(felt);
            },
            None => {
                assert(!chunk_canonical(bytes@, fields@.len() as int));
                return Err(ProtocolError::Value);
            },
        }
        at = at + 32;
    }
    assert forall|i: int| 0 <= i < values(fields@).len() implies be_value(
        bytes@.subrange(32 * i, 32 * i + 32),
    ) == #[trigger] values(fields@)[i] by {
        assert(values(fields@)[i] == fields@[i]@);
    }
    Ok(fields)
}

/// An intent is determined by its form.
pub proof fn law_intent_form_is_unique(a: IntentView, b: IntentView)
    requires
        intent_fields(a) == intent_fields(b),
    ensures
        a == b,
{
    let fields = intent_fields(a);
    assert(fields.subrange(0, 13) =~= intent_header(a));
    assert(fields.subrange(0, 13) =~= intent_header(b));
    let header = intent_header(a);
    assert(header == intent_header(b));
    assert(header[2] == a.chain@ && header[2] == b.chain@);
    assert(header[3] == a.deployment@ && header[3] == b.deployment@);
    assert(header[4] == a.game@ && header[4] == b.game@);
    assert(header[5] == a.actor@ && header[5] == b.actor@);
    assert(header[6] == a.nonce && header[6] == b.nonce);
    assert(header[7] == a.command@ && header[7] == b.command@);
    assert(header[8] == a.rules@ && header[8] == b.rules@);
    assert(header[9] == a.valid_from && header[9] == b.valid_from);
    assert(header[10] == a.valid_until && header[10] == b.valid_until);
    assert(header[11] == a.last_order && header[11] == b.last_order);
    assert(values(a.arguments) =~= fields.subrange(13, fields.len() as int));
    assert(values(b.arguments) =~= fields.subrange(13, fields.len() as int));
    lemma_values_injective(a.arguments, b.arguments);
    assert(a =~= b);
}

/// The form of an intent that has one is decoded.
pub proof fn law_intent_form_is_accepted(intent: IntentView)
    requires
        encodable(intent),
    ensures
        intent_fault(intent_fields(intent)) is None,
{
}

/// An envelope is determined by its form.
pub proof fn law_envelope_form_is_unique(a: EnvelopeView, b: EnvelopeView)
    requires
        a.root.len() == 32,
        b.root.len() == 32,
        envelope_fields(a) == envelope_fields(b),
    ensures
        a == b,
{
    let fields = envelope_fields(a);
    assert(fields[2] == a.action@ && fields[2] == b.action@);
    assert(fields[3] == a.order && fields[3] == b.order);
    assert(fields[4] == a.predecessor@ && fields[4] == b.predecessor@);
    assert(fields[5] == a.preceding_state@ && fields[5] == b.preceding_state@);
    assert(fields[6] == a.timestamp && fields[6] == b.timestamp);
    assert(fields[7] == a.execution_config@ && fields[7] == b.execution_config@);
    assert(fields[8] == a.l2_gas && fields[8] == b.l2_gas);
    assert(fields[9] == limbs(a.root).0 && fields[9] == limbs(b.root).0);
    assert(fields[10] == limbs(a.root).1 && fields[10] == limbs(b.root).1);
    lemma_limbs_injective(a.root, b.root);
    assert(a =~= b);
}

/// The form of an envelope is decoded.
pub proof fn law_envelope_form_is_accepted(envelope: EnvelopeView)
    requires
        envelope.root.len() == 32,
    ensures
        envelope_fault(envelope_fields(envelope)) is None,
{
    lemma_be_value_bound(envelope.root.subrange(0, 16));
    lemma_be_value_bound(envelope.root.subrange(16, 32));
    reveal_with_fuel(crate::felt::scale, 17);
}

/// A byte string is the bytes of one sequence of elements at most.
pub proof fn law_bytes_denote_one_sequence(a: Seq<nat>, b: Seq<nat>, bytes: Seq<u8>)
    requires
        field_bytes(a, bytes),
        field_bytes(b, bytes),
    ensures
        a == b,
{
    assert forall|i: int| 0 <= i < a.len() implies a[i] == b[i] by {}
    assert(a =~= b);
}

/// The elements whose bytes a byte string is are what its chunks denote.
pub proof fn lemma_chunks(fields: Seq<nat>, bytes: Seq<u8>)
    requires
        field_bytes(fields, bytes),
    ensures
        fields == chunks(bytes),
{
    assert(fields =~= chunks(bytes));
}

/// A sequence of elements has one byte string at most.
pub proof fn law_sequence_has_one_byte_string(fields: Seq<nat>, a: Seq<u8>, b: Seq<u8>)
    requires
        field_bytes(fields, a),
        field_bytes(fields, b),
    ensures
        a == b,
{
    assert forall|k: int| 0 <= k < a.len() implies a[k] == b[k] by {
        let i = k / 32;
        let value = fields[i];
        lemma_be_value_injective(
            a.subrange(32 * i, 32 * i + 32),
            b.subrange(32 * i, 32 * i + 32),
        );
        assert(a[k] == a.subrange(32 * i, 32 * i + 32)[k - 32 * i]);
        assert(b[k] == b.subrange(32 * i, 32 * i + 32)[k - 32 * i]);
    }
    assert(a =~= b);
}

/// The bytes of a sequence of field elements are decoded.
pub proof fn law_bytes_are_accepted(fields: Seq<nat>, bytes: Seq<u8>)
    requires
        forall|i: int| 0 <= i < fields.len() ==> #[trigger] fields[i] < prime(),
        field_bytes(fields, bytes),
    ensures
        bytes_fault(bytes) is None,
{
    assert forall|i: int| 0 <= i < bytes.len() / 32 implies #[trigger] chunk_canonical(bytes, i) by {
        assert(fields[i] < prime());
    }
}

/// An intent's form holds its fields in their places behind the tag and the version: the chain, the
/// deployment, the game, the actor and its nonce, the command and the rules, the first and the last
/// time and the last order that it may be accepted at, and its arguments behind their number. An
/// intent whose arguments cannot be counted in thirty-two bits has none.
#[verifier::spinoff_prover]
pub proof fn law_intent_form_holds_its_fields(
    intent: &Intent,
    result: Result<Vec<Felt>, ProtocolError>,
)
    requires
        call_ensures(Intent::encode, (intent,), result),
    ensures
        result is Ok <==> intent.arguments@.len() < 0x1_0000_0000,
        result is Err ==> result->Err_0 == ProtocolError::Length,
        result is Ok ==> {
            let fields = result->Ok_0@;
            &&& fields.len() == 13 + intent.arguments@.len()
            &&& fields[0]@ == 0x455445524e554d5f494e54454e54
            &&& fields[1]@ == 1
            &&& fields[2]@ == intent.chain@
            &&& fields[3]@ == intent.deployment@
            &&& fields[4]@ == intent.game@
            &&& fields[5]@ == intent.actor@
            &&& fields[6]@ == intent.nonce
            &&& fields[7]@ == intent.command@
            &&& fields[8]@ == intent.rules@
            &&& fields[9]@ == intent.valid_from
            &&& fields[10]@ == intent.valid_until
            &&& fields[11]@ == intent.last_order
            &&& fields[12]@ == intent.arguments@.len()
            &&& fields.skip(13) == intent.arguments@
        },
{
    if result is Ok {
        let fields = result->Ok_0@;
        let form = values(fields);
        assert(form == intent_fields(intent@));
        assert(form.len() == fields.len());
        assert(forall|i: int| 0 <= i < fields.len() ==> #[trigger] form[i] == fields[i]@);
        assert(fields[0]@ == form[0] && fields[1]@ == form[1] && fields[2]@ == form[2]
            && fields[3]@ == form[3] && fields[4]@ == form[4] && fields[5]@ == form[5]
            && fields[6]@ == form[6] && fields[7]@ == form[7] && fields[8]@ == form[8]
            && fields[9]@ == form[9] && fields[10]@ == form[10] && fields[11]@ == form[11]
            && fields[12]@ == form[12]);
        assert forall|i: int| 0 <= i < intent.arguments@.len() implies fields.skip(13)[i]
            == intent.arguments@[i] by {
            assert(form[13 + i] == intent.arguments@[i]@);
            assert(form[13 + i] == fields[13 + i]@);
        }
        assert(fields.skip(13) =~= intent.arguments@);
    }
}

/// An intent is read back from its form, and a form that is read is written again: what one direction
/// makes, the other undoes.
pub proof fn law_intent_is_read_back(
    intent: &Intent,
    written: Result<Vec<Felt>, ProtocolError>,
    fields: &[Felt],
    read: Result<Intent, ProtocolError>,
)
    requires
        call_ensures(Intent::encode, (intent,), written),
        call_ensures(Intent::decode, (fields,), read),
    ensures
        written is Ok && fields@ == written->Ok_0@ ==> read is Ok && read->Ok_0@ == intent@,
        read is Ok && intent@ == read->Ok_0@ ==> written is Ok && written->Ok_0@ == fields@,
{
    if written is Ok && fields@ == written->Ok_0@ {
        law_intent_form_is_accepted(intent@);
        law_intent_form_is_unique(intent@, read->Ok_0@);
    }
    if read is Ok && intent@ == read->Ok_0@ {
        lemma_values_injective(written->Ok_0@, fields@);
    }
}

/// Elements that are no intent's form are refused for what is wrong with them: too few of them, or
/// another number than the arguments' count says, for their length; another tag or version for their
/// header; a nonce, a time, an order or a count that is out of range for its value.
pub proof fn law_intent_is_refused_for_its_fault(
    fields: &[Felt],
    read: Result<Intent, ProtocolError>,
)
    requires
        call_ensures(Intent::decode, (fields,), read),
    ensures
        ({
            let f = fields@;
            let tagged = f[0]@ == 0x455445524e554d5f494e54454e54 && f[1]@ == 1;
            let ranged = f[6]@ <= u64::MAX && f[9]@ <= u64::MAX && f[10]@ <= u64::MAX && f[11]@
                <= u64::MAX && f[12]@ <= u32::MAX;
            &&& read is Ok <==> f.len() >= 13 && tagged && ranged && f.len() == 13 + f[12]@
            &&& f.len() < 13 ==> read == Err::<Intent, ProtocolError>(ProtocolError::Length)
            &&& f.len() >= 13 && !tagged ==> read == Err::<Intent, ProtocolError>(
                ProtocolError::Header,
            )
            &&& f.len() >= 13 && tagged && !ranged ==> read == Err::<Intent, ProtocolError>(
                ProtocolError::Value,
            )
            &&& f.len() >= 13 && tagged && ranged && f.len() != 13 + f[12]@ ==> read == Err::<
                Intent,
                ProtocolError,
            >(ProtocolError::Length)
        }),
{
    let form = values(fields@);
    assert(form.len() == fields@.len());
    assert(forall|i: int| 0 <= i < form.len() ==> #[trigger] form[i] == fields@[i]@);
}

/// An action's identity is the hash of its intent's form, and the actor's nonce is told by the chain,
/// the deployment, the game, the actor and the nonce, in this order.
pub proof fn law_identity_hashes_the_form(
    intent: &Intent,
    written: Result<Vec<Felt>, ProtocolError>,
    identity: Result<Felt, ProtocolError>,
    key: Vec<Felt>,
)
    requires
        call_ensures(Intent::encode, (intent,), written),
        call_ensures(Intent::identity, (intent,), identity),
        call_ensures(Intent::nonce_key, (intent,), key),
    ensures
        identity is Ok <==> written is Ok,
        written is Ok ==> identity->Ok_0@ == poseidon_array(values(written->Ok_0@)),
        written is Err ==> identity->Err_0 == written->Err_0,
        key@.len() == 5,
        key@[0] == intent.chain,
        key@[1] == intent.deployment,
        key@[2] == intent.game,
        key@[3] == intent.actor,
        key@[4]@ == intent.nonce,
{
    let form = values(key@);
    assert(form.len() == key@.len());
    assert(form[0] == key@[0]@ && form[1] == key@[1]@ && form[2] == key@[2]@ && form[3]
        == key@[3]@ && form[4] == key@[4]@);
}

/// Intents are the same where all their fields are.
pub proof fn law_same_intents_have_the_same_fields(a: &Intent, b: &Intent, result: bool)
    requires
        call_ensures(Intent::same, (a, b), result),
    ensures
        result <==> a.chain == b.chain && a.deployment == b.deployment && a.game == b.game
            && a.actor == b.actor && a.nonce == b.nonce && a.command == b.command && a.rules
            == b.rules && a.valid_from == b.valid_from && a.valid_until == b.valid_until
            && a.last_order == b.last_order && a.arguments@ == b.arguments@,
{
}

/// A root is one number of 256 bits in the order of its bytes, and its limbs are that number's lower
/// and upper halves; the root with the limbs of a root is that root.
pub proof fn law_root_is_the_number_of_its_limbs(
    root: [u8; 32],
    split: (u128, u128),
    joined: [u8; 32],
)
    requires
        call_ensures(root_limbs, (root,), split),
        call_ensures(root_from_limbs, split, joined),
    ensures
        be_value(root@) == split.1 * 0x1_0000_0000_0000_0000_0000_0000_0000_0000nat + split.0,
        joined@ == root@,
{
    assert(root@ =~= root@.subrange(0, 16) + root@.subrange(16, 32));
    crate::felt::lemma_be_value_concat(root@.subrange(0, 16), root@.subrange(16, 32));
    reveal_with_fuel(crate::felt::scale, 17);
    lemma_limbs_injective(root@, joined@);
}

/// An envelope's form holds its fields in their places behind the tag and the version: the action, its
/// order, the binding and the state before it, the time, the configuration, the gas, and the root's
/// lower and upper half.
#[verifier::spinoff_prover]
pub proof fn law_envelope_form_holds_its_fields(
    envelope: &Envelope,
    written: Vec<Felt>,
    split: (u128, u128),
)
    requires
        call_ensures(Envelope::encode, (envelope,), written),
        call_ensures(root_limbs, (envelope.root,), split),
    ensures
        written@.len() == 11,
        written@[0]@ == 0x455445524e554d5f42494e44494e47,
        written@[1]@ == 1,
        written@[2]@ == envelope.action@,
        written@[3]@ == envelope.order,
        written@[4]@ == envelope.predecessor@,
        written@[5]@ == envelope.preceding_state@,
        written@[6]@ == envelope.timestamp,
        written@[7]@ == envelope.execution_config@,
        written@[8]@ == envelope.l2_gas,
        written@[9]@ == split.0,
        written@[10]@ == split.1,
{
    let form = values(written@);
    assert(form.len() == written@.len());
    assert(form[0] == written@[0]@ && form[1] == written@[1]@ && form[2] == written@[2]@ && form[3]
        == written@[3]@ && form[4] == written@[4]@ && form[5] == written@[5]@ && form[6]
        == written@[6]@ && form[7] == written@[7]@ && form[8] == written@[8]@ && form[9]
        == written@[9]@ && form[10] == written@[10]@);
}

/// What stands before the root in an envelope's form is the context's form, and the binding is the
/// hash of the whole.
#[verifier::spinoff_prover]
pub proof fn law_binding_hashes_the_form(
    envelope: &Envelope,
    written: Vec<Felt>,
    context: Vec<Felt>,
    binding: Felt,
)
    requires
        call_ensures(Envelope::encode, (envelope,), written),
        call_ensures(Envelope::encode_context, (envelope,), context),
        call_ensures(Envelope::binding, (envelope,), binding),
    ensures
        context@ == written@.take(9),
        binding@ == poseidon_array(values(written@)),
{
    let form = values(written@);
    assert(form.len() == written@.len());
    assert(values(written@.take(9)) =~= form.take(9));
    assert(form.take(9) =~= context_fields(envelope@));
    lemma_values_injective(context@, written@.take(9));
}

/// An envelope is read back from its form, and a form that is read is written again.
pub proof fn law_envelope_is_read_back(
    envelope: &Envelope,
    written: Vec<Felt>,
    fields: &[Felt],
    read: Result<Envelope, ProtocolError>,
)
    requires
        call_ensures(Envelope::encode, (envelope,), written),
        call_ensures(Envelope::decode, (fields,), read),
    ensures
        fields@ == written@ ==> read is Ok && read->Ok_0@ == envelope@,
        read is Ok && envelope@ == read->Ok_0@ ==> written@ == fields@,
{
    if fields@ == written@ {
        law_envelope_form_is_accepted(envelope@);
        law_envelope_form_is_unique(envelope@, read->Ok_0@);
    }
    if read is Ok && envelope@ == read->Ok_0@ {
        lemma_values_injective(written@, fields@);
    }
}

/// Elements that are no envelope's form are refused for what is wrong with them: their number, their
/// tag or version, or an order, a time, an amount of gas or a limb that is out of range.
pub proof fn law_envelope_is_refused_for_its_fault(
    fields: &[Felt],
    read: Result<Envelope, ProtocolError>,
)
    requires
        call_ensures(Envelope::decode, (fields,), read),
    ensures
        ({
            let f = fields@;
            let tagged = f[0]@ == 0x455445524e554d5f42494e44494e47 && f[1]@ == 1;
            let ranged = f[3]@ <= u64::MAX && f[6]@ <= u64::MAX && f[8]@ <= u64::MAX && f[9]@
                <= u128::MAX && f[10]@ <= u128::MAX;
            &&& read is Ok <==> f.len() == 11 && tagged && ranged
            &&& f.len() != 11 ==> read == Err::<Envelope, ProtocolError>(ProtocolError::Length)
            &&& f.len() == 11 && !tagged ==> read == Err::<Envelope, ProtocolError>(
                ProtocolError::Header,
            )
            &&& f.len() == 11 && tagged && !ranged ==> read == Err::<Envelope, ProtocolError>(
                ProtocolError::Value,
            )
        }),
{
    let form = values(fields@);
    assert(form.len() == fields@.len());
    assert(forall|i: int| 0 <= i < form.len() ==> #[trigger] form[i] == fields@[i]@);
}

/// Envelopes are the same where all their fields are.
pub proof fn law_same_envelopes_have_the_same_fields(a: &Envelope, b: &Envelope, result: bool)
    requires
        call_ensures(Envelope::same, (a, b), result),
    ensures
        result <==> a.action == b.action && a.order == b.order && a.predecessor == b.predecessor
            && a.preceding_state == b.preceding_state && a.timestamp == b.timestamp
            && a.execution_config == b.execution_config && a.l2_gas == b.l2_gas && a.root@
            == b.root@,
{
}

/// Elements are read back from their bytes, and bytes that are read are written again: each element
/// takes thirty-two bytes, in the elements' order.
pub proof fn law_elements_are_read_back(
    fields: &[Felt],
    written: Vec<u8>,
    bytes: &[u8],
    read: Result<Vec<Felt>, ProtocolError>,
)
    requires
        all_canonical(fields@),
        call_ensures(encode_bytes, (fields,), written),
        call_ensures(decode_bytes, (bytes,), read),
    ensures
        written@.len() == 32 * fields@.len(),
        bytes@ == written@ ==> read is Ok && read->Ok_0@ == fields@,
        read is Ok && fields@ == read->Ok_0@ ==> written@ == bytes@,
        read == Err::<Vec<Felt>, ProtocolError>(ProtocolError::Length) <==> bytes@.len() % 32 != 0,
{
    let form = values(fields@);
    assert(form.len() == fields@.len());
    assert forall|i: int| 0 <= i < form.len() implies #[trigger] form[i] < prime() by {
        assert(form[i] == fields@[i]@);
        crate::felt::lemma_canonical(fields@[i]);
    }
    law_bytes_are_accepted(form, written@);
    if bytes@ == written@ {
        law_bytes_denote_one_sequence(form, values(read->Ok_0@), bytes@);
        lemma_values_injective(fields@, read->Ok_0@);
    }
    if read is Ok && fields@ == read->Ok_0@ {
        law_sequence_has_one_byte_string(form, written@, bytes@);
    }
}

/// A form's errors are told in words of their own.
pub proof fn law_protocol_errors_have_their_words(error: &ProtocolError, words: &'static str)
    requires
        call_ensures(ProtocolError::message, (error,), words),
    ensures
        *error is Header ==> words@ == "unknown tag or version"@,
        *error is Length ==> words@ == "unexpected length"@,
        *error is Value ==> words@ == "value out of range"@,
{
}

/// Bytes are refused for their length where they are not whole elements, and else for a value where
/// some thirty-two of them denote the prime or more.
pub proof fn law_bytes_are_refused_for_their_fault(
    bytes: &[u8],
    i: int,
    read: Result<Vec<Felt>, ProtocolError>,
)
    requires
        call_ensures(decode_bytes, (bytes,), read),
    ensures
        bytes@.len() % 32 != 0 ==> read is Err && read->Err_0 == ProtocolError::Length,
        bytes@.len() % 32 == 0 && read is Err ==> read->Err_0 == ProtocolError::Value,
        bytes@.len() % 32 == 0 && 0 <= i && 32 * i + 32 <= bytes@.len() && be_value(
            bytes@.subrange(32 * i, 32 * i + 32),
        ) >= prime() ==> read is Err,
{
    if bytes@.len() % 32 == 0 && 0 <= i && 32 * i + 32 <= bytes@.len() && be_value(
        bytes@.subrange(32 * i, 32 * i + 32),
    ) >= prime() {
        assert(!chunk_canonical(bytes@, i));
        assert(i < bytes@.len() / 32);
    }
}

} // verus!
