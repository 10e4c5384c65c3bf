//! The game service: which requests are admitted, which order, context and root they are assigned,
//! when their tickets are executed and when the randomness epoch rotates.

use crate::admission::Slot;
use crate::epoch::{
    epoch_error_text, game_created, game_root, secret_commitment, secret_reveal, EpochError,
    GameEpoch, GameEpochView,
};
use crate::felt::{be_value, felt_of, lemma_felt_of, values, Felt};
use crate::map::{lookup, FeltMap};
use crate::protocol::{
    encodable, intent_fault, intent_fields, intent_identity, law_intent_form_is_unique, Intent,
    IntentView, ProtocolError,
};
use crate::recorded::{
    ActionStatus, ActionStatusView, RecordedEnvelope, RecordedTicket, RecordedTicketView,
};
use crate::slices::copy_felts;
use crate::ticket::{os_filled, os_root, EntropyError};
use vstd::prelude::*;

verus! {

broadcast use crate::felt::lemma_felt_injective;

/// The number of requests that wait for an order.
pub const QUEUE_CAPACITY: usize = 128;

/// The number of tickets that are executed together.
pub const MAX_BATCH: usize = 16;

/// How long a ticket waits for others to be executed with, in milliseconds.
pub const PACK_DELAY: u64 = 10;

/// The number of tickets after which the randomness epoch rotates.
pub const EPOCH_TICKETS: u64 = 100_000;

/// Why a request was refused, or the service stopped.
#[derive(Clone, Copy, Debug, PartialEq, Eq, Structural)]
pub enum ServiceError {
    /// The intent has no form.
    Protocol(ProtocolError),
    /// The intent targets another chain or deployment.
    WrongTarget,
    /// The peer made too many requests.
    RateExceeded,
    /// The admission view has the wrong number of elements.
    MalformedAdmission,
    /// A number is out of range.
    Value,
    /// The player did not sign the intent.
    InvalidSignature,
    /// The intent's nonce is not current, and no recorded action matches.
    StaleNonce,
    /// Another action of the actor is pending.
    Conflict,
    /// The service is not running.
    Unavailable,
    /// Too many requests wait.
    QueueFull,
    /// The rules or the nonce changed since the request was admitted.
    AdmissionChanged,
    /// The intent cannot be accepted any more.
    Expired,
    /// The view of the current epoch has the wrong number of elements.
    MalformedCurrentEpoch,
    /// The view of an epoch has too few elements.
    MalformedEpoch,
    /// The retained secret is not the one that the chain holds the commitment to.
    SecretMismatch,
    /// The chain did not take an epoch's transition.
    TransitionFailed,
    /// There is no fresh secret.
    Epoch(EpochError),
}

/// A service error in words.
pub open spec fn service_error_text(error: ServiceError) -> Seq<char> {
    match error {
        ServiceError::Protocol(error) => crate::protocol::protocol_error_text(error),
        ServiceError::WrongTarget => "intent targets another chain or deployment"@,
        ServiceError::RateExceeded => "request rate exceeded"@,
        ServiceError::MalformedAdmission => "malformed admission view"@,
        ServiceError::Value => "Failed to convert `Felt` into primitive type"@,
        ServiceError::InvalidSignature => "invalid player signature"@,
        ServiceError::StaleNonce =>
            "actor nonce is not current; no matching action in reconnect history"@,
        ServiceError::Conflict => "409 Conflict"@,
        ServiceError::Unavailable => "game admission is unavailable"@,
        ServiceError::QueueFull => "game admission queue is full or unavailable"@,
        ServiceError::AdmissionChanged => "admission state changed"@,
        ServiceError::Expired => "intent expired before acceptance"@,
        ServiceError::MalformedCurrentEpoch => "malformed current epoch"@,
        ServiceError::MalformedEpoch => "malformed randomness epoch"@,
        ServiceError::SecretMismatch => "epoch secret does not match chain commitment"@,
        ServiceError::TransitionFailed => "randomness epoch transition failed"@,
        ServiceError::Epoch(error) => epoch_error_text(error),
    }
}

impl ServiceError {
    /// The error in words.
    pub fn message(&self) -> (result: &'static str)
        ensures
            result@ == service_error_text(*self),
    {
        match self {
            ServiceError::Protocol(error) => error.message(),
            ServiceError::WrongTarget => "intent targets another chain or deployment",
            ServiceError::RateExceeded => "request rate exceeded",
            ServiceError::MalformedAdmission => "malformed admission view",
            ServiceError::Value => "Failed to convert `Felt` into primitive type",
            ServiceError::InvalidSignature => "invalid player signature",
            ServiceError::StaleNonce =>
                "actor nonce is not current; no matching action in reconnect history",
            ServiceError::Conflict => "409 Conflict",
            ServiceError::Unavailable => "game admission is unavailable",
            ServiceError::QueueFull => "game admission queue is full or unavailable",
            ServiceError::AdmissionChanged => "admission state changed",
            ServiceError::Expired => "intent expired before acceptance",
            ServiceError::MalformedCurrentEpoch => "malformed current epoch",
            ServiceError::MalformedEpoch => "malformed randomness epoch",
            ServiceError::SecretMismatch => "epoch secret does not match chain commitment",
            ServiceError::TransitionFailed => "randomness epoch transition failed",
            ServiceError::Epoch(error) => error.message(),
        }
    }
}

/// A client's request: an intent's form and the signature that authorizes it.
#[derive(Debug, PartialEq, Eq)]
pub struct ActionRequest {
    pub intent: Vec<Felt>,
    pub signature: Vec<Felt>,
}

/// The error that a request meets where it holds no intent for a chain and a deployment.
pub open spec fn request_fault(request: ActionRequest, chain: Felt, deployment: Felt) -> Option<
    ServiceError,
> {
    let fields = values(request.intent@);
    if intent_fault(fields) is Some {
        Some(ServiceError::Protocol(intent_fault(fields)->0))
    } else if fields[2] != chain@ || fields[3] != deployment@ {
        Some(ServiceError::WrongTarget)
    } else {
        None
    }
}

impl ActionRequest {
    /// The intent that the request holds, which must target a chain and a deployment.
    pub fn decode(&self, chain: Felt, deployment: Felt) -> (result: Result<Intent, ServiceError>)
        ensures
            match result {
                Ok(intent) => request_fault(*self, chain, deployment) is None && encodable(intent@)
                    && intent_fields(intent@) == values(self.intent@) && intent@.chain == chain
                    && intent@.deployment == deployment,
                Err(error) => request_fault(*self, chain, deployment) == Some(error),
            },
    {
        let intent: Intent = match Intent::decode(&self.intent) {
            Ok(intent) => intent,
            Err(error) => {
                return Err(ServiceError::Protocol(error));
            },
        };
        proof {
            let fields = intent_fields(intent@);
            assert(fields[2] == intent.chain@);
            assert(fields[3] == intent.deployment@);
        }
        if intent.chain != chain || intent.deployment != deployment {
            return Err(ServiceError::WrongTarget);
        }
        Ok(intent)
    }
}

/// Credentials never enter an action's identity: requests with the same intent are accepted or
/// refused alike and ask for the same action, whatever their signatures.
pub proof fn law_credentials_never_enter_identity(
    a: ActionRequest,
    b: ActionRequest,
    first: IntentView,
    second: IntentView,
    chain: Felt,
    deployment: Felt,
)
    requires
        a.intent@ == b.intent@,
        intent_fields(first) == values(a.intent@),
        intent_fields(second) == values(b.intent@),
    ensures
        request_fault(a, chain, deployment) == request_fault(b, chain, deployment),
        first == second,
        intent_identity(first) == intent_identity(second),
{
    law_intent_form_is_unique(first, second);
}

/// Whether an intent may be accepted at an order and a time.
pub open spec fn context_fits(intent: IntentView, order: u64, timestamp: u64) -> bool {
    0 < order <= intent.last_order && intent.valid_from <= timestamp <= intent.valid_until
}

/// Whether an intent may be accepted at an order and a time.
pub fn context_matches(intent: &Intent, order: u64, timestamp: u64) -> (result: bool)
    ensures
        result == context_fits(intent@, order, timestamp),
{
    order != 0 && order <= intent.last_order && timestamp >= intent.valid_from && timestamp
        <= intent.valid_until
}

/// Where the admission of a request stands.
#[derive(Clone, Copy, Debug, PartialEq, Eq, Structural)]
pub enum AdmitStage {
    /// The peer's budget is to be asked.
    AskBudget,
    /// The chain's admission view is to be read.
    ReadAdmission,
    /// The player's signature is to be checked. A forged or revoked key never takes the slot.
    CheckSignature { nonce: Felt },
    /// The nonce is past: the action is to be looked for in the recorded history.
    ReadHistory,
    /// The nonce is current: the actor's slot is to be asked for.
    Reserve,
    /// The slot is the request's: it is to be queued.
    Enqueue,
    /// The request follows the action that holds the slot.
    Follow,
    /// The recorded outcome answers the request.
    Recorded,
}

/// What was learned while a request was admitted.
#[derive(Debug, PartialEq, Eq)]
pub enum AdmitEvent {
    /// Whether the peer's budget admits the request.
    Budget(bool),
    /// The elements that the admission view returned.
    Admission(Vec<Felt>),
    /// Whether the player signed the intent.
    Signed(bool),
    /// Whether the recorded history holds the action.
    History(bool),
    /// What the request for the slot met.
    Slot(Slot),
    /// Whether the request was queued; nothing where the service is not running.
    Queued(Option<bool>),
}

/// What an event makes of the admission of an intent with a nonce. An event that the stage does not
/// wait for changes nothing.
pub open spec fn admit_next(stage: AdmitStage, event: AdmitEvent, nonce: u64) -> Result<
    AdmitStage,
    ServiceError,
> {
    match (stage, event) {
        (AdmitStage::AskBudget, AdmitEvent::Budget(admitted)) => if admitted {
            Ok(AdmitStage::ReadAdmission)
        } else {
            Err(ServiceError::RateExceeded)
        },
        (AdmitStage::ReadAdmission, AdmitEvent::Admission(fields)) => if fields@.len() != 5 {
            Err(ServiceError::MalformedAdmission)
        } else {
            Ok(AdmitStage::CheckSignature { nonce: fields@[2] })
        },
        (AdmitStage::CheckSignature { nonce: current }, AdmitEvent::Signed(signed)) => if !signed {
            Err(ServiceError::InvalidSignature)
        } else if current@ == nonce {
            Ok(AdmitStage::Reserve)
        } else if current@ > nonce {
            Ok(AdmitStage::ReadHistory)
        } else {
            Err(ServiceError::StaleNonce)
        },
        (AdmitStage::ReadHistory, AdmitEvent::History(found)) => if found {
            Ok(AdmitStage::Recorded)
        } else {
            Err(ServiceError::StaleNonce)
        },
        (AdmitStage::Reserve, AdmitEvent::Slot(slot)) => match slot {
            Slot::New => Ok(AdmitStage::Enqueue),
            Slot::Existing => Ok(AdmitStage::Follow),
            Slot::Conflict => Err(ServiceError::Conflict),
        },
        (AdmitStage::Enqueue, AdmitEvent::Queued(queued)) => match queued {
            None => Err(ServiceError::Unavailable),
            Some(true) => Ok(AdmitStage::Follow),
            Some(false) => Err(ServiceError::QueueFull),
        },
        _ => Ok(stage),
    }
}

/// Goes on with the admission of an intent with a nonce after an event.
pub fn admit_step(stage: AdmitStage, event: &AdmitEvent, nonce: u64) -> (result: Result<
    AdmitStage,
    ServiceError,
>)
    ensures
        result == admit_next(stage, *event, nonce),
{
    match (stage, event) {
        (AdmitStage::AskBudget, AdmitEvent::Budget(admitted)) => if *admitted {
            Ok(AdmitStage::ReadAdmission)
        } else {
            Err(ServiceError::RateExceeded)
        },
        (AdmitStage::ReadAdmission, AdmitEvent::Admission(fields)) => {
            if fields.len() != 5 {
                return Err(ServiceError::MalformedAdmission);
            }
            Ok(AdmitStage::CheckSignature { nonce: fields[2] })
        },
        (AdmitStage::CheckSignature { nonce: current }, AdmitEvent::Signed(signed)) => {
            let expected: Felt = Felt::from_u64(nonce);
            if !*signed {
                Err(ServiceError::InvalidSignature)
            } else if current == expected {
                Ok(AdmitStage::Reserve)
            } else if expected.less_than(&current) {
                Ok(AdmitStage::ReadHistory)
            } else {
                Err(ServiceError::StaleNonce)
            }
        },
        (AdmitStage::ReadHistory, AdmitEvent::History(found)) => if *found {
            Ok(AdmitStage::Recorded)
        } else {
            Err(ServiceError::StaleNonce)
        },
        (AdmitStage::Reserve, AdmitEvent::Slot(slot)) => match slot {
            Slot::New => Ok(AdmitStage::Enqueue),
            Slot::Existing => Ok(AdmitStage::Follow),
            Slot::Conflict => Err(ServiceError::Conflict),
        },
        (AdmitStage::Enqueue, AdmitEvent::Queued(queued)) => match queued {
            None => Err(ServiceError::Unavailable),
            Some(queued) => if *queued {
                Ok(AdmitStage::Follow)
            } else {
                Err(ServiceError::QueueFull)
            },
        },
        _ => Ok(stage),
    }
}

/// A slot is asked for only on behalf of a signed intent with the current nonce.
pub proof fn law_slot_needs_a_signature_and_the_current_nonce(
    stage: AdmitStage,
    event: AdmitEvent,
    nonce: u64,
)
    requires
        !(stage is Reserve),
        admit_next(stage, event, nonce) == Ok::<AdmitStage, ServiceError>(AdmitStage::Reserve),
    ensures
        event == AdmitEvent::Signed(true),
        stage is CheckSignature,
        stage->nonce@ == nonce,
{
}

/// What the chain says of the admission of an actor's action in a game.
#[derive(Clone, Copy, Debug, PartialEq, Eq, Structural)]
pub struct Admission {
    pub order: u64,
    pub execution_config: Felt,
    pub observed_time: Felt,
}

/// The volatile half of admission: the open epoch and each game's next order. Nothing of it
/// survives a restart but the epoch's secret, so every game resumes from its recorded head.
pub struct Assignments {
    epoch: GameEpoch,
    orders: FeltMap<u64>,
    admitted: u64,
}

/// The contents of an [`Assignments`].
#[verifier::ext_equal]
pub struct AssignmentsView {
    pub epoch: GameEpochView,
    pub orders: Map<Felt, u64>,
    pub admitted: u64,
}

impl View for Assignments {
    type V = AssignmentsView;

    closed spec fn view(&self) -> AssignmentsView {
        AssignmentsView {
            epoch: self.epoch@,
            orders: self.orders@,
            admitted: self.admitted,
        }
    }
}

impl AssignmentsView {
    /// The error that an admission view meets.
    pub open spec fn admission_fault(self, fields: Seq<Felt>, intent: IntentView) -> Option<
        ServiceError,
    > {
        if fields.len() != 5 {
            Some(ServiceError::MalformedAdmission)
        } else if lookup(self.orders, intent.game) is None && fields[3]@ > u64::MAX {
            Some(ServiceError::Value)
        } else if fields[0] != intent.rules || fields[2]@ != intent.nonce {
            Some(ServiceError::AdmissionChanged)
        } else {
            None
        }
    }

    /// What an admission view says: the order is the game's next one, or the one that follows its
    /// recorded head.
    pub open spec fn admission(self, fields: Seq<Felt>, intent: IntentView) -> Admission {
        Admission {
            order: match lookup(self.orders, intent.game) {
                Some(order) => order,
                None => fields[3]@ as u64,
            },
            execution_config: fields[1],
            observed_time: fields[4],
        }
    }

    /// The error that an intent meets where it cannot be accepted in a context.
    pub open spec fn assign_fault(
        self,
        admission: Admission,
        timestamp: u64,
        intent: IntentView,
    ) -> Option<ServiceError> {
        if admission.observed_time@ > u64::MAX {
            Some(ServiceError::Value)
        } else if !context_fits(intent, admission.order, timestamp)
            || admission.observed_time@ > intent.valid_until {
            Some(ServiceError::Expired)
        } else if !encodable(intent) {
            Some(ServiceError::Protocol(ProtocolError::Length))
        } else {
            None
        }
    }

    /// Whether a ticket is the one that an intent is accepted with in a context: it records the
    /// context, and its root is the one that the open epoch gives the game's order.
    pub open spec fn makes(
        self,
        ticket: RecordedTicketView,
        admission: Admission,
        timestamp: u64,
        intent: IntentView,
        signature: Seq<Felt>,
    ) -> bool {
        &&& ticket.intent == intent
        &&& ticket.signature == signature
        &&& ticket.envelope.action == felt_of(intent_identity(intent))
        &&& ticket.envelope.order == admission.order
        &&& ticket.envelope.timestamp == timestamp
        &&& ticket.envelope.execution_config == admission.execution_config
        &&& ticket.envelope.epoch == self.epoch.epoch
        &&& ticket.envelope.root.len() == 32
        &&& be_value(ticket.envelope.root) == game_root(
            self.epoch.secret,
            intent.game@,
            admission.order,
        )
    }

    /// The assignments once an intent is assigned an order.
    pub open spec fn assigned(self, game: Felt, order: u64) -> AssignmentsView {
        AssignmentsView {
            orders: self.orders.insert(game, (order + 1) as u64),
            admitted: (self.admitted + 1) as u64,
            ..self
        }
    }
}

impl Assignments {
    /// Assignments under a fresh epoch.
    pub fn start(epoch: GameEpoch) -> (result: Assignments)
        ensures
            result@ == (AssignmentsView {
                epoch: epoch@,
                orders: Map::empty(),
                admitted: 0,
            }),
    {
        Assignments { epoch, orders: FeltMap::new(), admitted: 0 }
    }

    /// The open epoch.
    pub fn epoch(&self) -> (result: &GameEpoch)
        ensures
            result@ == self@.epoch,
    {
        &self.epoch
    }

    /// The number of tickets under the open epoch.
    pub fn admitted(&self) -> (result: u64)
        ensures
            result == self@.admitted,
    {
        self.admitted
    }

    /// Whether the epoch is to rotate before more is assigned.
    pub fn rotation_due(&self) -> (result: bool)
        ensures
            result == (self@.admitted >= EPOCH_TICKETS),
    {
        self.admitted >= EPOCH_TICKETS
    }

    /// Goes on under a fresh epoch. The games keep their orders. Only with nothing queued or in
    /// flight, so that no assigned root outlives its epoch.
    pub fn rotate(&mut self, epoch: GameEpoch)
        ensures
            final(self)@ == (AssignmentsView { epoch: epoch@, admitted: 0, ..old(self)@ }),
    {
        self.epoch = epoch;
        self.admitted = 0;
    }

    /// What the chain's admission view says of an intent.
    pub fn admission(&self, fields: &[Felt], intent: &Intent) -> (result: Result<
        Admission,
        ServiceError,
    >)
        ensures
            match result {
                Ok(admission) => self@.admission_fault(fields@, intent@) is None && admission
                    == self@.admission(fields@, intent@),
                Err(error) => self@.admission_fault(fields@, intent@) == Some(error),
            },
    {
        if fields.len() != 5 {
            return Err(ServiceError::MalformedAdmission);
        }
        let known: Option<u64> = match self.orders.get(intent.game) {
            Some(order) => Some(*order),
            None => None,
        };
        let order: u64 = match known {
            Some(order) => order,
            None => match fields[3].to_u64() {
                Some(order) => order,
                None => {
                    return Err(ServiceError::Value);
                },
            },
        };
        if fields[0] != intent.rules || fields[2] != Felt::from_u64(intent.nonce) {
            return Err(ServiceError::AdmissionChanged);
        }
        Ok(Admission { order, execution_config: fields[1], observed_time: fields[4] })
    }

    /// The ticket of an intent that is accepted in a context, with the root that the open epoch
    /// gives its order.
    pub fn accept(&self, admission: Admission, timestamp: u64, intent: &Intent, signature: &[Felt]) -> (result:
        Result<RecordedTicket, ServiceError>)
        ensures
            match result {
                Ok(ticket) => self@.assign_fault(admission, timestamp, intent@) is None
                    && self@.makes(ticket@, admission, timestamp, intent@, signature@),
                Err(error) => self@.assign_fault(admission, timestamp, intent@) == Some(error),
            },
    {
        let now: u64 = match admission.observed_time.to_u64() {
            Some(now) => now,
            None => {
                return Err(ServiceError::Value);
            },
        };
        if !context_matches(intent, admission.order, timestamp) || now > intent.valid_until {
            return Err(ServiceError::Expired);
        }
        let action: Felt = match intent.identity() {
            Ok(action) => action,
            Err(error) => {
                return Err(ServiceError::Protocol(error));
            },
        };
        proof {
            lemma_felt_of(action);
        }
        Ok(
            RecordedTicket {
                intent: intent.clone(),
                envelope: RecordedEnvelope {
                    action,
                    order: admission.order,
                    timestamp,
                    execution_config: admission.execution_config,
                    epoch: self.epoch.epoch(),
                    root: self.epoch.root(intent.game, admission.order),
                },
                signature: copy_felts(signature),
            },
        )
    }

    /// Assigns an intent its ticket: the game's next order is the one after the ticket's.
    pub fn assign(
        &mut self,
        admission: Admission,
        timestamp: u64,
        intent: &Intent,
        signature: &[Felt],
    ) -> (result: Result<RecordedTicket, ServiceError>)
        requires
            old(self)@.assign_fault(admission, timestamp, intent@) is None ==> admission.order
                < u64::MAX && old(self)@.admitted < u64::MAX,
        ensures
            match result {
                Ok(ticket) => old(self)@.assign_fault(admission, timestamp, intent@) is None
                    && old(self)@.makes(ticket@, admission, timestamp, intent@, signature@)
                    && final(self)@ == old(self)@.assigned(intent@.game, admission.order),
                Err(error) => old(self)@.assign_fault(admission, timestamp, intent@) == Some(error)
                    && final(self)@ == old(self)@,
            },
    {
        let ticket: RecordedTicket = self.accept(admission, timestamp, intent, signature)?;
        self.orders.insert(intent.game, admission.order + 1);
        self.admitted = self.admitted + 1;
        Ok(ticket)
    }
}

/// Games do not share orders: an assignment in one moves that game on by one and leaves every other
/// game where it is, and a rotation of the epoch leaves all of them.
pub proof fn law_each_game_has_its_own_orders(
    assignments: AssignmentsView,
    game: Felt,
    other: Felt,
    order: u64,
    epoch: GameEpochView,
)
    requires
        order < u64::MAX,
        game != other,
    ensures
        lookup(assignments.assigned(game, order).orders, game) == Some((order + 1) as u64),
        lookup(assignments.assigned(game, order).orders, other) == lookup(
            assignments.orders,
            other,
        ),
        (AssignmentsView { epoch, admitted: 0, ..assignments }).orders == assignments.orders,
{
}

/// Two tickets of a game under one epoch take consecutive orders: what the second is assigned is
/// the order after the first's, whatever the chain's recorded head says meanwhile.
pub proof fn law_orders_are_consecutive(
    assignments: AssignmentsView,
    first: Admission,
    fields: Seq<Felt>,
    intent: IntentView,
)
    requires
        first.order < u64::MAX,
    ensures
        assignments.assigned(intent.game, first.order).admission(fields, intent).order
            == first.order + 1,
{
}

/// Where the rotation of the randomness epoch stands.
pub enum EpochStage {
    /// The current epoch's number is to be read.
    ReadCurrent,
    /// The current epoch is to be read.
    ReadEpoch { id: u64 },
    /// The current epoch is not revealed: its retained secret is to be loaded.
    LoadSecret { id: u64, commitment: Felt },
    /// The retained secret is the chain's: it is to be revealed.
    Publish { secret: GameEpoch },
    /// A fresh secret is to be filled for the epoch with the given number.
    Create { id: u64 },
    /// The fresh secret is to be retained.
    Retain { secret: GameEpoch },
    /// The fresh secret is retained: it is to be committed to.
    Open { secret: GameEpoch },
    /// The fresh epoch is open.
    Done { secret: GameEpoch },
}

/// The contents of an [`EpochStage`].
#[verifier::ext_equal]
pub enum EpochStageView {
    ReadCurrent,
    ReadEpoch { id: u64 },
    LoadSecret { id: u64, commitment: Felt },
    Publish { secret: GameEpochView },
    Create { id: u64 },
    Retain { secret: GameEpochView },
    Open { secret: GameEpochView },
    Done { secret: GameEpochView },
}

impl View for EpochStage {
    type V = EpochStageView;

    open spec fn view(&self) -> EpochStageView {
        match *self {
            EpochStage::ReadCurrent => EpochStageView::ReadCurrent,
            EpochStage::ReadEpoch { id } => EpochStageView::ReadEpoch { id },
            EpochStage::LoadSecret { id, commitment } => EpochStageView::LoadSecret {
                id,
                commitment,
            },
            EpochStage::Publish { secret } => EpochStageView::Publish { secret: secret@ },
            EpochStage::Create { id } => EpochStageView::Create { id },
            EpochStage::Retain { secret } => EpochStageView::Retain { secret: secret@ },
            EpochStage::Open { secret } => EpochStageView::Open { secret: secret@ },
            EpochStage::Done { secret } => EpochStageView::Done { secret: secret@ },
        }
    }
}

/// What was learned while the randomness epoch rotated.
pub enum EpochEvent {
    /// The elements that a view returned.
    Values(Vec<Felt>),
    /// The retained secret.
    Loaded(GameEpoch),
    /// What a source filled for the fresh secret.
    Filled(Result<[u8; 32], EntropyError>),
    /// The fresh secret is retained.
    Retained,
    /// Whether the chain took the command.
    Commanded(bool),
}

/// The contents of an [`EpochEvent`].
#[verifier::ext_equal]
pub enum EpochEventView {
    Values(Seq<Felt>),
    Loaded(GameEpochView),
    Filled(Result<[u8; 32], EntropyError>),
    Retained,
    Commanded(bool),
}

impl View for EpochEvent {
    type V = EpochEventView;

    open spec fn view(&self) -> EpochEventView {
        match *self {
            EpochEvent::Values(fields) => EpochEventView::Values(fields@),
            EpochEvent::Loaded(secret) => EpochEventView::Loaded(secret@),
            EpochEvent::Filled(filled) => EpochEventView::Filled(filled),
            EpochEvent::Retained => EpochEventView::Retained,
            EpochEvent::Commanded(taken) => EpochEventView::Commanded(taken),
        }
    }
}

impl EpochEvent {
    /// What the operating system fills for a fresh secret.
    pub fn fill() -> (result: EpochEvent)
        ensures
            result matches EpochEvent::Filled(filled) && os_filled(filled),
    {
        EpochEvent::Filled(os_root())
    }
}

/// What an event makes of the rotation of the randomness epoch. An event that the stage does not
/// wait for changes nothing.
pub open spec fn epoch_next(stage: EpochStageView, event: EpochEventView) -> Result<
    EpochStageView,
    ServiceError,
> {
    match (stage, event) {
        (EpochStageView::ReadCurrent, EpochEventView::Values(fields)) => if fields.len() != 1 {
            Err(ServiceError::MalformedCurrentEpoch)
        } else if fields[0]@ > u64::MAX {
            Err(ServiceError::Value)
        } else if fields[0]@ == 0 {
            Ok(EpochStageView::Create { id: 1 })
        } else {
            Ok(EpochStageView::ReadEpoch { id: fields[0]@ as u64 })
        },
        (EpochStageView::ReadEpoch { id }, EpochEventView::Values(fields)) => if fields.len()
            < 2 {
            Err(ServiceError::MalformedEpoch)
        } else if fields[1]@ == 1 {
            Ok(EpochStageView::LoadSecret { id, commitment: fields[0] })
        } else {
            Ok(EpochStageView::Create { id: (id + 1) as u64 })
        },
        (EpochStageView::LoadSecret { id, commitment }, EpochEventView::Loaded(secret)) => {
            if secret.epoch == id && secret_commitment(secret.secret) == commitment@ {
                Ok(EpochStageView::Publish { secret })
            } else {
                Err(ServiceError::SecretMismatch)
            }
        },
        (EpochStageView::Publish { secret }, EpochEventView::Commanded(taken)) => if taken {
            Ok(EpochStageView::Create { id: (secret.epoch + 1) as u64 })
        } else {
            Err(ServiceError::TransitionFailed)
        },
        (EpochStageView::Create { id }, EpochEventView::Filled(filled)) => match game_created(
            id,
            filled,
        ) {
            Ok(secret) => Ok(EpochStageView::Retain { secret }),
            Err(error) => Err(ServiceError::Epoch(error)),
        },
        (EpochStageView::Retain { secret }, EpochEventView::Retained) => Ok(
            EpochStageView::Open { secret },
        ),
        (EpochStageView::Open { secret }, EpochEventView::Commanded(taken)) => if taken {
            Ok(EpochStageView::Done { secret })
        } else {
            Err(ServiceError::TransitionFailed)
        },
        _ => Ok(stage),
    }
}

impl EpochStageView {
    /// What holds of every stage that a rotation reaches: there is a number after the epoch's.
    pub open spec fn valid(self) -> bool {
        match self {
            EpochStageView::ReadEpoch { id } => id < u64::MAX,
            EpochStageView::LoadSecret { id, .. } => id < u64::MAX,
            EpochStageView::Publish { secret } => secret.epoch < u64::MAX,
            _ => true,
        }
    }

    /// Whether an event leaves a number after the epoch's.
    pub open spec fn leaves_a_number(self, event: EpochEventView) -> bool {
        match (self, event) {
            (EpochStageView::ReadCurrent, EpochEventView::Values(fields)) => !(fields.len() == 1
                && fields[0]@ == u64::MAX),
            _ => true,
        }
    }

    /// The entry point and the elements of the account's command that the stage sends.
    pub open spec fn command(self) -> Option<(Seq<char>, Seq<nat>)> {
        match self {
            EpochStageView::Publish { secret } => Some(
                ("reveal_randomness_epoch"@, secret_reveal(secret.secret)),
            ),
            EpochStageView::Open { secret } => Some(
                ("open_randomness_epoch"@, seq![secret_commitment(secret.secret)]),
            ),
            _ => None,
        }
    }

    /// The entry point and the elements of the account's view that the stage reads.
    pub open spec fn view_call(self) -> Option<(Seq<char>, Seq<nat>)> {
        match self {
            EpochStageView::ReadCurrent => Some(("current_randomness_epoch"@, seq![])),
            EpochStageView::ReadEpoch { id } => Some(("get_randomness_epoch"@, seq![id as nat])),
            _ => None,
        }
    }
}

/// A call of the account by its entry point's name and its elements' values.
pub open spec fn call_view(call: Option<(&'static str, Vec<Felt>)>) -> Option<
    (Seq<char>, Seq<nat>),
> {
    match call {
        Some((entry_point, fields)) => Some((entry_point@, values(fields@))),
        None => None,
    }
}

/// A stage of the rotation by its contents, where one was reached.
pub open spec fn epoch_stage_result(result: Result<EpochStage, ServiceError>) -> Result<
    EpochStageView,
    ServiceError,
> {
    match result {
        Ok(stage) => Ok(stage@),
        Err(error) => Err(error),
    }
}

impl EpochStage {
    /// The account's command that the stage sends.
    pub fn command(&self) -> (result: Option<(&'static str, Vec<Felt>)>)
        ensures
            call_view(result) == self@.command(),
    {
        match self {
            EpochStage::Publish { secret } => {
                let fields: Vec<Felt> = copy_felts(&secret.revealed());
                Some(("reveal_randomness_epoch", fields))
            },
            EpochStage::Open { secret } => {
                let mut fields: Vec<Felt> = Vec::new();
                fields.push(secret.commitment());
                assert(values(fields@) =~= seq![secret_commitment(secret@.secret)]);
                Some(("open_randomness_epoch", fields))
            },
            _ => None,
        }
    }

    /// The account's view that the stage reads.
    pub fn view_call(&self) -> (result: Option<(&'static str, Vec<Felt>)>)
        ensures
            call_view(result) == self@.view_call(),
    {
        match self {
            EpochStage::ReadCurrent => {
                let fields: Vec<Felt> = Vec::new();
                assert(values(fields@) =~= seq![]);
                Some(("current_randomness_epoch", fields))
            },
            EpochStage::ReadEpoch { id } => {
                let mut fields: Vec<Felt> = Vec::new();
                fields.push(Felt::from_u64(*id));
                assert(values(fields@) =~= seq![*id as nat]);
                Some(("get_randomness_epoch", fields))
            },
            _ => None,
        }
    }

    /// Goes on with the rotation of the randomness epoch after an event.
    pub fn step(self, event: EpochEvent) -> (result: Result<EpochStage, ServiceError>)
        requires
            self@.valid(),
            self@.leaves_a_number(event@),
        ensures
            epoch_stage_result(result) == epoch_next(self@, event@),
            result matches Ok(next) ==> next@.valid(),
    {
        match (self, event) {
            (EpochStage::ReadCurrent, EpochEvent::Values(fields)) => {
                if fields.len() != 1 {
                    return Err(ServiceError::MalformedCurrentEpoch);
                }
                match fields[0].to_u64() {
                    Some(id) => if id == 0 {
                        Ok(EpochStage::Create { id: 1 })
                    } else {
                        Ok(EpochStage::ReadEpoch { id })
                    },
                    None => Err(ServiceError::Value),
                }
            },
            (EpochStage::ReadEpoch { id }, EpochEvent::Values(fields)) => {
                if fields.len() < 2 {
                    return Err(ServiceError::MalformedEpoch);
                }
                if fields[1] == Felt::one() {
                    return Ok(EpochStage::LoadSecret { id, commitment: fields[0] });
                }
                Ok(EpochStage::Create { id: id + 1 })
            },
            (EpochStage::LoadSecret { id, commitment }, EpochEvent::Loaded(secret)) => {
                if secret.epoch() != id || secret.commitment() != commitment {
                    return Err(ServiceError::SecretMismatch);
                }
                Ok(EpochStage::Publish { secret })
            },
            (EpochStage::Publish { secret }, EpochEvent::Commanded(taken)) => {
                if !taken {
                    return Err(ServiceError::TransitionFailed);
                }
                Ok(EpochStage::Create { id: secret.epoch() + 1 })
            },
            (EpochStage::Create { id }, EpochEvent::Filled(filled)) => match GameEpoch::create_with(
                id,
                filled,
            ) {
                Ok(secret) => Ok(EpochStage::Retain { secret }),
                Err(error) => Err(ServiceError::Epoch(error)),
            },
            (EpochStage::Retain { secret }, EpochEvent::Retained) => Ok(
                EpochStage::Open { secret },
            ),
            (EpochStage::Open { secret }, EpochEvent::Commanded(taken)) => {
                if !taken {
                    return Err(ServiceError::TransitionFailed);
                }
                Ok(EpochStage::Done { secret })
            },
            (stage, _) => Ok(stage),
        }
    }
}

/// A secret is published only where it is the one that the open epoch committed to.
pub proof fn law_only_the_committed_secret_is_revealed(stage: EpochStageView, event: EpochEventView)
    requires
        !(stage is Publish),
        epoch_next(stage, event) matches Ok(next) && next is Publish,
    ensures
        stage matches EpochStageView::LoadSecret { id, commitment } && event matches
            EpochEventView::Loaded(secret) && secret.epoch == id && secret_commitment(
            secret.secret,
        ) == commitment@ && epoch_next(stage, event)->Ok_0 == (EpochStageView::Publish { secret }),
{
}

/// What events make of a rotation of the randomness epoch.
pub open spec fn epoch_run(events: Seq<EpochEventView>) -> Result<EpochStageView, ServiceError>
    decreases events.len(),
{
    if events.len() == 0 {
        Ok(EpochStageView::ReadCurrent)
    } else {
        match epoch_run(events.drop_last()) {
            Ok(stage) => epoch_next(stage, events.last()),
            Err(error) => Err(error),
        }
    }
}

/// Whether events brought the rotation to a stage.
pub open spec fn epoch_reached(events: Seq<EpochEventView>, stage: EpochStageView) -> bool {
    epoch_run(events) == Ok::<EpochStageView, ServiceError>(stage)
}

/// Whether the event at `i` found the rotation at a stage.
pub open spec fn epoch_at(events: Seq<EpochEventView>, i: int, stage: EpochStageView) -> bool {
    0 <= i < events.len() && epoch_reached(events.take(i), stage)
}

/// Whether a secret was filled at `filled` under its epoch's number, retained at `retained` and
/// committed to at `opened`, in this order.
pub open spec fn epoch_opened_in_order(
    events: Seq<EpochEventView>,
    secret: GameEpochView,
    filled: int,
    retained: int,
    opened: int,
) -> bool {
    &&& filled < retained < opened
    &&& epoch_at(events, filled, EpochStageView::Create { id: secret.epoch })
    &&& events[filled] is Filled
    &&& game_created(secret.epoch, events[filled]->Filled_0) == Ok::<GameEpochView, EpochError>(
        secret,
    )
    &&& epoch_at(events, retained, EpochStageView::Retain { secret })
    &&& events[retained] is Retained
    &&& epoch_at(events, opened, EpochStageView::Open { secret })
    &&& events[opened] == EpochEventView::Commanded(true)
}

/// What an event found before stays found.
proof fn lemma_epoch_at_stays(events: Seq<EpochEventView>, i: int, stage: EpochStageView)
    requires
        events.len() > 0,
        epoch_at(events.drop_last(), i, stage),
    ensures
        epoch_at(events, i, stage),
        events[i] == events.drop_last()[i],
{
    assert(events.drop_last().take(i) =~= events.take(i));
}

/// The last event found what those before it brought about.
proof fn lemma_epoch_last(events: Seq<EpochEventView>)
    requires
        events.len() > 0,
        epoch_run(events) is Ok,
    ensures
        epoch_run(events.drop_last()) is Ok,
        epoch_at(events, events.len() - 1, epoch_run(events.drop_last())->Ok_0),
        epoch_run(events) == epoch_next(epoch_run(events.drop_last())->Ok_0, events.last()),
{
    assert(events.take(events.len() - 1) =~= events.drop_last());
}

/// A secret that is to be retained was filled for its epoch's number.
proof fn lemma_retain_follows_creation(events: Seq<EpochEventView>, secret: GameEpochView) -> (at:
    int)
    requires
        epoch_reached(events, (EpochStageView::Retain { secret })),
    ensures
        epoch_at(events, at, (EpochStageView::Create { id: secret.epoch })),
        events[at] is Filled,
        game_created(secret.epoch, events[at]->Filled_0) == Ok::<GameEpochView, EpochError>(secret),
    decreases events.len(),
{
    lemma_epoch_last(events);
    let before = epoch_run(events.drop_last())->Ok_0;
    if before is Retain {
        let at = lemma_retain_follows_creation(events.drop_last(), secret);
        lemma_epoch_at_stays(events, at, EpochStageView::Create { id: secret.epoch });
        at
    } else {
        events.len() - 1
    }
}

/// A secret that is to be committed to was retained.
proof fn lemma_open_follows_retention(events: Seq<EpochEventView>, secret: GameEpochView) -> (at:
    int)
    requires
        epoch_reached(events, (EpochStageView::Open { secret })),
    ensures
        epoch_at(events, at, (EpochStageView::Retain { secret })),
        events[at] is Retained,
    decreases events.len(),
{
    lemma_epoch_last(events);
    let before = epoch_run(events.drop_last())->Ok_0;
    if before is Open {
        let at = lemma_open_follows_retention(events.drop_last(), secret);
        lemma_epoch_at_stays(events, at, EpochStageView::Retain { secret });
        at
    } else {
        events.len() - 1
    }
}

/// A secret whose epoch is open was committed to.
proof fn lemma_done_follows_opening(events: Seq<EpochEventView>, secret: GameEpochView) -> (at: int)
    requires
        epoch_reached(events, (EpochStageView::Done { secret })),
    ensures
        epoch_at(events, at, (EpochStageView::Open { secret })),
        events[at] == EpochEventView::Commanded(true),
    decreases events.len(),
{
    lemma_epoch_last(events);
    let before = epoch_run(events.drop_last())->Ok_0;
    if before is Done {
        let at = lemma_done_follows_opening(events.drop_last(), secret);
        lemma_epoch_at_stays(events, at, EpochStageView::Open { secret });
        at
    } else {
        events.len() - 1
    }
}

/// The commitment to a fresh secret is sent only after the secret is retained, whether or not the
/// chain takes it: a stage that sends it comes after one that retained the same secret.
pub proof fn law_secret_is_retained_before_its_commitment_is_sent(
    events: Seq<EpochEventView>,
    secret: GameEpochView,
)
    requires
        epoch_reached(events, (EpochStageView::Open { secret })),
    ensures
        exists|i: int| #[trigger]
            epoch_at(events, i, EpochStageView::Retain { secret }) && events[i] is Retained,
{
    let i = lemma_open_follows_retention(events, secret);
}

/// The order of a rotation that ended: the fresh secret was filled for its epoch's number, then
/// retained, and only then committed to. The commitment was the last command: an open epoch sends
/// none and stays open.
pub proof fn law_rotation_ends_with_the_commitment(
    events: Seq<EpochEventView>,
    secret: GameEpochView,
    event: EpochEventView,
)
    requires
        epoch_reached(events, (EpochStageView::Done { secret })),
    ensures
        exists|filled: int, retained: int, opened: int| #[trigger]
            epoch_opened_in_order(events, secret, filled, retained, opened),
        (EpochStageView::Open { secret }).command() == Some(
            ("open_randomness_epoch"@, seq![secret_commitment(secret.secret)]),
        ),
        (EpochStageView::Done { secret }).command() is None,
        epoch_reached(events.push(event), (EpochStageView::Done { secret })),
{
    let opened = lemma_done_follows_opening(events, secret);
    let retained = lemma_open_follows_retention(events.take(opened), secret);
    assert(events.take(opened).take(retained) =~= events.take(retained));
    let filled = lemma_retain_follows_creation(events.take(retained), secret);
    assert(events.take(retained).take(filled) =~= events.take(filled));
    assert(epoch_opened_in_order(events, secret, filled, retained, opened));
    assert(events.push(event).drop_last() =~= events);
}

/// What a rotation of the randomness epoch has met: the current epoch's number, the commitment of the
/// current epoch where that epoch is not revealed, and the commands that were sent, in order.
#[verifier::ext_equal]
pub struct EpochTrace {
    pub current: Option<nat>,
    pub committed: Option<Felt>,
    pub commands: Seq<(Seq<char>, Seq<nat>)>,
}

impl EpochTrace {
    /// What a rotation has met once an event found it at a stage.
    pub open spec fn met(self, stage: EpochStageView, event: EpochEventView) -> EpochTrace {
        match (stage, event) {
            (EpochStageView::ReadCurrent, EpochEventView::Values(fields)) => EpochTrace {
                current: Some(fields[0]@),
                ..self
            },
            (EpochStageView::ReadEpoch { .. }, EpochEventView::Values(fields)) => EpochTrace {
                committed: if fields[1]@ == 1 {
                    Some(fields[0])
                } else {
                    None
                },
                ..self
            },
            (_, EpochEventView::Commanded(_)) => match stage.command() {
                Some(command) => EpochTrace { commands: self.commands.push(command), ..self },
                None => self,
            },
            _ => self,
        }
    }

    /// Whether the retained secret was revealed exactly where the current epoch is not: the secret
    /// that the current epoch committed to, and nothing else.
    pub open spec fn revealed(self, commands: Seq<(Seq<char>, Seq<nat>)>) -> bool {
        match self.committed {
            None => commands == Seq::<(Seq<char>, Seq<nat>)>::empty(),
            Some(commitment) => exists|secret: Seq<u8>|
                secret_commitment(secret) == commitment@ && commands == seq![
                    ("reveal_randomness_epoch"@, #[trigger] secret_reveal(secret)),
                ],
        }
    }

    /// What a rotation has met where it stands at a stage.
    pub open spec fn fits(self, stage: EpochStageView) -> bool {
        let none = Seq::<(Seq<char>, Seq<nat>)>::empty();
        match stage {
            EpochStageView::ReadCurrent => self.current is None && self.committed is None
                && self.commands == none,
            EpochStageView::ReadEpoch { id } => self.current == Some(id as nat) && self.committed is None
                && self.commands == none,
            EpochStageView::LoadSecret { id, commitment } => self.current == Some(id as nat)
                && self.committed == Some(commitment) && self.commands == none,
            EpochStageView::Publish { secret } => self.current == Some(secret.epoch as nat)
                && self.committed is Some && secret_commitment(secret.secret) == self.committed->0@
                && self.commands == none,
            EpochStageView::Create { id } => self.current is Some && self.current->0 + 1 == id
                && self.revealed(self.commands),
            EpochStageView::Retain { secret } => self.current is Some && self.current->0 + 1
                == secret.epoch && self.revealed(self.commands),
            EpochStageView::Open { secret } => self.current is Some && self.current->0 + 1
                == secret.epoch && self.revealed(self.commands),
            EpochStageView::Done { secret } => self.current is Some && self.current->0 + 1
                == secret.epoch && self.commands.len() > 0 && self.revealed(
                self.commands.drop_last(),
            ) && self.commands.last() == ("open_randomness_epoch"@, seq![
                secret_commitment(secret.secret),
            ]),
        }
    }
}

/// What events let a rotation of the randomness epoch meet.
pub open spec fn epoch_trace(events: Seq<EpochEventView>) -> EpochTrace
    decreases events.len(),
{
    if events.len() == 0 {
        EpochTrace { current: None, committed: None, commands: Seq::empty() }
    } else {
        match epoch_run(events.drop_last()) {
            Ok(stage) => epoch_trace(events.drop_last()).met(stage, events.last()),
            Err(_) => epoch_trace(events.drop_last()),
        }
    }
}

/// A step keeps what a rotation has met in line with its stage, where a number follows the current
/// epoch's.
proof fn lemma_trace_fits(trace: EpochTrace, stage: EpochStageView, event: EpochEventView)
    requires
        trace.fits(stage),
        epoch_next(stage, event) is Ok,
        trace.met(stage, event).current != Some(u64::MAX as nat),
    ensures
        trace.met(stage, event).fits(epoch_next(stage, event)->Ok_0),
{
    let after = trace.met(stage, event);
    match (stage, event) {
        (EpochStageView::Publish { secret }, EpochEventView::Commanded(_)) => {
            assert(after.commands =~= seq![
                ("reveal_randomness_epoch"@, secret_reveal(secret.secret)),
            ]);
        },
        (EpochStageView::Open { secret }, EpochEventView::Commanded(_)) => {
            assert(after.commands.drop_last() =~= trace.commands);
        },
        _ => {},
    }
}

/// A number that was read stays the one that was read, and what a rotation has met stays in line with
/// its stage.
proof fn lemma_trace_goes_on(events: Seq<EpochEventView>)
    requires
        events.len() > 0,
        epoch_run(events) is Ok,
        epoch_trace(events).current != Some(u64::MAX as nat),
    ensures
        epoch_trace(events.drop_last()).current != Some(u64::MAX as nat),
        epoch_trace(events.drop_last()).fits(epoch_run(events.drop_last())->Ok_0) ==> epoch_trace(
            events,
        ).fits(epoch_run(events)->Ok_0),
{
    let before = epoch_trace(events.drop_last());
    let stage = epoch_run(events.drop_last())->Ok_0;
    if stage is ReadCurrent {
        lemma_read_current_met_nothing(events.drop_last());
    }
    if before.fits(stage) {
        lemma_trace_fits(before, stage, events.last());
    }
}

/// A rotation that still has to read the current epoch's number has met nothing.
proof fn lemma_read_current_met_nothing(events: Seq<EpochEventView>)
    requires
        epoch_reached(events, EpochStageView::ReadCurrent),
    ensures
        epoch_trace(events).fits(EpochStageView::ReadCurrent),
    decreases events.len(),
{
    if events.len() > 0 {
        let stage = epoch_run(events.drop_last())->Ok_0;
        assert(stage is ReadCurrent);
        lemma_read_current_met_nothing(events.drop_last());
    }
}

/// The law of the epoch's rotation. One that ended opened the epoch after the current one. Its last
/// command was the commitment to the new epoch's secret. Before it the retained secret was revealed
/// exactly where the current epoch is not revealed, and it is the secret which that epoch committed
/// to. At every other stage no other command was sent than these.
pub proof fn law_rotation_reveals_then_opens(events: Seq<EpochEventView>)
    requires
        epoch_run(events) is Ok,
        epoch_trace(events).current != Some(u64::MAX as nat),
    ensures
        epoch_trace(events).fits(epoch_run(events)->Ok_0),
    decreases events.len(),
{
    if events.len() > 0 {
        lemma_trace_goes_on(events);
        law_rotation_reveals_then_opens(events.drop_last());
    }
}

/// What a request's client is told once the assignment of an order ended: the order, or the reason for
/// which there is none.
pub fn assignment_status(action: Felt, outcome: Result<u64, String>) -> (result: ActionStatus)
    ensures
        result@ == (match outcome {
            Ok(order) => ActionStatusView::Accepted { action, order },
            Err(reason) => ActionStatusView::Refused { action, reason: reason@ },
        }),
{
    match outcome {
        Ok(order) => ActionStatus::Accepted { action, order },
        Err(reason) => ActionStatus::Refused { action, reason },
    }
}

/// What the service does next.
#[derive(Debug, PartialEq, Eq)]
pub enum Dispatch<T> {
    /// The given tickets are executed.
    Launch(Vec<T>),
    /// The randomness epoch rotates.
    Rotate,
    /// Nothing: the service listens.
    Listen,
}

/// What is due.
pub enum Due {
    Launch,
    Rotate,
    Listen,
}

/// What the service listens to.
#[derive(Clone, Copy, Debug, PartialEq, Eq, Structural)]
pub struct Listen {
    /// The next request.
    pub requests: bool,
    /// The end of the execution under way.
    pub flight: bool,
    /// The end of the wait for more tickets.
    pub deadline: bool,
}

/// The tickets that wait to be executed together, and whether others are in flight.
pub struct Dispatcher<T> {
    queue: Vec<T>,
    flying: bool,
}

/// The contents of a [`Dispatcher`].
#[verifier::ext_equal]
pub struct DispatcherView<T> {
    pub queue: Seq<T>,
    pub flying: bool,
}

impl<T> View for Dispatcher<T> {
    type V = DispatcherView<T>;

    closed spec fn view(&self) -> DispatcherView<T> {
        DispatcherView { queue: self.queue@, flying: self.flying }
    }
}

impl<T> DispatcherView<T> {
    /// What is due, from whether the wait for more tickets is over and whether the epoch is to
    /// rotate.
    pub open spec fn due(self, deadline_passed: bool, rotation_due: bool) -> Due {
        if self.flying {
            Due::Listen
        } else if self.queue.len() > 0 && (self.queue.len() >= MAX_BATCH || deadline_passed) {
            Due::Launch
        } else if self.queue.len() == 0 && rotation_due {
            Due::Rotate
        } else {
            Due::Listen
        }
    }

    /// The dispatcher once what was due is begun.
    pub open spec fn after(self, due: Due) -> DispatcherView<T> {
        match due {
            Due::Launch => DispatcherView { queue: Seq::empty(), flying: true },
            _ => self,
        }
    }

    /// What is listened to. No request is taken while the queue is full or the epoch is to rotate.
    pub open spec fn listens(self, rotation_due: bool) -> Listen {
        Listen {
            requests: self.queue.len() < MAX_BATCH && !rotation_due,
            flight: self.flying,
            deadline: !self.flying && self.queue.len() > 0,
        }
    }
}

impl<T> Dispatcher<T> {
    /// A dispatcher without tickets.
    pub fn new() -> (result: Dispatcher<T>)
        ensures
            result@ == (DispatcherView { queue: Seq::<T>::empty(), flying: false }),
    {
        Dispatcher { queue: Vec::new(), flying: false }
    }

    /// What the service does next, from whether the wait for more tickets is over and whether the
    /// epoch is to rotate.
    pub fn next(&mut self, deadline_passed: bool, rotation_due: bool) -> (result: Dispatch<T>)
        ensures
            match old(self)@.due(deadline_passed, rotation_due) {
                Due::Launch => result is Launch && result->0@ == old(self)@.queue,
                Due::Rotate => result is Rotate,
                Due::Listen => result is Listen,
            },
            final(self)@ == old(self)@.after(old(self)@.due(deadline_passed, rotation_due)),
    {
        if self.flying {
            return Dispatch::Listen;
        }
        let waiting: usize = self.queue.len();
        if waiting > 0 && (waiting >= MAX_BATCH || deadline_passed) {
            let mut batch: Vec<T> = Vec::new();
            std::mem::swap(&mut batch, &mut self.queue);
            self.flying = true;
            assert(self@ =~= old(self)@.after(Due::Launch));
            return Dispatch::Launch(batch);
        }
        if waiting == 0 && rotation_due {
            return Dispatch::Rotate;
        }
        Dispatch::Listen
    }

    /// What the service listens to.
    pub fn listen(&self, rotation_due: bool) -> (result: Listen)
        ensures
            result == self@.listens(rotation_due),
    {
        Listen {
            requests: self.queue.len() < MAX_BATCH && !rotation_due,
            flight: self.flying,
            deadline: !self.flying && self.queue.len() > 0,
        }
    }

    /// Queues a ticket, and says whether the wait for more begins with it.
    pub fn queue(&mut self, ticket: T) -> (result: bool)
        requires
            old(self)@.queue.len() < MAX_BATCH,
        ensures
            result == (old(self)@.queue.len() == 0),
            final(self)@ == (DispatcherView { queue: old(self)@.queue.push(ticket), ..old(self)@ }),
    {
        let first: bool = self.queue.len() == 0;
        self.queue.push(ticket);
        assert(self@ =~= (DispatcherView { queue: old(self)@.queue.push(ticket), ..old(self)@ }));
        first
    }

    /// Ends the execution under way. One that failed ends the service with its error.
    pub fn landed<E>(&mut self, outcome: Result<(), E>) -> (result: Result<(), E>)
        ensures
            result == outcome,
            final(self)@ == (if outcome is Ok {
                DispatcherView { flying: false, ..old(self)@ }
            } else {
                old(self)@
            }),
    {
        if outcome.is_ok() {
            self.flying = false;
        }
        outcome
    }
}

/// What ends one turn of the service's loop.
pub enum LoopEvent<T> {
    /// A request was taken and assigned the given ticket.
    Assigned(T),
    /// A request was taken and refused.
    Refused,
    /// The execution under way ended without an error.
    Landed,
    /// The execution under way failed, which ends the loop.
    Failed,
    /// The wait for more tickets ended.
    Waited,
}

/// The service's loop: its dispatcher and the number of tickets under the open epoch, with all the
/// tickets that were assigned, all the batches that were launched, the number of those that landed
/// and whether one failed.
#[verifier::ext_equal]
pub struct LoopHistory<T> {
    pub dispatcher: DispatcherView<T>,
    pub admitted: u64,
    pub assigned: Seq<T>,
    pub launched: Seq<Seq<T>>,
    pub landed: nat,
    pub failed: bool,
}

impl<T> LoopHistory<T> {
    /// The loop before its first turn.
    pub open spec fn start() -> LoopHistory<T> {
        LoopHistory {
            dispatcher: DispatcherView { queue: Seq::empty(), flying: false },
            admitted: 0,
            assigned: Seq::empty(),
            launched: Seq::empty(),
            landed: 0,
            failed: false,
        }
    }

    /// Whether the epoch is to rotate.
    pub open spec fn rotation_due(self) -> bool {
        self.admitted >= EPOCH_TICKETS
    }

    /// The loop once what is due is begun.
    pub open spec fn begun(self, deadline_passed: bool) -> LoopHistory<T> {
        let due = self.dispatcher.due(deadline_passed, self.rotation_due());
        LoopHistory {
            dispatcher: self.dispatcher.after(due),
            admitted: if due is Rotate {
                0
            } else {
                self.admitted
            },
            launched: if due is Launch {
                self.launched.push(self.dispatcher.queue)
            } else {
                self.launched
            },
            ..self
        }
    }

    /// The loop after what it listens to happened; nothing where it does not listen to it.
    pub open spec fn heard(self, event: LoopEvent<T>) -> Option<LoopHistory<T>> {
        let listen = self.dispatcher.listens(self.rotation_due());
        match event {
            LoopEvent::Assigned(ticket) => if listen.requests {
                Some(
                    LoopHistory {
                        dispatcher: DispatcherView {
                            queue: self.dispatcher.queue.push(ticket),
                            ..self.dispatcher
                        },
                        admitted: (self.admitted + 1) as u64,
                        assigned: self.assigned.push(ticket),
                        ..self
                    },
                )
            } else {
                None
            },
            LoopEvent::Refused => if listen.requests {
                Some(self)
            } else {
                None
            },
            LoopEvent::Landed => if listen.flight {
                Some(
                    LoopHistory {
                        dispatcher: DispatcherView { flying: false, ..self.dispatcher },
                        landed: self.landed + 1,
                        ..self
                    },
                )
            } else {
                None
            },
            LoopEvent::Failed => if listen.flight {
                Some(LoopHistory { failed: true, ..self })
            } else {
                None
            },
            LoopEvent::Waited => if listen.deadline {
                Some(self)
            } else {
                None
            },
        }
    }

    /// What holds of the loop at all times. Every batch that was launched has a ticket and not too
    /// many, the batches and then the queue hold the tickets in the order in which they were
    /// assigned, one batch is in flight at most, and no epoch has more tickets than it may.
    pub open spec fn sound(self) -> bool {
        &&& self.dispatcher.queue.len() <= MAX_BATCH
        &&& self.admitted <= EPOCH_TICKETS
        &&& forall|k: int|
            0 <= k < self.launched.len() ==> 1 <= (#[trigger] self.launched[k]).len() <= MAX_BATCH
        &&& joined(self.launched) + self.dispatcher.queue == self.assigned
        &&& self.launched.len() == self.landed + (if self.dispatcher.flying {
            1nat
        } else {
            0nat
        })
    }
}

/// The tickets of batches, one batch after the other.
pub open spec fn joined<T>(batches: Seq<Seq<T>>) -> Seq<T>
    decreases batches.len(),
{
    if batches.len() == 0 {
        Seq::empty()
    } else {
        joined(batches.drop_last()) + batches.last()
    }
}

/// The service's loop after turns, each with whether the wait for more tickets was over at its start
/// and with what ended it; nothing where a turn could not have ended so, or followed a failure.
pub open spec fn loop_run<T>(turns: Seq<(bool, LoopEvent<T>)>) -> Option<LoopHistory<T>>
    decreases turns.len(),
{
    if turns.len() == 0 {
        Some(LoopHistory::start())
    } else {
        match loop_run(turns.drop_last()) {
            Some(before) => if before.failed {
                None
            } else {
                before.begun(turns.last().0).heard(turns.last().1)
            },
            None => None,
        }
    }
}

/// What is due keeps the loop sound.
proof fn lemma_begun_is_sound<T>(before: LoopHistory<T>, deadline_passed: bool)
    requires
        before.sound(),
    ensures
        before.begun(deadline_passed).sound(),
{
    let after = before.begun(deadline_passed);
    if before.dispatcher.due(deadline_passed, before.rotation_due()) is Launch {
        assert(after.launched.drop_last() =~= before.launched);
        assert(after.launched.last() == before.dispatcher.queue);
        assert(joined(after.launched) + after.dispatcher.queue =~= before.assigned);
        assert forall|k: int| 0 <= k < after.launched.len() implies 1 <= (
        #[trigger] after.launched[k]).len() <= MAX_BATCH by {
            if k < before.launched.len() {
                assert(after.launched[k] == before.launched[k]);
            }
        }
    }
}

/// What is heard keeps the loop sound.
proof fn lemma_heard_is_sound<T>(before: LoopHistory<T>, event: LoopEvent<T>)
    requires
        before.sound(),
        before.heard(event) is Some,
    ensures
        before.heard(event)->0.sound(),
{
    let after = before.heard(event)->0;
    assert(joined(after.launched) + after.dispatcher.queue =~= after.assigned);
}

/// The law of the service's loop, whatever happened before and whatever is due now. The loop is sound
/// at the start of every turn and once what is due is begun. A batch is launched only with none in
/// flight. The epoch rotates only when it is to and with nothing queued or in flight, so that no
/// assigned root outlives its epoch. No request is taken while the epoch is to rotate, nor into a
/// full queue.
pub proof fn law_service_loop<T>(turns: Seq<(bool, LoopEvent<T>)>, deadline_passed: bool)
    requires
        loop_run(turns) is Some,
    ensures
        ({
            let reached = loop_run(turns)->0;
            let begun = reached.begun(deadline_passed);
            let due = reached.dispatcher.due(deadline_passed, reached.rotation_due());
            &&& reached.sound()
            &&& begun.sound()
            &&& due is Launch ==> !reached.dispatcher.flying && begun.launched
                == reached.launched.push(reached.dispatcher.queue)
            &&& !(due is Launch) ==> begun.launched == reached.launched
            &&& due is Rotate ==> reached.rotation_due() && reached.dispatcher.queue.len() == 0
                && !reached.dispatcher.flying
            &&& !(due is Rotate) ==> begun.admitted == reached.admitted
            &&& begun.dispatcher.listens(begun.rotation_due()).requests ==> !begun.rotation_due()
                && begun.dispatcher.queue.len() < MAX_BATCH
        }),
    decreases turns.len(),
{
    if turns.len() > 0 {
        let (passed, event) = turns.last();
        law_service_loop(turns.drop_last(), passed);
        let before = loop_run(turns.drop_last())->0;
        lemma_heard_is_sound(before.begun(passed), event);
    } else {
        assert(joined(Seq::<Seq<T>>::empty()) + Seq::<T>::empty() =~= Seq::<T>::empty());
    }
    lemma_begun_is_sound(loop_run(turns)->0, deadline_passed);
}

/// Signed expiry applies at acceptance: neither the time that a ticket records nor the time that
/// the chain observes is past it, so that an old closed block cannot admit an expired intent.
pub proof fn law_expired_intents_are_not_assigned(
    assignments: AssignmentsView,
    admission: Admission,
    timestamp: u64,
    intent: IntentView,
)
    requires
        assignments.assign_fault(admission, timestamp, intent) is None,
    ensures
        intent.valid_from <= timestamp <= intent.valid_until,
        admission.observed_time@ <= intent.valid_until,
        0 < admission.order <= intent.last_order,
{
}

/// The chain's admission view, by its elements: the game's rules, the configuration that its actions
/// execute in, the actor's nonce, the order after the recorded head and the time that the chain
/// observed. An intent is admitted where the rules and the nonce are its own and its order is a
/// number. It is then accepted at the game's next order, or at the view's where the game has none,
/// where that order and the time lie within its limits and the observed time is not past its expiry.
/// Its ticket records the intent's identity, the view's configuration, that order and that time.
#[verifier::spinoff_prover]
pub proof fn law_admission_view_fixes_the_ticket(
    assignments: &Assignments,
    view: (Felt, Felt, Felt, Felt, Felt),
    fields: &[Felt],
    timestamp: u64,
    intent: &Intent,
    signature: &[Felt],
    identity: Result<Felt, ProtocolError>,
    admitted: Result<Admission, ServiceError>,
    result: Result<RecordedTicket, ServiceError>,
)
    requires
        call_ensures(Intent::identity, (intent,), identity),
        fields@ == seq![view.0, view.1, view.2, view.3, view.4],
        call_ensures(Assignments::admission, (assignments, fields, intent), admitted),
        admitted is Ok ==> call_ensures(
            Assignments::accept,
            (assignments, admitted->Ok_0, timestamp, intent, signature),
            result,
        ),
    ensures
        ({
            let (rules, config, nonce, next, observed) = view;
            let known = assignments@.orders.contains_key(intent.game);
            let order = if known {
                assignments@.orders[intent.game] as nat
            } else {
                next@
            };
            &&& admitted is Ok <==> order <= u64::MAX && rules == intent.rules && nonce@
                == intent.nonce
            &&& !known && next@ > u64::MAX ==> admitted == Err::<Admission, ServiceError>(
                ServiceError::Value,
            )
            &&& order <= u64::MAX && (rules != intent.rules || nonce@ != intent.nonce) ==> admitted
                == Err::<Admission, ServiceError>(ServiceError::AdmissionChanged)
            &&& admitted is Ok ==> (result is Ok <==> observed@ <= intent.valid_until && 0 < order
                <= intent.last_order && intent.valid_from <= timestamp <= intent.valid_until
                && intent.arguments@.len() <= u32::MAX)
            &&& admitted is Ok && result is Ok ==> {
                let ticket = result->Ok_0;
                &&& ticket.envelope.execution_config == config
                &&& ticket.envelope.order == order
                &&& ticket.envelope.timestamp == timestamp
                &&& ticket.envelope.epoch == assignments@.epoch.epoch
                &&& identity == Ok::<Felt, ProtocolError>(ticket.envelope.action)
                &&& be_value(ticket.envelope.root@) == game_root(
                    assignments@.epoch.secret,
                    intent.game@,
                    order as u64,
                )
                &&& ticket.intent@ == intent@
                &&& ticket.signature@ == signature@
            }
            &&& admitted is Ok && observed@ <= u64::MAX && (observed@ > intent.valid_until || order
                == 0 || order > intent.last_order || timestamp < intent.valid_from || timestamp
                > intent.valid_until) ==> result == Err::<RecordedTicket, ServiceError>(
                ServiceError::Expired,
            )
        }),
{
    assert(fields@.len() == 5);
    assert(fields@[0] == view.0 && fields@[1] == view.1 && fields@[2] == view.2 && fields@[3]
        == view.3 && fields@[4] == view.4);
    if identity is Ok {
        lemma_felt_of(identity->Ok_0);
    }
}

/// A request holds the intent that its elements were made from, where that intent targets the chain
/// and the deployment that is served; another target is refused, and the signature has no say.
pub proof fn law_request_holds_its_intent(
    request: &ActionRequest,
    intent: &Intent,
    chain: Felt,
    deployment: Felt,
    form: Result<Vec<Felt>, ProtocolError>,
    result: Result<Intent, ServiceError>,
)
    requires
        call_ensures(Intent::encode, (intent,), form),
        form matches Ok(fields) && fields@ == request.intent@,
        call_ensures(ActionRequest::decode, (request, chain, deployment), result),
    ensures
        intent.chain == chain && intent.deployment == deployment ==> result is Ok
            && result->Ok_0@ == intent@,
        intent.chain != chain || intent.deployment != deployment ==> result == Err::<
            Intent,
            ServiceError,
        >(ServiceError::WrongTarget),
{
    let fields = intent_fields(intent@);
    assert(fields[2] == intent.chain@);
    assert(fields[3] == intent.deployment@);
    crate::protocol::law_intent_form_is_accepted(intent@);
    if result is Ok {
        law_intent_form_is_unique(intent@, result->Ok_0@);
    }
}

/// An intent may be accepted at every order from one to its last, at every time from its first to
/// its expiry, and at no other.
pub proof fn law_context_lies_within_the_limits(
    intent: &Intent,
    order: u64,
    timestamp: u64,
    result: bool,
)
    requires
        call_ensures(context_matches, (intent, order, timestamp), result),
    ensures
        result <==> order >= 1 && order <= intent.last_order && timestamp >= intent.valid_from
            && timestamp <= intent.valid_until,
{
}

/// The nonce that a signed intent is held against is the third of the admission view's five
/// elements. The current nonce asks for the actor's slot, a past one for the recorded history, and
/// one that is yet to come is refused; without a signature all are.
pub proof fn law_signed_intent_is_held_against_the_actors_nonce(
    event: &AdmitEvent,
    signed: bool,
    nonce: u64,
    read: Result<AdmitStage, ServiceError>,
    result: Result<AdmitStage, ServiceError>,
)
    requires
        call_ensures(admit_step, (AdmitStage::ReadAdmission, event, nonce), read),
        *event is Admission,
        read is Ok ==> call_ensures(
            admit_step,
            (read->Ok_0, &AdmitEvent::Signed(signed), nonce),
            result,
        ),
    ensures
        ({
            let fields = event->Admission_0@;
            let current = fields[2]@;
            &&& fields.len() != 5 <==> read == Err::<AdmitStage, ServiceError>(
                ServiceError::MalformedAdmission,
            )
            &&& read is Ok <==> fields.len() == 5
            &&& fields.len() == 5 && !signed ==> result == Err::<AdmitStage, ServiceError>(
                ServiceError::InvalidSignature,
            )
            &&& fields.len() == 5 && signed && current == nonce ==> result == Ok::<
                AdmitStage,
                ServiceError,
            >(AdmitStage::Reserve)
            &&& fields.len() == 5 && signed && nonce < current ==> result == Ok::<
                AdmitStage,
                ServiceError,
            >(AdmitStage::ReadHistory)
            &&& fields.len() == 5 && signed && nonce > current ==> result == Err::<
                AdmitStage,
                ServiceError,
            >(ServiceError::StaleNonce)
        }),
{
}

/// Each answer that refuses a request refuses it for its own reason, and each other answer takes it
/// one stage further: from the peer's budget to the admission view, from the recorded history to the
/// recorded outcome, and from the slot through the queue to the action that holds the slot.
pub proof fn law_answers_decide_an_admission(
    stage: AdmitStage,
    event: &AdmitEvent,
    nonce: u64,
    result: Result<AdmitStage, ServiceError>,
)
    requires
        call_ensures(admit_step, (stage, event, nonce), result),
    ensures
        stage is AskBudget && *event == AdmitEvent::Budget(true) ==> result == Ok::<
            AdmitStage,
            ServiceError,
        >(AdmitStage::ReadAdmission),
        stage is AskBudget && *event == AdmitEvent::Budget(false) ==> result == Err::<
            AdmitStage,
            ServiceError,
        >(ServiceError::RateExceeded),
        stage is ReadHistory && *event == AdmitEvent::History(true) ==> result == Ok::<
            AdmitStage,
            ServiceError,
        >(AdmitStage::Recorded),
        stage is ReadHistory && *event == AdmitEvent::History(false) ==> result == Err::<
            AdmitStage,
            ServiceError,
        >(ServiceError::StaleNonce),
        stage is Reserve && *event == AdmitEvent::Slot(Slot::New) ==> result == Ok::<
            AdmitStage,
            ServiceError,
        >(AdmitStage::Enqueue),
        stage is Reserve && *event == AdmitEvent::Slot(Slot::Existing) ==> result == Ok::<
            AdmitStage,
            ServiceError,
        >(AdmitStage::Follow),
        stage is Reserve && *event == AdmitEvent::Slot(Slot::Conflict) ==> result == Err::<
            AdmitStage,
            ServiceError,
        >(ServiceError::Conflict),
        stage is Enqueue && *event == AdmitEvent::Queued(Some(true)) ==> result == Ok::<
            AdmitStage,
            ServiceError,
        >(AdmitStage::Follow),
        stage is Enqueue && *event == AdmitEvent::Queued(Some(false)) ==> result == Err::<
            AdmitStage,
            ServiceError,
        >(ServiceError::QueueFull),
        stage is Enqueue && *event == AdmitEvent::Queued(None) ==> result == Err::<
            AdmitStage,
            ServiceError,
        >(ServiceError::Unavailable),
        stage is Follow || stage is Recorded ==> result == Ok::<AdmitStage, ServiceError>(stage),
{
}

/// An assigned ticket is the one that the intent is accepted with, and it moves its game on: what the
/// next view of the same game is admitted at is the order after the ticket's, whatever that view
/// says, and every other game is admitted where it was. Under one epoch each ticket counts once.
#[verifier::spinoff_prover]
pub proof fn law_assignment_moves_its_game_on(
    before: &Assignments,
    assignments: &mut Assignments,
    after: &Assignments,
    admission: Admission,
    timestamp: u64,
    intent: &Intent,
    signature: &[Felt],
    result: Result<RecordedTicket, ServiceError>,
    accepted: Result<RecordedTicket, ServiceError>,
    fields: &[Felt],
    next: &Intent,
    earlier: Result<Admission, ServiceError>,
    later: Result<Admission, ServiceError>,
)
    requires
        *before == *old(assignments),
        *after == *final(assignments),
        admission.order < u64::MAX,
        old(assignments)@.admitted < u64::MAX,
        call_ensures(Assignments::accept, (before, admission, timestamp, intent, signature), accepted),
        call_ensures(
            Assignments::assign,
            (assignments, admission, timestamp, intent, signature),
            result,
        ),
        call_ensures(Assignments::admission, (before, fields, next), earlier),
        call_ensures(Assignments::admission, (after, fields, next), later),
    ensures
        result is Ok <==> accepted is Ok,
        result is Ok ==> result->Ok_0.envelope.order == admission.order
            && result->Ok_0.envelope.execution_config == admission.execution_config
            && result->Ok_0.envelope.timestamp == timestamp && result->Ok_0.envelope.action
            == accepted->Ok_0.envelope.action && result->Ok_0.envelope.epoch
            == accepted->Ok_0.envelope.epoch && be_value(result->Ok_0.envelope.root@) == be_value(
            accepted->Ok_0.envelope.root@,
        ) && result->Ok_0.intent@ == intent@ && result->Ok_0.signature@ == signature@,
        result is Ok && next.game == intent.game && later is Ok ==> later->Ok_0.order
            == admission.order + 1,
        result is Ok && next.game != intent.game ==> later == earlier,
        result is Ok ==> after@.admitted == before@.admitted + 1 && after@.epoch == before@.epoch,
        result is Err ==> result->Err_0 == accepted->Err_0 && later == earlier && after@.admitted
            == before@.admitted && after@.epoch == before@.epoch,
{
}

/// The epoch is to rotate once a hundred thousand tickets were assigned under it, and a rotation
/// counts them anew under the fresh epoch while every game goes on at the order it had.
pub proof fn law_epoch_rotates_by_its_tickets(
    assignments: &mut Assignments,
    after: &Assignments,
    epoch: GameEpoch,
    due: bool,
    done: (),
)
    requires
        *after == *final(assignments),
        call_ensures(Assignments::rotate, (assignments, epoch), done),
        call_ensures(Assignments::rotation_due, (after,), due),
    ensures
        !due,
        after@.admitted == 0,
        after@.epoch == epoch@,
        after@.orders == old(assignments)@.orders,
{
}

/// The epoch is to rotate exactly where a hundred thousand tickets or more were assigned under it.
pub proof fn law_rotation_is_due_at_its_limit(assignments: &Assignments, count: u64, due: bool)
    requires
        call_ensures(Assignments::admitted, (assignments,), count),
        call_ensures(Assignments::rotation_due, (assignments,), due),
    ensures
        due <==> count >= 100_000,
{
}

/// What the rotation of the epoch asks the account: the current epoch's number, then that epoch by
/// its number; and what it tells the account: the secret of the epoch that ends, and the commitment
/// to the secret of the one that begins.
pub proof fn law_rotation_speaks_of_its_epochs(
    stage: &EpochStage,
    viewed: Option<(&'static str, Vec<Felt>)>,
    told: Option<(&'static str, Vec<Felt>)>,
)
    requires
        call_ensures(EpochStage::view_call, (stage,), viewed),
        call_ensures(EpochStage::command, (stage,), told),
    ensures
        viewed is Some <==> *stage is ReadCurrent || *stage is ReadEpoch,
        told is Some <==> *stage is Publish || *stage is Open,
        *stage is ReadCurrent ==> (viewed->0).0@ == "current_randomness_epoch"@
            && (viewed->0).1@.len() == 0,
        *stage matches EpochStage::ReadEpoch { id } ==> (viewed->0).0@ == "get_randomness_epoch"@
            && (viewed->0).1@.len() == 1 && (viewed->0).1@[0]@ == id,
        *stage matches EpochStage::Publish { secret } ==> (told->0).0@ == "reveal_randomness_epoch"@
            && values((told->0).1@) == secret_reveal(secret@.secret),
        *stage matches EpochStage::Open { secret } ==> (told->0).0@ == "open_randomness_epoch"@
            && (told->0).1@.len() == 1 && (told->0).1@[0]@ == secret_commitment(secret@.secret),
{
    if viewed is Some {
        assert(values((viewed->0).1@).len() == (viewed->0).1@.len());
        if *stage is ReadEpoch {
            assert(values((viewed->0).1@)[0] == (viewed->0).1@[0]@);
        }
    }
    if told is Some {
        assert(values((told->0).1@).len() == (told->0).1@.len());
        if *stage is Open {
            assert(values((told->0).1@)[0] == (told->0).1@[0]@);
        }
    }
}

/// The epoch that a rotation opens has the number after the current one's, and is the first where
/// there is none. A current epoch that the chain holds as open ends first: its commitment is the
/// first element of the chain's view of it, and the second says that it is open.
pub proof fn law_rotation_opens_the_next_epoch(
    id: u64,
    current: EpochEvent,
    entry: EpochEvent,
    read: Result<EpochStage, ServiceError>,
    result: Result<EpochStage, ServiceError>,
)
    requires
        current matches EpochEvent::Values(fields) && fields@.len() == 1 && fields@[0]@ == id,
        id < u64::MAX,
        entry is Values,
        call_ensures(EpochStage::step, (EpochStage::ReadCurrent, current), read),
        read is Ok && read->Ok_0 is ReadEpoch ==> call_ensures(
            EpochStage::step,
            (read->Ok_0, entry),
            result,
        ),
    ensures
        id == 0 ==> read is Ok && read->Ok_0@ == (EpochStageView::Create { id: 1 }),
        id != 0 ==> read is Ok && read->Ok_0 == (EpochStage::ReadEpoch { id }),
        id != 0 && entry->Values_0@.len() < 2 ==> result is Err && result->Err_0
            == ServiceError::MalformedEpoch,
        id != 0 && entry->Values_0@.len() >= 2 && entry->Values_0@[1]@ == 1 ==> result is Ok
            && result->Ok_0 == (EpochStage::LoadSecret { id, commitment: entry->Values_0@[0] }),
        id != 0 && entry->Values_0@.len() >= 2 && entry->Values_0@[1]@ != 1 ==> result is Ok
            && result->Ok_0@ == (EpochStageView::Create { id: (id + 1) as u64 }),
{
}

/// A batch is launched exactly where none is in flight and either sixteen tickets wait or some wait
/// and their wait is over; it holds all that waited, in their order. The epoch rotates exactly where
/// it is to and nothing waits or flies.
pub proof fn law_dispatcher_launches_what_waits<T>(
    dispatcher: &mut Dispatcher<T>,
    deadline_passed: bool,
    rotation_due: bool,
    result: Dispatch<T>,
)
    requires
        call_ensures(Dispatcher::next, (dispatcher, deadline_passed, rotation_due), result),
    ensures
        ({
            let before = old(dispatcher)@;
            let after = final(dispatcher)@;
            let waiting = before.queue.len();
            &&& result is Launch <==> !before.flying && (waiting >= 16 || waiting > 0
                && deadline_passed)
            &&& result is Rotate <==> !before.flying && waiting == 0 && rotation_due
            &&& result is Launch ==> result->0@ == before.queue && after.queue.len() == 0
                && after.flying
            &&& !(result is Launch) ==> after == before
        }),
{
}

/// Requests are taken while fewer than sixteen tickets wait and the epoch is not to rotate; an
/// execution is waited for while one is under way, and more tickets while some wait and none is.
pub proof fn law_dispatcher_listens_for_room<T>(
    dispatcher: &Dispatcher<T>,
    rotation_due: bool,
    result: Listen,
)
    requires
        call_ensures(Dispatcher::listen, (dispatcher, rotation_due), result),
    ensures
        result.requests <==> dispatcher@.queue.len() < 16 && !rotation_due,
        result.flight <==> dispatcher@.flying,
        result.deadline <==> !dispatcher@.flying && dispatcher@.queue.len() != 0,
{
}

/// A queued ticket waits behind all others, and the wait begins with the first.
pub proof fn law_dispatcher_queues_in_order<T>(
    dispatcher: &mut Dispatcher<T>,
    ticket: T,
    first: bool,
)
    requires
        old(dispatcher)@.queue.len() < 16,
        call_ensures(Dispatcher::queue, (dispatcher, ticket), first),
    ensures
        final(dispatcher)@.queue.len() == old(dispatcher)@.queue.len() + 1,
        final(dispatcher)@.queue.last() == ticket,
        final(dispatcher)@.queue.drop_last() == old(dispatcher)@.queue,
        final(dispatcher)@.flying == old(dispatcher)@.flying,
        first <==> final(dispatcher)@.queue.len() == 1,
{
    assert(final(dispatcher)@.queue.drop_last() =~= old(dispatcher)@.queue);
}

/// Assignments start under their epoch with no ticket counted and no game's order known, so that every
/// game goes on behind its recorded head.
pub proof fn law_assignments_start_behind_the_heads(
    epoch: GameEpoch,
    assignments: &Assignments,
    fields: &[Felt],
    intent: &Intent,
    admitted: Result<Admission, ServiceError>,
    opened: &GameEpoch,
)
    requires
        call_ensures(Assignments::start, (epoch,), *assignments),
        call_ensures(Assignments::epoch, (assignments,), opened),
        call_ensures(Assignments::admission, (assignments, fields, intent), admitted),
    ensures
        opened@ == epoch@,
        assignments@.admitted == 0,
        admitted is Ok ==> admitted->Ok_0.order == fields@[3]@ && admitted->Ok_0.execution_config
            == fields@[1] && admitted->Ok_0.observed_time == fields@[4],
{
}

/// The retained secret of an epoch that the chain holds open is revealed exactly where it has that
/// epoch's number and commitment. Once it is, a secret is filled for the next number, retained as it
/// was filled, committed to as it was retained and opened as it was committed to. A command that the
/// chain does not take, another secret and a source that failed each end the rotation for their own
/// reason.
pub proof fn law_rotation_goes_from_reveal_to_opening(
    id: u64,
    commitment: Felt,
    secret: GameEpoch,
    committed: Felt,
    number: u64,
    filled: Result<[u8; 32], crate::ticket::EntropyError>,
    fresh: Result<GameEpoch, EpochError>,
    taken: bool,
    loaded: Result<EpochStage, ServiceError>,
    revealed: Result<EpochStage, ServiceError>,
    created: Result<EpochStage, ServiceError>,
    retained: Result<EpochStage, ServiceError>,
    opened: Result<EpochStage, ServiceError>,
)
    requires
        id < u64::MAX,
        secret@.epoch < u64::MAX,
        call_ensures(GameEpoch::epoch, (&secret,), number),
        call_ensures(GameEpoch::commitment, (&secret,), committed),
        call_ensures(GameEpoch::create_with, (id, filled), fresh),
        call_ensures(
            EpochStage::step,
            (EpochStage::LoadSecret { id, commitment }, EpochEvent::Loaded(secret)),
            loaded,
        ),
        call_ensures(
            EpochStage::step,
            (EpochStage::Publish { secret }, EpochEvent::Commanded(taken)),
            revealed,
        ),
        call_ensures(
            EpochStage::step,
            (EpochStage::Create { id }, EpochEvent::Filled(filled)),
            created,
        ),
        call_ensures(
            EpochStage::step,
            (EpochStage::Retain { secret }, EpochEvent::Retained),
            retained,
        ),
        call_ensures(
            EpochStage::step,
            (EpochStage::Open { secret }, EpochEvent::Commanded(taken)),
            opened,
        ),
    ensures
        number == id && committed == commitment ==> loaded is Ok && loaded->Ok_0@ == (
        EpochStageView::Publish { secret: secret@ }),
        number != id || committed != commitment ==> loaded is Err && loaded->Err_0
            == ServiceError::SecretMismatch,
        taken ==> revealed is Ok && revealed->Ok_0@ == (EpochStageView::Create {
            id: (number + 1) as u64,
        }),
        !taken ==> revealed is Err && revealed->Err_0 == ServiceError::TransitionFailed,
        fresh is Ok ==> created is Ok && created->Ok_0@ == (EpochStageView::Retain {
            secret: fresh->Ok_0@,
        }),
        fresh is Err ==> created is Err && created->Err_0 == ServiceError::Epoch(fresh->Err_0),
        retained is Ok && retained->Ok_0@ == (EpochStageView::Open { secret: secret@ }),
        taken ==> opened is Ok && opened->Ok_0@ == (EpochStageView::Done { secret: secret@ }),
        !taken ==> opened is Err && opened->Err_0 == ServiceError::TransitionFailed,
{
}

/// A client is told the order that its action was assigned, or the reason for which it has none.
pub proof fn law_client_is_told_order_or_reason(
    action: Felt,
    outcome: Result<u64, String>,
    told: ActionStatus,
)
    requires
        call_ensures(assignment_status, (action, outcome), told),
    ensures
        outcome is Ok ==> told@ == (ActionStatusView::Accepted { action, order: outcome->Ok_0 }),
        outcome is Err ==> told@ == (ActionStatusView::Refused { action, reason: outcome->Err_0@ }),
{
}

/// An execution that ended well leaves none under way and what waits as it is; one that failed is
/// handed on and changes nothing. A new dispatcher has nothing waiting and nothing under way.
pub proof fn law_dispatcher_lands_what_it_launched<T, E>(
    dispatcher: &mut Dispatcher<T>,
    outcome: Result<(), E>,
    result: Result<(), E>,
    fresh: Dispatcher<T>,
)
    requires
        call_ensures(Dispatcher::landed, (dispatcher, outcome), result),
        call_ensures(Dispatcher::<T>::new, (), fresh),
    ensures
        result == outcome,
        final(dispatcher)@.queue == old(dispatcher)@.queue,
        outcome is Ok ==> !final(dispatcher)@.flying,
        outcome is Err ==> final(dispatcher)@.flying == old(dispatcher)@.flying,
        fresh@.queue.len() == 0 && !fresh@.flying,
{
}

/// The service's errors are told in words of their own.
pub proof fn law_service_errors_have_their_words(error: &ServiceError, words: &'static str)
    requires
        call_ensures(ServiceError::message, (error,), words),
    ensures
        *error is WrongTarget ==> words@ == "intent targets another chain or deployment"@,
        *error is RateExceeded ==> words@ == "request rate exceeded"@,
        *error is MalformedAdmission ==> words@ == "malformed admission view"@,
        *error is Value ==> words@ == "Failed to convert `Felt` into primitive type"@,
        *error is InvalidSignature ==> words@ == "invalid player signature"@,
        *error is StaleNonce ==> words@
            == "actor nonce is not current; no matching action in reconnect history"@,
        *error is Conflict ==> words@ == "409 Conflict"@,
        *error is Unavailable ==> words@ == "game admission is unavailable"@,
        *error is QueueFull ==> words@ == "game admission queue is full or unavailable"@,
        *error is AdmissionChanged ==> words@ == "admission state changed"@,
        *error is Expired ==> words@ == "intent expired before acceptance"@,
        *error is MalformedCurrentEpoch ==> words@ == "malformed current epoch"@,
        *error is MalformedEpoch ==> words@ == "malformed randomness epoch"@,
        *error is SecretMismatch ==> words@ == "epoch secret does not match chain commitment"@,
        *error is TransitionFailed ==> words@ == "randomness epoch transition failed"@,
{
}

/// An error that comes from a part is told in the part's words.
pub proof fn law_service_errors_keep_the_words_of_their_parts(
    form: ProtocolError,
    form_words: (&'static str, &'static str),
    epoch: EpochError,
    epoch_words: (&'static str, &'static str),
)
    requires
        call_ensures(ProtocolError::message, (&form,), form_words.0),
        call_ensures(ServiceError::message, (&ServiceError::Protocol(form),), form_words.1),
        call_ensures(EpochError::message, (&epoch,), epoch_words.0),
        call_ensures(ServiceError::message, (&ServiceError::Epoch(epoch),), epoch_words.1),
    ensures
        form_words.1@ == form_words.0@,
        epoch_words.1@ == epoch_words.0@,
{
}

/// An answer that an admission does not wait for changes nothing.
pub proof fn law_unawaited_answers_leave_an_admission(
    stage: AdmitStage,
    event: &AdmitEvent,
    nonce: u64,
    result: Result<AdmitStage, ServiceError>,
)
    requires
        call_ensures(admit_step, (stage, event, nonce), result),
        !(stage is AskBudget && *event is Budget),
        !(stage is ReadAdmission && *event is Admission),
        !(stage is CheckSignature && *event is Signed),
        !(stage is ReadHistory && *event is History),
        !(stage is Reserve && *event is Slot),
        !(stage is Enqueue && *event is Queued),
    ensures
        result == Ok::<AdmitStage, ServiceError>(stage),
{
}

/// An event that a rotation does not wait for changes nothing.
pub proof fn law_unawaited_events_leave_an_epoch_rotation(
    stage: EpochStage,
    event: EpochEvent,
    result: Result<EpochStage, ServiceError>,
)
    requires
        stage@.valid(),
        call_ensures(EpochStage::step, (stage, event), result),
        !((stage is ReadCurrent || stage is ReadEpoch) && event is Values),
        !(stage is LoadSecret && event is Loaded),
        !((stage is Publish || stage is Open) && event is Commanded),
        !(stage is Create && event is Filled),
        !(stage is Retain && event is Retained),
    ensures
        result is Ok,
        result->Ok_0@ == stage@,
{
}

/// The current epoch's number must be alone in its view and a number of sixty-four bits.
pub proof fn law_current_epoch_is_one_number(
    current: EpochEvent,
    result: Result<EpochStage, ServiceError>,
)
    requires
        current is Values,
        call_ensures(EpochStage::step, (EpochStage::ReadCurrent, current), result),
    ensures
        current->Values_0@.len() != 1 ==> result is Err && result->Err_0
            == ServiceError::MalformedCurrentEpoch,
        current->Values_0@.len() == 1 && current->Values_0@[0]@ > u64::MAX ==> result is Err
            && result->Err_0 == ServiceError::Value,
{
}

/// A request that holds no intent is refused for what is wrong with its form.
pub proof fn law_request_is_refused_for_its_form(
    request: &ActionRequest,
    fields: &[Felt],
    chain: Felt,
    deployment: Felt,
    read: Result<Intent, ProtocolError>,
    result: Result<Intent, ServiceError>,
)
    requires
        fields@ == request.intent@,
        call_ensures(Intent::decode, (fields,), read),
        call_ensures(ActionRequest::decode, (request, chain, deployment), result),
    ensures
        read is Err ==> result is Err && result->Err_0 == ServiceError::Protocol(read->Err_0),
        read is Ok && result is Err ==> result->Err_0 == ServiceError::WrongTarget,
        read is Ok && result is Ok ==> result->Ok_0@ == read->Ok_0@,
{
    if read is Ok && result is Ok {
        law_intent_form_is_unique(read->Ok_0@, result->Ok_0@);
    }
}

/// An admission view of another length than five is malformed. An observed time that is no number of
/// sixty-four bits is refused before all else, and an intent without a form behind all else.
pub proof fn law_acceptance_is_refused_for_its_first_fault(
    assignments: &Assignments,
    fields: &[Felt],
    admission: Admission,
    timestamp: u64,
    intent: &Intent,
    signature: &[Felt],
    fits: bool,
    admitted: Result<Admission, ServiceError>,
    result: Result<RecordedTicket, ServiceError>,
)
    requires
        call_ensures(Assignments::admission, (assignments, fields, intent), admitted),
        call_ensures(context_matches, (intent, admission.order, timestamp), fits),
        call_ensures(
            Assignments::accept,
            (assignments, admission, timestamp, intent, signature),
            result,
        ),
    ensures
        fields@.len() != 5 <==> admitted == Err::<Admission, ServiceError>(
            ServiceError::MalformedAdmission,
        ),
        admission.observed_time@ > u64::MAX ==> result is Err && result->Err_0
            == ServiceError::Value,
        admission.observed_time@ <= u64::MAX && !(fits && admission.observed_time@
            <= intent.valid_until) ==> result is Err && result->Err_0 == ServiceError::Expired,
        fits && admission.observed_time@ <= intent.valid_until && intent.arguments@.len()
            > u32::MAX ==> result is Err && result->Err_0 == ServiceError::Protocol(
            ProtocolError::Length,
        ),
        fits && admission.observed_time@ <= intent.valid_until && intent.arguments@.len()
            <= u32::MAX ==> result is Ok,
{
}

} // verus!
