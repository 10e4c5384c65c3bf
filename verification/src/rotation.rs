//! Rotation of an actor's gameplay key. Only a single-call rotation that the actor's binding
//! authority signed is admitted, and admission stays fenced until a retained one has a receipt.

use crate::felt::{values, Felt};
use crate::invoke::{hash_fields, invoke_hash, sdk_hash};
use crate::json::{json_layer, parse_json};
use crate::slices::copy_felts;
use crate::stark::{known_selector, selector, signature_valid, verify_signature};
use starknet_core::types::{
    BroadcastedInvokeTransactionV3 as SdkTransaction, DataAvailabilityMode as SdkMode,
};
use starknet_providers::jsonrpc::{HttpTransport, JsonRpcClient};
use starknet_types_core::felt::Felt as SdkFelt;
use vstd::prelude::*;

verus! {

broadcast use crate::felt::lemma_felt_injective;

/// The bounds on one resource of a transaction.
#[derive(Clone, Copy, Debug, PartialEq, Eq, Structural)]
pub struct ResourceBounds {
    pub max_amount: u64,
    pub max_price_per_unit: u128,
}

/// The bounds on a transaction's resources.
#[derive(Clone, Copy, Debug, PartialEq, Eq, Structural)]
pub struct ResourceBoundsMapping {
    pub l1_gas: ResourceBounds,
    pub l1_data_gas: ResourceBounds,
    pub l2_gas: ResourceBounds,
}

/// Where a transaction's nonce or fee data is available.
#[derive(Clone, Copy, Debug, PartialEq, Eq, Structural)]
pub enum DataAvailabilityMode {
    L1,
    L2,
}

/// An invoke transaction that is to rotate a key.
#[derive(Debug, PartialEq, Eq)]
pub struct RotationTransaction {
    pub sender_address: Felt,
    pub calldata: Vec<Felt>,
    pub signature: Vec<Felt>,
    pub nonce: Felt,
    pub resource_bounds: ResourceBoundsMapping,
    pub tip: u64,
    pub paymaster_data: Vec<Felt>,
    pub account_deployment_data: Vec<Felt>,
    pub nonce_data_availability_mode: DataAvailabilityMode,
    pub fee_data_availability_mode: DataAvailabilityMode,
    pub is_query: bool,
    pub has_proof: bool,
    pub has_proof_facts: bool,
}

/// The fields of a [`RotationTransaction`].
#[verifier::ext_equal]
pub struct TransactionView {
    pub sender_address: Felt,
    pub calldata: Seq<Felt>,
    pub signature: Seq<Felt>,
    pub nonce: Felt,
    pub resource_bounds: ResourceBoundsMapping,
    pub tip: u64,
    pub paymaster_data: Seq<Felt>,
    pub account_deployment_data: Seq<Felt>,
    pub nonce_data_availability_mode: DataAvailabilityMode,
    pub fee_data_availability_mode: DataAvailabilityMode,
    pub is_query: bool,
    pub has_proof: bool,
    pub has_proof_facts: bool,
}

impl View for RotationTransaction {
    type V = TransactionView;

    open spec fn view(&self) -> TransactionView {
        TransactionView {
            sender_address: self.sender_address,
            calldata: self.calldata@,
            signature: self.signature@,
            nonce: self.nonce,
            resource_bounds: self.resource_bounds,
            tip: self.tip,
            paymaster_data: self.paymaster_data@,
            account_deployment_data: self.account_deployment_data@,
            nonce_data_availability_mode: self.nonce_data_availability_mode,
            fee_data_availability_mode: self.fee_data_availability_mode,
            is_query: self.is_query,
            has_proof: self.has_proof,
            has_proof_facts: self.has_proof_facts,
        }
    }
}

/// Why a key is not rotated.
#[derive(Clone, Copy, Debug, PartialEq, Eq, Structural)]
pub enum RotationError {
    /// The transaction carries what a rotation does not.
    Unsupported,
    /// The transaction does not make exactly one call.
    NotOneCall,
    /// The call rotates no key.
    InvalidCall,
    /// The authentication configuration has the wrong number of elements.
    MalformedAuthentication,
    /// The actor does not run the approved account class.
    UnapprovedAccount,
    /// The registry's view of the owner has the wrong number of elements.
    MalformedOwner,
    /// The registry's view of the account has the wrong number of elements.
    MalformedAccount,
    /// The registry does not hold the actor.
    UnregisteredAccount,
    /// The actor's view of its authority has the wrong number of elements.
    MalformedAuthority,
    /// The transaction was sent by another account than the actor's authority.
    WrongAuthority,
    /// The authority's view of its key has the wrong number of elements.
    MalformedKey,
    /// The authority did not sign the transaction.
    InvalidSignature,
    /// The authority's nonce is another one.
    StaleNonce,
    /// The simulated rotation reverted.
    SimulationReverted,
    /// The simulation traced another kind of transaction.
    UnexpectedTrace,
    /// The retained transaction has another hash than the retained one.
    RetainedHash,
    /// The receipt belongs to another transaction.
    ReceiptHash,
    /// The node took the transaction under another hash.
    SubmissionHash,
}

/// A rotation error in words.
pub open spec fn rotation_error_text(error: RotationError) -> Seq<char> {
    match error {
        RotationError::Unsupported => "unsupported rotation transaction"@,
        RotationError::NotOneCall => "rotation must be one call"@,
        RotationError::InvalidCall => "invalid rotation call"@,
        RotationError::MalformedAuthentication => "malformed authentication configuration"@,
        RotationError::UnapprovedAccount => "unapproved gameplay account"@,
        RotationError::MalformedOwner => "malformed owner_of view"@,
        RotationError::MalformedAccount => "malformed account_of view"@,
        RotationError::UnregisteredAccount => "unregistered gameplay account"@,
        RotationError::MalformedAuthority => "malformed binding_authority view"@,
        RotationError::WrongAuthority => "wrong binding authority"@,
        RotationError::MalformedKey => "malformed get_public_key view"@,
        RotationError::InvalidSignature => "invalid binding authority signature"@,
        RotationError::StaleNonce => "stale binding authority nonce"@,
        RotationError::SimulationReverted => "key rotation simulation reverted"@,
        RotationError::UnexpectedTrace => "unexpected rotation simulation trace"@,
        RotationError::RetainedHash => "retained rotation hash mismatch"@,
        RotationError::ReceiptHash => "rotation receipt hash mismatch"@,
        RotationError::SubmissionHash => "rotation submission hash mismatch"@,
    }
}

impl RotationError {
    /// The error in words.
    pub fn message(&self) -> (result: &'static str)
        ensures
            result@ == rotation_error_text(*self),
    {
        match self {
            RotationError::Unsupported => "unsupported rotation transaction",
            RotationError::NotOneCall => "rotation must be one call",
            RotationError::InvalidCall => "invalid rotation call",
            RotationError::MalformedAuthentication => "malformed authentication configuration",
            RotationError::UnapprovedAccount => "unapproved gameplay account",
            RotationError::MalformedOwner => "malformed owner_of view",
            RotationError::MalformedAccount => "malformed account_of view",
            RotationError::UnregisteredAccount => "unregistered gameplay account",
            RotationError::MalformedAuthority => "malformed binding_authority view",
            RotationError::WrongAuthority => "wrong binding authority",
            RotationError::MalformedKey => "malformed get_public_key view",
            RotationError::InvalidSignature => "invalid binding authority signature",
            RotationError::StaleNonce => "stale binding authority nonce",
            RotationError::SimulationReverted => "key rotation simulation reverted",
            RotationError::UnexpectedTrace => "unexpected rotation simulation trace",
            RotationError::RetainedHash => "retained rotation hash mismatch",
            RotationError::ReceiptHash => "rotation receipt hash mismatch",
            RotationError::SubmissionHash => "rotation submission hash mismatch",
        }
    }
}

/// The call that rotates a key.
#[derive(Clone, Copy, Debug, PartialEq, Eq, Structural)]
pub struct RotationCall {
    pub to: Felt,
    pub selector: Felt,
    pub key: Felt,
}

/// The elements of an account's calldata that rotates an actor's key.
pub open spec fn rotation_calldata(actor: nat, key: nat) -> Seq<nat> {
    seq![1, actor, selector("rotate_public_key"@), 1, key]
}

/// Whether calldata rotates the key of an actor to a key, neither of them zero.
pub open spec fn rotates(calldata: Seq<nat>) -> bool {
    &&& calldata.len() == 5
    &&& calldata == rotation_calldata(calldata[1], calldata[4])
    &&& calldata[1] != 0
    &&& calldata[4] != 0
}

/// The error that a transaction meets where it is no rotation.
pub open spec fn rotation_fault(transaction: TransactionView) -> Option<RotationError> {
    if transaction.is_query || transaction.has_proof || transaction.has_proof_facts
        || transaction.paymaster_data.len() != 0 || transaction.account_deployment_data.len()
        != 0 || transaction.nonce_data_availability_mode != DataAvailabilityMode::L1
        || transaction.fee_data_availability_mode != DataAvailabilityMode::L1
        || transaction.signature.len() != 2 {
        Some(RotationError::Unsupported)
    } else if transaction.calldata.len() != 5 {
        Some(RotationError::NotOneCall)
    } else if !rotates(values(transaction.calldata)) {
        Some(RotationError::InvalidCall)
    } else {
        None
    }
}

/// The selector of the function that rotates a key.
fn rotate_selector() -> (result: Felt)
    ensures
        result@ == selector("rotate_public_key"@),
{
    proof {
        reveal_strlit("rotate_public_key");
    }
    known_selector("rotate_public_key")
}

/// The call that calldata of five elements makes, where it rotates a key.
pub(crate) fn rotation_call(calldata: &[Felt]) -> (result: Option<RotationCall>)
    requires
        calldata@.len() == 5,
    ensures
        match result {
            Some(call) => rotates(values(calldata@)) && call == (RotationCall {
                to: calldata@[1],
                selector: calldata@[2],
                key: calldata@[4],
            }),
            None => !rotates(values(calldata@)),
        },
{
    let ghost fields = values(calldata@);
    assert forall|i: int| 0 <= i < 5 implies #[trigger] fields[i] == calldata@[i]@ by {}
    let (one, zero) = (Felt::one(), Felt::zero());
    if calldata[0] == one && calldata[3] == one && calldata[1] != zero && calldata[4] != zero
        && calldata[2] == rotate_selector() {
        assert(fields =~= rotation_calldata(fields[1], fields[4]));
        return Some(RotationCall { to: calldata[1], selector: calldata[2], key: calldata[4] });
    }
    proof {
        if rotates(fields) {
            let form = rotation_calldata(fields[1], fields[4]);
            assert(fields[0] == form[0] && fields[2] == form[2] && fields[3] == form[3]);
        }
    }
    None
}

/// The values that a rotation's hash is computed from.
pub open spec fn rotation_fields(transaction: TransactionView, chain: Felt) -> Seq<nat> {
    let bounds = transaction.resource_bounds;
    seq![
        chain@,
        transaction.sender_address@,
        transaction.nonce@,
        transaction.calldata[1]@,
        transaction.calldata[2]@,
        transaction.tip as nat,
        bounds.l1_gas.max_amount as nat,
        bounds.l1_gas.max_price_per_unit as nat,
        bounds.l2_gas.max_amount as nat,
        bounds.l2_gas.max_price_per_unit as nat,
        bounds.l1_data_gas.max_amount as nat,
        bounds.l1_data_gas.max_price_per_unit as nat,
        transaction.calldata[4]@,
    ]
}

impl RotationTransaction {
    /// The call that the transaction makes, where it is a rotation.
    pub fn call(&self) -> (result: Result<RotationCall, RotationError>)
        ensures
            match result {
                Ok(call) => rotation_fault(self@) is None && call == (RotationCall {
                    to: self.calldata@[1],
                    selector: self.calldata@[2],
                    key: self.calldata@[4],
                }),
                Err(error) => rotation_fault(self@) == Some(error),
            },
    {
        if self.is_query || self.has_proof || self.has_proof_facts || self.paymaster_data.len() != 0
            || self.account_deployment_data.len() != 0 || self.nonce_data_availability_mode
            != DataAvailabilityMode::L1 || self.fee_data_availability_mode
            != DataAvailabilityMode::L1 || self.signature.len() != 2 {
            return Err(RotationError::Unsupported);
        }
        if self.calldata.len() != 5 {
            return Err(RotationError::NotOneCall);
        }
        match rotation_call(&self.calldata) {
            Some(call) => Ok(call),
            None => Err(RotationError::InvalidCall),
        }
    }
}

/// The hash of a transaction that makes the given rotation call.
pub(crate) fn rotation_hash(
    rpc: &JsonRpcClient<HttpTransport>,
    chain: Felt,
    transaction: &RotationTransaction,
    call: RotationCall,
) -> (result: Felt)
    requires
        transaction.calldata@.len() == 5,
        call == (RotationCall {
            to: transaction.calldata@[1],
            selector: transaction.calldata@[2],
            key: transaction.calldata@[4],
        }),
    ensures
        result@ == invoke_hash(rotation_fields(transaction@, chain)),
{
    let bounds: ResourceBoundsMapping = transaction.resource_bounds;
    let felts: [Felt; 5] = [
        chain,
        transaction.sender_address,
        transaction.nonce,
        call.to,
        call.selector,
    ];
    let limits: [(u64, u128); 3] = [
        (bounds.l1_gas.max_amount, bounds.l1_gas.max_price_per_unit),
        (bounds.l2_gas.max_amount, bounds.l2_gas.max_price_per_unit),
        (bounds.l1_data_gas.max_amount, bounds.l1_data_gas.max_price_per_unit),
    ];
    let payload: [Felt; 1] = [call.key];
    assert(hash_fields(values(felts@), transaction.tip, limits@, values(payload@))
        =~= rotation_fields(transaction@, chain));
    sdk_hash(rpc, felts, transaction.tip, limits, &payload)
}

/// The call that a rotation makes and the hash that its authority signs.
pub fn decode(
    rpc: &JsonRpcClient<HttpTransport>,
    chain: Felt,
    transaction: &RotationTransaction,
) -> (result: Result<(RotationCall, Felt), RotationError>)
    ensures
        match result {
            Ok((call, hash)) => {
                &&& rotation_fault(transaction@) is None
                &&& call == (RotationCall {
                    to: transaction.calldata@[1],
                    selector: transaction.calldata@[2],
                    key: transaction.calldata@[4],
                })
                &&& hash@ == invoke_hash(rotation_fields(transaction@, chain))
            },
            Err(error) => rotation_fault(transaction@) == Some(error),
        },
{
    let call: RotationCall = transaction.call()?;
    let hash: Felt = rotation_hash(rpc, chain, transaction, call);
    Ok((call, hash))
}

/// A rotation whose authority is to be checked.
#[derive(Clone, Copy, Debug, PartialEq, Eq, Structural)]
pub struct Rotation {
    pub actor: Felt,
    pub authority: Felt,
    pub nonce: Felt,
    pub hash: Felt,
    pub r: Felt,
    pub s: Felt,
}

/// The rotation that a transaction with a hash asks for.
pub fn rotation_of(transaction: &RotationTransaction, hash: Felt) -> (result: Result<
    Rotation,
    RotationError,
>)
    ensures
        match result {
            Ok(rotation) => rotation_fault(transaction@) is None && rotation == (Rotation {
                actor: transaction.calldata@[1],
                authority: transaction.sender_address,
                nonce: transaction.nonce,
                hash,
                r: transaction.signature@[0],
                s: transaction.signature@[1],
            }),
            Err(error) => rotation_fault(transaction@) == Some(error),
        },
{
    let call: RotationCall = transaction.call()?;
    Ok(
        Rotation {
            actor: call.to,
            authority: transaction.sender_address,
            nonce: transaction.nonce,
            hash,
            r: transaction.signature[0],
            s: transaction.signature[1],
        },
    )
}

/// What is to be read to check a rotation's authority.
#[derive(Clone, Copy, Debug, PartialEq, Eq, Structural)]
pub enum AuthorityStage {
    /// The deployment's authentication configuration.
    ReadAuthentication,
    /// The class of the actor's account, which must be the approved one.
    ReadClass { registry: Felt, class: Felt },
    /// The actor's owner in the registry.
    ReadOwner { registry: Felt },
    /// The owner's account in the registry, which must be the actor.
    ReadAccount { registry: Felt, owner: Felt },
    /// The actor's binding authority, which must have sent the transaction.
    ReadAuthority,
    /// The authority's public key, under which the signature must be valid.
    ReadKey,
    /// The authority's nonce, which must be the transaction's.
    ReadNonce,
    /// Nothing: the authority is established.
    Authorized,
}

/// A view of a contract that is to be called.
#[derive(Debug, PartialEq, Eq)]
pub struct ViewCall {
    pub contract: Felt,
    pub entry_point: &'static str,
    pub calldata: Vec<Felt>,
}

/// Whether a call is the given one.
pub open spec fn calls(
    call: ViewCall,
    contract: Felt,
    entry_point: Seq<char>,
    calldata: Seq<Felt>,
) -> bool {
    call.contract == contract && call.entry_point@ == entry_point && call.calldata@ =~= calldata
}

impl AuthorityStage {
    /// The view that the stage reads, where it reads one: the deployment's configuration, the
    /// registry's entries, the actor's authority and the authority's key.
    pub fn view_call(&self, deployment: Felt, rotation: &Rotation) -> (result: Option<ViewCall>)
        ensures
            match *self {
                AuthorityStage::ReadAuthentication => result is Some && calls(
                    result->0,
                    deployment,
                    "authentication"@,
                    seq![],
                ),
                AuthorityStage::ReadOwner { registry } => result is Some && calls(
                    result->0,
                    registry,
                    "owner_of"@,
                    seq![rotation.actor],
                ),
                AuthorityStage::ReadAccount { registry, owner } => result is Some && calls(
                    result->0,
                    registry,
                    "account_of"@,
                    seq![owner],
                ),
                AuthorityStage::ReadAuthority => result is Some && calls(
                    result->0,
                    rotation.actor,
                    "binding_authority"@,
                    seq![],
                ),
                AuthorityStage::ReadKey => result is Some && calls(
                    result->0,
                    rotation.authority,
                    "get_public_key"@,
                    seq![],
                ),
                _ => result is None,
            },
    {
        match *self {
            AuthorityStage::ReadAuthentication => Some(
                ViewCall { contract: deployment, entry_point: "authentication", calldata: Vec::new() },
            ),
            AuthorityStage::ReadOwner { registry } => Some(
                ViewCall {
                    contract: registry,
                    entry_point: "owner_of",
                    calldata: vec![rotation.actor],
                },
            ),
            AuthorityStage::ReadAccount { registry, owner } => Some(
                ViewCall { contract: registry, entry_point: "account_of", calldata: vec![owner] },
            ),
            AuthorityStage::ReadAuthority => Some(
                ViewCall {
                    contract: rotation.actor,
                    entry_point: "binding_authority",
                    calldata: Vec::new(),
                },
            ),
            AuthorityStage::ReadKey => Some(
                ViewCall {
                    contract: rotation.authority,
                    entry_point: "get_public_key",
                    calldata: Vec::new(),
                },
            ),
            _ => None,
        }
    }
}

/// What was read while a rotation's authority was checked.
#[derive(Debug, PartialEq, Eq)]
pub enum AuthorityEvent {
    /// The elements that a view returned.
    Values(Vec<Felt>),
    /// The class of an account; one that is not deployed has none.
    Class(Option<Felt>),
    /// An account's nonce.
    Nonce(Felt),
}

/// What an event makes of the check of a rotation's authority. An event that the stage does not
/// wait for changes nothing.
pub open spec fn authority_next(
    stage: AuthorityStage,
    event: AuthorityEvent,
    rotation: Rotation,
) -> Result<AuthorityStage, RotationError> {
    match (stage, event) {
        (AuthorityStage::ReadAuthentication, AuthorityEvent::Values(fields)) => if fields@.len()
            != 3 {
            Err(RotationError::MalformedAuthentication)
        } else {
            Ok(AuthorityStage::ReadClass { registry: fields@[1], class: fields@[2] })
        },
        (AuthorityStage::ReadClass { registry, class }, AuthorityEvent::Class(found)) => if found
            == Some(class) {
            Ok(AuthorityStage::ReadOwner { registry })
        } else {
            Err(RotationError::UnapprovedAccount)
        },
        (AuthorityStage::ReadOwner { registry }, AuthorityEvent::Values(fields)) => if fields@.len()
            != 1 {
            Err(RotationError::MalformedOwner)
        } else if fields@[0]@ == 0 {
            Err(RotationError::UnregisteredAccount)
        } else {
            Ok(AuthorityStage::ReadAccount { registry, owner: fields@[0] })
        },
        (AuthorityStage::ReadAccount { .. }, AuthorityEvent::Values(fields)) => if fields@.len()
            != 1 {
            Err(RotationError::MalformedAccount)
        } else if fields@[0] != rotation.actor {
            Err(RotationError::UnregisteredAccount)
        } else {
            Ok(AuthorityStage::ReadAuthority)
        },
        (AuthorityStage::ReadAuthority, AuthorityEvent::Values(fields)) => if fields@.len() != 1 {
            Err(RotationError::MalformedAuthority)
        } else if fields@[0] != rotation.authority {
            Err(RotationError::WrongAuthority)
        } else {
            Ok(AuthorityStage::ReadKey)
        },
        (AuthorityStage::ReadKey, AuthorityEvent::Values(fields)) => if fields@.len() != 1 {
            Err(RotationError::MalformedKey)
        } else if !signature_valid(fields@[0]@, rotation.hash@, rotation.r@, rotation.s@) {
            Err(RotationError::InvalidSignature)
        } else {
            Ok(AuthorityStage::ReadNonce)
        },
        (AuthorityStage::ReadNonce, AuthorityEvent::Nonce(nonce)) => if nonce == rotation.nonce {
            Ok(AuthorityStage::Authorized)
        } else {
            Err(RotationError::StaleNonce)
        },
        _ => Ok(stage),
    }
}

/// Goes on with the check of a rotation's authority after an event.
pub fn authority_step(stage: AuthorityStage, event: &AuthorityEvent, rotation: &Rotation) -> (result:
    Result<AuthorityStage, RotationError>)
    ensures
        result == authority_next(stage, *event, *rotation),
{
    match (stage, event) {
        (AuthorityStage::ReadAuthentication, AuthorityEvent::Values(fields)) => {
            if fields.len() != 3 {
                return Err(RotationError::MalformedAuthentication);
            }
            Ok(AuthorityStage::ReadClass { registry: fields[1], class: fields[2] })
        },
        (AuthorityStage::ReadClass { registry, class }, AuthorityEvent::Class(found)) => {
            let approved: bool = match found {
                Some(found) => *found == class,
                None => false,
            };
            if !approved {
                return Err(RotationError::UnapprovedAccount);
            }
            Ok(AuthorityStage::ReadOwner { registry })
        },
        (AuthorityStage::ReadOwner { registry }, AuthorityEvent::Values(fields)) => {
            if fields.len() != 1 {
                return Err(RotationError::MalformedOwner);
            }
            if fields[0] == Felt::zero() {
                return Err(RotationError::UnregisteredAccount);
            }
            Ok(AuthorityStage::ReadAccount { registry, owner: fields[0] })
        },
        (AuthorityStage::ReadAccount { .. }, AuthorityEvent::Values(fields)) => {
            if fields.len() != 1 {
                return Err(RotationError::MalformedAccount);
            }
            if fields[0] != rotation.actor {
                return Err(RotationError::UnregisteredAccount);
            }
            Ok(AuthorityStage::ReadAuthority)
        },
        (AuthorityStage::ReadAuthority, AuthorityEvent::Values(fields)) => {
            if fields.len() != 1 {
                return Err(RotationError::MalformedAuthority);
            }
            if fields[0] != rotation.authority {
                return Err(RotationError::WrongAuthority);
            }
            Ok(AuthorityStage::ReadKey)
        },
        (AuthorityStage::ReadKey, AuthorityEvent::Values(fields)) => {
            if fields.len() != 1 {
                return Err(RotationError::MalformedKey);
            }
            if !verify_signature(fields[0], rotation.hash, rotation.r, rotation.s) {
                return Err(RotationError::InvalidSignature);
            }
            Ok(AuthorityStage::ReadNonce)
        },
        (AuthorityStage::ReadNonce, AuthorityEvent::Nonce(nonce)) => {
            if *nonce != rotation.nonce {
                return Err(RotationError::StaleNonce);
            }
            Ok(AuthorityStage::Authorized)
        },
        _ => Ok(stage),
    }
}

/// What the chain says of an actor and its authority.
#[verifier::ext_equal]
pub struct AuthorityFacts {
    pub authentication: Seq<Felt>,
    pub class: Option<Felt>,
    pub owner: Felt,
    pub account: Felt,
    pub authority: Felt,
    pub key: Felt,
    pub nonce: Felt,
}

/// Whether what the chain says of an actor establishes a rotation's authority.
pub open spec fn establishes(facts: AuthorityFacts, rotation: Rotation) -> bool {
    &&& facts.authentication.len() == 3
    &&& facts.class == Some(facts.authentication[2])
    &&& facts.owner@ != 0
    &&& facts.account == rotation.actor
    &&& facts.authority == rotation.authority
    &&& signature_valid(facts.key@, rotation.hash@, rotation.r@, rotation.s@)
    &&& facts.nonce == rotation.nonce
}

/// A rotation's authority is established only by an approved account that the registry holds, whose
/// binding authority sent and signed the transaction with its present nonce: if the events report
/// what the chain says, and the check ends in its last stage, what the chain says establishes it.
pub proof fn law_authority_is_established(
    facts: AuthorityFacts,
    events: Seq<AuthorityEvent>,
    rotation: Rotation,
)
    requires
        events.len() == 7,
        events[0] matches AuthorityEvent::Values(fields) && fields@ == facts.authentication,
        events[1] == AuthorityEvent::Class(facts.class),
        events[2] matches AuthorityEvent::Values(fields) && fields@ == seq![facts.owner],
        events[3] matches AuthorityEvent::Values(fields) && fields@ == seq![facts.account],
        events[4] matches AuthorityEvent::Values(fields) && fields@ == seq![facts.authority],
        events[5] matches AuthorityEvent::Values(fields) && fields@ == seq![facts.key],
        events[6] == AuthorityEvent::Nonce(facts.nonce),
    ensures
        (authority_run(events, rotation) == Ok::<AuthorityStage, RotationError>(
            AuthorityStage::Authorized,
        )) == establishes(facts, rotation),
{
    reveal_with_fuel(authority_run, 8);
    let all = events;
    assert(all.drop_last().last() == events[5]);
    assert(all.drop_last().drop_last().last() == events[4]);
    assert(all.drop_last().drop_last().drop_last().last() == events[3]);
    assert(all.drop_last().drop_last().drop_last().drop_last().last() == events[2]);
    assert(all.drop_last().drop_last().drop_last().drop_last().drop_last().last() == events[1]);
    assert(all.drop_last().drop_last().drop_last().drop_last().drop_last().drop_last().last()
        == events[0]);
}

/// What a sequence of events makes of the check of a rotation's authority.
pub open spec fn authority_run(events: Seq<AuthorityEvent>, rotation: Rotation) -> Result<
    AuthorityStage,
    RotationError,
>
    decreases events.len(),
{
    if events.len() == 0 {
        Ok(AuthorityStage::ReadAuthentication)
    } else {
        match authority_run(events.drop_last(), rotation) {
            Ok(stage) => authority_next(stage, events.last(), rotation),
            Err(error) => Err(error),
        }
    }
}

/// How the simulation of a transaction ended.
#[derive(Clone, Copy, Debug, PartialEq, Eq, Structural)]
pub enum Simulation {
    /// An invoke transaction was traced.
    Invoke { reverted: bool },
    /// Another kind of transaction was traced.
    Other,
}

/// Whether a simulated rotation may be submitted.
pub fn check_simulation(simulation: Simulation) -> (result: Result<(), RotationError>)
    ensures
        result == (match simulation {
            Simulation::Invoke { reverted } => if reverted {
                Err::<(), RotationError>(RotationError::SimulationReverted)
            } else {
                Ok(())
            },
            Simulation::Other => Err(RotationError::UnexpectedTrace),
        }),
{
    match simulation {
        Simulation::Invoke { reverted } => if reverted {
            Err(RotationError::SimulationReverted)
        } else {
            Ok(())
        },
        Simulation::Other => Err(RotationError::UnexpectedTrace),
    }
}

/// What a retained invoke transaction of version three holds: its account and nonce; its calldata,
/// signature, paymaster data and account deployment data; the tip; the amount and price of the L1
/// gas, the L2 gas and the L1 data gas; whether the nonce's and the fee's data are available on L2;
/// and whether it only asks.
pub struct RetainedFields {
    pub felts: [Felt; 2],
    pub lists: [Vec<Felt>; 4],
    pub tip: u64,
    pub bounds: [(u64, u128); 3],
    pub on_l2: [bool; 2],
    pub is_query: bool,
}

/// The bounds on one resource.
pub open spec fn bounds_of(bounds: (u64, u128)) -> ResourceBounds {
    ResourceBounds { max_amount: bounds.0, max_price_per_unit: bounds.1 }
}

/// Where data is available.
pub open spec fn mode_of(on_l2: bool) -> DataAvailabilityMode {
    if on_l2 {
        DataAvailabilityMode::L2
    } else {
        DataAvailabilityMode::L1
    }
}

impl View for RetainedFields {
    type V = TransactionView;

    /// The transaction that the fields make, without the proofs that it may carry.
    open spec fn view(&self) -> TransactionView {
        TransactionView {
            sender_address: self.felts@[0],
            calldata: self.lists@[0]@,
            signature: self.lists@[1]@,
            nonce: self.felts@[1],
            resource_bounds: ResourceBoundsMapping {
                l1_gas: bounds_of(self.bounds@[0]),
                l1_data_gas: bounds_of(self.bounds@[2]),
                l2_gas: bounds_of(self.bounds@[1]),
            },
            tip: self.tip,
            paymaster_data: self.lists@[2]@,
            account_deployment_data: self.lists@[3]@,
            nonce_data_availability_mode: mode_of(self.on_l2@[0]),
            fee_data_availability_mode: mode_of(self.on_l2@[1]),
            is_query: self.is_query,
            has_proof: false,
            has_proof_facts: false,
        }
    }
}

/// The transaction that bytes hold as JSON, without the proofs that it may carry, or the words in which
/// the bytes are refused.
pub uninterp spec fn transaction_fields(bytes: Seq<u8>) -> Result<TransactionView, Seq<char>>;

/// Calls `from_slice` of `serde_json` for the `BroadcastedInvokeTransactionV3` of `starknet-core`,
/// which passes over proofs. What comes back depends on the bytes alone.
#[verifier::external_body]
fn read_fields(bytes: &[u8]) -> (result: Result<RetainedFields, String>)
    ensures
        match result {
            Ok(fields) => transaction_fields(bytes@) == Ok::<TransactionView, Seq<char>>(fields@),
            Err(words) => transaction_fields(bytes@) == Err::<TransactionView, Seq<char>>(words@),
        },
{
    let t: SdkTransaction = serde_json::from_slice(bytes).map_err(|error| error.to_string())?;
    let own = |f: &SdkFelt| Felt::from_be_bytes(&f.to_bytes_be()).unwrap();
    let bounds = [t.resource_bounds.l1_gas, t.resource_bounds.l2_gas, t.resource_bounds.l1_data_gas];
    Ok(RetainedFields {
        felts: [&t.sender_address, &t.nonce].map(own),
        lists: [t.calldata, t.signature, t.paymaster_data, t.account_deployment_data]
            .map(|list| list.iter().map(own).collect()),
        tip: t.tip,
        bounds: bounds.map(|bound| (bound.max_amount, bound.max_price_per_unit)),
        on_l2: [t.nonce_data_availability_mode, t.fee_data_availability_mode].map(|mode| matches!(mode, SdkMode::L2)),
        is_query: t.is_query,
    })
}

/// The bounds on one resource.
fn make_bounds(bounds: (u64, u128)) -> (result: ResourceBounds)
    ensures
        result == bounds_of(bounds),
{
    ResourceBounds { max_amount: bounds.0, max_price_per_unit: bounds.1 }
}

/// Where data is available.
fn make_mode(on_l2: bool) -> (result: DataAvailabilityMode)
    ensures
        result == mode_of(on_l2),
{
    if on_l2 {
        DataAvailabilityMode::L2
    } else {
        DataAvailabilityMode::L1
    }
}

impl RetainedFields {
    /// The transaction that the fields make, with or without proofs and their facts.
    fn transaction(&self, has_proof: bool, has_proof_facts: bool) -> (result: RotationTransaction)
        ensures
            result@ == (TransactionView { has_proof, has_proof_facts, ..self@ }),
    {
        RotationTransaction {
            sender_address: self.felts[0],
            calldata: copy_felts(&self.lists[0]),
            signature: copy_felts(&self.lists[1]),
            nonce: self.felts[1],
            resource_bounds: ResourceBoundsMapping {
                l1_gas: make_bounds(self.bounds[0]),
                l1_data_gas: make_bounds(self.bounds[2]),
                l2_gas: make_bounds(self.bounds[1]),
            },
            tip: self.tip,
            paymaster_data: copy_felts(&self.lists[2]),
            account_deployment_data: copy_felts(&self.lists[3]),
            nonce_data_availability_mode: make_mode(self.on_l2[0]),
            fee_data_availability_mode: make_mode(self.on_l2[1]),
            is_query: self.is_query,
            has_proof,
            has_proof_facts,
        }
    }
}

/// The transaction that bytes hold as JSON, or the words in which they are refused. It carries a proof
/// or facts of one where the document holds them.
pub open spec fn retained_transaction(bytes: Seq<u8>) -> Result<TransactionView, Seq<char>> {
    match (transaction_fields(bytes), json_layer(bytes)) {
        (Err(words), _) => Err(words),
        (_, Err(words)) => Err(words),
        (Ok(fields), Ok(document)) => Ok(
            TransactionView {
                has_proof: document.holds("proof"@),
                has_proof_facts: document.holds("proof_facts"@),
                ..fields
            },
        ),
    }
}

/// The transaction that bytes hold as JSON, or the words in which they are refused.
pub fn read_transaction(bytes: &[u8]) -> (result: Result<RotationTransaction, String>)
    ensures
        match result {
            Ok(transaction) => retained_transaction(bytes@) == Ok::<TransactionView, Seq<char>>(
                transaction@,
            ),
            Err(words) => retained_transaction(bytes@) == Err::<TransactionView, Seq<char>>(words@),
        },
{
    let fields: RetainedFields = match read_fields(bytes) {
        Ok(fields) => fields,
        Err(words) => {
            return Err(words);
        },
    };
    match parse_json(bytes) {
        Ok(document) => Ok(
            fields.transaction(document.holds("proof"), document.holds("proof_facts")),
        ),
        Err(words) => Err(words),
    }
}

/// Why a retained rotation cannot be resumed.
#[derive(Debug, PartialEq, Eq)]
pub enum RetainedError {
    /// The bytes hold no transaction, for the given reason.
    Malformed(String),
    /// The transaction is no rotation, or not the one whose hash was retained.
    Rotation(RotationError),
}

/// The contents of a [`RetainedError`].
#[verifier::ext_equal]
pub enum RetainedErrorView {
    Malformed(Seq<char>),
    Rotation(RotationError),
}

impl View for RetainedError {
    type V = RetainedErrorView;

    open spec fn view(&self) -> RetainedErrorView {
        match *self {
            RetainedError::Malformed(words) => RetainedErrorView::Malformed(words@),
            RetainedError::Rotation(error) => RetainedErrorView::Rotation(error),
        }
    }
}

impl RetainedError {
    /// The error in words.
    pub fn message(&self) -> (result: String)
        ensures
            result@ == (match self@ {
                RetainedErrorView::Malformed(words) => words,
                RetainedErrorView::Rotation(error) => rotation_error_text(error),
            }),
    {
        match self {
            RetainedError::Malformed(words) => words.clone(),
            RetainedError::Rotation(error) => error.message().to_owned(),
        }
    }
}

/// What a parsed transaction, or the words in which its bytes are refused, makes of the retained
/// rotation with a hash.
pub open spec fn retained_result(
    parsed: Result<TransactionView, Seq<char>>,
    chain: Felt,
    hash: Felt,
) -> Result<TransactionView, RetainedErrorView> {
    match parsed {
        Err(words) => Err(RetainedErrorView::Malformed(words)),
        Ok(transaction) => if rotation_fault(transaction) is Some {
            Err(RetainedErrorView::Rotation(rotation_fault(transaction)->0))
        } else if invoke_hash(rotation_fields(transaction, chain)) != hash@ {
            Err(RetainedErrorView::Rotation(RotationError::RetainedHash))
        } else {
            Ok(transaction)
        },
    }
}

/// A retained rotation by its fields, where there is one.
pub open spec fn resumed_view(result: Result<RotationTransaction, RetainedError>) -> Result<
    TransactionView,
    RetainedErrorView,
> {
    match result {
        Ok(transaction) => Ok(transaction@),
        Err(error) => Err(error@),
    }
}

/// Checks that a transaction is a rotation and the one whose hash was retained.
pub fn check_retained(
    rpc: &JsonRpcClient<HttpTransport>,
    chain: Felt,
    transaction: RotationTransaction,
    hash: Felt,
) -> (result: Result<RotationTransaction, RetainedError>)
    ensures
        resumed_view(result) == retained_result(Ok(transaction@), chain, hash),
{
    let (_, computed) = match decode(rpc, chain, &transaction) {
        Ok(decoded) => decoded,
        Err(error) => {
            return Err(RetainedError::Rotation(error));
        },
    };
    if computed != hash {
        return Err(RetainedError::Rotation(RotationError::RetainedHash));
    }
    Ok(transaction)
}

/// The rotation that retained bytes hold, which must be the one whose hash was retained.
pub fn retained_rotation(
    rpc: &JsonRpcClient<HttpTransport>,
    chain: Felt,
    bytes: &[u8],
    hash: Felt,
) -> (result: Result<RotationTransaction, RetainedError>)
    ensures
        resumed_view(result) == retained_result(retained_transaction(bytes@), chain, hash),
{
    match read_transaction(bytes) {
        Ok(transaction) => check_retained(rpc, chain, transaction, hash),
        Err(words) => Err(RetainedError::Malformed(words)),
    }
}

/// A retained rotation that is resumed is the one whose hash was retained: its authority signed that
/// hash, and no other transaction is submitted in its place.
pub proof fn law_only_the_retained_rotation_is_resumed(
    parsed: Result<TransactionView, Seq<char>>,
    chain: Felt,
    hash: Felt,
)
    requires
        retained_result(parsed, chain, hash) is Ok,
    ensures
        parsed == Ok::<TransactionView, Seq<char>>(retained_result(parsed, chain, hash)->Ok_0),
        rotation_fault(parsed->Ok_0) is None,
        invoke_hash(rotation_fields(parsed->Ok_0, chain)) == hash@,
{
}

/// Where a retained rotation stands.
#[derive(Clone, Copy, Debug, PartialEq, Eq, Structural)]
pub enum ResumeStage {
    /// The receipt is to be read.
    ReadReceipt,
    /// The chain does not know the transaction: it is to be submitted.
    Submit,
    /// Some time is to pass before the receipt is read again.
    Wait,
    /// The transaction has a receipt; admission is no longer fenced.
    Done { succeeded: bool },
}

/// What was observed while a retained rotation was resolved.
#[derive(Clone, Copy, Debug, PartialEq, Eq, Structural)]
pub enum ResumeEvent {
    /// A receipt.
    Receipt { hash: Felt, reverted: bool },
    /// The chain does not know the transaction.
    NotFound,
    /// The receipt could not be read.
    Unavailable,
    /// The node took a transaction with the given hash.
    Submitted(Felt),
    /// The submission failed, perhaps after the node took the transaction.
    Unresolved,
    /// Some time passed.
    Elapsed,
}

/// What an event makes of a retained rotation. An event that the stage does not wait for changes
/// nothing.
pub open spec fn resume_next(stage: ResumeStage, event: ResumeEvent, retained: Felt) -> Result<
    ResumeStage,
    RotationError,
> {
    match (stage, event) {
        (ResumeStage::ReadReceipt, ResumeEvent::Receipt { hash, reverted }) => if hash
            == retained {
            Ok(ResumeStage::Done { succeeded: !reverted })
        } else {
            Err(RotationError::ReceiptHash)
        },
        (ResumeStage::ReadReceipt, ResumeEvent::NotFound) => Ok(ResumeStage::Submit),
        (ResumeStage::ReadReceipt, ResumeEvent::Unavailable) => Ok(ResumeStage::Wait),
        (ResumeStage::Submit, ResumeEvent::Submitted(hash)) => if hash == retained {
            Ok(ResumeStage::Wait)
        } else {
            Err(RotationError::SubmissionHash)
        },
        (ResumeStage::Submit, ResumeEvent::Unresolved) => Ok(ResumeStage::Wait),
        (ResumeStage::Wait, ResumeEvent::Elapsed) => Ok(ResumeStage::ReadReceipt),
        _ => Ok(stage),
    }
}

/// Goes on with a retained rotation after an event.
pub fn resume_step(stage: ResumeStage, event: ResumeEvent, retained: Felt) -> (result: Result<
    ResumeStage,
    RotationError,
>)
    ensures
        result == resume_next(stage, event, retained),
{
    match (stage, event) {
        (ResumeStage::ReadReceipt, ResumeEvent::Receipt { hash, reverted }) => if hash
            == retained {
            Ok(ResumeStage::Done { succeeded: !reverted })
        } else {
            Err(RotationError::ReceiptHash)
        },
        (ResumeStage::ReadReceipt, ResumeEvent::NotFound) => Ok(ResumeStage::Submit),
        (ResumeStage::ReadReceipt, ResumeEvent::Unavailable) => Ok(ResumeStage::Wait),
        (ResumeStage::Submit, ResumeEvent::Submitted(hash)) => if hash == retained {
            Ok(ResumeStage::Wait)
        } else {
            Err(RotationError::SubmissionHash)
        },
        (ResumeStage::Submit, ResumeEvent::Unresolved) => Ok(ResumeStage::Wait),
        (ResumeStage::Wait, ResumeEvent::Elapsed) => Ok(ResumeStage::ReadReceipt),
        _ => Ok(stage),
    }
}

/// Admission stays fenced until the retained transaction has a receipt: nothing else ends the wait.
pub proof fn law_fence_opens_only_on_a_receipt(
    stage: ResumeStage,
    event: ResumeEvent,
    retained: Felt,
)
    requires
        !(stage is Done),
        resume_next(stage, event, retained) matches Ok(next) && next is Done,
    ensures
        event is Receipt,
        event->Receipt_hash == retained,
{
}

/// What was read of the deployment's authentication configuration stays what is gone by: the registry
/// is its second element and the approved class its third, in whatever stage the check reaches.
proof fn lemma_configuration_is_kept(
    events: Seq<AuthorityEvent>,
    fields: Vec<Felt>,
    rotation: Rotation,
)
    requires
        events.len() > 0,
        events[0] == AuthorityEvent::Values(fields),
        fields@.len() == 3,
    ensures
        match authority_run(events, rotation) {
            Ok(AuthorityStage::ReadAuthentication) => false,
            Ok(AuthorityStage::ReadClass { registry, class }) => registry == fields@[1] && class
                == fields@[2],
            Ok(AuthorityStage::ReadOwner { registry }) => registry == fields@[1],
            Ok(AuthorityStage::ReadAccount { registry, .. }) => registry == fields@[1],
            _ => true,
        },
    decreases events.len(),
{
    reveal_with_fuel(authority_run, 2);
    if events.len() > 1 {
        assert(events.drop_last()[0] == events[0]);
        lemma_configuration_is_kept(events.drop_last(), fields, rotation);
    } else {
        assert(events.drop_last() =~= Seq::<AuthorityEvent>::empty());
        assert(events.last() == events[0]);
    }
}

/// The registry is the second element of the deployment's authentication configuration: once a
/// configuration of three elements was read, whatever else is read, every view of the actor's owner
/// and every view of the owner's account is a call of that contract.
pub proof fn law_registry_is_the_configurations_second_element(
    events: Seq<AuthorityEvent>,
    fields: Vec<Felt>,
    rotation: &Rotation,
    deployment: Felt,
    stage: &AuthorityStage,
    call: Option<ViewCall>,
)
    requires
        events.len() > 0,
        events[0] == AuthorityEvent::Values(fields),
        fields@.len() == 3,
        authority_run(events, *rotation) == Ok::<AuthorityStage, RotationError>(*stage),
        call_ensures(AuthorityStage::view_call, (stage, deployment, rotation), call),
    ensures
        *stage is ReadOwner ==> call is Some && call->0.contract == fields@[1]
            && call->0.entry_point@ == "owner_of"@ && call->0.calldata@ == seq![rotation.actor],
        *stage is ReadAccount ==> call is Some && call->0.contract == fields@[1]
            && call->0.entry_point@ == "account_of"@,
{
    lemma_configuration_is_kept(events, fields, *rotation);
}

/// One pass through the registry, from the configuration to the owner's account: the configuration's
/// second element is asked for the actor's owner and then for the account of the owner that it gave,
/// and the actor's class must be the configuration's third element.
pub proof fn law_registry_is_asked_for_owner_and_account(
    fields: Vec<Felt>,
    class: Option<Felt>,
    owner: Vec<Felt>,
    rotation: &Rotation,
    deployment: Felt,
    configured: Result<AuthorityStage, RotationError>,
    approved: Result<AuthorityStage, RotationError>,
    owned: Result<AuthorityStage, RotationError>,
    first: Option<ViewCall>,
    second: Option<ViewCall>,
)
    requires
        call_ensures(
            authority_step,
            (AuthorityStage::ReadAuthentication, &AuthorityEvent::Values(fields), rotation),
            configured,
        ),
        configured is Ok ==> call_ensures(
            authority_step,
            (configured->Ok_0, &AuthorityEvent::Class(class), rotation),
            approved,
        ),
        configured is Ok && approved is Ok ==> call_ensures(
            AuthorityStage::view_call,
            (&approved->Ok_0, deployment, rotation),
            first,
        ) && call_ensures(
            authority_step,
            (approved->Ok_0, &AuthorityEvent::Values(owner), rotation),
            owned,
        ),
        configured is Ok && approved is Ok && owned is Ok ==> call_ensures(
            AuthorityStage::view_call,
            (&owned->Ok_0, deployment, rotation),
            second,
        ),
    ensures
        configured is Ok <==> fields@.len() == 3,
        configured is Err ==> configured->Err_0 == RotationError::MalformedAuthentication,
        fields@.len() == 3 ==> (approved is Ok <==> class == Some(fields@[2])),
        fields@.len() == 3 && approved is Err ==> approved->Err_0
            == RotationError::UnapprovedAccount,
        fields@.len() == 3 && approved is Ok ==> {
            &&& first is Some && first->0.contract == fields@[1]
            &&& first->0.entry_point@ == "owner_of"@
            &&& first->0.calldata@ == seq![rotation.actor]
            &&& owned is Ok <==> owner@.len() == 1 && owner@[0]@ != 0
            &&& owner@.len() != 1 ==> owned->Err_0 == RotationError::MalformedOwner
            &&& owner@.len() == 1 && owner@[0]@ == 0 ==> owned->Err_0
                == RotationError::UnregisteredAccount
            &&& owned is Ok ==> second is Some && second->0.contract == fields@[1]
                && second->0.entry_point@ == "account_of"@ && second->0.calldata@ == seq![owner@[0]]
        },
{
}

/// What follows the registry: its account must be the actor, the actor's authority the sender, the
/// signature valid under the authority's key for the rotation's hash, and the nonce the present one,
/// each alone in what its view returned; and what is asked is the actor, then the sender.
pub proof fn law_authority_is_asked_of_actor_and_sender(
    registry: Felt,
    owner: Felt,
    found: Vec<Felt>,
    nonce: Felt,
    rotation: &Rotation,
    deployment: Felt,
    account: Result<AuthorityStage, RotationError>,
    authority: Result<AuthorityStage, RotationError>,
    key: Result<AuthorityStage, RotationError>,
    last: Result<AuthorityStage, RotationError>,
    calls: (Option<ViewCall>, Option<ViewCall>, Option<ViewCall>),
)
    requires
        call_ensures(
            authority_step,
            (
                AuthorityStage::ReadAccount { registry, owner },
                &AuthorityEvent::Values(found),
                rotation,
            ),
            account,
        ),
        call_ensures(
            authority_step,
            (AuthorityStage::ReadAuthority, &AuthorityEvent::Values(found), rotation),
            authority,
        ),
        call_ensures(
            authority_step,
            (AuthorityStage::ReadKey, &AuthorityEvent::Values(found), rotation),
            key,
        ),
        call_ensures(
            authority_step,
            (AuthorityStage::ReadNonce, &AuthorityEvent::Nonce(nonce), rotation),
            last,
        ),
        call_ensures(
            AuthorityStage::view_call,
            (&AuthorityStage::ReadAuthentication, deployment, rotation),
            calls.0,
        ),
        call_ensures(
            AuthorityStage::view_call,
            (&AuthorityStage::ReadAuthority, deployment, rotation),
            calls.1,
        ),
        call_ensures(
            AuthorityStage::view_call,
            (&AuthorityStage::ReadKey, deployment, rotation),
            calls.2,
        ),
    ensures
        ({
            let single = found@.len() == 1;
            &&& !single ==> account == Err::<AuthorityStage, RotationError>(
                RotationError::MalformedAccount,
            ) && authority == Err::<AuthorityStage, RotationError>(
                RotationError::MalformedAuthority,
            ) && key == Err::<AuthorityStage, RotationError>(RotationError::MalformedKey)
            &&& single && found@[0] == rotation.actor ==> account == Ok::<
                AuthorityStage,
                RotationError,
            >(AuthorityStage::ReadAuthority)
            &&& single && found@[0] != rotation.actor ==> account == Err::<
                AuthorityStage,
                RotationError,
            >(RotationError::UnregisteredAccount)
            &&& single && found@[0] == rotation.authority ==> authority == Ok::<
                AuthorityStage,
                RotationError,
            >(AuthorityStage::ReadKey)
            &&& single && found@[0] != rotation.authority ==> authority == Err::<
                AuthorityStage,
                RotationError,
            >(RotationError::WrongAuthority)
            &&& single && signature_valid(found@[0]@, rotation.hash@, rotation.r@, rotation.s@)
                ==> key == Ok::<AuthorityStage, RotationError>(AuthorityStage::ReadNonce)
            &&& single && !signature_valid(found@[0]@, rotation.hash@, rotation.r@, rotation.s@)
                ==> key == Err::<AuthorityStage, RotationError>(RotationError::InvalidSignature)
        }),
        nonce == rotation.nonce ==> last == Ok::<AuthorityStage, RotationError>(
            AuthorityStage::Authorized,
        ),
        nonce != rotation.nonce ==> last == Err::<AuthorityStage, RotationError>(
            RotationError::StaleNonce,
        ),
        calls.0 is Some && calls.0->0.contract == deployment && calls.0->0.entry_point@
            == "authentication"@ && calls.0->0.calldata@.len() == 0,
        calls.1 is Some && calls.1->0.contract == rotation.actor && calls.1->0.entry_point@
            == "binding_authority"@ && calls.1->0.calldata@.len() == 0,
        calls.2 is Some && calls.2->0.contract == rotation.authority && calls.2->0.entry_point@
            == "get_public_key"@ && calls.2->0.calldata@.len() == 0,
{
}

/// A transaction is a rotation exactly where it makes one call of `rotate_public_key` with one key,
/// neither the actor nor the key zero, is signed by two elements, has all its data on L1 and carries
/// nothing else. The call then names the actor and the key.
#[verifier::spinoff_prover]
pub proof fn law_rotation_is_one_plain_call(
    transaction: &RotationTransaction,
    actor: Felt,
    function: Felt,
    key: Felt,
    result: Result<RotationCall, RotationError>,
)
    requires
        function@ == selector("rotate_public_key"@),
        call_ensures(RotationTransaction::call, (transaction,), result),
    ensures
        (result is Ok && result->Ok_0.to == actor && result->Ok_0.key == key) <==> ({
            &&& values(transaction.calldata@) == seq![1, actor@, function@, 1, key@]
            &&& actor@ != 0
            &&& key@ != 0
            &&& transaction.signature@.len() == 2
            &&& transaction.nonce_data_availability_mode == DataAvailabilityMode::L1
            &&& transaction.fee_data_availability_mode == DataAvailabilityMode::L1
            &&& transaction.paymaster_data@.len() == 0
            &&& transaction.account_deployment_data@.len() == 0
            &&& !transaction.is_query
            &&& !transaction.has_proof
            &&& !transaction.has_proof_facts
        }),
        result is Ok ==> result->Ok_0.selector == function,
{
    let calldata = values(transaction.calldata@);
    assert(calldata.len() == transaction.calldata@.len());
    assert(forall|i: int|
        0 <= i < calldata.len() ==> #[trigger] calldata[i] == transaction.calldata@[i]@);
    if result is Ok {
        let form = rotation_calldata(calldata[1], calldata[4]);
        assert(calldata[2] == form[2]);
    }
    if calldata == seq![1, actor@, function@, 1, key@] {
        assert(calldata[1] == actor@ && calldata[4] == key@);
        assert(calldata =~= rotation_calldata(calldata[1], calldata[4]));
    }
}

/// The hash that a rotation's authority signs is the account's hash of the one call of
/// `rotate_public_key`: of the chain, the sender and its nonce, the actor and the function, the tip,
/// the bounds on the L1 gas, the L2 gas and the L1 data gas, and the key. The rotation that is checked
/// is the call's actor, the sender with its nonce, that hash and the signature's two elements.
pub proof fn law_rotation_is_hashed_and_checked_as_sent(
    rpc: &JsonRpcClient<HttpTransport>,
    chain: Felt,
    transaction: &RotationTransaction,
    called: Result<RotationCall, RotationError>,
    decoded: Result<(RotationCall, Felt), RotationError>,
    hash: Felt,
    rotation: Result<Rotation, RotationError>,
)
    requires
        call_ensures(RotationTransaction::call, (transaction,), called),
        call_ensures(decode, (rpc, chain, transaction), decoded),
        call_ensures(rotation_of, (transaction, hash), rotation),
    ensures
        called is Err ==> decoded is Err && decoded->Err_0 == called->Err_0 && rotation is Err
            && rotation->Err_0 == called->Err_0,
        called is Ok ==> decoded is Ok && (decoded->Ok_0).0 == called->Ok_0 && ({
            let bounds = transaction.resource_bounds;
            (decoded->Ok_0).1@ == invoke_hash(
                seq![
                    chain@,
                    transaction.sender_address@,
                    transaction.nonce@,
                    called->Ok_0.to@,
                    called->Ok_0.selector@,
                    transaction.tip as nat,
                    bounds.l1_gas.max_amount as nat,
                    bounds.l1_gas.max_price_per_unit as nat,
                    bounds.l2_gas.max_amount as nat,
                    bounds.l2_gas.max_price_per_unit as nat,
                    bounds.l1_data_gas.max_amount as nat,
                    bounds.l1_data_gas.max_price_per_unit as nat,
                    called->Ok_0.key@,
                ],
            )
        }),
        called is Ok ==> rotation == Ok::<Rotation, RotationError>(
            Rotation {
                actor: called->Ok_0.to,
                authority: transaction.sender_address,
                nonce: transaction.nonce,
                hash,
                r: transaction.signature@[0],
                s: transaction.signature@[1],
            },
        ),
{
}

/// A transaction that was read is made of the fields that were read, each in its own place: the
/// account before its nonce; the calldata, the signature, the paymaster data and the account
/// deployment data; the bounds on the L1 gas, the L2 gas and the L1 data gas; and the nonce's
/// availability before the fee's.
pub proof fn law_read_fields_keep_their_places(fields: &RetainedFields)
    ensures
        fields@.sender_address == fields.felts@[0],
        fields@.nonce == fields.felts@[1],
        fields@.calldata == fields.lists@[0]@,
        fields@.signature == fields.lists@[1]@,
        fields@.paymaster_data == fields.lists@[2]@,
        fields@.account_deployment_data == fields.lists@[3]@,
        fields@.tip == fields.tip,
        fields@.resource_bounds.l1_gas.max_amount == fields.bounds@[0].0,
        fields@.resource_bounds.l1_gas.max_price_per_unit == fields.bounds@[0].1,
        fields@.resource_bounds.l2_gas.max_amount == fields.bounds@[1].0,
        fields@.resource_bounds.l2_gas.max_price_per_unit == fields.bounds@[1].1,
        fields@.resource_bounds.l1_data_gas.max_amount == fields.bounds@[2].0,
        fields@.resource_bounds.l1_data_gas.max_price_per_unit == fields.bounds@[2].1,
        fields@.nonce_data_availability_mode == DataAvailabilityMode::L2 <==> fields.on_l2@[0],
        fields@.fee_data_availability_mode == DataAvailabilityMode::L2 <==> fields.on_l2@[1],
        fields@.is_query == fields.is_query,
{
}

/// A transaction that was read carries a proof, or facts of one, exactly where its document has them,
/// each under its own key; all else is what the document's fields are.
pub proof fn law_read_transaction_tells_its_proofs(
    bytes: &[u8],
    result: Result<RotationTransaction, String>,
)
    requires
        call_ensures(read_transaction, (bytes,), result),
    ensures
        result is Ok <==> transaction_fields(bytes@) is Ok && json_layer(bytes@) is Ok,
        result is Ok ==> {
            let transaction = result->Ok_0;
            let fields = transaction_fields(bytes@)->Ok_0;
            &&& transaction.has_proof == json_layer(bytes@)->Ok_0.holds("proof"@)
            &&& transaction.has_proof_facts == json_layer(bytes@)->Ok_0.holds("proof_facts"@)
            &&& transaction.sender_address == fields.sender_address
            &&& transaction.nonce == fields.nonce
            &&& transaction.calldata@ == fields.calldata
            &&& transaction.signature@ == fields.signature
            &&& transaction.paymaster_data@ == fields.paymaster_data
            &&& transaction.account_deployment_data@ == fields.account_deployment_data
            &&& transaction.tip == fields.tip
            &&& transaction.resource_bounds == fields.resource_bounds
            &&& transaction.nonce_data_availability_mode == fields.nonce_data_availability_mode
            &&& transaction.fee_data_availability_mode == fields.fee_data_availability_mode
            &&& transaction.is_query == fields.is_query
        },
{
    if result is Ok {
        assert(result->Ok_0@ == retained_transaction(bytes@)->Ok_0);
    }
}

/// A retained rotation is resumed exactly where its bytes hold a transaction, that transaction is a
/// rotation, and the hash that its authority signs is the retained one; it is then resumed as it was
/// read. Otherwise the first of these that fails is named.
pub proof fn law_retained_rotation_is_resumed_as_read(
    rpc: &JsonRpcClient<HttpTransport>,
    chain: Felt,
    bytes: &[u8],
    hash: Felt,
    read: Result<RotationTransaction, String>,
    decoded: Result<(RotationCall, Felt), RotationError>,
    result: Result<RotationTransaction, RetainedError>,
)
    requires
        call_ensures(read_transaction, (bytes,), read),
        read is Ok ==> call_ensures(decode, (rpc, chain, &read->Ok_0), decoded),
        call_ensures(retained_rotation, (rpc, chain, bytes, hash), result),
    ensures
        result is Ok <==> read is Ok && decoded is Ok && (decoded->Ok_0).1 == hash,
        result is Ok ==> result->Ok_0@ == read->Ok_0@,
        read is Err ==> result is Err && result->Err_0@ == RetainedErrorView::Malformed(
            read->Err_0@,
        ),
        read is Ok && decoded is Err ==> result is Err && result->Err_0@
            == RetainedErrorView::Rotation(decoded->Err_0),
        read is Ok && decoded is Ok && (decoded->Ok_0).1 != hash ==> result is Err
            && result->Err_0@ == RetainedErrorView::Rotation(RotationError::RetainedHash),
{
}

/// A rotation is submitted only where its simulation traced an invoke transaction that did not
/// revert.
pub proof fn law_simulation_must_succeed(simulation: Simulation, result: Result<(), RotationError>)
    requires
        call_ensures(check_simulation, (simulation,), result),
    ensures
        result is Ok <==> simulation == (Simulation::Invoke { reverted: false }),
        result == Err::<(), RotationError>(RotationError::SimulationReverted) <==> simulation == (
        Simulation::Invoke { reverted: true }),
{
}

/// A retained rotation is submitted exactly where its receipt was asked for and the chain does not
/// know it. Whatever a submission or a failed read brings, the receipt is asked for again after a
/// wait. Another transaction's hash, in a receipt or from a submission, is an error.
pub proof fn law_retained_rotation_is_submitted_until_it_has_a_receipt(
    stage: ResumeStage,
    event: ResumeEvent,
    retained: Felt,
    result: Result<ResumeStage, RotationError>,
)
    requires
        call_ensures(resume_step, (stage, event, retained), result),
    ensures
        result == Ok::<ResumeStage, RotationError>(ResumeStage::Submit) && !(stage is Submit)
            <==> stage is ReadReceipt && event is NotFound,
        stage is ReadReceipt && event is Unavailable ==> result == Ok::<ResumeStage, RotationError>(
            ResumeStage::Wait,
        ),
        stage is Submit && (event is Unresolved || event == ResumeEvent::Submitted(retained))
            ==> result == Ok::<ResumeStage, RotationError>(ResumeStage::Wait),
        stage is Wait && event is Elapsed ==> result == Ok::<ResumeStage, RotationError>(
            ResumeStage::ReadReceipt,
        ),
        stage is ReadReceipt && event == (ResumeEvent::Receipt { hash: retained, reverted: true })
            ==> result == Ok::<ResumeStage, RotationError>(ResumeStage::Done { succeeded: false }),
        stage is ReadReceipt && event == (ResumeEvent::Receipt { hash: retained, reverted: false })
            ==> result == Ok::<ResumeStage, RotationError>(ResumeStage::Done { succeeded: true }),
        result == Err::<ResumeStage, RotationError>(RotationError::ReceiptHash) <==> stage
            is ReadReceipt && event is Receipt && event->Receipt_hash != retained,
        result == Err::<ResumeStage, RotationError>(RotationError::SubmissionHash) <==> stage
            is Submit && event is Submitted && event->Submitted_0 != retained,
        stage is Done ==> result == Ok::<ResumeStage, RotationError>(stage),
{
}

/// A rotation's errors are told in words of their own.
pub proof fn law_rotation_errors_have_their_words(error: &RotationError, words: &'static str)
    requires
        call_ensures(RotationError::message, (error,), words),
    ensures
        *error is Unsupported ==> words@ == "unsupported rotation transaction"@,
        *error is NotOneCall ==> words@ == "rotation must be one call"@,
        *error is InvalidCall ==> words@ == "invalid rotation call"@,
        *error is MalformedAuthentication ==> words@ == "malformed authentication configuration"@,
        *error is UnapprovedAccount ==> words@ == "unapproved gameplay account"@,
        *error is MalformedOwner ==> words@ == "malformed owner_of view"@,
        *error is MalformedAccount ==> words@ == "malformed account_of view"@,
        *error is UnregisteredAccount ==> words@ == "unregistered gameplay account"@,
        *error is MalformedAuthority ==> words@ == "malformed binding_authority view"@,
        *error is WrongAuthority ==> words@ == "wrong binding authority"@,
        *error is MalformedKey ==> words@ == "malformed get_public_key view"@,
        *error is InvalidSignature ==> words@ == "invalid binding authority signature"@,
        *error is StaleNonce ==> words@ == "stale binding authority nonce"@,
        *error is SimulationReverted ==> words@ == "key rotation simulation reverted"@,
        *error is UnexpectedTrace ==> words@ == "unexpected rotation simulation trace"@,
        *error is RetainedHash ==> words@ == "retained rotation hash mismatch"@,
        *error is ReceiptHash ==> words@ == "rotation receipt hash mismatch"@,
        *error is SubmissionHash ==> words@ == "rotation submission hash mismatch"@,
{
}

/// A retained rotation that is not resumed is told for the reader's reason, or in its error's words.
pub proof fn law_retained_errors_are_told_as_they_are(
    error: &RetainedError,
    words: String,
    inner: &'static str,
)
    requires
        call_ensures(RetainedError::message, (error,), words),
        *error matches RetainedError::Rotation(cause) ==> call_ensures(
            RotationError::message,
            (&cause,),
            inner,
        ),
    ensures
        *error matches RetainedError::Malformed(reason) ==> words@ == reason@,
        *error is Rotation ==> words@ == inner@,
{
}

/// An event that the check of an authority does not wait for changes nothing.
pub proof fn law_unawaited_events_leave_an_authority(
    stage: AuthorityStage,
    event: &AuthorityEvent,
    rotation: &Rotation,
    result: Result<AuthorityStage, RotationError>,
)
    requires
        call_ensures(authority_step, (stage, event, rotation), result),
        !(stage is ReadClass && *event is Class),
        !(stage is ReadNonce && *event is Nonce),
        !((stage is ReadAuthentication || stage is ReadOwner || stage is ReadAccount
            || stage is ReadAuthority || stage is ReadKey) && *event is Values),
    ensures
        result == Ok::<AuthorityStage, RotationError>(stage),
{
}

/// An event that a retained rotation does not wait for changes nothing.
pub proof fn law_unawaited_events_leave_a_retained_rotation(
    stage: ResumeStage,
    event: ResumeEvent,
    retained: Felt,
    result: Result<ResumeStage, RotationError>,
)
    requires
        call_ensures(resume_step, (stage, event, retained), result),
        !(stage is ReadReceipt && (event is Receipt || event is NotFound || event is Unavailable)),
        !(stage is Submit && (event is Submitted || event is Unresolved)),
        !(stage is Wait && event is Elapsed),
    ensures
        result == Ok::<ResumeStage, RotationError>(stage),
{
}

/// A transaction that is no rotation is refused for the first of these that holds: it carries what a
/// rotation does not or lacks what one has, its calldata is not one call's, the call rotates no key.
pub proof fn law_rotation_is_refused_for_its_first_fault(
    transaction: &RotationTransaction,
    result: Result<RotationCall, RotationError>,
)
    requires
        call_ensures(RotationTransaction::call, (transaction,), result),
    ensures
        ({
            let plain = !transaction.is_query && !transaction.has_proof
                && !transaction.has_proof_facts && transaction.paymaster_data@.len() == 0
                && transaction.account_deployment_data@.len() == 0
                && transaction.nonce_data_availability_mode == DataAvailabilityMode::L1
                && transaction.fee_data_availability_mode == DataAvailabilityMode::L1
                && transaction.signature@.len() == 2;
            let one = transaction.calldata@.len() == 5;
            &&& !plain ==> result is Err && result->Err_0 == RotationError::Unsupported
            &&& plain && !one ==> result is Err && result->Err_0 == RotationError::NotOneCall
            &&& plain && one && result is Err ==> result->Err_0 == RotationError::InvalidCall
        }),
{
}

/// The stages that read a class or a nonce, and the one that reads nothing, call no view.
pub proof fn law_other_stages_call_no_view(
    stage: &AuthorityStage,
    deployment: Felt,
    rotation: &Rotation,
    call: Option<ViewCall>,
)
    requires
        call_ensures(AuthorityStage::view_call, (stage, deployment, rotation), call),
    ensures
        call is None <==> *stage is ReadClass || *stage is ReadNonce || *stage is Authorized,
{
}

} // verus!
