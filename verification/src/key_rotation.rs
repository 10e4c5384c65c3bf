//! Rotation of a gameplay key through the node itself: the binding authority signs an ordinary
//! account transaction, and only its actor waits.

use crate::felt::{values, Felt};
use crate::invoke::{hash_invoke, invoke_hash, protocol_hash};
use crate::recorded::{Execution, ExecutionResult};
use crate::rotation::{
    rotates, rotation_call, rotation_error_text, rotation_fields, rotation_hash,
    DataAvailabilityMode, ResourceBoundsMapping, Rotation, RotationCall, RotationError,
    RotationTransaction, TransactionView,
};
use crate::stark::selector;
use starknet_providers::jsonrpc::{HttpTransport, JsonRpcClient};
use vstd::prelude::*;

verus! {

/// Why a key is not rotated.
#[derive(Clone, Copy, Debug, PartialEq, Eq, Structural)]
pub enum KeyRotationError {
    /// The transaction is no invoke transaction of version three.
    NotInvokeV3,
    /// The transaction carries proofs.
    Proofs,
    /// The transaction does not make exactly one call.
    NotOneCall,
    /// The call rotates no key.
    InvalidCall,
    /// The transaction carries what a rotation does not.
    Unsupported,
    /// The signature does not have two elements.
    Signature,
}

/// A key rotation error in words.
pub open spec fn key_rotation_error_text(error: KeyRotationError) -> Seq<char> {
    match error {
        KeyRotationError::NotInvokeV3 => "rotation requires an invoke v3"@,
        KeyRotationError::Proofs => "rotation cannot carry proofs"@,
        KeyRotationError::NotOneCall => "rotation must contain exactly one call"@,
        KeyRotationError::InvalidCall => "invalid rotation call"@,
        KeyRotationError::Unsupported => "unsupported rotation transaction"@,
        KeyRotationError::Signature => "rotation requires two signature felts"@,
    }
}

impl KeyRotationError {
    /// The error in words.
    pub fn message(&self) -> (result: &'static str)
        ensures
            result@ == key_rotation_error_text(*self),
    {
        match self {
            KeyRotationError::NotInvokeV3 => "rotation requires an invoke v3",
            KeyRotationError::Proofs => "rotation cannot carry proofs",
            KeyRotationError::NotOneCall => "rotation must contain exactly one call",
            KeyRotationError::InvalidCall => "invalid rotation call",
            KeyRotationError::Unsupported => "unsupported rotation transaction",
            KeyRotationError::Signature => "rotation requires two signature felts",
        }
    }
}

/// A transaction that was broadcast.
#[derive(Debug, PartialEq, Eq)]
pub enum Broadcast {
    /// An invoke transaction of version three.
    InvokeV3(RotationTransaction),
    /// An invoke transaction of another version.
    Other,
}

/// The error that a broadcast transaction meets where it is no rotation.
pub open spec fn broadcast_fault(broadcast: Broadcast) -> Option<KeyRotationError> {
    match broadcast {
        Broadcast::InvokeV3(transaction) => invoke_fault(transaction),
        Broadcast::Other => Some(KeyRotationError::NotInvokeV3),
    }
}

/// The error that an invoke transaction meets where it is no rotation.
pub open spec fn invoke_fault(transaction: RotationTransaction) -> Option<KeyRotationError> {
    if transaction.has_proof || transaction.has_proof_facts {
        Some(KeyRotationError::Proofs)
    } else if transaction.calldata@.len() != 5 {
        Some(KeyRotationError::NotOneCall)
    } else if !rotates(values(transaction.calldata@)) {
        Some(KeyRotationError::InvalidCall)
    } else if transaction.paymaster_data@.len() != 0 || transaction.account_deployment_data@.len()
        != 0 {
        Some(KeyRotationError::Unsupported)
    } else if transaction.signature@.len() != 2 {
        Some(KeyRotationError::Signature)
    } else {
        None
    }
}

/// The rotation that a broadcast transaction with a hash asks for.
pub fn decode(broadcast: &Broadcast, hash: Felt) -> (result: Result<Rotation, KeyRotationError>)
    ensures
        match result {
            Ok(rotation) => {
                &&& broadcast_fault(*broadcast) is None
                &&& broadcast matches Broadcast::InvokeV3(transaction)
                &&& rotation == (Rotation {
                    actor: transaction.calldata@[1],
                    authority: transaction.sender_address,
                    nonce: transaction.nonce,
                    hash,
                    r: transaction.signature@[0],
                    s: transaction.signature@[1],
                })
            },
            Err(error) => broadcast_fault(*broadcast) == Some(error),
        },
{
    let transaction: &RotationTransaction = match broadcast {
        Broadcast::InvokeV3(transaction) => transaction,
        Broadcast::Other => {
            return Err(KeyRotationError::NotInvokeV3);
        },
    };
    if transaction.has_proof || transaction.has_proof_facts {
        return Err(KeyRotationError::Proofs);
    }
    if transaction.calldata.len() != 5 {
        return Err(KeyRotationError::NotOneCall);
    }
    let actor: Felt = match rotation_call(&transaction.calldata) {
        Some(call) => call.to,
        None => {
            return Err(KeyRotationError::InvalidCall);
        },
    };
    if transaction.paymaster_data.len() != 0 || transaction.account_deployment_data.len() != 0 {
        return Err(KeyRotationError::Unsupported);
    }
    if transaction.signature.len() != 2 {
        return Err(KeyRotationError::Signature);
    }
    Ok(
        Rotation {
            actor,
            authority: transaction.sender_address,
            nonce: transaction.nonce,
            hash,
            r: transaction.signature[0],
            s: transaction.signature[1],
        },
    )
}

/// Whether the data of a transaction's nonce and of its fee are available on L2.
pub open spec fn on_l2(transaction: TransactionView) -> (bool, bool) {
    (
        transaction.nonce_data_availability_mode == DataAvailabilityMode::L2,
        transaction.fee_data_availability_mode == DataAvailabilityMode::L2,
    )
}

/// The hash of a rotation that is broadcast. The SDK computes it where all data is available on L1,
/// and for these transactions alone.
pub open spec fn broadcast_hash(transaction: TransactionView, chain: Felt) -> nat {
    let bounds = transaction.resource_bounds;
    if on_l2(transaction) == (false, false) {
        invoke_hash(rotation_fields(transaction, chain))
    } else {
        protocol_hash(
            seq![chain@, transaction.sender_address@, transaction.nonce@],
            transaction.tip,
            seq![
                (bounds.l1_gas.max_amount, bounds.l1_gas.max_price_per_unit),
                (bounds.l2_gas.max_amount, bounds.l2_gas.max_price_per_unit),
                (bounds.l1_data_gas.max_amount, bounds.l1_data_gas.max_price_per_unit),
            ],
            on_l2(transaction),
            values(transaction.calldata),
        )
    }
}

/// The hash of a rotation that is broadcast.
fn hash_broadcast(
    rpc: &JsonRpcClient<HttpTransport>,
    chain: Felt,
    transaction: &RotationTransaction,
) -> (result: Felt)
    requires
        transaction.calldata@.len() == 5,
    ensures
        result@ == broadcast_hash(transaction@, chain),
{
    let nonce_on_l2: bool = transaction.nonce_data_availability_mode == DataAvailabilityMode::L2;
    let fee_on_l2: bool = transaction.fee_data_availability_mode == DataAvailabilityMode::L2;
    if !nonce_on_l2 && !fee_on_l2 {
        let call: RotationCall = RotationCall {
            to: transaction.calldata[1],
            selector: transaction.calldata[2],
            key: transaction.calldata[4],
        };
        return rotation_hash(rpc, chain, transaction, call);
    }
    let bounds: ResourceBoundsMapping = transaction.resource_bounds;
    let felts: [Felt; 3] = [chain, transaction.sender_address, transaction.nonce];
    let limits: [(u64, u128); 3] = [
        (bounds.l1_gas.max_amount, bounds.l1_gas.max_price_per_unit),
        (bounds.l2_gas.max_amount, bounds.l2_gas.max_price_per_unit),
        (bounds.l1_data_gas.max_amount, bounds.l1_data_gas.max_price_per_unit),
    ];
    assert(values(felts@) =~= seq![chain@, transaction@.sender_address@, transaction@.nonce@]);
    assert(limits@ =~= seq![
        (bounds.l1_gas.max_amount, bounds.l1_gas.max_price_per_unit),
        (bounds.l2_gas.max_amount, bounds.l2_gas.max_price_per_unit),
        (bounds.l1_data_gas.max_amount, bounds.l1_data_gas.max_price_per_unit),
    ]);
    hash_invoke(
        felts,
        transaction.tip,
        limits,
        (nonce_on_l2, fee_on_l2),
        &transaction.calldata,
    )
}

/// The rotation that a broadcast transaction asks for, with the hash that its authority signs.
pub fn decode_on(
    rpc: &JsonRpcClient<HttpTransport>,
    chain: Felt,
    broadcast: &Broadcast,
) -> (result: Result<Rotation, KeyRotationError>)
    ensures
        match result {
            Ok(rotation) => {
                &&& broadcast_fault(*broadcast) is None
                &&& broadcast matches Broadcast::InvokeV3(transaction)
                &&& rotation == (Rotation {
                    actor: transaction.calldata@[1],
                    authority: transaction.sender_address,
                    nonce: transaction.nonce,
                    hash: rotation.hash,
                    r: transaction.signature@[0],
                    s: transaction.signature@[1],
                })
                &&& rotation.hash@ == broadcast_hash(transaction@, chain)
            },
            Err(error) => broadcast_fault(*broadcast) == Some(error),
        },
{
    let unhashed: Rotation = decode(broadcast, Felt::zero())?;
    match broadcast {
        Broadcast::InvokeV3(transaction) => {
            let hash: Felt = hash_broadcast(rpc, chain, transaction);
            Ok(Rotation { hash, ..unhashed })
        },
        Broadcast::Other => {
            assert(false);
            Err(KeyRotationError::NotInvokeV3)
        },
    }
}

/// The words in which a rotation's submission is refused for want of authority.
pub open spec fn refusal_text(error: RotationError) -> Seq<char> {
    match error {
        RotationError::StaleNonce => "rotation requires the current binding authority nonce"@,
        _ => rotation_error_text(error),
    }
}

/// The words in which a rotation's submission is refused for want of authority.
pub fn refusal_message(error: RotationError) -> (result: &'static str)
    ensures
        result@ == refusal_text(error),
{
    match error {
        RotationError::StaleNonce => "rotation requires the current binding authority nonce",
        _ => error.message(),
    }
}

/// How the submission of a rotation ended.
#[derive(Debug, PartialEq, Eq)]
pub enum RotationOutcome {
    /// The key was rotated.
    Rotated,
    /// The rotation reverted.
    Reverted,
    /// The executor refused the rotation, for the given reason.
    Refused(String),
}

/// What the execution of a rotation means for the key.
pub fn rotation_outcome(execution: Execution) -> (result: RotationOutcome)
    ensures
        match execution {
            Execution::Included(receipt) => match receipt.execution_result {
                ExecutionResult::Succeeded => result is Rotated,
                ExecutionResult::Reverted { .. } => result is Reverted,
            },
            Execution::Refused(reason) => result == RotationOutcome::Refused(reason),
        },
{
    match execution {
        Execution::Included(receipt) => match receipt.execution_result {
            ExecutionResult::Succeeded => RotationOutcome::Rotated,
            ExecutionResult::Reverted { .. } => RotationOutcome::Reverted,
        },
        Execution::Refused(reason) => RotationOutcome::Refused(reason),
    }
}

/// A broadcast transaction asks for a rotation exactly where it is an invoke transaction of version
/// three that makes one call of `rotate_public_key` with one key, neither the actor nor the key zero,
/// is signed by two elements and carries no proof, no paymaster data and no account deployment data;
/// where its data is available does not count. What is asked for is the call's actor, the sender with
/// its nonce, the given hash and the signature.
pub proof fn law_broadcast_rotation_is_one_call(
    transaction: RotationTransaction,
    hash: Felt,
    result: Result<Rotation, KeyRotationError>,
)
    requires
        call_ensures(decode, (&Broadcast::InvokeV3(transaction), hash), result),
    ensures
        result is Ok <==> ({
            let calldata = transaction.calldata@;
            &&& calldata.len() == 5
            &&& calldata[0]@ == 1
            &&& calldata[1]@ != 0
            &&& calldata[2]@ == selector("rotate_public_key"@)
            &&& calldata[3]@ == 1
            &&& calldata[4]@ != 0
            &&& transaction.signature@.len() == 2
            &&& transaction.paymaster_data@.len() == 0
            &&& transaction.account_deployment_data@.len() == 0
            &&& !transaction.has_proof
            &&& !transaction.has_proof_facts
        }),
        result is Ok ==> {
            let rotation = result->Ok_0;
            &&& rotation.actor == transaction.calldata@[1]
            &&& rotation.authority == transaction.sender_address
            &&& rotation.nonce == transaction.nonce
            &&& rotation.hash == hash
            &&& rotation.r == transaction.signature@[0]
            &&& rotation.s == transaction.signature@[1]
        },
        transaction.has_proof || transaction.has_proof_facts ==> result == Err::<
            Rotation,
            KeyRotationError,
        >(KeyRotationError::Proofs),
{
    let calldata = values(transaction.calldata@);
    assert(calldata.len() == transaction.calldata@.len());
    assert(forall|i: int|
        0 <= i < calldata.len() ==> #[trigger] calldata[i] == transaction.calldata@[i]@);
    let form = crate::rotation::rotation_calldata(calldata[1], calldata[4]);
    if calldata.len() == 5 {
        assert(form[0] == 1 && form[2] == selector("rotate_public_key"@) && form[3] == 1);
        if calldata[0] == 1 && calldata[2] == selector("rotate_public_key"@) && calldata[3] == 1 {
            assert(calldata =~= form);
        }
    }
}

/// The error of a transaction that asks for no rotation is the first that it meets: another version,
/// a proof, another number of elements than one call's, another call, data that a rotation does not
/// carry, and a signature of another length, in this order.
pub proof fn law_broadcast_refusals_have_their_order(
    broadcast: &Broadcast,
    hash: Felt,
    result: Result<Rotation, KeyRotationError>,
)
    requires
        call_ensures(decode, (broadcast, hash), result),
    ensures
        *broadcast is Other ==> result == Err::<Rotation, KeyRotationError>(
            KeyRotationError::NotInvokeV3,
        ),
        *broadcast is InvokeV3 && !broadcast->InvokeV3_0.has_proof
            && !broadcast->InvokeV3_0.has_proof_facts ==> {
            let transaction = broadcast->InvokeV3_0;
            let data = transaction.paymaster_data@.len() + transaction.account_deployment_data@.len();
            &&& result == Err::<Rotation, KeyRotationError>(KeyRotationError::NotOneCall)
                <==> transaction.calldata@.len() != 5
            &&& result == Err::<Rotation, KeyRotationError>(KeyRotationError::Unsupported) ==> data
                > 0
            &&& result == Err::<Rotation, KeyRotationError>(KeyRotationError::Signature)
                ==> data == 0 && transaction.signature@.len() != 2
            &&& result is Err && transaction.calldata@.len() == 5 && data == 0
                && transaction.signature@.len() == 2 ==> result->Err_0
                == KeyRotationError::InvalidCall
        },
{
}

/// The hash enters a rotation and nothing else of it: a broadcast transaction with the hash that its
/// authority signs asks for what it asks for with any other, and is refused alike. Where all its data
/// is on L1 the hash is the account's own; else it is the protocol's, with the nonce's and the fee's
/// availability in it.
pub proof fn law_broadcast_hash_enters_the_rotation(
    rpc: &JsonRpcClient<HttpTransport>,
    chain: Felt,
    broadcast: &Broadcast,
    hash: Felt,
    decoded: Result<Rotation, KeyRotationError>,
    result: Result<Rotation, KeyRotationError>,
)
    requires
        call_ensures(decode, (broadcast, hash), decoded),
        call_ensures(decode_on, (rpc, chain, broadcast), result),
    ensures
        decoded is Err ==> result == decoded,
        decoded is Ok ==> result is Ok && result->Ok_0 == (Rotation {
            hash: result->Ok_0.hash,
            ..decoded->Ok_0
        }),
        decoded is Ok ==> {
            let transaction = broadcast->InvokeV3_0;
            let nonce_on_l2 = transaction.nonce_data_availability_mode == DataAvailabilityMode::L2;
            let fee_on_l2 = transaction.fee_data_availability_mode == DataAvailabilityMode::L2;
            let bounds = transaction.resource_bounds;
            &&& !nonce_on_l2 && !fee_on_l2 ==> result->Ok_0.hash@ == invoke_hash(
                seq![
                    chain@,
                    transaction.sender_address@,
                    transaction.nonce@,
                    transaction.calldata@[1]@,
                    transaction.calldata@[2]@,
                    transaction.tip as nat,
                    bounds.l1_gas.max_amount as nat,
                    bounds.l1_gas.max_price_per_unit as nat,
                    bounds.l2_gas.max_amount as nat,
                    bounds.l2_gas.max_price_per_unit as nat,
                    bounds.l1_data_gas.max_amount as nat,
                    bounds.l1_data_gas.max_price_per_unit as nat,
                    transaction.calldata@[4]@,
                ],
            )
            &&& nonce_on_l2 || fee_on_l2 ==> result->Ok_0.hash@ == protocol_hash(
                seq![chain@, transaction.sender_address@, transaction.nonce@],
                transaction.tip,
                seq![
                    (bounds.l1_gas.max_amount, bounds.l1_gas.max_price_per_unit),
                    (bounds.l2_gas.max_amount, bounds.l2_gas.max_price_per_unit),
                    (bounds.l1_data_gas.max_amount, bounds.l1_data_gas.max_price_per_unit),
                ],
                (nonce_on_l2, fee_on_l2),
                values(transaction.calldata@),
            )
        },
{
}

/// A key is rotated exactly where the rotation was included and succeeded; a reverted one rotates
/// nothing, and a refused one is refused for the executor's reason.
pub proof fn law_key_is_rotated_by_success_alone(execution: Execution, result: RotationOutcome)
    requires
        call_ensures(rotation_outcome, (execution,), result),
    ensures
        result is Rotated <==> execution is Included && execution->Included_0.execution_result
            is Succeeded,
        result is Reverted <==> execution is Included && execution->Included_0.execution_result
            is Reverted,
        result is Refused <==> execution is Refused,
        execution matches Execution::Refused(reason) ==> result == RotationOutcome::Refused(reason),
{
}

/// A key rotation's errors are told in words of their own.
pub proof fn law_key_rotation_errors_have_their_words(error: &KeyRotationError, words: &'static str)
    requires
        call_ensures(KeyRotationError::message, (error,), words),
    ensures
        *error is NotInvokeV3 ==> words@ == "rotation requires an invoke v3"@,
        *error is Proofs ==> words@ == "rotation cannot carry proofs"@,
        *error is NotOneCall ==> words@ == "rotation must contain exactly one call"@,
        *error is InvalidCall ==> words@ == "invalid rotation call"@,
        *error is Unsupported ==> words@ == "unsupported rotation transaction"@,
        *error is Signature ==> words@ == "rotation requires two signature felts"@,
{
}

/// A rotation is refused in its error's own words, except that a stale nonce is told as the want of the
/// current one.
pub proof fn law_refusals_are_told_in_the_errors_words(
    error: RotationError,
    words: &'static str,
    told: &'static str,
)
    requires
        call_ensures(RotationError::message, (&error,), words),
        call_ensures(refusal_message, (error,), told),
    ensures
        error == RotationError::StaleNonce ==> told@
            == "rotation requires the current binding authority nonce"@,
        error != RotationError::StaleNonce ==> told@ == words@,
{
}

} // verus!
