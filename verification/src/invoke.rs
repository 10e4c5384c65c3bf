//! The hash of an account's invoke transaction.

use crate::felt::{values, Felt};
use crate::stark::{poseidon, poseidon_array};
use starknet_accounts::{Account, ExecutionEncoding, SingleOwnerAccount};
use starknet_core::types::Call;
use starknet_providers::jsonrpc::{HttpTransport, JsonRpcClient};
use starknet_signers::{LocalWallet, SigningKey};
use starknet_types_core::felt::Felt as SdkFelt;
use vstd::prelude::*;

verus! {

/// The JSON-RPC client of `starknet-providers`.
#[verifier::external_type_specification]
#[verifier::external_body]
#[verifier::reject_recursive_types(T)]
pub struct ExJsonRpcClient<T>(JsonRpcClient<T>);

/// The HTTP transport of `starknet-providers`.
#[verifier::external_type_specification]
#[verifier::external_body]
pub struct ExHttpTransport(HttpTransport);

/// The values that a transaction's hash is computed from, in order: the chain, the account, its nonce
/// and the called contract and function; the tip; the amount and price of each resource, of the L1
/// gas, the L2 gas and the L1 data gas; and the elements that the function is called with.
pub open spec fn hash_fields(
    felts: Seq<nat>,
    tip: u64,
    bounds: Seq<(u64, u128)>,
    payload: Seq<nat>,
) -> Seq<nat> {
    felts + seq![
        tip as nat,
        bounds[0].0 as nat,
        bounds[0].1 as nat,
        bounds[1].0 as nat,
        bounds[1].1 as nat,
        bounds[2].0 as nat,
        bounds[2].1 as nat,
    ] + payload
}

/// The hash of an account's invoke transaction that makes one call, from the chain, the account, its
/// nonce, the called contract and function, the tip, the amount and price of each resource and the
/// elements that the function is called with.
pub uninterp spec fn invoke_hash(fields: Seq<nat>) -> nat;

/// Calls `transaction_hash` of a prepared `execute_v3` of `starknet-accounts`, for an account with
/// the execution encoding `New`. Every field that `prepared` asks for is given, so that it does not
/// fail. The hash depends on the given values alone: the client and the signer that the account is
/// made with do not enter it. It is the hash for data availability on L1.
#[verifier::external_body]
pub(crate) fn sdk_hash(
    rpc: &JsonRpcClient<HttpTransport>,
    felts: [Felt; 5],
    tip: u64,
    bounds: [(u64, u128); 3],
    payload: &[Felt],
) -> (result: Felt)
    ensures
        result@ == invoke_hash(hash_fields(values(felts@), tip, bounds@, values(payload@))),
{
    let sdk = |f: &Felt| SdkFelt::from_bytes_be(&f.to_be_bytes());
    let [chain, sender, nonce, to, selector] = felts.each_ref().map(sdk);
    let [(l1, l1_price), (l2, l2_price), (data, data_price)] = bounds;
    let hash = SingleOwnerAccount::new(
        rpc, LocalWallet::from(SigningKey::from_secret_scalar(SdkFelt::ONE)), sender, chain, ExecutionEncoding::New)
        .execute_v3(vec![Call { to, selector, calldata: payload.iter().map(sdk).collect() }])
        .nonce(nonce).tip(tip).l1_gas(l1).l1_gas_price(l1_price).l2_gas(l2).l2_gas_price(l2_price)
        .l1_data_gas(data).l1_data_gas_price(data_price).prepared().unwrap().transaction_hash(false);
    Felt::from_be_bytes(&hash.to_bytes_be()).unwrap()
}

/// The tag of an invoke transaction's hash, as a short string.
pub const INVOKE_TAG: u64 = 0x696e766f6b65;

/// The tag of the bounds on L1 gas, as a short string.
pub const L1_GAS_TAG: u64 = 0x4c315f474153;

/// The tag of the bounds on L2 gas, as a short string.
pub const L2_GAS_TAG: u64 = 0x4c325f474153;

/// The tag of the bounds on L1 data gas, as a short string.
pub const L1_DATA_TAG: u64 = 0x4c315f44415441;

/// The bounds on a resource as one value: its tag, then the amount in eight bytes, then the price in
/// sixteen.
pub open spec fn packed_bounds(tag: u64, bounds: (u64, u128)) -> nat {
    ((tag * 0x1_0000_0000_0000_0000 + bounds.0) * 0x1_0000_0000_0000_0000_0000_0000_0000_0000
        + bounds.1) as nat
}

/// The availability of the nonce's and the fee's data as one value: each in four bytes, zero on L1
/// and one on L2.
pub open spec fn packed_modes(on_l2: (bool, bool)) -> nat {
    (if on_l2.0 {
        0x1_0000_0000nat
    } else {
        0nat
    }) + (if on_l2.1 {
        1nat
    } else {
        0nat
    })
}

/// The hash that the Starknet protocol gives an invoke transaction of version three without paymaster
/// data and account deployment data, from the chain, the account and its nonce; the tip; the bounds
/// on the L1 gas, the L2 gas and the L1 data gas; where the nonce's and the fee's data are available;
/// and the calldata.
pub open spec fn protocol_hash(
    felts: Seq<nat>,
    tip: u64,
    bounds: Seq<(u64, u128)>,
    on_l2: (bool, bool),
    calldata: Seq<nat>,
) -> nat {
    let fees = poseidon_array(
        seq![
            tip as nat,
            packed_bounds(L1_GAS_TAG, bounds[0]),
            packed_bounds(L2_GAS_TAG, bounds[1]),
            packed_bounds(L1_DATA_TAG, bounds[2]),
        ],
    );
    let none = poseidon_array(Seq::empty());
    poseidon_array(
        seq![
            INVOKE_TAG as nat,
            3,
            felts[1],
            fees,
            none,
            felts[0],
            felts[2],
            packed_modes(on_l2),
            none,
            poseidon_array(calldata),
        ],
    )
}

/// The bounds on a resource as one value.
fn pack_bounds(tag: u64, bounds: (u64, u128)) -> (result: Felt)
    requires
        tag < 0x80_0000_0000_0000,
    ensures
        result@ == packed_bounds(tag, bounds),
{
    let high: u128 = tag as u128 * 0x1_0000_0000_0000_0000 + bounds.0 as u128;
    match Felt::from_limbs(high, bounds.1) {
        Some(packed) => packed,
        None => {
            assert(false);
            Felt::zero()
        },
    }
}

/// The hash of an invoke transaction of version three without paymaster data and account deployment
/// data, wherever the nonce's and the fee's data are available.
pub fn hash_invoke(
    felts: [Felt; 3],
    tip: u64,
    bounds: [(u64, u128); 3],
    on_l2: (bool, bool),
    calldata: &[Felt],
) -> (result: Felt)
    ensures
        result@ == protocol_hash(values(felts@), tip, bounds@, on_l2, values(calldata@)),
{
    let fee_fields: [Felt; 4] = [
        Felt::from_u64(tip),
        pack_bounds(L1_GAS_TAG, bounds[0]),
        pack_bounds(L2_GAS_TAG, bounds[1]),
        pack_bounds(L1_DATA_TAG, bounds[2]),
    ];
    assert(values(fee_fields@) =~= seq![
        tip as nat,
        packed_bounds(L1_GAS_TAG, bounds@[0]),
        packed_bounds(L2_GAS_TAG, bounds@[1]),
        packed_bounds(L1_DATA_TAG, bounds@[2]),
    ]);
    let empty: [Felt; 0] = [];
    assert(values(empty@) =~= Seq::empty());
    let none: Felt = poseidon(&empty);
    let nonce_mode: u64 = if on_l2.0 {
        0x1_0000_0000
    } else {
        0
    };
    let fee_mode: u64 = if on_l2.1 {
        1
    } else {
        0
    };
    let fields: [Felt; 10] = [
        Felt::from_u64(INVOKE_TAG),
        Felt::from_u64(3),
        felts[1],
        poseidon(&fee_fields),
        none,
        felts[0],
        felts[2],
        Felt::from_u64(nonce_mode + fee_mode),
        none,
        poseidon(calldata),
    ];
    assert(values(fields@) =~= seq![
        INVOKE_TAG as nat,
        3,
        felts@[1]@,
        fields@[3]@,
        none@,
        felts@[0]@,
        felts@[2]@,
        packed_modes(on_l2),
        none@,
        poseidon_array(values(calldata@)),
    ]);
    poseidon(&fields)
}

/// The hash of an invoke transaction holds each of its parts in the protocol's place: the word
/// `invoke` and the version, the account, the fees, the empty paymaster data, the chain, the nonce,
/// the availability modes, the empty account deployment data and the calldata. The fees hold the tip
/// and the bounds on the L1 gas, the L2 gas and the L1 data gas, each a word of seven bytes, an amount
/// of eight and a price of sixteen; the modes hold the nonce's above the fee's.
pub proof fn law_invoke_hash_holds_its_parts(
    felts: [Felt; 3],
    tip: u64,
    bounds: [(u64, u128); 3],
    on_l2: (bool, bool),
    calldata: &[Felt],
    result: Felt,
)
    requires
        call_ensures(hash_invoke, (felts, tip, bounds, on_l2, calldata), result),
    ensures
        ({
            let price = 0x1_0000_0000_0000_0000_0000_0000_0000_0000nat;
            let amount = 0x1_0000_0000_0000_0000nat;
            let l1 = (0x4c315f474153 * amount + bounds@[0].0) * price + bounds@[0].1;
            let l2 = (0x4c325f474153 * amount + bounds@[1].0) * price + bounds@[1].1;
            let data = (0x4c315f44415441 * amount + bounds@[2].0) * price + bounds@[2].1;
            let nonce_mode: nat = if on_l2.0 { 0x1_0000_0000 } else { 0 };
            let fee_mode: nat = if on_l2.1 { 1 } else { 0 };
            let empty = poseidon_array(Seq::<nat>::empty());
            result@ == poseidon_array(
                seq![
                    0x696e766f6b65,
                    3,
                    felts@[1]@,
                    poseidon_array(seq![tip as nat, l1 as nat, l2 as nat, data as nat]),
                    empty,
                    felts@[0]@,
                    felts@[2]@,
                    nonce_mode + fee_mode,
                    empty,
                    poseidon_array(values(calldata@)),
                ],
            )
        }),
{
    assert(values(felts@)[0] == felts@[0]@);
    assert(values(felts@)[1] == felts@[1]@);
    assert(values(felts@)[2] == felts@[2]@);
}

} // verus!
