//! The curve and hash functions of the Starknet libraries, behind declarations that the rest
//! of the crate is proved against.

use crate::felt::{values, Felt};
use starknet_core::utils::get_selector_from_name;
use starknet_signers::SigningKey;
use starknet_types_core::curve::{AffinePoint, ProjectivePoint};
use starknet_types_core::felt::Felt as SdkFelt;
use starknet_types_core::hash::{Poseidon, StarkHash};
use vstd::prelude::*;
use vstd::utf8::is_ascii_chars;

verus! {

/// The Poseidon hash of an array of field elements, given by their values.
pub uninterp spec fn poseidon_array(fields: Seq<nat>) -> nat;

/// The entry point selector of a contract function's name.
pub uninterp spec fn selector(name: Seq<char>) -> nat;

/// The coordinates of a multiple of the curve point with `x` coordinate `x` whose `y` coordinate is
/// odd or even: no value where no point has that `x`, and no coordinates where the multiple is the
/// point at infinity.
pub uninterp spec fn curve_multiple(x: nat, odd: bool, factor: nat) -> Option<Option<(nat, nat)>>;

/// What checking a signature against a public key and a message reports: no value where the
/// key, the message or the signature is out of range.
pub uninterp spec fn signature_check(public_key: nat, message: nat, r: nat, s: nat) -> Option<bool>;

/// Calls `Poseidon::hash_array` of `starknet-types-core`: the result is the hash of the
/// elements' values, in order.
#[verifier::external_body]
pub(crate) fn poseidon(fields: &[Felt]) -> (result: Felt)
    ensures
        result@ == poseidon_array(values(fields@)),
        result.canonical(),
{
    let fields: Vec<SdkFelt> = fields.iter().map(|f| SdkFelt::from_bytes_be(&f.to_be_bytes())).collect();
    Felt::from_be_bytes(&Poseidon::hash_array(&fields).to_bytes_be()).unwrap()
}

/// Calls `get_selector_from_name` of `starknet-core`: a name of ASCII characters has a
/// selector, which depends on the name alone; another name has none.
#[verifier::external_body]
pub(crate) fn entry_point(name: &str) -> (result: Option<Felt>)
    ensures
        result is Some <==> is_ascii_chars(name@),
        result matches Some(felt) ==> felt@ == selector(name@) && felt.canonical(),
{
    let found = get_selector_from_name(name).ok()?;
    Felt::from_be_bytes(&found.to_bytes_be())
}

/// The selector of a name of ASCII characters.
pub fn known_selector(name: &str) -> (result: Felt)
    requires
        is_ascii_chars(name@),
    ensures
        result@ == selector(name@),
{
    match entry_point(name) {
        Some(felt) => felt,
        None => {
            assert(false);
            Felt::zero()
        },
    }
}

/// A multiple of a curve point by its coordinates' values.
pub open spec fn point_view(point: Option<Option<(Felt, Felt)>>) -> Option<Option<(nat, nat)>> {
    match point {
        Some(Some((x, y))) => Some(Some((x@, y@))),
        Some(None) => Some(None),
        None => None,
    }
}

/// Calls `AffinePoint::new_from_x` of `starknet-types-core`, multiplies the point it finds as a
/// `ProjectivePoint` and reads the coordinates of the product's affine form, which the point at
/// infinity does not have. They depend on the arguments alone.
#[verifier::external_body]
pub(crate) fn multiple(x: Felt, odd: bool, factor: Felt) -> (result: Option<Option<(Felt, Felt)>>)
    ensures
        point_view(result) == curve_multiple(x@, odd, factor@),
{
    let point = AffinePoint::new_from_x(&SdkFelt::from_bytes_be(&x.to_be_bytes()), odd)?;
    let point = ProjectivePoint::from_affine(point.x(), point.y()).ok()?;
    let product = &point * SdkFelt::from_bytes_be(&factor.to_be_bytes());
    let own = |f: SdkFelt| Felt::from_be_bytes(&f.to_bytes_be());
    Some(product.to_affine().ok().and_then(|p| Some((own(p.x())?, own(p.y())?))))
}

/// The elements of the signature that a secret key gives a message; no value where the message is
/// out of range.
pub uninterp spec fn signature_of(secret: nat, message: nat) -> Option<(nat, nat)>;

/// The order of the curve's group.
pub open spec fn curve_order() -> nat {
    0x0800000000000010ffffffffffffffff_b781126dcae7b2321e66a241adc64d2fnat
}

/// Whether no signature exists: a secret key of zero gives the message zero none.
pub open spec fn unsignable(secret: nat, message: nat) -> bool {
    message == 0 && (secret == 0 || secret == curve_order())
}

/// Calls `SigningKey::sign` of `starknet-signers`, whose nonces derive from the key and the message,
/// so that the signature depends on these alone. It tries nonces until one gives a signature, which
/// none does where no signature exists.
#[verifier::external_body]
fn sign_message(secret: Felt, message: Felt) -> (result: Option<(Felt, Felt)>)
    requires
        !unsignable(secret@, message@),
    ensures
        match result {
            Some((r, s)) => signature_of(secret@, message@) == Some((r@, s@)),
            None => signature_of(secret@, message@) is None,
        },
{
    let [secret, message] = [secret, message].map(|f| SdkFelt::from_bytes_be(&f.to_be_bytes()));
    let signature = SigningKey::from_secret_scalar(secret).sign(&message).ok()?;
    let own = |f: SdkFelt| Felt::from_be_bytes(&f.to_bytes_be());
    Some((own(signature.r)?, own(signature.s)?))
}

/// The elements of the signature that a secret key gives a message: none where the message is out
/// of range, or where no signature exists.
pub fn sign(secret: Felt, message: Felt) -> (result: Option<(Felt, Felt)>)
    ensures
        match result {
            Some((r, s)) => !unsignable(secret@, message@) && signature_of(secret@, message@)
                == Some((r@, s@)),
            None => unsignable(secret@, message@) || signature_of(secret@, message@) is None,
        },
{
    broadcast use crate::felt::lemma_felt_injective;

    let order: Option<Felt> = Felt::from_limbs(ORDER_HIGH, ORDER_LOW);
    let order: Felt = match order {
        Some(found) => found,
        None => {
            assert(false);
            return None;
        },
    };
    assert(order@ == curve_order());
    if message == Felt::zero() && (secret == Felt::zero() || secret == order) {
        return None;
    }
    sign_message(secret, message)
}

/// The high limb of the order of the curve's group.
const ORDER_HIGH: u128 = 0x0800000000000010ffffffffffffffff;

/// The low limb of the order of the curve's group.
const ORDER_LOW: u128 = 0xb781126dcae7b2321e66a241adc64d2f;

/// The high limb of the `x` coordinate of the curve's generator.
const GENERATOR_HIGH: u128 = 0x01ef15c18599971b7beced415a40f0c7;

/// The low limb of the `x` coordinate of the curve's generator.
const GENERATOR_LOW: u128 = 0xdeacfd9b0d1819e03d723d8bc943cfca;

/// The `x` coordinate of the curve's generator.
pub open spec fn generator() -> nat {
    0x01ef15c18599971b7beced415a40f0c7_deacfd9b0d1819e03d723d8bc943cfcanat
}

/// A multiple of the curve point with `x` coordinate `x` and the smaller of the two `y` coordinates:
/// the point that a public key stands for, and the generator where `x` is the generator's.
pub open spec fn key_multiple(x: nat, factor: nat) -> Option<Option<(nat, nat)>> {
    match (curve_multiple(x, true, 1), curve_multiple(x, false, 1)) {
        (Some(Some(odd)), Some(Some(even))) => curve_multiple(x, odd.1 < even.1, factor),
        _ => None,
    }
}

/// A multiple of the point that a public key stands for.
fn multiply_key(x: Felt, factor: Felt) -> (result: Option<Option<(Felt, Felt)>>)
    ensures
        point_view(result) == key_multiple(x@, factor@),
{
    match (multiple(x, true, Felt::one()), multiple(x, false, Felt::one())) {
        (Some(Some(odd)), Some(Some(even))) => multiple(x, odd.1.less_than(&even.1), factor),
        _ => None,
    }
}

/// Whether the two points whose sum and difference the check of a signature compares agree in
/// their `x` coordinate, so that one of sum and difference is the point at infinity.
pub open spec fn degenerate(public_key: nat, message: nat, r: nat) -> bool {
    match (key_multiple(public_key, r), key_multiple(generator(), message)) {
        (Some(Some(a)), Some(Some(b))) => a.0 == b.0,
        (Some(None), Some(None)) => true,
        _ => false,
    }
}

/// Whether the two points whose sum and difference the check of a signature compares are one and the
/// same, and not the point at infinity.
pub open spec fn coincident(public_key: nat, message: nat, r: nat) -> bool {
    match (key_multiple(public_key, r), key_multiple(generator(), message)) {
        (Some(Some(a)), Some(Some(b))) => a == b,
        _ => false,
    }
}

/// Whether the check of a signature meets no point at infinity and finds the signature valid.
pub open spec fn regularly_valid(public_key: nat, message: nat, r: nat, s: nat) -> bool {
    !degenerate(public_key, message, r) && signature_check(public_key, message, r, s) == Some(true)
}

/// The number from which on a message is out of range.
pub open spec fn message_bound() -> nat {
    0x08000000000000000000000000000000_00000000000000000000000000000000nat
}

/// Whether a signature over a message is valid under a public key. Where the two points that the
/// check compares are the same, their sum is its double: the signature is then valid where the
/// doubled key's signature over zero is, whose check compares that double. One whose check needs the
/// coordinates of the point at infinity is not valid.
pub open spec fn signature_valid(public_key: nat, message: nat, r: nat, s: nat) -> bool {
    if coincident(public_key, message, r) {
        &&& message < message_bound()
        &&& match key_multiple(public_key, 2) {
            Some(Some(doubled)) => regularly_valid(doubled.0, 0, r, s),
            _ => false,
        }
    } else {
        regularly_valid(public_key, message, r, s)
    }
}

/// Calls `verify` of `starknet-crypto`, which depends on its arguments alone and reports an
/// error for a key, message or signature out of range. It unwraps the affine form of a sum and
/// of a difference of points, which exist unless the signature is degenerate.
#[verifier::external_body]
fn check_signature(public_key: Felt, message: Felt, r: Felt, s: Felt) -> (result: Option<bool>)
    requires
        !degenerate(public_key@, message@, r@),
    ensures
        result == signature_check(public_key@, message@, r@, s@),
{
    let [public_key, message, r, s] = [public_key, message, r, s].map(|f| SdkFelt::from_bytes_be(&f.to_be_bytes()));
    starknet_crypto::verify(&public_key, &message, &r, &s).ok()
}

/// The `x` coordinate of the curve's generator.
fn generator_x() -> (result: Felt)
    ensures
        result@ == generator(),
{
    match Felt::from_limbs(GENERATOR_HIGH, GENERATOR_LOW) {
        Some(found) => found,
        None => {
            assert(false);
            Felt::zero()
        },
    }
}

/// Checks a signature whose check meets no point at infinity; any other is not valid.
fn verify_regular(public_key: Felt, message: Felt, r: Felt, s: Felt) -> (result: bool)
    ensures
        result == regularly_valid(public_key@, message@, r@, s@),
{
    broadcast use crate::felt::lemma_felt_injective;

    let degenerate: bool = match (multiply_key(public_key, r), multiply_key(generator_x(), message)) {
        (Some(Some(a)), Some(Some(b))) => a.0 == b.0,
        (Some(None), Some(None)) => true,
        _ => false,
    };
    !degenerate && matches!(check_signature(public_key, message, r, s), Some(true))
}

/// Checks a signature over a message against a public key.
pub fn verify_signature(public_key: Felt, message: Felt, r: Felt, s: Felt) -> (result: bool)
    ensures
        result == signature_valid(public_key@, message@, r@, s@),
{
    broadcast use crate::felt::lemma_felt_injective;

    let coincident: bool = match (multiply_key(public_key, r), multiply_key(generator_x(), message)) {
        (Some(Some(a)), Some(Some(b))) => a.0 == b.0 && a.1 == b.1,
        _ => false,
    };
    if !coincident {
        return verify_regular(public_key, message, r, s);
    }
    let bound: Felt = match Felt::from_limbs(0x08000000000000000000000000000000, 0) {
        Some(bound) => bound,
        None => {
            assert(false);
            return false;
        },
    };
    if !message.less_than(&bound) {
        return false;
    }
    match multiply_key(public_key, Felt::two()) {
        Some(Some(doubled)) => verify_regular(doubled.0, Felt::zero(), r, s),
        _ => false,
    }
}

/// A signature is valid where the check finds it so and the two points that the check compares, the
/// key's multiple by the signature's first element and the generator's by the message, differ in their
/// first coordinate. Two points that differ in the second alone, or that both lie at infinity, make no
/// valid signature. Where they are the same point, the message must be in range and the doubled key's
/// signature over zero valid.
pub proof fn law_signature_is_checked_away_from_infinity(
    public_key: Felt,
    message: Felt,
    r: Felt,
    s: Felt,
    result: bool,
)
    requires
        call_ensures(verify_signature, (public_key, message, r, s), result),
    ensures
        ({
            let generator_x =
                0x01ef15c18599971b7beced415a40f0c7_deacfd9b0d1819e03d723d8bc943cfcanat;
            let key = key_multiple(public_key@, r@);
            let base = key_multiple(generator_x, message@);
            let finite = key is Some && key->0 is Some && base is Some && base->0 is Some;
            let (a, b) = (key->0->0, base->0->0);
            let checked = signature_check(public_key@, message@, r@, s@) == Some(true);
            &&& finite && a.0 != b.0 ==> (result <==> checked)
            &&& finite && a.0 == b.0 && a.1 != b.1 ==> !result
            &&& finite && a == b && message@
                >= 0x08000000000000000000000000000000_00000000000000000000000000000000nat
                ==> !result
            &&& key == Some(None::<(nat, nat)>) && base == Some(None::<(nat, nat)>) ==> !result
            &&& key is None || base is None ==> (result <==> checked)
            &&& key == Some(None::<(nat, nat)>) && base is Some && base->0 is Some ==> (result
                <==> checked)
        }),
{
}

/// The point that a public key stands for is, of the two with its first coordinate, the one with the
/// smaller second coordinate.
pub proof fn law_key_is_the_point_with_the_smaller_coordinate(
    x: nat,
    factor: nat,
    odd: (nat, nat),
    even: (nat, nat),
)
    requires
        curve_multiple(x, true, 1) == Some(Some(odd)),
        curve_multiple(x, false, 1) == Some(Some(even)),
    ensures
        odd.1 < even.1 ==> key_multiple(x, factor) == curve_multiple(x, true, factor),
        odd.1 >= even.1 ==> key_multiple(x, factor) == curve_multiple(x, false, factor),
{
}

/// A secret signs a message where a signature is to be had, and then with the one that depends on the
/// two alone; the secret zero, or the order of the curve's group, gives the message zero none.
pub proof fn law_signing_depends_on_secret_and_message(
    secret: Felt,
    message: Felt,
    result: Option<(Felt, Felt)>,
)
    requires
        call_ensures(sign, (secret, message), result),
    ensures
        ({
            let order = 0x0800000000000010ffffffffffffffff_b781126dcae7b2321e66a241adc64d2fnat;
            let none = message@ == 0 && (secret@ == 0 || secret@ == order);
            &&& none ==> result is None
            &&& !none ==> (result is Some <==> signature_of(secret@, message@) is Some)
            &&& result is Some ==> signature_of(secret@, message@) == Some(
                ((result->0).0@, (result->0).1@),
            )
        }),
{
}

/// Where the two points that the check compares are the same and the message is in range, a signature is
/// valid exactly where the doubled key's signature over zero is. No multiple of the generator by zero
/// is finite.
pub proof fn law_same_points_are_checked_by_their_double(
    public_key: Felt,
    message: Felt,
    r: Felt,
    s: Felt,
    point: (nat, nat),
    doubled: Felt,
    y: nat,
    zero: Felt,
    result: bool,
    again: bool,
)
    requires
        key_multiple(public_key@, r@) == Some(Some(point)),
        key_multiple(generator(), message@) == Some(Some(point)),
        message@ < 0x08000000000000000000000000000000_00000000000000000000000000000000nat,
        key_multiple(public_key@, 2) == Some(Some((doubled@, y))),
        key_multiple(generator(), 0) == Some(None::<(nat, nat)>),
        zero@ == 0,
        call_ensures(verify_signature, (public_key, message, r, s), result),
        call_ensures(verify_signature, (doubled, zero, r, s), again),
    ensures
        result == again,
{
}

} // verus!
