//! Field elements of the Stark curve's base field, held as two 128-bit limbs.
//!
//! A [`Felt`] is always the canonical representative of its class: its value lies below the
//! field prime. Two elements with the same value are the same element.

use vstd::prelude::*;

verus! {

/// The high limb of the field prime `2^251 + 17 * 2^192 + 1`; its low limb is one.
pub const PRIME_HIGH: u128 = 0x0800_0000_0000_0011_0000_0000_0000_0000;

/// The field prime.
pub open spec fn prime() -> nat {
    (PRIME_HIGH * 0x1_0000_0000_0000_0000_0000_0000_0000_0000 + 1) as nat
}

/// The weight of a digit that has `n` bytes to its right.
pub open spec fn scale(n: nat) -> nat
    decreases n,
{
    if n == 0 {
        1
    } else {
        256 * scale((n - 1) as nat)
    }
}

/// The number that a byte string denotes, most significant byte first.
pub open spec fn be_value(bytes: Seq<u8>) -> nat
    decreases bytes.len(),
{
    if bytes.len() == 0 {
        0
    } else {
        be_value(bytes.drop_last()) * 256 + bytes.last() as nat
    }
}

/// Appending bytes shifts the number that stands before them.
pub proof fn lemma_be_value_concat(front: Seq<u8>, back: Seq<u8>)
    ensures
        be_value(front + back) == be_value(front) * scale(back.len()) + be_value(back),
    decreases back.len(),
{
    if back.len() == 0 {
        assert(front + back =~= front);
        assert(be_value(front) * 1 == be_value(front)) by (nonlinear_arith);
    } else {
        assert((front + back).drop_last() =~= front + back.drop_last());
        lemma_be_value_concat(front, back.drop_last());
        let a = be_value(front) as int;
        let n = scale((back.len() - 1) as nat) as int;
        assert(a * n * 256 == a * (256 * n)) by (nonlinear_arith);
    }
}

/// A byte string denotes a number below the weight of the digit to its left.
pub proof fn lemma_be_value_bound(bytes: Seq<u8>)
    ensures
        be_value(bytes) < scale(bytes.len()),
    decreases bytes.len(),
{
    if bytes.len() > 0 {
        lemma_be_value_bound(bytes.drop_last());
    }
}

/// Two byte strings of one length that denote the same number are the same.
pub proof fn lemma_be_value_injective(a: Seq<u8>, b: Seq<u8>)
    requires
        a.len() == b.len(),
        be_value(a) == be_value(b),
    ensures
        a == b,
    decreases a.len(),
{
    if a.len() > 0 {
        lemma_be_value_injective(a.drop_last(), b.drop_last());
        assert(a =~= a.drop_last().push(a.last()));
        assert(b =~= b.drop_last().push(b.last()));
    } else {
        assert(a =~= b);
    }
}

/// The number that sixteen bytes denote.
pub(crate) fn limb_from_bytes(bytes: &[u8], start: usize) -> (result: u128)
    requires
        start + 16 <= bytes@.len(),
    ensures
        result == be_value(bytes@.subrange(start as int, start + 16)),
{
    let length: usize = bytes.len();
    let mut value: u128 = 0;
    let mut i: usize = 0;
    assert(bytes@.subrange(start as int, start as int) =~= Seq::<u8>::empty());
    while i < 16
        invariant
            i <= 16,
            start + 16 <= length == bytes@.len(),
            value == be_value(bytes@.subrange(start as int, start + i)),
            value < scale(i as nat),
        decreases 16 - i,
    {
        proof {
            let next = bytes@.subrange(start as int, start + i + 1);
            assert(next.drop_last() =~= bytes@.subrange(start as int, start + i));
            assert(next.last() == bytes@[start + i]);
            lemma_scale_increases(i as nat + 1, 16);
            reveal_with_fuel(scale, 17);
        }
        value = value * 256 + bytes[start + i] as u128;
        i = i + 1;
    }
    value
}

proof fn lemma_scale_increases(a: nat, b: nat)
    requires
        a <= b,
    ensures
        scale(a) <= scale(b),
    decreases b - a,
{
    if a < b {
        lemma_scale_increases(a + 1, b);
    }
}

/// Writes a limb's sixteen bytes into `bytes` from `start` on.
pub(crate) fn limb_to_bytes(value: u128, bytes: &mut [u8; 32], start: usize)
    requires
        start + 16 <= 32,
    ensures
        be_value(final(bytes)@.subrange(start as int, start + 16)) == value,
        forall|i: int|
            0 <= i < 32 && !(start <= i < start + 16) ==> #[trigger] final(bytes)@[i] == old(bytes)@[i],
{
    let mut rest: u128 = value;
    let mut i: usize = 16;
    proof {
        assert(bytes@.subrange(start + 16, start + 16) =~= Seq::<u8>::empty());
        reveal_with_fuel(scale, 17);
        assert(value * 1 == value) by (nonlinear_arith);
    }
    while i > 0
        invariant
            i <= 16,
            start + 16 <= 32,
            rest < scale(i as nat),
            value == rest * scale((16 - i) as nat) + be_value(
                bytes@.subrange(start + i, start + 16),
            ),
            forall|k: int|
                0 <= k < 32 && !(start <= k < start + 16) ==> #[trigger] bytes@[k] == old(bytes)@[k],
        decreases i,
    {
        let ghost before = bytes@;
        let digit: u8 = (rest % 256) as u8;
        i = i - 1;
        bytes[start + i] = digit;
        proof {
            let tail = before.subrange(start + i + 1, start + 16);
            assert(bytes@ =~= before.update(start + i, digit));
            assert(bytes@.subrange(start + i, start + 16) =~= seq![digit] + tail);
            lemma_be_value_concat(seq![digit], tail);
            reveal_with_fuel(be_value, 2);
            assert(seq![digit].drop_last() =~= Seq::<u8>::empty());
            assert(be_value(seq![digit]) == digit);
            let n = scale((15 - i) as nat) as int;
            let q = (rest / 256) as int;
            let r = digit as int;
            assert((q * 256 + r) * n == q * (256 * n) + r * n) by (nonlinear_arith);
        }
        rest = rest / 256;
    }
    proof {
        assert(rest == 0);
    }
}

/// An element of the field, held as the canonical number below the field prime.
#[derive(Clone, Copy, Debug, PartialEq, Eq, Structural, Hash)]
pub struct Felt {
    high: u128,
    low: u128,
}

impl View for Felt {
    type V = nat;

    closed spec fn view(&self) -> nat {
        (self.high * 0x1_0000_0000_0000_0000_0000_0000_0000_0000 + self.low) as nat
    }
}

/// The values of a sequence of elements.
pub open spec fn values(felts: Seq<Felt>) -> Seq<nat> {
    felts.map_values(|f: Felt| f@)
}

/// Whether every element of a sequence is canonical.
pub open spec fn all_canonical(felts: Seq<Felt>) -> bool {
    forall|i: int| 0 <= i < felts.len() ==> (#[trigger] felts[i]).canonical()
}

/// An element is determined by its value.
pub broadcast proof fn lemma_felt_injective(a: Felt, b: Felt)
    requires
        #[trigger] a@ == #[trigger] b@,
    ensures
        a == b,
{
}

/// The element that has a value, where one has it.
pub open spec fn felt_of(value: nat) -> Felt {
    choose|felt: Felt| #[trigger] felt@ == value
}

/// An element is what its value names.
pub proof fn lemma_felt_of(felt: Felt)
    ensures
        felt_of(felt@) == felt,
{
    lemma_felt_injective(felt_of(felt@), felt);
}

/// An element is canonical where its value lies below the prime.
pub proof fn lemma_canonical(felt: Felt)
    ensures
        felt.canonical() <==> felt@ < prime(),
{
}

/// A sequence of elements is determined by its values.
pub proof fn lemma_values_injective(a: Seq<Felt>, b: Seq<Felt>)
    requires
        values(a) == values(b),
    ensures
        a == b,
{
    assert(a.len() == values(a).len());
    assert(b.len() == values(b).len());
    assert forall|i: int| 0 <= i < a.len() implies a[i] == b[i] by {
        assert(values(a)[i] == a[i]@);
        assert(values(b)[i] == b[i]@);
        lemma_felt_injective(a[i], b[i]);
    }
    assert(a =~= b);
}

impl Felt {
    /// Whether the value lies below the field prime. Every element does.
    #[verifier::type_invariant]
    pub closed spec fn canonical(self) -> bool {
        self.high < PRIME_HIGH || (self.high == PRIME_HIGH && self.low == 0)
    }

    /// The element zero.
    pub fn zero() -> (result: Felt)
        ensures
            result@ == 0,
    {
        Felt { high: 0, low: 0 }
    }

    /// The element one.
    pub fn one() -> (result: Felt)
        ensures
            result@ == 1,
    {
        Felt { high: 0, low: 1 }
    }

    /// The element two.
    pub fn two() -> (result: Felt)
        ensures
            result@ == 2,
    {
        Felt { high: 0, low: 2 }
    }

    /// The element with the given limbs, where the number they form is canonical.
    pub fn from_limbs(high: u128, low: u128) -> (result: Option<Felt>)
        ensures
            result is Some <==> high * 0x1_0000_0000_0000_0000_0000_0000_0000_0000 + low < prime(),
            result matches Some(felt) ==> felt@ == high
                * 0x1_0000_0000_0000_0000_0000_0000_0000_0000 + low && felt.canonical(),
    {
        if high < PRIME_HIGH || (high == PRIME_HIGH && low == 0) {
            Some(Felt { high, low })
        } else {
            None
        }
    }

    /// The element with a 128-bit value.
    pub fn from_u128(value: u128) -> (result: Felt)
        ensures
            result@ == value,
    {
        Felt { high: 0, low: value }
    }

    /// The element with a 64-bit value.
    pub fn from_u64(value: u64) -> (result: Felt)
        ensures
            result@ == value,
    {
        Felt { high: 0, low: value as u128 }
    }

    /// The value, where it fits in 128 bits.
    pub fn to_u128(&self) -> (result: Option<u128>)
        ensures
            result is Some <==> self@ <= u128::MAX,
            result matches Some(value) ==> value == self@,
    {
        if self.high == 0 {
            Some(self.low)
        } else {
            None
        }
    }

    /// The value, where it fits in 64 bits.
    pub fn to_u64(&self) -> (result: Option<u64>)
        ensures
            result is Some <==> self@ <= u64::MAX,
            result matches Some(value) ==> value == self@,
    {
        if self.high == 0 && self.low <= u64::MAX as u128 {
            Some(self.low as u64)
        } else {
            None
        }
    }

    /// The value, where it fits in 32 bits.
    pub fn to_u32(&self) -> (result: Option<u32>)
        ensures
            result is Some <==> self@ <= u32::MAX,
            result matches Some(value) ==> value == self@,
    {
        if self.high == 0 && self.low <= u32::MAX as u128 {
            Some(self.low as u32)
        } else {
            None
        }
    }

    /// The value, where it fits in 16 bits.
    pub fn to_u16(&self) -> (result: Option<u16>)
        ensures
            result is Some <==> self@ <= u16::MAX,
            result matches Some(value) ==> value == self@,
    {
        if self.high == 0 && self.low <= u16::MAX as u128 {
            Some(self.low as u16)
        } else {
            None
        }
    }

    /// The value, where it fits in 8 bits.
    pub fn to_u8(&self) -> (result: Option<u8>)
        ensures
            result is Some <==> self@ <= u8::MAX,
            result matches Some(value) ==> value == self@,
    {
        if self.high == 0 && self.low <= u8::MAX as u128 {
            Some(self.low as u8)
        } else {
            None
        }
    }

    /// The value, where it fits in a machine word.
    pub fn to_usize(&self) -> (result: Option<usize>)
        ensures
            result is Some <==> self@ <= usize::MAX,
            result matches Some(value) ==> value == self@,
    {
        if self.high == 0 && self.low <= usize::MAX as u128 {
            Some(self.low as usize)
        } else {
            None
        }
    }

    /// The value's thirty-two bytes, most significant first.
    pub fn to_be_bytes(&self) -> (result: [u8; 32])
        ensures
            be_value(result@) == self@,
    {
        let mut bytes: [u8; 32] = [0u8; 32];
        limb_to_bytes(self.high, &mut bytes, 0);
        let ghost first = bytes@;
        limb_to_bytes(self.low, &mut bytes, 16);
        proof {
            assert(bytes@.subrange(0, 16) =~= first.subrange(0, 16));
            assert(bytes@ =~= bytes@.subrange(0, 16) + bytes@.subrange(16, 32));
            lemma_be_value_concat(bytes@.subrange(0, 16), bytes@.subrange(16, 32));
            reveal_with_fuel(scale, 17);
        }
        bytes
    }

    /// The element whose value the bytes from `start` on denote, where that is canonical.
    pub fn read_be_bytes(bytes: &[u8], start: usize) -> (result: Option<Felt>)
        requires
            start + 32 <= bytes@.len(),
        ensures
            result is Some <==> be_value(bytes@.subrange(start as int, start + 32)) < prime(),
            result matches Some(felt) ==> felt@ == be_value(
                bytes@.subrange(start as int, start + 32),
            ) && felt.canonical(),
    {
        let length: usize = bytes.len();
        assert(start + 32 <= length);
        let high: u128 = limb_from_bytes(bytes, start);
        let low: u128 = limb_from_bytes(bytes, start + 16);
        proof {
            let whole = bytes@.subrange(start as int, start + 32);
            let front = bytes@.subrange(start as int, start + 16);
            let back = bytes@.subrange(start + 16, start + 32);
            assert(whole =~= front + back);
            lemma_be_value_concat(front, back);
            reveal_with_fuel(scale, 17);
        }
        Felt::from_limbs(high, low)
    }

    /// The element whose value thirty-two bytes denote, where that is canonical.
    pub fn from_be_bytes(bytes: &[u8; 32]) -> (result: Option<Felt>)
        ensures
            result is Some <==> be_value(bytes@) < prime(),
            result matches Some(felt) ==> felt@ == be_value(bytes@) && felt.canonical(),
    {
        let slice: &[u8] = bytes;
        assert(slice@.subrange(0, 32) =~= bytes@);
        Felt::read_be_bytes(slice, 0)
    }

    /// Whether the value is smaller than another's.
    pub fn less_than(&self, other: &Felt) -> (result: bool)
        ensures
            result == (self@ < other@),
    {
        self.high < other.high || (self.high == other.high && self.low < other.low)
    }
}

impl From<u64> for Felt {
    fn from(value: u64) -> (result: Felt) {
        Felt { high: 0, low: value as u128 }
    }
}

impl vstd::std_specs::convert::FromSpecImpl<u64> for Felt {
    open spec fn obeys_from_spec() -> bool {
        true
    }

    closed spec fn from_spec(value: u64) -> Felt {
        Felt { high: 0, low: value as u128 }
    }
}

/// A byte string denotes the number that its last byte adds to 256 times what stands before it, and
/// no byte denotes zero; the prime is `2^251 + 17 * 2^192 + 1`.
pub proof fn law_bytes_are_digits(front: Seq<u8>, last: u8)
    ensures
        be_value(Seq::<u8>::empty()) == 0,
        be_value(front.push(last)) == 256 * be_value(front) + last,
        prime() == 0x800000000000011000000000000000000000000000000000000000000000001nat,
{
    assert(front.push(last).drop_last() =~= front);
}

/// An element is read back from its thirty-two bytes, and bytes that are read are written again; bytes
/// that denote the prime or more are no element's.
pub proof fn law_element_is_read_back_from_its_bytes(
    felt: &Felt,
    written: [u8; 32],
    bytes: &[u8; 32],
    read: Option<Felt>,
)
    requires
        felt.canonical(),
        call_ensures(Felt::to_be_bytes, (felt,), written),
        call_ensures(Felt::from_be_bytes, (bytes,), read),
    ensures
        bytes@ == written@ ==> read == Some(*felt),
        read == Some(*felt) ==> bytes@ == written@,
        read is Some <==> be_value(bytes@)
            < 0x800000000000011000000000000000000000000000000000000000000000001nat,
{
    lemma_canonical(*felt);
    if bytes@ == written@ {
        lemma_felt_injective(read->0, *felt);
    }
    if read == Some(*felt) {
        lemma_be_value_injective(bytes@, written@);
    }
}

/// A value is read in a width exactly where it fits, and an element made from a number has it.
pub proof fn law_numbers_are_read_in_their_width(
    felt: &Felt,
    byte: Option<u8>,
    short: Option<u16>,
    word: Option<u32>,
    long: Option<u64>,
    wide: Option<u128>,
    number: u64,
    large: u128,
    from_number: Felt,
    from_large: Felt,
)
    requires
        call_ensures(Felt::to_u8, (felt,), byte),
        call_ensures(Felt::to_u16, (felt,), short),
        call_ensures(Felt::to_u32, (felt,), word),
        call_ensures(Felt::to_u64, (felt,), long),
        call_ensures(Felt::to_u128, (felt,), wide),
        call_ensures(Felt::from_u64, (number,), from_number),
        call_ensures(Felt::from_u128, (large,), from_large),
    ensures
        byte is Some <==> felt@ < 0x100,
        short is Some <==> felt@ < 0x1_0000,
        word is Some <==> felt@ < 0x1_0000_0000,
        long is Some <==> felt@ < 0x1_0000_0000_0000_0000nat,
        wide is Some <==> felt@ < 0x1_0000_0000_0000_0000_0000_0000_0000_0000nat,
        byte is Some ==> byte->0 == felt@,
        short is Some ==> short->0 == felt@,
        word is Some ==> word->0 == felt@,
        long is Some ==> long->0 == felt@,
        wide is Some ==> wide->0 == felt@,
        from_number@ == number,
        from_large@ == large,
{
}

/// Elements are ordered by their values: of two different ones exactly one is less.
pub proof fn law_elements_are_ordered(a: &Felt, b: &Felt, less: bool, greater: bool)
    requires
        call_ensures(Felt::less_than, (a, b), less),
        call_ensures(Felt::less_than, (b, a), greater),
    ensures
        less <==> a@ < b@,
        less || greater <==> *a != *b,
        !(less && greater),
{
    if a@ == b@ {
        lemma_felt_injective(*a, *b);
    }
}

} // verus!
