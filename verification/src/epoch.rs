//! Epoch secrets: the chain holds a commitment while an epoch is open, every root of the epoch
//! derives from the secret, and revealing the secret lets anyone check them.

use crate::felt::{be_value, lemma_be_value_injective, values, Felt};
use crate::protocol::{limbs, root_limbs};
use crate::stark::{poseidon, poseidon_array};
use crate::ticket::{os_filled, os_root, EntropyError};
use vstd::prelude::*;

verus! {

/// The tag that an epoch's commitment starts with.
pub const EPOCH_TAG: u128 = 0x455445524e554d5f45504f4348;

/// Why an epoch refused an operation.
#[derive(Clone, Copy, Debug, PartialEq, Eq, Structural)]
pub enum EpochError {
    /// The epoch would hold no order.
    Range,
    /// The operating system's source failed, with the given error number.
    Source(i32),
    /// The operating system filled a part of the secret.
    Incomplete,
    /// The order is not one of the epoch's.
    Order,
}

/// An epoch error in words, without the system's own for an error number.
pub open spec fn epoch_error_text(error: EpochError) -> Seq<char> {
    match error {
        EpochError::Range => "invalid epoch range"@,
        EpochError::Source(_) => "epoch entropy source failed"@,
        EpochError::Incomplete => "incomplete epoch entropy"@,
        EpochError::Order => "order outside epoch"@,
    }
}

impl EpochError {
    /// The error in words, without the system's own for an error number.
    pub fn message(&self) -> (result: &'static str)
        ensures
            result@ == epoch_error_text(*self),
    {
        match self {
            EpochError::Range => "invalid epoch range",
            EpochError::Source(_) => "epoch entropy source failed",
            EpochError::Incomplete => "incomplete epoch entropy",
            EpochError::Order => "order outside epoch",
        }
    }
}

/// The value of the commitment to a secret.
pub open spec fn secret_commitment(secret: Seq<u8>) -> nat {
    poseidon_array(seq![EPOCH_TAG as nat, 1nat, limbs(secret).0, limbs(secret).1])
}

/// The elements that reveal a secret.
pub open spec fn secret_reveal(secret: Seq<u8>) -> Seq<nat> {
    seq![limbs(secret).0, limbs(secret).1]
}

/// The value of the root that a secret gives an order.
pub open spec fn order_root(secret: Seq<u8>, order: u64) -> nat {
    poseidon_array(seq![limbs(secret).0, limbs(secret).1, order as nat])
}

/// The value of the root that a secret gives an order of a game.
pub open spec fn game_root(secret: Seq<u8>, game: nat, order: u64) -> nat {
    poseidon_array(seq![limbs(secret).0, limbs(secret).1, game, order as nat])
}

/// The limbs of a secret as elements.
fn secret_felts(secret: [u8; 32]) -> (result: [Felt; 2])
    ensures
        values(result@) == secret_reveal(secret@),
{
    let (low, high) = root_limbs(secret);
    let fields: [Felt; 2] = [Felt::from_u128(low), Felt::from_u128(high)];
    assert(values(fields@) =~= secret_reveal(secret@));
    fields
}

/// The commitment to a secret.
fn commit(secret: [u8; 32]) -> (result: Felt)
    ensures
        result@ == secret_commitment(secret@),
{
    let halves: [Felt; 2] = secret_felts(secret);
    assert(values(halves@)[0] == halves@[0]@ && values(halves@)[1] == halves@[1]@);
    let fields: [Felt; 4] = [Felt::from_u128(EPOCH_TAG), Felt::one(), halves[0], halves[1]];
    assert(values(fields@) =~= seq![
        EPOCH_TAG as nat,
        1nat,
        limbs(secret@).0,
        limbs(secret@).1,
    ]);
    poseidon(&fields)
}

/// The secret of an epoch that holds a range of orders. Only the secret survives a restart:
/// tickets, assigned orders and roots do not.
pub struct EpochSecret {
    first_order: u64,
    last_order: u64,
    secret: [u8; 32],
}

/// The contents of an [`EpochSecret`].
#[verifier::ext_equal]
pub struct EpochView {
    pub first_order: u64,
    pub last_order: u64,
    pub secret: Seq<u8>,
}

impl View for EpochSecret {
    type V = EpochView;

    closed spec fn view(&self) -> EpochView {
        EpochView {
            first_order: self.first_order,
            last_order: self.last_order,
            secret: self.secret@,
        }
    }
}

/// The epoch's error where a source did not fill its secret.
pub open spec fn unfilled(error: EntropyError) -> EpochError {
    match error {
        EntropyError::Source(code) => EpochError::Source(code),
        EntropyError::Short => EpochError::Incomplete,
    }
}

/// The epoch's error where a source did not fill its secret.
fn entropy_error(error: EntropyError) -> (result: EpochError)
    ensures
        result == unfilled(error),
{
    match error {
        EntropyError::Source(code) => EpochError::Source(code),
        EntropyError::Short => EpochError::Incomplete,
    }
}

/// The epoch that a range of orders and what a source filled make.
pub open spec fn created(
    first_order: u64,
    last_order: u64,
    filled: Result<[u8; 32], EntropyError>,
) -> Result<EpochView, EpochError> {
    if !(0 < first_order <= last_order) {
        Err(EpochError::Range)
    } else {
        match filled {
            Ok(secret) => Ok(EpochView { first_order, last_order, secret: secret@ }),
            Err(error) => Err(unfilled(error)),
        }
    }
}

/// An epoch by its contents, where there is one.
pub open spec fn epoch_result(result: Result<EpochSecret, EpochError>) -> Result<
    EpochView,
    EpochError,
> {
    match result {
        Ok(epoch) => Ok(epoch@),
        Err(error) => Err(error),
    }
}

impl EpochSecret {
    /// A fresh epoch for a range of orders, with a secret from the operating system.
    pub fn create(first_order: u64, last_order: u64) -> (result: Result<EpochSecret, EpochError>)
        ensures
            !(0 < first_order <= last_order) ==> result is Err && result->Err_0
                == EpochError::Range,
            0 < first_order <= last_order ==> exists|filled: Result<[u8; 32], EntropyError>|
                #[trigger] os_filled(filled) && epoch_result(result) == created(
                    first_order,
                    last_order,
                    filled,
                ),
    {
        if first_order == 0 || last_order < first_order {
            return Err(EpochError::Range);
        }
        let filled: Result<[u8; 32], EntropyError> = os_root();
        EpochSecret::create_with(first_order, last_order, filled)
    }

    /// An epoch for a range of orders, with the secret that a source filled.
    pub fn create_with(
        first_order: u64,
        last_order: u64,
        filled: Result<[u8; 32], EntropyError>,
    ) -> (result: Result<EpochSecret, EpochError>)
        ensures
            epoch_result(result) == created(first_order, last_order, filled),
    {
        if first_order == 0 || last_order < first_order {
            return Err(EpochError::Range);
        }
        match filled {
            Ok(secret) => Ok(EpochSecret { first_order, last_order, secret }),
            Err(error) => Err(entropy_error(error)),
        }
    }

    /// The epoch that was retained.
    pub fn restore(first_order: u64, last_order: u64, secret: [u8; 32]) -> (result: EpochSecret)
        ensures
            result@ == (EpochView { first_order, last_order, secret: secret@ }),
    {
        EpochSecret { first_order, last_order, secret }
    }

    /// The first order of the epoch.
    pub fn first_order(&self) -> (result: u64)
        ensures
            result == self@.first_order,
    {
        self.first_order
    }

    /// The last order of the epoch.
    pub fn last_order(&self) -> (result: u64)
        ensures
            result == self@.last_order,
    {
        self.last_order
    }

    /// The secret's bytes, to be retained.
    pub fn secret(&self) -> (result: [u8; 32])
        ensures
            result@ == self@.secret,
    {
        self.secret
    }

    /// The commitment to the secret.
    pub fn commitment(&self) -> (result: Felt)
        ensures
            result@ == secret_commitment(self@.secret),
    {
        commit(self.secret)
    }

    /// The root of an order of the epoch.
    pub fn root(&self, order: u64) -> (result: Result<[u8; 32], EpochError>)
        ensures
            match result {
                Ok(root) => self@.first_order <= order <= self@.last_order && be_value(root@)
                    == order_root(self@.secret, order),
                Err(error) => !(self@.first_order <= order <= self@.last_order) && error
                    == EpochError::Order,
            },
    {
        if order < self.first_order || order > self.last_order {
            return Err(EpochError::Order);
        }
        let halves: [Felt; 2] = secret_felts(self.secret);
        assert(values(halves@)[0] == halves@[0]@ && values(halves@)[1] == halves@[1]@);
        let fields: [Felt; 3] = [halves[0], halves[1], Felt::from_u64(order)];
        assert(values(fields@) =~= seq![
            limbs(self@.secret).0,
            limbs(self@.secret).1,
            order as nat,
        ]);
        Ok(poseidon(&fields).to_be_bytes())
    }

    /// The elements that reveal the secret.
    pub fn revealed(&self) -> (result: [Felt; 2])
        ensures
            values(result@) == secret_reveal(self@.secret),
    {
        secret_felts(self.secret)
    }
}

/// The secret of a numbered epoch, which gives every game's orders their roots.
pub struct GameEpoch {
    epoch: u64,
    secret: [u8; 32],
}

/// The contents of a [`GameEpoch`].
#[verifier::ext_equal]
pub struct GameEpochView {
    pub epoch: u64,
    pub secret: Seq<u8>,
}

impl View for GameEpoch {
    type V = GameEpochView;

    closed spec fn view(&self) -> GameEpochView {
        GameEpochView { epoch: self.epoch, secret: self.secret@ }
    }
}

/// The epoch that a number and what a source filled make.
pub open spec fn game_created(epoch: u64, filled: Result<[u8; 32], EntropyError>) -> Result<
    GameEpochView,
    EpochError,
> {
    match filled {
        Ok(secret) => Ok(GameEpochView { epoch, secret: secret@ }),
        Err(error) => Err(unfilled(error)),
    }
}

/// A numbered epoch by its contents, where there is one.
pub open spec fn game_epoch_result(result: Result<GameEpoch, EpochError>) -> Result<
    GameEpochView,
    EpochError,
> {
    match result {
        Ok(epoch) => Ok(epoch@),
        Err(error) => Err(error),
    }
}

impl GameEpoch {
    /// A fresh epoch, with a secret from the operating system.
    pub fn create(epoch: u64) -> (result: Result<GameEpoch, EpochError>)
        ensures
            exists|filled: Result<[u8; 32], EntropyError>| #[trigger]
                os_filled(filled) && game_epoch_result(result) == game_created(epoch, filled),
    {
        let filled: Result<[u8; 32], EntropyError> = os_root();
        GameEpoch::create_with(epoch, filled)
    }

    /// An epoch with the secret that a source filled.
    pub fn create_with(epoch: u64, filled: Result<[u8; 32], EntropyError>) -> (result: Result<
        GameEpoch,
        EpochError,
    >)
        ensures
            game_epoch_result(result) == game_created(epoch, filled),
    {
        match filled {
            Ok(secret) => Ok(GameEpoch { epoch, secret }),
            Err(error) => Err(entropy_error(error)),
        }
    }

    /// The epoch with a secret.
    pub fn restore(epoch: u64, secret: [u8; 32]) -> (result: GameEpoch)
        ensures
            result@ == (GameEpochView { epoch, secret: secret@ }),
    {
        GameEpoch { epoch, secret }
    }

    /// The epoch's number.
    pub fn epoch(&self) -> (result: u64)
        ensures
            result == self@.epoch,
    {
        self.epoch
    }

    /// The secret's bytes, to be retained.
    pub fn secret(&self) -> (result: [u8; 32])
        ensures
            result@ == self@.secret,
    {
        self.secret
    }

    /// The commitment to the secret.
    pub fn commitment(&self) -> (result: Felt)
        ensures
            result@ == secret_commitment(self@.secret),
    {
        commit(self.secret)
    }

    /// The root of an order of a game.
    pub fn root(&self, game: Felt, order: u64) -> (result: [u8; 32])
        ensures
            be_value(result@) == game_root(self@.secret, game@, order),
    {
        let halves: [Felt; 2] = secret_felts(self.secret);
        assert(values(halves@)[0] == halves@[0]@ && values(halves@)[1] == halves@[1]@);
        let fields: [Felt; 4] = [halves[0], halves[1], game, Felt::from_u64(order)];
        assert(values(fields@) =~= seq![
            limbs(self@.secret).0,
            limbs(self@.secret).1,
            game@,
            order as nat,
        ]);
        poseidon(&fields).to_be_bytes()
    }

    /// The elements that reveal the secret.
    pub fn revealed(&self) -> (result: [Felt; 2])
        ensures
            values(result@) == secret_reveal(self@.secret),
    {
        secret_felts(self.secret)
    }
}

/// A retained secret reconstructs every root: two roots of the same order under the same secret
/// are the same bytes.
pub proof fn law_retained_secret_reconstructs_roots(
    secret: Seq<u8>,
    order: u64,
    a: Seq<u8>,
    b: Seq<u8>,
)
    requires
        a.len() == 32,
        b.len() == 32,
        be_value(a) == order_root(secret, order),
        be_value(b) == order_root(secret, order),
    ensures
        a == b,
{
    lemma_be_value_injective(a, b);
}

/// What a reveal publishes determines the secret, and with it the commitment and every root.
pub proof fn law_reveal_determines_the_secret(a: Seq<u8>, b: Seq<u8>)
    requires
        a.len() == 32,
        b.len() == 32,
        secret_reveal(a) == secret_reveal(b),
    ensures
        a == b,
{
    assert(secret_reveal(a)[0] == limbs(a).0 && secret_reveal(b)[0] == limbs(b).0);
    assert(secret_reveal(a)[1] == limbs(a).1 && secret_reveal(b)[1] == limbs(b).1);
    crate::protocol::lemma_limbs_injective(a, b);
}

/// What an epoch's secret gives is hashed from the secret's lower and upper half: the halves reveal
/// it; the commitment hashes a tag and a version before them; and the root of an order of a game
/// hashes the game and the order behind them.
pub proof fn law_game_epoch_hashes_its_halves(
    epoch: &GameEpoch,
    game: Felt,
    order: u64,
    secret: [u8; 32],
    halves: (u128, u128),
    revealed: [Felt; 2],
    commitment: Felt,
    root: [u8; 32],
)
    requires
        call_ensures(GameEpoch::secret, (epoch,), secret),
        call_ensures(root_limbs, (secret,), halves),
        call_ensures(GameEpoch::revealed, (epoch,), revealed),
        call_ensures(GameEpoch::commitment, (epoch,), commitment),
        call_ensures(GameEpoch::root, (epoch, game, order), root),
    ensures
        ({
            let (low, high) = (halves.0 as nat, halves.1 as nat);
            &&& revealed@[0]@ == low
            &&& revealed@[1]@ == high
            &&& commitment@ == poseidon_array(seq![0x455445524e554d5f45504f4348, 1, low, high])
            &&& be_value(root@) == poseidon_array(seq![low, high, game@, order as nat])
        }),
{
    assert(values(revealed@)[0] == revealed@[0]@ && values(revealed@)[1] == revealed@[1]@);
}

/// What a secret with a range of orders gives is hashed from the secret's lower and upper half: the
/// halves reveal it; the commitment hashes a tag and a version before them; and the root of an order
/// hashes the order behind them. Every order of the range has a root, and no other has.
pub proof fn law_epoch_hashes_its_halves(
    epoch: &EpochSecret,
    order: u64,
    first: u64,
    last: u64,
    secret: [u8; 32],
    halves: (u128, u128),
    revealed: [Felt; 2],
    commitment: Felt,
    root: Result<[u8; 32], EpochError>,
)
    requires
        call_ensures(EpochSecret::first_order, (epoch,), first),
        call_ensures(EpochSecret::last_order, (epoch,), last),
        call_ensures(EpochSecret::secret, (epoch,), secret),
        call_ensures(root_limbs, (secret,), halves),
        call_ensures(EpochSecret::revealed, (epoch,), revealed),
        call_ensures(EpochSecret::commitment, (epoch,), commitment),
        call_ensures(EpochSecret::root, (epoch, order), root),
    ensures
        ({
            let (low, high) = (halves.0 as nat, halves.1 as nat);
            &&& revealed@[0]@ == low
            &&& revealed@[1]@ == high
            &&& commitment@ == poseidon_array(seq![0x455445524e554d5f45504f4348, 1, low, high])
            &&& root is Ok <==> first <= order <= last
            &&& root is Ok ==> be_value(root->Ok_0@) == poseidon_array(
                seq![low, high, order as nat],
            )
            &&& root is Err ==> root->Err_0 == EpochError::Order
        }),
{
    assert(values(revealed@)[0] == revealed@[0]@ && values(revealed@)[1] == revealed@[1]@);
}

/// An epoch with a filled secret is the one that a restart restores from the secret's bytes. A range
/// without an order above zero makes none, whatever was filled, and a source that failed or filled a
/// part is told apart.
pub proof fn law_created_epoch_is_restored(
    first_order: u64,
    last_order: u64,
    filled: Result<[u8; 32], EntropyError>,
    created: Result<EpochSecret, EpochError>,
    restored: EpochSecret,
)
    requires
        call_ensures(EpochSecret::create_with, (first_order, last_order, filled), created),
        filled is Ok ==> call_ensures(
            EpochSecret::restore,
            (first_order, last_order, filled->Ok_0),
            restored,
        ),
    ensures
        created is Ok <==> filled is Ok && 1 <= first_order && first_order <= last_order,
        created is Ok ==> created->Ok_0@ == restored@ && created->Ok_0@.first_order == first_order
            && created->Ok_0@.last_order == last_order && created->Ok_0@.secret == filled->Ok_0@,
        first_order == 0 || last_order < first_order ==> created->Err_0 == EpochError::Range,
        1 <= first_order <= last_order && filled == Err::<[u8; 32], EntropyError>(
            EntropyError::Short,
        ) ==> created->Err_0 == EpochError::Incomplete,
        1 <= first_order <= last_order ==> (filled matches Err(EntropyError::Source(code))
            ==> created->Err_0 == EpochError::Source(code)),
{
}

/// A numbered epoch with a filled secret is the one that a restart restores from its number and the
/// secret's bytes; a source that failed or filled a part is told apart.
pub proof fn law_created_game_epoch_is_restored(
    epoch: u64,
    filled: Result<[u8; 32], EntropyError>,
    created: Result<GameEpoch, EpochError>,
    restored: GameEpoch,
    number: u64,
    secret: [u8; 32],
)
    requires
        call_ensures(GameEpoch::create_with, (epoch, filled), created),
        filled is Ok ==> call_ensures(GameEpoch::restore, (epoch, filled->Ok_0), restored),
        created is Ok ==> call_ensures(GameEpoch::epoch, (&created->Ok_0,), number)
            && call_ensures(GameEpoch::secret, (&created->Ok_0,), secret),
    ensures
        created is Ok <==> filled is Ok,
        created is Ok ==> created->Ok_0@ == restored@ && number == epoch && secret@
            == filled->Ok_0@,
        filled == Err::<[u8; 32], EntropyError>(EntropyError::Short) ==> created->Err_0
            == EpochError::Incomplete,
        filled matches Err(EntropyError::Source(code)) ==> created->Err_0 == EpochError::Source(
            code,
        ),
{
}

/// A fresh epoch has the number, or the range of orders, that it is asked for; a range without an
/// order above zero has none.
pub proof fn law_fresh_epoch_is_the_one_asked_for(
    number: u64,
    first_order: u64,
    last_order: u64,
    numbered: Result<GameEpoch, EpochError>,
    ranged: Result<EpochSecret, EpochError>,
)
    requires
        call_ensures(GameEpoch::create, (number,), numbered),
        call_ensures(EpochSecret::create, (first_order, last_order), ranged),
    ensures
        numbered is Ok ==> numbered->Ok_0@.epoch == number && numbered->Ok_0@.secret.len() == 32,
        numbered is Err ==> numbered->Err_0 is Source || numbered->Err_0 is Incomplete,
        ranged is Ok ==> 1 <= first_order <= last_order && ranged->Ok_0@.first_order == first_order
            && ranged->Ok_0@.last_order == last_order && ranged->Ok_0@.secret.len() == 32,
        ranged is Err ==> (ranged->Err_0 == EpochError::Range <==> !(1 <= first_order
            <= last_order)),
        ranged is Err && 1 <= first_order <= last_order ==> ranged->Err_0 is Source
            || ranged->Err_0 is Incomplete,
{
}

/// An epoch's errors are told in words of their own.
pub proof fn law_epoch_errors_have_their_words(error: &EpochError, words: &'static str)
    requires
        call_ensures(EpochError::message, (error,), words),
    ensures
        *error is Range ==> words@ == "invalid epoch range"@,
        *error is Source ==> words@ == "epoch entropy source failed"@,
        *error is Incomplete ==> words@ == "incomplete epoch entropy"@,
        *error is Order ==> words@ == "order outside epoch"@,
{
}

} // verus!
