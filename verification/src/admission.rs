//! Admission of requests: one slot for each actor, and a budget of requests for each peer.

use crate::felt::Felt;
use crate::map::{lookup, FeltMap};
use std::collections::HashMap;
use vstd::prelude::*;

verus! {

broadcast use {crate::felt::lemma_felt_injective, vstd::std_specs::hash::group_hash_axioms};

/// The number of addresses that are counted in one window.
pub const MAX_ADDRESSES: usize = 4096;

/// The number of requests that one address may make in one window. A shared address can host a
/// full lobby of ninety-six players: two requests for each action at four ticks a second fit.
pub const MAX_REQUESTS: u16 = 1024;

/// The length of a window, in nanoseconds.
pub const WINDOW: u64 = 1_000_000_000;

/// What a request for an actor's slot meets.
#[derive(Clone, Copy, Debug, PartialEq, Eq, Structural)]
pub enum Slot {
    /// The slot was free and is the request's now.
    New,
    /// The slot is held by the same action, whose outcome the request follows.
    Existing,
    /// The slot is held by another action.
    Conflict,
}

/// The slots of actors with a pending action. A flooding actor occupies one slot at most.
pub struct AdmissionSlots {
    players: FeltMap<Felt>,
}

impl View for AdmissionSlots {
    type V = Map<Felt, Felt>;

    closed spec fn view(&self) -> Map<Felt, Felt> {
        self.players@
    }
}

/// What a request for an actor's slot meets.
pub open spec fn slot_for(slots: Map<Felt, Felt>, actor: Felt, action: Felt) -> Slot {
    match lookup(slots, actor) {
        None => Slot::New,
        Some(pending) => if pending == action {
            Slot::Existing
        } else {
            Slot::Conflict
        },
    }
}

impl AdmissionSlots {
    /// Slots that are all free.
    pub fn new() -> (result: AdmissionSlots)
        ensures
            result@ == Map::<Felt, Felt>::empty(),
    {
        AdmissionSlots { players: FeltMap::new() }
    }

    /// Asks for an actor's slot on behalf of an action.
    pub fn reserve(&mut self, actor: Felt, action: Felt) -> (result: Slot)
        ensures
            result == slot_for(old(self)@, actor, action),
            final(self)@ == (if result is New {
                old(self)@.insert(actor, action)
            } else {
                old(self)@
            }),
    {
        let held: Option<bool> = match self.players.get(actor) {
            Some(pending) => Some(*pending == action),
            None => None,
        };
        match held {
            Some(same) => if same {
                Slot::Existing
            } else {
                Slot::Conflict
            },
            None => {
                self.players.insert(actor, action);
                Slot::New
            },
        }
    }

    /// Frees an actor's slot.
    pub fn release(&mut self, actor: Felt)
        ensures
            final(self)@ == old(self)@.remove(actor),
    {
        self.players.remove(actor);
    }
}

/// While an action holds its actor's slot, a duplicate follows it, any other action of the actor is
/// refused, and other actors are not affected; once it is released the slot is free again.
pub proof fn law_one_slot_for_each_actor(
    slots: Map<Felt, Felt>,
    actor: Felt,
    action: Felt,
    other_action: Felt,
    other_actor: Felt,
)
    requires
        slot_for(slots, actor, action) is New,
        other_action != action,
        other_actor != actor,
    ensures
        ({
            let held = slots.insert(actor, action);
            &&& slot_for(held, actor, action) is Existing
            &&& slot_for(held, actor, other_action) is Conflict
            &&& slot_for(held, other_actor, other_action) == slot_for(
                slots,
                other_actor,
                other_action,
            )
            &&& slot_for(held.remove(actor), actor, other_action) is New
        }),
{
}

/// The address of a peer, as its connection gives it.
#[derive(Clone, Copy, Debug, PartialEq, Eq, Structural)]
pub enum Peer {
    V4(u32),
    V6(u128),
}

/// The requests that peers made in the present window.
pub struct IpLimits {
    window: u64,
    v4: HashMap<u32, u16>,
    v6: HashMap<u128, u16>,
}

/// The contents of an [`IpLimits`].
#[verifier::ext_equal]
pub struct LimitsView {
    pub window: u64,
    pub v4: Map<u32, u16>,
    pub v6: Map<u128, u16>,
}

impl View for IpLimits {
    type V = LimitsView;

    closed spec fn view(&self) -> LimitsView {
        LimitsView { window: self.window, v4: self.v4@, v6: self.v6@ }
    }
}

impl LimitsView {
    /// The limits at a time, in a new window where the present one is over.
    pub open spec fn at(self, now: u64) -> LimitsView {
        if now - self.window >= WINDOW {
            LimitsView { window: now, v4: Map::empty(), v6: Map::empty() }
        } else {
            self
        }
    }

    /// The requests that a peer made, where it is counted.
    pub open spec fn counted(self, peer: Peer) -> Option<u16> {
        match peer {
            Peer::V4(address) => if self.v4.dom().contains(address) {
                Some(self.v4[address])
            } else {
                None
            },
            Peer::V6(address) => if self.v6.dom().contains(address) {
                Some(self.v6[address])
            } else {
                None
            },
        }
    }

    /// The requests that a peer made.
    pub open spec fn count(self, peer: Peer) -> u16 {
        match self.counted(peer) {
            Some(count) => count,
            None => 0,
        }
    }

    /// Whether one more request of a peer is admitted in the present window.
    pub open spec fn admits(self, peer: Peer) -> bool {
        &&& self.counted(peer) is Some || self.v4.len() + self.v6.len() < MAX_ADDRESSES
        &&& self.count(peer) < MAX_REQUESTS
    }

    /// The limits with one more request of a peer.
    pub open spec fn with_request(self, peer: Peer) -> LimitsView {
        match peer {
            Peer::V4(address) => LimitsView {
                v4: self.v4.insert(address, (self.count(peer) + 1) as u16),
                ..self
            },
            Peer::V6(address) => LimitsView {
                v6: self.v6.insert(address, (self.count(peer) + 1) as u16),
                ..self
            },
        }
    }

    /// The limits after a request.
    pub open spec fn after(self, peer: Peer, now: u64) -> LimitsView {
        if self.at(now).admits(peer) {
            self.at(now).with_request(peer)
        } else {
            self.at(now)
        }
    }
}

impl IpLimits {
    /// Limits of which nothing was used, in a window that starts at a time.
    pub fn new(now: u64) -> (result: IpLimits)
        ensures
            result@ == (LimitsView { window: now, v4: Map::empty(), v6: Map::empty() }),
    {
        let limits: IpLimits = IpLimits { window: now, v4: HashMap::new(), v6: HashMap::new() };
        assert(limits@.v4 =~= Map::empty());
        assert(limits@.v6 =~= Map::empty());
        limits
    }

    /// Whether a peer's request at a time is admitted. Times are in nanoseconds.
    pub fn allow(&mut self, peer: Peer, now: u64) -> (result: bool)
        ensures
            result == old(self)@.at(now).admits(peer),
            final(self)@ == old(self)@.after(peer, now),
    {
        if now >= self.window && now - self.window >= WINDOW {
            self.v4.clear();
            self.v6.clear();
            self.window = now;
        }
        assert(self@ =~= old(self)@.at(now));
        let known: Option<u16> = match peer {
            Peer::V4(address) => match self.v4.get(&address) {
                Some(count) => Some(*count),
                None => None,
            },
            Peer::V6(address) => match self.v6.get(&address) {
                Some(count) => Some(*count),
                None => None,
            },
        };
        let (first, second): (usize, usize) = (self.v4.len(), self.v6.len());
        let full: bool = first >= MAX_ADDRESSES || second >= MAX_ADDRESSES - first;
        let count: u16 = match known {
            Some(count) => count,
            None => {
                if full {
                    return false;
                }
                0
            },
        };
        if count >= MAX_REQUESTS {
            return false;
        }
        match peer {
            Peer::V4(address) => {
                self.v4.insert(address, count + 1);
            },
            Peer::V6(address) => {
                self.v6.insert(address, count + 1);
            },
        }
        assert(self@ =~= old(self)@.after(peer, now));
        true
    }
}

/// Peers do not share a budget: a request of one leaves what every other may still ask.
pub proof fn law_budgets_are_separate(limits: LimitsView, peer: Peer, other: Peer)
    requires
        peer != other,
        limits.admits(peer),
    ensures
        limits.with_request(peer).counted(other) == limits.counted(other),
        limits.with_request(peer).count(peer) == limits.count(peer) + 1,
{
}

/// A new window restores every peer's budget.
pub proof fn law_a_new_window_restores_the_budget(limits: LimitsView, peer: Peer, now: u64)
    requires
        now - limits.window >= WINDOW,
    ensures
        limits.at(now).admits(peer),
        limits.at(now).count(peer) == 0,
{
}

impl LimitsView {
    /// What holds of limits at every time: no more addresses are counted, and none of them for more
    /// requests, than one window admits.
    pub open spec fn bounded(self) -> bool {
        &&& self.v4.dom().finite()
        &&& self.v6.dom().finite()
        &&& self.v4.len() + self.v6.len() <= MAX_ADDRESSES
        &&& forall|peer: Peer| #[trigger] self.count(peer) <= MAX_REQUESTS
    }
}

/// Abuse is bounded: whatever peers ask and whenever, the limits hold.
pub proof fn law_abuse_is_bounded(limits: LimitsView, peer: Peer, now: u64)
    requires
        limits.bounded(),
    ensures
        limits.after(peer, now).bounded(),
{
    let present = limits.at(now);
    assert(present.bounded());
    if present.admits(peer) {
        let next = present.with_request(peer);
        assert forall|other: Peer| #[trigger] next.count(other) <= MAX_REQUESTS by {
            assert(present.count(other) <= MAX_REQUESTS);
            if other != peer {
                law_budgets_are_separate(present, peer, other);
            }
        }
    }
}

/// A free slot is taken by the action that asks for it. While it holds the slot, the same action
/// follows itself and another action of the actor is refused, and once the actor's slot is freed it
/// is free to any; what happens to one actor's slot leaves every other's alone.
pub proof fn law_slots_are_taken_and_freed(
    slots: &mut AdmissionSlots,
    freed: &mut AdmissionSlots,
    actor: Felt,
    action: Felt,
    other: Felt,
    result: Slot,
    done: (),
)
    requires
        call_ensures(AdmissionSlots::reserve, (slots, actor, action), result),
        call_ensures(AdmissionSlots::release, (freed, actor), done),
        other != actor,
    ensures
        ({
            let before = old(slots)@;
            let after = final(slots)@;
            &&& result is New <==> !before.contains_key(actor)
            &&& result is Existing <==> before.contains_key(actor) && before[actor] == action
            &&& result is Conflict <==> before.contains_key(actor) && before[actor] != action
            &&& after.contains_key(actor)
            &&& after[actor] == (if result is New {
                action
            } else {
                before[actor]
            })
            &&& after.contains_key(other) <==> before.contains_key(other)
            &&& before.contains_key(other) ==> after[other] == before[other]
        }),
        !final(freed)@.contains_key(actor),
        final(freed)@.contains_key(other) <==> old(freed)@.contains_key(other),
        old(freed)@.contains_key(other) ==> final(freed)@[other] == old(freed)@[other],
{
}

/// A peer's request is admitted exactly where the peer made fewer than 1024 in the present window and
/// is counted in it or one of fewer than 4096 that are. A window is over after a second, and then
/// nobody made any. An admitted request counts once for its peer, a refused one for nobody, and
/// neither for another peer.
pub proof fn law_requests_are_counted_by_peer(
    limits: &mut IpLimits,
    peer: Peer,
    other: Peer,
    now: u64,
    result: bool,
)
    requires
        call_ensures(IpLimits::allow, (limits, peer, now), result),
        other != peer,
    ensures
        ({
            let before = old(limits)@;
            let after = final(limits)@;
            let over = now >= before.window + 1_000_000_000;
            let made = if over {
                0
            } else {
                before.count(peer)
            };
            let known = !over && before.counted(peer) is Some;
            let room = over || before.v4.len() + before.v6.len() < 4096;
            &&& result <==> made < 1024 && (known || room)
            &&& over ==> after.window == now
            &&& !over ==> after.window == before.window
            &&& after.count(peer) == (if result {
                made + 1
            } else {
                made as int
            })
            &&& !over ==> after.counted(other) == before.counted(other)
            &&& over ==> after.counted(other) is None
        }),
{
    if old(limits)@.at(now).admits(peer) {
        law_budgets_are_separate(old(limits)@.at(now), peer, other);
    }
}

/// A peer is counted by its address, and an address of one kind is none of the other.
pub proof fn law_addresses_are_told_apart(limits: LimitsView, v4: u32, v6: u128)
    ensures
        limits.counted(Peer::V4(v4)) is Some <==> limits.v4.contains_key(v4),
        limits.counted(Peer::V6(v6)) is Some <==> limits.v6.contains_key(v6),
        limits.v4.contains_key(v4) ==> limits.count(Peer::V4(v4)) == limits.v4[v4],
        limits.v6.contains_key(v6) ==> limits.count(Peer::V6(v6)) == limits.v6[v6],
        !limits.v4.contains_key(v4) ==> limits.count(Peer::V4(v4)) == 0,
        !limits.v6.contains_key(v6) ==> limits.count(Peer::V6(v6)) == 0,
{
}

/// New slots are all free, and new limits count nobody in a window that starts with them.
pub proof fn law_admission_starts_unused(now: u64, peer: Peer, slots: AdmissionSlots, limits: IpLimits)
    requires
        call_ensures(AdmissionSlots::new, (), slots),
        call_ensures(IpLimits::new, (now,), limits),
    ensures
        forall|actor: Felt| !#[trigger] slots@.contains_key(actor),
        limits@.window == now,
        limits@.counted(peer) is None,
        limits@.v4.len() == 0 && limits@.v6.len() == 0,
{
}

} // verus!
