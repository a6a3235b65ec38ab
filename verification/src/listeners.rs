//! The listening sockets of the proxy, kept in a slab.

use vstd::prelude::*;

use crate::address::SocketAddr;
use crate::events::Token;

verus! {

/// A listening socket: the token under which it is registered, and its address.
#[derive(Debug, Clone, Copy, PartialEq, Eq, Hash, Structural)]
pub struct ApplicationListener {
    pub token: Option<Token>,
    pub front_address: SocketAddr,
}

/// A `mio::util::Slab` of listeners, created with `Slab::new_starting_at`
/// from token 0 on.
#[verifier::external_body]
pub struct Listeners {
    slab: mio::util::Slab<ApplicationListener>,
}

/// The filled slots of the slab: slot number to listener.
pub uninterp spec fn filled_slots(listeners: Listeners) -> Map<usize, ApplicationListener>;

/// The empty slots of the slab, in the order in which they will be filled.
pub uninterp spec fn vacant_slots(listeners: Listeners) -> Seq<usize>;

/// Whether `slots` lists the keys of `filled` from the lowest to the highest.
pub open spec fn in_slot_order(
    slots: Seq<usize>,
    filled: Map<usize, ApplicationListener>,
) -> bool {
    &&& slots.to_set() == filled.dom()
    &&& forall|i: int, j: int| 0 <= i < j < slots.len() ==> slots[i] < slots[j]
}

/// Whether `items` are the listeners of `filled`, from the lowest slot to the
/// highest.
pub open spec fn lists_slots(
    items: Seq<ApplicationListener>,
    filled: Map<usize, ApplicationListener>,
) -> bool {
    exists|slots: Seq<usize>| #[trigger]
        in_slot_order(slots, filled) && items == slots.map_values(|slot: usize| filled[slot])
}

/// Whether a slab with `capacity` slots is small enough to be allocated: an
/// entry takes less than 128 bytes, and an allocation at most `isize::MAX`.
pub open spec fn slab_fits(capacity: usize) -> bool {
    capacity * 128 <= isize::MAX
}

impl Listeners {
    /// Calls `Slab::new_starting_at` with token 0: all slots are empty, and
    /// are to be filled from slot 0 upwards.
    #[verifier::external_body]
    pub(crate) fn with_slots(capacity: usize) -> (listeners: Listeners)
        requires
            slab_fits(capacity),
        ensures
            filled_slots(listeners).dom() == Set::<usize>::empty(),
            vacant_slots(listeners) == Seq::new(capacity as nat, |i: int| i as usize),
    {
        Listeners { slab: mio::util::Slab::new_starting_at(mio::Token(0), capacity) }
    }

    /// Calls `Slab::insert`: the listener goes into the next vacant slot, whose
    /// number is the token; a slab without one hands the listener back.
    #[verifier::external_body]
    pub(crate) fn insert(&mut self, listener: ApplicationListener) -> (inserted: Result<
        Token,
        ApplicationListener,
    >)
        ensures
            match inserted {
                Ok(token) => {
                    &&& vacant_slots(*old(self)).len() > 0
                    &&& token.0 == vacant_slots(*old(self))[0]
                    &&& vacant_slots(*final(self)) == vacant_slots(*old(self)).drop_first()
                    &&& filled_slots(*final(self)) == filled_slots(*old(self)).insert(
                        token.0,
                        listener,
                    )
                },
                Err(returned) => {
                    &&& vacant_slots(*old(self)).len() == 0
                    &&& returned == listener
                    &&& vacant_slots(*final(self)) == vacant_slots(*old(self))
                    &&& filled_slots(*final(self)) == filled_slots(*old(self))
                },
            },
    {
        self.slab.insert(listener).map(|token| Token(token.as_usize()))
    }

    /// Calls `Slab::contains`: whether the slot is filled. The number has to be
    /// one of the slab's slots.
    #[verifier::external_body]
    pub(crate) fn contains(&self, token: Token) -> (filled: bool)
        requires
            filled_slots(*self).contains_key(token.0) || vacant_slots(*self).contains(token.0),
        ensures
            filled == filled_slots(*self).contains_key(token.0),
    {
        self.slab.contains(mio::Token(token.0))
    }

    /// Calls `IndexMut::index_mut` of the slab: access to the listener in a
    /// filled slot.
    #[verifier::external_body]
    pub(crate) fn at(&mut self, token: Token) -> (listener: &mut ApplicationListener)
        requires
            filled_slots(*old(self)).contains_key(token.0),
        ensures
            *listener == filled_slots(*old(self))[token.0],
            filled_slots(*final(self)) == filled_slots(*old(self)).insert(
                token.0,
                *final(listener),
            ),
            vacant_slots(*final(self)) == vacant_slots(*old(self)),
    {
        &mut self.slab[mio::Token(token.0)]
    }

    /// Calls `Slab::iter`: the listeners, from the lowest slot to the highest.
    #[verifier::external_body]
    pub(crate) fn iter(&self) -> (items: Vec<ApplicationListener>)
        ensures
            lists_slots(items@, filled_slots(*self)),
    {
        self.slab.iter().map(|listener| *listener).collect()
    }
}

} // verus!
