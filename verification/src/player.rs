//! Players and the table that hands out their one-byte identifiers.

use crate::networking::fixed::FShort;
use vstd::prelude::*;

verus! {

/// A player's identifier on the wire: `0..=126` for an allocated player,
/// `-1` for "the receiving player itself".
pub type PlayerId = i8;

/// Names one connected session for as long as the server runs.
pub type SessionHandle = u64;

/// Number of identifiers that can be allocated.
pub const MAX_PLAYERS: usize = 127;

/// The identifier by which a client is told about itself.
pub const SELF_ID: PlayerId = -1;

/// A joined player.
#[derive(Debug)]
pub struct Player {
    pub name: String,
    pub id: PlayerId,
}

/// Where a player stands, in fixed-point block coordinates as they
/// travel on the wire: one unit is a thirty-second of a block.
#[derive(Debug, Clone, Copy, PartialEq, Eq, Structural)]
pub struct Position {
    pub x: FShort,
    pub y: FShort,
    pub z: FShort,
}

/// Where a player looks, as the two angle bytes of the wire: 256 steps
/// make a full turn.
#[derive(Debug, Clone, Copy, PartialEq, Eq, Structural)]
pub struct Rotation {
    pub pitch: u8,
    pub yaw: u8,
}

/// Ticks of the world per second.
#[derive(Debug, Clone, Copy, PartialEq, Eq, Structural)]
pub struct TickRate(pub u32);

/// One tick of the world's clock.
#[derive(Debug, Clone, Copy, PartialEq, Eq, Structural)]
pub struct TickEvent;

/// Every identifier is taken.
#[derive(Debug, Clone, Copy, PartialEq, Eq, Structural)]
pub struct ServerFull;

/// The table of player identifiers: slot `i` is empty or holds the handle
/// of the session that plays as identifier `i`.
#[derive(Debug)]
pub struct PlayerIdAllocator {
    occupation: Vec<Option<SessionHandle>>,
}

impl View for PlayerIdAllocator {
    type V = Seq<Option<SessionHandle>>;

    closed spec fn view(&self) -> Seq<Option<SessionHandle>> {
        self.occupation@
    }
}

/// Whether no handle sits in two slots of `slots`.
pub open spec fn spec_distinct(slots: Seq<Option<SessionHandle>>) -> bool {
    forall|i: int, j: int|
        0 <= i < slots.len() && 0 <= j < slots.len() && slots[i] is Some && slots[i] == slots[j]
            ==> i == j
}

/// Whether some slot of `slots` holds `handle`.
pub open spec fn spec_holds(slots: Seq<Option<SessionHandle>>, handle: SessionHandle) -> bool {
    exists|i: int| 0 <= i < slots.len() && slots[i] == Some(handle)
}

/// The handle in slot `id`, if `id` names a slot and the slot is taken.
pub open spec fn spec_handle_of(slots: Seq<Option<SessionHandle>>, id: int) -> Option<
    SessionHandle,
> {
    if 0 <= id < slots.len() {
        slots[id]
    } else {
        None
    }
}

/// Whether `id` is the first slot of `slots` that holds `handle`.
pub open spec fn spec_is_id_of(
    slots: Seq<Option<SessionHandle>>,
    handle: SessionHandle,
    id: int,
) -> bool {
    &&& 0 <= id < slots.len()
    &&& slots[id] == Some(handle)
    &&& forall|j: int| 0 <= j < id ==> slots[j] != Some(handle)
}

/// Puts `value` into slot `i`.
fn put(slots: &mut Vec<Option<SessionHandle>>, i: usize, value: Option<SessionHandle>)
    requires
        i < old(slots)@.len(),
    ensures
        final(slots)@ == old(slots)@.update(i as int, value),
    no_unwind
{
    slots[i] = value;
}

impl PlayerIdAllocator {
    #[verifier::type_invariant]
    spec fn slots_distinct(&self) -> bool {
        self.occupation@.len() == MAX_PLAYERS && spec_distinct(self.occupation@)
    }

    /// There are 127 slots and no handle sits in two of them. This holds
    /// of every table there is.
    pub open spec fn wf(&self) -> bool {
        self@.len() == MAX_PLAYERS && spec_distinct(self@)
    }

    /// The table in which every slot is empty.
    pub fn new_empty() -> (table: PlayerIdAllocator)
        ensures
            table.wf(),
            forall|i: int| 0 <= i < MAX_PLAYERS ==> table@[i] is None,
    {
        PlayerIdAllocator { occupation: vec![None; MAX_PLAYERS] }
    }

    /// Gives `handle` the lowest free identifier, or fails with
    /// `ServerFull`, leaving the table as it was, when none is free.
    pub fn allocate(&mut self, handle: SessionHandle) -> (id: Result<PlayerId, ServerFull>)
        requires
            !spec_holds(old(self)@, handle),
        ensures
            final(self).wf(),
            match id {
                Ok(id) => {
                    &&& 0 <= id < MAX_PLAYERS
                    &&& old(self)@[id as int] is None
                    &&& forall|j: int| 0 <= j < id ==> old(self)@[j] is Some
                    &&& final(self)@ == old(self)@.update(id as int, Some(handle))
                },
                Err(_) => {
                    &&& forall|j: int| 0 <= j < MAX_PLAYERS ==> old(self)@[j] is Some
                    &&& final(self)@ == old(self)@
                },
            },
    {
        proof {
            use_type_invariant(&*self);
        }
        let mut i: usize = 0;
        while i < MAX_PLAYERS
            invariant
                i <= MAX_PLAYERS,
                old(self).wf(),
                !spec_holds(old(self)@, handle),
                self.occupation@ == old(self).occupation@,
                forall|j: int| 0 <= j < i ==> self.occupation@[j] is Some,
            decreases MAX_PLAYERS - i,
        {
            if self.occupation[i].is_none() {
                assert(spec_distinct(self.occupation@.update(i as int, Some(handle)))) by {
                    let after = self.occupation@.update(i as int, Some(handle));
                    assert forall|a: int, b: int|
                        0 <= a < after.len() && 0 <= b < after.len() && after[a] is Some
                            && after[a] == after[b] implies a == b by {
                        if a == i as int || b == i as int {
                            if a != b {
                                let other = if a == i as int {
                                    b
                                } else {
                                    a
                                };
                                assert(old(self)@[other] == Some(handle));
                            }
                        } else {
                            assert(old(self)@[a] == old(self)@[b]);
                        }
                    }
                }
                put(&mut self.occupation, i, Some(handle));
                return Ok(i as i8);
            }
            i += 1;
        }
        Err(ServerFull)
    }

    /// Empties slot `id`. An empty slot stays empty, and an `id` outside
    /// `0..=126` changes nothing.
    pub fn free(&mut self, id: PlayerId)
        ensures
            final(self).wf(),
            final(self)@ == if 0 <= id < MAX_PLAYERS {
                old(self)@.update(id as int, None)
            } else {
                old(self)@
            },
    {
        proof {
            use_type_invariant(&*self);
        }
        if id >= 0 && (id as usize) < MAX_PLAYERS {
            assert(spec_distinct(self.occupation@.update(id as int, None))) by {
                let after = self.occupation@.update(id as int, None);
                assert forall|a: int, b: int|
                    0 <= a < after.len() && 0 <= b < after.len() && after[a] is Some && after[a]
                        == after[b] implies a == b by {
                    assert(old(self)@[a] == old(self)@[b]);
                }
            }
            put(&mut self.occupation, id as usize, None);
        }
    }

    /// The handle that plays as `id`, if any.
    pub fn get_entity_id(&self, id: PlayerId) -> (handle: Option<SessionHandle>)
        ensures
            self.wf(),
            handle == spec_handle_of(self@, id as int),
            handle matches Some(h) ==> spec_is_id_of(self@, h, id as int),
    {
        proof {
            use_type_invariant(self);
            if spec_handle_of(self@, id as int) is Some {
                lemma_lookups_inverse(self@, id as int, spec_handle_of(self@, id as int).unwrap());
            }
        }
        if id >= 0 && (id as usize) < MAX_PLAYERS {
            self.occupation[id as usize]
        } else {
            None
        }
    }

    /// The identifier that `handle` plays as, if any.
    pub fn get_player_id(&self, handle: SessionHandle) -> (id: Option<PlayerId>)
        ensures
            self.wf(),
            match id {
                Some(id) => 0 <= id <= 126 && spec_is_id_of(self@, handle, id as int)
                    && spec_handle_of(self@, id as int) == Some(handle),
                None => !spec_holds(self@, handle),
            },
    {
        proof {
            use_type_invariant(self);
        }
        let mut i: usize = 0;
        while i < MAX_PLAYERS
            invariant
                i <= MAX_PLAYERS,
                self.occupation@.len() == MAX_PLAYERS,
                self.wf(),
                forall|j: int| 0 <= j < i ==> self.occupation@[j] != Some(handle),
            decreases MAX_PLAYERS - i,
        {
            if let Some(held) = self.occupation[i] {
                if held == handle {
                    proof {
                        lemma_lookups_inverse(self@, i as int, handle);
                    }
                    return Some(i as i8);
                }
            }
            i += 1;
        }
        None
    }
}

/// The two lookups are inverse to each other: the session that plays as an
/// identifier is found again under exactly that identifier, and a session
/// found under an identifier is the one that plays as it.
pub proof fn lemma_lookups_inverse(
    slots: Seq<Option<SessionHandle>>,
    id: int,
    handle: SessionHandle,
)
    requires
        spec_distinct(slots),
    ensures
        spec_handle_of(slots, id) == Some(handle) <==> spec_is_id_of(slots, handle, id),
{
    if spec_handle_of(slots, id) == Some(handle) {
        assert forall|j: int| 0 <= j < id implies slots[j] != Some(handle) by {
            if slots[j] == Some(handle) {
                assert(slots[j] == slots[id]);
            }
        }
    }
}

/// Every allocated identifier lies in `0..=126`.
pub proof fn lemma_id_range(slots: Seq<Option<SessionHandle>>, handle: SessionHandle, id: int)
    requires
        slots.len() == MAX_PLAYERS,
        spec_is_id_of(slots, handle, id),
    ensures
        0 <= id <= 126,
{
}

} // verus!
