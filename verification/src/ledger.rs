//! What is kept in mind of the spaces while they sync, apart for every
//! principal.
use vstd::prelude::*;

use crate::text::text_eq;

verus! {

/// A space of a principal.
#[derive(Debug)]
pub struct SpaceKey {
    pub principal: String,
    pub space_id: u64,
}

impl View for SpaceKey {
    type V = (Seq<char>, u64);

    open spec fn view(&self) -> (Seq<char>, u64) {
        (self.principal@, self.space_id)
    }
}

impl SpaceKey {
    fn is(&self, principal: &str, space_id: u64) -> (r: bool)
        ensures
            r == (self@ == (principal@, space_id)),
    {
        self.space_id == space_id && text_eq(&self.principal, principal)
    }
}

/// A set of spaces.
#[derive(Debug)]
pub struct SpaceSet {
    pub spaces: Vec<SpaceKey>,
}

impl View for SpaceSet {
    type V = Set<(Seq<char>, u64)>;

    open spec fn view(&self) -> Set<(Seq<char>, u64)> {
        Set::new(|key: (Seq<char>, u64)|
            exists|i: int| 0 <= i < self.spaces@.len() && #[trigger] self.spaces@[i]@ == key)
    }
}

impl SpaceSet {
    /// No space.
    pub fn new() -> (r: Self)
        ensures
            r@ == Set::<(Seq<char>, u64)>::empty(),
    {
        SpaceSet { spaces: Vec::new() }
    }

    /// Whether a space is in the set.
    pub fn contains(&self, principal: &str, space_id: u64) -> (r: bool)
        ensures
            r == self@.contains((principal@, space_id)),
    {
        let mut i: usize = 0;
        while i < self.spaces.len()
            invariant
                i <= self.spaces@.len(),
                forall|j: int| 0 <= j < i ==> #[trigger] self.spaces@[j]@ != (principal@, space_id),
            decreases self.spaces@.len() - i,
        {
            if self.spaces[i].is(principal, space_id) {
                assert(self.spaces@[i as int]@ == (principal@, space_id));
                return true;
            }
            i = i + 1;
        }
        false
    }

    fn insert(&mut self, principal: &str, space_id: u64) -> (r: bool)
        ensures
            r == !old(self)@.contains((principal@, space_id)),
            final(self)@ == old(self)@.insert((principal@, space_id)),
    {
        let ghost before = self.spaces@;
        let ghost key = (principal@, space_id);
        if self.contains(principal, space_id) {
            assert(self@ =~= self@.insert(key));
            return false;
        }
        self.spaces.push(SpaceKey { principal: principal.to_owned(), space_id });
        proof {
            assert(self.spaces@[before.len() as int]@ == key);
            assert forall|i: int| 0 <= i < before.len() implies #[trigger] before[i]@
                == self.spaces@[i]@ by {}
            assert(self@ =~= old(self)@.insert(key));
        }
        true
    }

    fn remove(&mut self, principal: &str, space_id: u64)
        ensures
            final(self)@ == old(self)@.remove((principal@, space_id)),
    {
        let ghost before = self.spaces@;
        let ghost key = (principal@, space_id);
        let mut i: usize = 0;
        let mut kept: Vec<SpaceKey> = Vec::new();
        while i < self.spaces.len()
            invariant
                i <= self.spaces@.len(),
                key == (principal@, space_id),
                self.spaces@ == before,
                forall|k: int|
                    0 <= k < kept@.len() ==> #[trigger] kept@[k]@ != key && exists|j: int|
                        0 <= j < i && #[trigger] before[j]@ == kept@[k]@,
                forall|j: int|
                    0 <= j < i && #[trigger] before[j]@ != key ==> exists|k: int|
                        0 <= k < kept@.len() && #[trigger] kept@[k]@ == before[j]@,
            decreases self.spaces@.len() - i,
        {
            let ghost so_far = kept@;
            if !self.spaces[i].is(principal, space_id) {
                let space = &self.spaces[i];
                kept.push(SpaceKey { principal: space.principal.clone(), space_id: space.space_id });
                proof {
                    assert(kept@[so_far.len() as int]@ == before[i as int]@);
                    assert forall|j: int| 0 <= j < i + 1 && #[trigger] before[j]@ != key implies exists|
                        k: int,
                    | 0 <= k < kept@.len() && #[trigger] kept@[k]@ == before[j]@ by {
                        if j < i {
                            let k = choose|k: int|
                                0 <= k < so_far.len() && #[trigger] so_far[k]@ == before[j]@;
                            assert(kept@[k] == so_far[k]);
                        }
                    }
                    assert forall|k: int| 0 <= k < kept@.len() implies #[trigger] kept@[k]@ != key
                        && exists|j: int| 0 <= j < i + 1 && #[trigger] before[j]@ == kept@[k]@ by {
                        if k < so_far.len() {
                            assert(kept@[k] == so_far[k]);
                        }
                    }
                }
            }
            i = i + 1;
        }
        self.spaces = kept;
        assert(self@ =~= old(self)@.remove(key));
    }

    /// Reserves the network for a space, unless it is in use for it already.
    pub fn begin_space_network_operation(&mut self, principal: &str, space_id: u64) -> (r: bool)
        ensures
            r == !old(self)@.contains((principal@, space_id)),
            final(self)@ == old(self)@.insert((principal@, space_id)),
    {
        self.insert(principal, space_id)
    }

    /// Sets the network free again for a space.
    pub fn end_space_network_operation(&mut self, principal: &str, space_id: u64)
        ensures
            final(self)@ == old(self)@.remove((principal@, space_id)),
    {
        self.remove(principal, space_id)
    }

    /// The server knows a space.
    pub fn mark_sync_space_registered(&mut self, principal: &str, space_id: u64)
        ensures
            final(self)@ == old(self)@.insert((principal@, space_id)),
    {
        let _ = self.insert(principal, space_id);
    }
}

/// A state of the server's document of a space.
#[derive(Debug)]
pub struct AcknowledgedState {
    pub space: SpaceKey,
    pub state_vector: Vec<u8>,
}

/// The states of the server's documents that the server last acknowledged.
#[derive(Debug)]
pub struct AcknowledgedStates {
    pub states: Vec<AcknowledgedState>,
}

/// Where the state of a space is first found.
pub open spec fn state_at(states: Seq<AcknowledgedState>, key: (Seq<char>, u64)) -> int
    decreases states.len(),
{
    if states.len() == 0 {
        0
    } else if states[0].space@ == key {
        0
    } else {
        1 + state_at(states.drop_first(), key)
    }
}

proof fn state_at_is_first(states: Seq<AcknowledgedState>, key: (Seq<char>, u64))
    ensures
        0 <= state_at(states, key) <= states.len(),
        state_at(states, key) < states.len() ==> states[state_at(states, key)].space@ == key,
        forall|i: int| 0 <= i < state_at(states, key) ==> #[trigger] states[i].space@ != key,
    decreases states.len(),
{
    if states.len() > 0 && states[0].space@ != key {
        let rest = states.drop_first();
        state_at_is_first(rest, key);
        assert forall|i: int| 0 <= i < state_at(states, key) implies #[trigger] states[i].space@
            != key by {
            if i > 0 {
                assert(states[i] == rest[i - 1]);
            }
        }
    }
}

proof fn state_at_is(states: Seq<AcknowledgedState>, key: (Seq<char>, u64), i: int)
    requires
        0 <= i <= states.len(),
        i < states.len() ==> states[i].space@ == key,
        forall|j: int| 0 <= j < i ==> #[trigger] states[j].space@ != key,
    ensures
        state_at(states, key) == i,
{
    state_at_is_first(states, key);
    let found = state_at(states, key);
    if found < i {
        assert(states[found].space@ != key);
    } else if i < found {
        assert(states[i].space@ != key);
    }
}

impl View for AcknowledgedStates {
    type V = Map<(Seq<char>, u64), Seq<u8>>;

    open spec fn view(&self) -> Map<(Seq<char>, u64), Seq<u8>> {
        Map::new(
            |key: (Seq<char>, u64)| state_at(self.states@, key) < self.states@.len(),
            |key: (Seq<char>, u64)| self.states@[state_at(self.states@, key)].state_vector@,
        )
    }
}

impl AcknowledgedStates {
    /// No state.
    pub fn new() -> (r: Self)
        ensures
            r@ == Map::<(Seq<char>, u64), Seq<u8>>::empty(),
    {
        let r = AcknowledgedStates { states: Vec::new() };
        assert(r@ =~= Map::empty());
        r
    }

    fn position(&self, principal: &str, space_id: u64) -> (r: usize)
        ensures
            r == state_at(self.states@, (principal@, space_id)),
            r <= self.states@.len(),
    {
        let ghost key = (principal@, space_id);
        let mut i: usize = 0;
        while i < self.states.len() && !self.states[i].space.is(principal, space_id)
            invariant
                i <= self.states@.len(),
                key == (principal@, space_id),
                forall|j: int| 0 <= j < i ==> #[trigger] self.states@[j].space@ != key,
            decreases self.states@.len() - i,
        {
            i = i + 1;
        }
        proof {
            state_at_is(self.states@, key, i as int);
        }
        i
    }

    /// The state of a space's document that the server last acknowledged.
    pub fn acknowledged_state_vector(&self, principal: &str, space_id: u64) -> (r: Option<Vec<u8>>)
        ensures
            match r {
                Some(state) => self@.dom().contains((principal@, space_id)) && state@ == self@[(
                    principal@,
                    space_id,
                )],
                None => !self@.dom().contains((principal@, space_id)),
            },
    {
        let i = self.position(principal, space_id);
        if i < self.states.len() {
            Some(self.states[i].state_vector.clone())
        } else {
            None
        }
    }

    /// The server has acknowledged a state of a space's document.
    pub fn set_acknowledged_state_vector(
        &mut self,
        principal: &str,
        space_id: u64,
        state_vector: Vec<u8>,
    )
        ensures
            final(self)@ == old(self)@.insert((principal@, space_id), state_vector@),
    {
        let ghost before = self.states@;
        let ghost key = (principal@, space_id);
        let i = self.position(principal, space_id);
        let space = SpaceKey { principal: principal.to_owned(), space_id };
        proof {
            state_at_is_first(before, key);
        }
        if i < self.states.len() {
            self.states.set(i, AcknowledgedState { space, state_vector });
        } else {
            self.states.push(AcknowledgedState { space, state_vector });
        }
        proof {
            let after = self.states@;
            assert forall|other: (Seq<char>, u64)|
                {
                    let was = state_at(before, other);
                    let is = #[trigger] state_at(after, other);
                    &&& other == key ==> is == i
                    &&& other != key && was < before.len() ==> is == was && after[is] == before[is]
                    &&& other != key && was >= before.len() ==> is == after.len()
                } by {
                state_at_is_first(before, other);
                let was = state_at(before, other);
                let found = if other == key {
                    i as int
                } else if was == before.len() {
                    after.len() as int
                } else {
                    was
                };
                assert forall|j: int| 0 <= j < found implies #[trigger] after[j].space@ != other by {
                    if j < before.len() && j != i {
                        assert(after[j] == before[j]);
                    }
                }
                state_at_is(after, other, found);
            }
            assert(self@ =~= old(self)@.insert(key, state_vector@));
        }
    }
}

/// While the network is in use for a space it cannot be reserved for it again;
/// once it is free it can, and no other space is affected.
pub proof fn spaces_are_reserved_once(
    spaces: Set<(Seq<char>, u64)>,
    key: (Seq<char>, u64),
    other: (Seq<char>, u64),
)
    requires
        key != other,
    ensures
        spaces.insert(key).contains(key),
        !spaces.insert(key).remove(key).contains(key),
        spaces.insert(key).contains(other) == spaces.contains(other),
        spaces.insert(key).remove(key).contains(other) == spaces.contains(other),
{
}

} // verus!
