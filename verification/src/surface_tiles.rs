//! Tile state kept per surface.
//!
//! Tiles are invalidated by comparing a scene with the previous one, so every
//! surface has its own state and is only ever compared with itself. The number
//! of surfaces with state is capped; past the cap the least recently used one
//! gives way.
use std::collections::HashMap;
use vstd::prelude::*;

verus! {

broadcast use vstd::std_specs::hash::group_hash_axioms;

/// How many surfaces may hold tile state.
pub const MAX_SURFACE_TILE_STATES: usize = 64;

/// The tile state of one surface: the host's invalidation cache `C`, the scenes
/// `S` that go with its tiles, and when the two were last used.
pub struct SurfaceTileState<C, S> {
    pub tile_cache: C,
    pub tile_scenes: S,
    pub last_used: u64,
}

/// The tile states of all surfaces, with a clock that ticks on each use.
pub struct SurfaceTiles<C, S> {
    pub clock: u64,
    pub map: HashMap<u64, SurfaceTileState<C, S>>,
}

/// Whether no surface was used less recently than `surface`.
pub open spec fn least_recently_used<C, S>(
    states: Map<u64, SurfaceTileState<C, S>>,
    surface: u64,
) -> bool {
    &&& states.contains_key(surface)
    &&& forall|other: u64| #[trigger]
        states.contains_key(other) ==> states[surface].last_used <= states[other].last_used
}

/// At most one surface can be the next to give way.
pub proof fn law_eviction_is_determined<C, S>(tiles: SurfaceTiles<C, S>, a: u64, b: u64)
    requires
        tiles.well_formed(),
        least_recently_used(tiles.map@, a),
        least_recently_used(tiles.map@, b),
    ensures
        a == b,
{
}

/// The surface used last is not the next to give way, unless it is alone.
pub proof fn law_last_used_surface_stays<C, S>(tiles: SurfaceTiles<C, S>, surface: u64, other: u64)
    requires
        tiles.well_formed(),
        tiles.map@.contains_key(surface),
        tiles.map@[surface].last_used == tiles.clock,
        tiles.map@.contains_key(other),
        other != surface,
    ensures
        !least_recently_used(tiles.map@, surface),
{
    assert(tiles.map@[other].last_used <= tiles.clock);
}

/// Dropping a surface's state leaves the others alone, and once it is dropped
/// there is nothing more to drop.
pub proof fn law_invalidation_is_local<C, S>(
    states: Map<u64, SurfaceTileState<C, S>>,
    surface: u64,
    other: u64,
)
    requires
        other != surface,
    ensures
        states.remove(surface).contains_key(other) == states.contains_key(other),
        states.contains_key(other) ==> states.remove(surface)[other] == states[other],
        !states.remove(surface).contains_key(surface),
        states.remove(surface).remove(surface) == states.remove(surface),
{
    assert(states.remove(surface).remove(surface) =~= states.remove(surface));
}

impl<C, S> Default for SurfaceTiles<C, S> {
    fn default() -> (r: SurfaceTiles<C, S>)
        ensures
            r.clock == 0,
            r.map@ == Map::<u64, SurfaceTileState<C, S>>::empty(),
            r.well_formed(),
    {
        SurfaceTiles { clock: 0, map: HashMap::new() }
    }
}

impl<C, S> SurfaceTiles<C, S> {
    /// What holds while the states are used through these methods only: no use
    /// lies in the future, no two surfaces were used at the same time, and the
    /// cap is kept.
    pub open spec fn well_formed(self) -> bool {
        &&& forall|a: u64| #[trigger]
            self.map@.contains_key(a) ==> self.map@[a].last_used <= self.clock
        &&& forall|a: u64, b: u64|
            #![trigger self.map@.contains_key(a), self.map@.contains_key(b)]
            self.map@.contains_key(a) && self.map@.contains_key(b) && a != b
                ==> self.map@[a].last_used != self.map@[b].last_used
        &&& self.map@.len() <= MAX_SURFACE_TILE_STATES
    }

    /// Drops the state of one surface, and says whether there was any.
    pub fn invalidate(&mut self, surface: u64) -> (r: bool)
        ensures
            r == old(self).map@.contains_key(surface),
            final(self).map@ == old(self).map@.remove(surface),
            final(self).clock == old(self).clock,
            old(self).well_formed() ==> final(self).well_formed(),
    {
        self.map.remove(&surface).is_some()
    }

    /// Drops the state of all surfaces.
    pub fn clear(&mut self)
        ensures
            final(self).map@ == Map::<u64, SurfaceTileState<C, S>>::empty(),
            final(self).clock == old(self).clock,
            final(self).well_formed(),
    {
        self.map.clear();
    }

    fn oldest(&self) -> (r: Option<u64>)
        ensures
            match r {
                Some(surface) => least_recently_used(self.map@, surface),
                None => self.map@.dom() == Set::<u64>::empty(),
            },
    {
        let mut best: Option<(u64, u64)> = None;
        for entry in it: self.map.iter()
            invariant
                it.seq() == vstd::std_specs::iter::IteratorSpec::remaining(&self.map.iter()),
                match best {
                    Some((surface, used)) => {
                        &&& self.map@.contains_key(surface)
                        &&& self.map@[surface].last_used == used
                        &&& forall|j: int|
                            0 <= j < it.index() ==> used <= (#[trigger] it.seq()[j]).1.last_used
                    },
                    None => it.index() == 0,
                },
        {
            let used: u64 = entry.1.last_used;
            let replace: bool = match best {
                Some((_, least)) => used < least,
                None => true,
            };
            proof {
                assert(self.map@.contains_key(*it.seq()[it.index() as int].0));
            }
            if replace {
                best = Some((*entry.0, used));
            }
        }
        proof {
            let all = vstd::std_specs::iter::IteratorSpec::remaining(&self.map.iter());
            assert forall|other: u64| #[trigger] self.map@.contains_key(other) implies best is Some
                && best.unwrap().1 <= self.map@[other].last_used by {
                let pair = (&other, &self.map@[other]);
                assert(all.contains(pair));
                let j = choose|j: int| 0 <= j < all.len() && all[j] == pair;
                assert(all[j].1.last_used == self.map@[other].last_used);
            }
            if best is None {
                assert(self.map@.dom() =~= Set::<u64>::empty());
            }
        }
        match best {
            Some((surface, _)) => Some(surface),
            None => None,
        }
    }

    /// Marks a surface as used now, with fresh state if it had none. Where that
    /// would break the cap, another surface loses its state first; the result
    /// says which.
    pub fn touch<F: FnOnce() -> (C, S)>(&mut self, surface: u64, fresh: F) -> (evicted: Option<u64>)
        requires
            old(self).clock < u64::MAX,
            fresh.requires(()),
        ensures
            final(self).clock == old(self).clock + 1,
            evicted is Some <==> !old(self).map@.contains_key(surface) && old(self).map@.len()
                >= MAX_SURFACE_TILE_STATES,
            evicted matches Some(other) ==> least_recently_used(old(self).map@, other),
            final(self).map@.contains_key(surface),
            final(self).map@ == (match evicted {
                Some(other) => old(self).map@.remove(other),
                None => old(self).map@,
            }).insert(surface, final(self).map@[surface]),
            final(self).map@[surface].last_used == final(self).clock,
            old(self).map@.contains_key(surface) ==> {
                &&& final(self).map@[surface].tile_cache == old(self).map@[surface].tile_cache
                &&& final(self).map@[surface].tile_scenes == old(self).map@[surface].tile_scenes
            },
            !old(self).map@.contains_key(surface) ==> fresh.ensures(
                (),
                (final(self).map@[surface].tile_cache, final(self).map@[surface].tile_scenes),
            ),
            old(self).well_formed() ==> final(self).well_formed(),
    {
        self.clock = self.clock + 1;
        let clock: u64 = self.clock;
        let mut evicted: Option<u64> = None;
        if !self.map.contains_key(&surface) && self.map.len() >= MAX_SURFACE_TILE_STATES {
            evicted = self.oldest();
            proof {
                if evicted is None {
                    assert(self.map@.len() == 0);
                }
            }
            if let Some(other) = evicted {
                self.map.remove(&other);
            }
        }
        let state: SurfaceTileState<C, S> = match self.map.remove(&surface) {
            Some(kept) => SurfaceTileState {
                tile_cache: kept.tile_cache,
                tile_scenes: kept.tile_scenes,
                last_used: clock,
            },
            None => {
                let (tile_cache, tile_scenes) = fresh();
                SurfaceTileState { tile_cache, tile_scenes, last_used: clock }
            },
        };
        self.map.insert(surface, state);
        evicted
    }
}

} // verus!
