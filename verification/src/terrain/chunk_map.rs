use vstd::prelude::*;

use crate::keyed::{keyed_map, lemma_keyed_map, lemma_keyed_map_push, lemma_keyed_map_update, unique_keys};
use super::chunk_bounds::ChunkBounds;

verus! {

/// The loaded chunks of the terrain, each under the bounds it covers; a
/// chunk loaded for bounds that are already present replaces the old one.
pub struct ChunkMap<T> {
    entries: Vec<(ChunkBounds, T)>,
}

impl<T> ChunkMap<T> {
    /// The chunks by their bounds.
    pub closed spec fn view_map(self) -> Map<ChunkBounds, T> {
        keyed_map(self.entries@)
    }

    /// The entries in storage order.
    pub closed spec fn entries(self) -> Seq<(ChunkBounds, T)> {
        self.entries@
    }

    pub closed spec fn wf(self) -> bool {
        unique_keys(self.entries@)
    }

    /// The stored entries are exactly the map's pairs.
    pub proof fn lemma_entries(self)
        requires
            self.wf(),
        ensures
            forall|i: int|
                0 <= i < self.entries().len() ==> #[trigger] self.view_map()[self.entries()[i].0]
                    == self.entries()[i].1 && self.view_map().contains_key(self.entries()[i].0),
            forall|b: ChunkBounds|
                #![trigger self.view_map().contains_key(b)]
                self.view_map().contains_key(b) <==> exists|i: int|
                    0 <= i < self.entries().len() && self.entries()[i].0 == b,
            forall|i: int, j: int|
                0 <= i < j < self.entries().len() ==> self.entries()[i].0 != self.entries()[j].0,
    {
        lemma_keyed_map(self.entries@);
        assert forall|b: ChunkBounds| #[trigger] self.view_map().contains_key(b) <==> exists|i: int|
            0 <= i < self.entries().len() && self.entries()[i].0 == b by {
            if self.view_map().contains_key(b) {
                let i = choose|i: int| 0 <= i < self.entries@.len() && self.entries@[i].0 == b;
                assert(self.entries()[i].0 == b);
            }
            if exists|i: int| 0 <= i < self.entries().len() && self.entries()[i].0 == b {
                let i = choose|i: int| 0 <= i < self.entries().len() && self.entries()[i].0 == b;
                assert(keyed_map(self.entries@)[self.entries@[i].0] == self.entries@[i].1);
            }
        }
    }

    /// A map with no chunks.
    pub fn new() -> (map: ChunkMap<T>)
        ensures
            map.wf(),
            map.view_map() == Map::<ChunkBounds, T>::empty(),
            map.entries().len() == 0,
    {
        ChunkMap { entries: Vec::new() }
    }

    fn find(&self, bounds: &ChunkBounds) -> (found: Option<usize>)
        requires
            self.wf(),
        ensures
            match found {
                Some(i) => i < self.entries@.len() && self.entries@[i as int].0 == *bounds,
                None => !self.view_map().contains_key(*bounds),
            },
    {
        let mut i: usize = 0;
        while i < self.entries.len()
            invariant
                self.wf(),
                i <= self.entries@.len(),
                forall|j: int| 0 <= j < i ==> self.entries@[j].0 != *bounds,
            decreases self.entries@.len() - i,
        {
            if self.entries[i].0 == *bounds {
                return Some(i);
            }
            i = i + 1;
        }
        proof {
            lemma_keyed_map(self.entries@);
        }
        None
    }

    /// Stores `chunk` under `bounds`, replacing a chunk stored there before.
    pub fn insert(&mut self, bounds: ChunkBounds, chunk: T)
        requires
            old(self).wf(),
        ensures
            final(self).wf(),
            final(self).view_map() == old(self).view_map().insert(bounds, chunk),
            final(self).entries().len() == old(self).entries().len() + if old(
                self,
            ).view_map().contains_key(bounds) {
                0int
            } else {
                1int
            },
    {
        let ghost c = chunk;
        proof {
            lemma_keyed_map(self.entries@);
        }
        match self.find(&bounds) {
            Some(i) => {
                proof {
                    lemma_keyed_map_update(self.entries@, i as int, c);
                }
                self.entries.set(i, (bounds, chunk));
            },
            None => {
                proof {
                    lemma_keyed_map_push(self.entries@, (bounds, c));
                }
                self.entries.push((bounds, chunk));
            },
        }
    }

    /// The chunk stored under `bounds`, if any.
    pub fn get(&self, bounds: &ChunkBounds) -> (chunk: Option<&T>)
        requires
            self.wf(),
        ensures
            match chunk {
                Some(c) => self.view_map().contains_key(*bounds) && *c == self.view_map()[*bounds],
                None => !self.view_map().contains_key(*bounds),
            },
    {
        match self.find(bounds) {
            Some(i) => {
                proof {
                    lemma_keyed_map(self.entries@);
                }
                Some(&self.entries[i].1)
            },
            None => None,
        }
    }

    /// The number of stored chunks.
    pub fn len(&self) -> (n: usize)
        ensures
            n == self.entries().len(),
    {
        self.entries.len()
    }

    /// The entry at storage position `i`.
    pub fn get_at(&self, i: usize) -> (entry: (&ChunkBounds, &T))
        requires
            i < self.entries().len(),
        ensures
            (*entry.0, *entry.1) == self.entries()[i as int],
    {
        (&self.entries[i].0, &self.entries[i].1)
    }
}

/// After a chunk is stored under `bounds`, looking `bounds` up gives that
/// chunk, and every other bounds gives what it gave before.
pub proof fn lemma_insert_then_get<T>(
    before: ChunkMap<T>,
    after: ChunkMap<T>,
    bounds: ChunkBounds,
    chunk: T,
    other: ChunkBounds,
)
    requires
        after.view_map() == before.view_map().insert(bounds, chunk),
    ensures
        after.view_map().contains_key(bounds),
        after.view_map()[bounds] == chunk,
        other != bounds ==> (after.view_map().contains_key(other) <==> before.view_map().contains_key(
            other,
        )),
        other != bounds && before.view_map().contains_key(other) ==> after.view_map()[other]
            == before.view_map()[other],
{
}

} // verus!
