//! The link table: page identity to canonical output path.
//!
//! Built once by the partitioner, then consumed read-only by every later
//! stage for cross-page hyperlinking. Abstractly it is a map; when two
//! entries share an identity, the later one wins, mirroring plain map
//! insertion.

use vstd::prelude::*;

verus! {

/// Mapping from page identity to canonical output path.
pub struct LinkTable {
    entries: Vec<(u128, String)>,
}

/// The map described by a run of insertions, later entries winning.
pub open spec fn link_map_of(s: Seq<(u128, String)>) -> Map<u128, Seq<char>>
    decreases s.len(),
{
    if s.len() == 0 {
        Map::empty()
    } else {
        link_map_of(s.drop_last()).insert(s.last().0, s.last().1@)
    }
}

impl View for LinkTable {
    type V = Map<u128, Seq<char>>;

    closed spec fn view(&self) -> Map<u128, Seq<char>> {
        link_map_of(self.entries@)
    }
}

impl LinkTable {
    pub fn new() -> (r: LinkTable)
        ensures
            r@ == Map::<u128, Seq<char>>::empty(),
    {
        LinkTable { entries: Vec::new() }
    }

    /// Record `path` as the canonical path of page `id`.
    pub fn insert(&mut self, id: u128, path: String)
        ensures
            final(self)@ == old(self)@.insert(id, path@),
    {
        self.entries.push((id, path));
        proof {
            assert(self.entries@.drop_last() =~= old(self).entries@);
        }
    }

    /// Look up the canonical path of page `id`.
    pub fn get(&self, id: u128) -> (r: Option<&String>)
        ensures
            match r {
                Some(path) => self@.dom().contains(id) && self@[id] == path@,
                None => !self@.dom().contains(id),
            },
    {
        let n = self.entries.len();
        let mut i: usize = n;
        proof {
            assert(self.entries@.take(n as int) =~= self.entries@);
        }
        while i > 0
            invariant
                i <= n,
                n == self.entries@.len(),
                forall|j: int| i <= j < n ==> self.entries@[j].0 != id,
                link_map_of(self.entries@.take(i as int)).dom().contains(id) == self@.dom()
                    .contains(id),
                link_map_of(self.entries@.take(i as int)).dom().contains(id) ==> link_map_of(
                    self.entries@.take(i as int),
                )[id] == self@[id],
            decreases i,
        {
            let entry = &self.entries[i - 1];
            proof {
                assert(self.entries@.take(i as int).drop_last() =~= self.entries@.take(i - 1));
                assert(self.entries@.take(i as int).last() == self.entries@[i - 1]);
            }
            if entry.0 == id {
                return Some(&entry.1);
            }
            i = i - 1;
        }
        proof {
            assert(self.entries@.take(0) =~= Seq::<(u128, String)>::empty());
        }
        None
    }
}

} // verus!
