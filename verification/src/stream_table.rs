//! The table of each task's standard streams, keyed by task id.
//!
//! Task ids are looked up in hashbrown's `HashMap`, which gives each id the
//! position of its entry; the entries themselves sit in a `Vec`.

use vstd::prelude::*;

verus! {

/// Task id to the position of that task's entry, held in hashbrown's
/// `HashMap`.
///
/// hashbrown's `HashMap` has an allocator parameter whose bound lives in
/// the `allocator-api2` crate, and Verus refuses a declaration of the map
/// without it, so the map is held in a private field: Verus sees it only
/// through `slot_index_entries` and the four functions below.
#[verifier::external_body]
pub struct SlotIndex {
    map: hashbrown::HashMap<usize, usize>,
}

/// The pairs (task id, position) that `index` holds.
pub uninterp spec fn slot_index_entries(index: SlotIndex) -> Map<usize, usize>;

/// `hashbrown::HashMap::new`. Claimed: the new map holds no pair.
#[verifier::external_body]
fn slot_index_new() -> (r: SlotIndex)
    ensures
        slot_index_entries(r).dom() == Set::<usize>::empty(),
{
    SlotIndex { map: hashbrown::HashMap::new() }
}

/// `hashbrown::HashMap::get`, with the value copied out. Claimed: the
/// position held for `id`, or `None` where the map holds no pair for it.
#[verifier::external_body]
fn slot_index_get(index: &SlotIndex, id: usize) -> (r: Option<usize>)
    ensures
        r == (if slot_index_entries(*index).contains_key(id) {
            Some(slot_index_entries(*index)[id])
        } else {
            None
        }),
{
    index.map.get(&id).copied()
}

/// `hashbrown::HashMap::insert`. Claimed: afterwards the map holds `pos` for
/// `id` and is otherwise unchanged, and the position it held for `id`
/// before, if any, is returned.
#[verifier::external_body]
fn slot_index_insert(index: &mut SlotIndex, id: usize, pos: usize) -> (r: Option<usize>)
    ensures
        slot_index_entries(*final(index)) == slot_index_entries(*old(index)).insert(id, pos),
        r == (if slot_index_entries(*old(index)).contains_key(id) {
            Some(slot_index_entries(*old(index))[id])
        } else {
            None
        }),
{
    index.map.insert(id, pos)
}

/// `hashbrown::HashMap::remove`. Claimed: afterwards the map holds no pair
/// for `id` and is otherwise unchanged, and the position it held for `id`
/// before, if any, is returned.
#[verifier::external_body]
fn slot_index_remove(index: &mut SlotIndex, id: usize) -> (r: Option<usize>)
    ensures
        slot_index_entries(*final(index)) == slot_index_entries(*old(index)).remove(id),
        r == (if slot_index_entries(*old(index)).contains_key(id) {
            Some(slot_index_entries(*old(index))[id])
        } else {
            None
        }),
{
    index.map.remove(&id)
}

/// The values of a registry, each under its own id.
pub struct StreamTable<T> {
    index: SlotIndex,
    entries: Vec<(usize, T)>,
}

impl<T> StreamTable<T> {
    /// Task id to the position of its entry.
    pub closed spec fn positions(&self) -> Map<usize, usize> {
        slot_index_entries(self.index)
    }

    /// The values by id.
    pub closed spec fn view(&self) -> Map<usize, T> {
        Map::new(
            |id: usize| self.positions().contains_key(id),
            |id: usize| self.entries@[self.positions()[id] as int].1,
        )
    }

    /// The index gives each entry its own position, and every id it holds
    /// leads to the entry of that id.
    pub closed spec fn wf(&self) -> bool {
        &&& forall|i: int|
            0 <= i < self.entries@.len() ==> self.positions().contains_key((#[trigger] self.entries@[i]).0)
                && self.positions()[self.entries@[i].0] == i
        &&& forall|id: usize| #[trigger]
            self.positions().contains_key(id) ==> self.positions()[id] < self.entries@.len()
                && self.entries@[self.positions()[id] as int].0 == id
    }

    /// An empty table.
    pub fn new() -> (r: StreamTable<T>)
        ensures
            r.wf(),
            r.view() == Map::<usize, T>::empty(),
    {
        let r = StreamTable { index: slot_index_new(), entries: Vec::new() };
        assert(r.view() =~= Map::<usize, T>::empty());
        r
    }

    /// The value held under `id`, if any.
    pub fn get(&self, id: usize) -> (r: Option<&T>)
        requires
            self.wf(),
        ensures
            r is Some <==> self.view().contains_key(id),
            r matches Some(v) ==> *v == self.view()[id],
    {
        match slot_index_get(&self.index, id) {
            Some(p) => {
                assert(self.positions().contains_key(id));
                Some(&self.entries[p].1)
            },
            None => None,
        }
    }

    /// Takes the value held under `id` out of the table, if any.
    pub fn remove(&mut self, id: usize) -> (r: Option<T>)
        requires
            old(self).wf(),
        ensures
            final(self).wf(),
            final(self).view() == old(self).view().remove(id),
            r is Some <==> old(self).view().contains_key(id),
            r matches Some(v) ==> v == old(self).view()[id],
    {
        let ghost s = self.entries@;
        let ghost m = self.positions();
        match slot_index_remove(&mut self.index, id) {
            None => {
                assert(self.view() =~= old(self).view().remove(id));
                None
            },
            Some(p) => {
                let (_, v) = self.entries.swap_remove(p);
                if p < self.entries.len() {
                    let moved: usize = self.entries[p].0;
                    slot_index_insert(&mut self.index, moved, p);
                }
                proof {
                    self.lemma_removed(s, m, id, p as int);
                    assert(old(self).view() =~= Map::new(
                        |k: usize| m.contains_key(k),
                        |k: usize| s[m[k] as int].1,
                    ));
                }
                Some(v)
            },
        }
    }

    /// After the entry of `id` at position `p` was swapped out for the last
    /// one and the index was mended, the table is well formed and holds
    /// what it held before but `id`.
    proof fn lemma_removed(&self, s: Seq<(usize, T)>, m: Map<usize, usize>, id: usize, p: int)
        requires
            forall|i: int| 0 <= i < s.len() ==> m.contains_key((#[trigger] s[i]).0) && m[s[i].0] == i,
            forall|k: usize| #[trigger] m.contains_key(k) ==> m[k] < s.len() && s[m[k] as int].0 == k,
            m.contains_key(id),
            m[id] == p,
            self.entries@ == s.update(p, s.last()).drop_last(),
            p < s.len() - 1 ==> self.positions() == m.remove(id).insert(s.last().0, p as usize),
            p == s.len() - 1 ==> self.positions() == m.remove(id),
        ensures
            self.wf(),
            self.view() == Map::new(
                |k: usize| m.contains_key(k),
                |k: usize| s[m[k] as int].1,
            ).remove(id),
    {
        let e = self.entries@;
        let n = self.positions();
        assert forall|i: int| 0 <= i < e.len() implies n.contains_key((#[trigger] e[i]).0) && n[e[i].0] == i by {
            if i != p {
                assert(e[i] == s[i]);
                assert(m[s[i].0] == i);
                assert(m[s[s.len() - 1].0] == s.len() - 1);
            }
        }
        assert forall|k: usize| #[trigger] n.contains_key(k) implies n[k] < e.len() && e[n[k] as int].0 == k by {
            if p < s.len() - 1 && k == s.last().0 {
            } else {
                let q = m[k] as int;
                assert(s[q].0 == k);
                assert(q != p);
                assert(m[s[s.len() - 1].0] == s.len() - 1);
                assert(q != s.len() - 1);
                assert(e[q] == s[q]);
            }
        }
        let before = Map::new(|k: usize| m.contains_key(k), |k: usize| s[m[k] as int].1);
        assert forall|k: usize| #[trigger] self.view().contains_key(k) implies self.view()[k]
            == before.remove(id)[k] by {
            if p < s.len() - 1 && k == s.last().0 {
                assert(m[s[s.len() - 1].0] == s.len() - 1);
            } else {
                let q = m[k] as int;
                assert(s[q].0 == k);
                assert(m[s[s.len() - 1].0] == s.len() - 1);
                assert(e[q] == s[q]);
            }
        }
        assert(self.view() =~= before.remove(id));
    }

    /// Puts `value` under `id`, returning the value held there before, if any.
    pub fn insert(&mut self, id: usize, value: T) -> (r: Option<T>)
        requires
            old(self).wf(),
        ensures
            final(self).wf(),
            final(self).view() == old(self).view().insert(id, value),
            r is Some <==> old(self).view().contains_key(id),
            r matches Some(v) ==> v == old(self).view()[id],
    {
        let previous = self.remove(id);
        let ghost s = self.entries@;
        let ghost m = self.positions();
        let ghost before = self.view();
        let pos = self.entries.len();
        self.entries.push((id, value));
        slot_index_insert(&mut self.index, id, pos);
        proof {
            let e = self.entries@;
            let n = self.positions();
            assert(!m.contains_key(id)) by {
                assert(!before.contains_key(id));
            }
            assert forall|i: int| 0 <= i < e.len() implies n.contains_key((#[trigger] e[i]).0) && n[e[i].0]
                == i by {
                if i < s.len() {
                    assert(e[i] == s[i]);
                    assert(m.contains_key(s[i].0));
                }
            }
            assert forall|k: usize| #[trigger] n.contains_key(k) implies n[k] < e.len() && e[n[k] as int].0
                == k by {
                if k != id {
                    assert(e[m[k] as int] == s[m[k] as int]);
                }
            }
            assert forall|k: usize| #[trigger] self.view().contains_key(k) implies self.view()[k]
                == before.insert(id, value)[k] by {
                if k != id {
                    assert(e[m[k] as int] == s[m[k] as int]);
                }
            }
            assert(self.view() =~= before.insert(id, value));
        }
        previous
    }
}

} // verus!
