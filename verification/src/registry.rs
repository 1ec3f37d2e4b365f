//! The connection registry: one exclusive mutable slot per connection
//! identifier. Connecting under an identifier that is already live replaces
//! the prior connection outright; disconnecting an unknown identifier is a
//! successful no-op; any lookup of an unknown identifier is a "not
//! connected" error.
//!
//! The registry is generic in the connection it stores: the shell
//! instantiates it with its live backend handles. Its view is the map from
//! identifier characters to the stored connection.

use crate::error::DbError;
use crate::text::str_eq;
use vstd::map::*;
use vstd::prelude::*;
use vstd::seq_lib::group_seq_properties;

verus! {

/// The identifiers of the entries, in slot order.
pub open spec fn reg_ids<C>(entries: Seq<(String, C)>) -> Seq<Seq<char>> {
    entries.map_values(|p: (String, C)| p.0@)
}

/// First position of `id` in `ids`, or -1 when absent.
pub open spec fn ids_index(ids: Seq<Seq<char>>, id: Seq<char>) -> int
    decreases ids.len(),
{
    if ids.len() == 0 {
        -1
    } else if ids[0] == id {
        0
    } else if ids_index(ids.subrange(1, ids.len() as int), id) < 0 {
        -1
    } else {
        1 + ids_index(ids.subrange(1, ids.len() as int), id)
    }
}

/// `ids_index` finds exactly the first occurrence, and -1 exactly when the
/// identifier is absent.
pub proof fn lemma_ids_index_props(ids: Seq<Seq<char>>, id: Seq<char>)
    ensures
        ids_index(ids, id) == -1 <==> !ids.contains(id),
        ids_index(ids, id) >= 0 ==> {
            &&& ids_index(ids, id) < ids.len()
            &&& ids[ids_index(ids, id)] == id
            &&& forall|j: int| 0 <= j < ids_index(ids, id) ==> ids[j] != id
        },
    decreases ids.len(),
{
    if ids.len() == 0 {
    } else if ids[0] == id {
        assert(ids.contains(id));
    } else {
        let tail = ids.subrange(1, ids.len() as int);
        lemma_ids_index_props(tail, id);
        assert forall|j: int| 1 <= j < ids.len() implies ids[j] == tail[j - 1] by {}
        if ids.contains(id) {
            let w = choose|w: int| 0 <= w < ids.len() && ids[w] == id;
            assert(tail[w - 1] == id);
            assert(tail.contains(id));
        }
        if tail.contains(id) {
            let w = choose|w: int| 0 <= w < tail.len() && tail[w] == id;
            assert(ids[w + 1] == id);
            assert(ids.contains(id));
        }
    }
}

/// The position of a first match is what `ids_index` computes.
pub proof fn lemma_ids_index_first(ids: Seq<Seq<char>>, id: Seq<char>, i: int)
    requires
        0 <= i < ids.len(),
        ids[i] == id,
        forall|j: int| 0 <= j < i ==> ids[j] != id,
    ensures
        ids_index(ids, id) == i,
{
    lemma_ids_index_props(ids, id);
    assert(ids.contains(id)) by {
        assert(0 <= i < ids.len() && ids[i] == id);
    }
    let idx = ids_index(ids, id);
    if idx < i {
        assert(ids[idx] != id);
    } else if idx > i {
        assert(ids[i] != id);
    }
}

/// Removing a position that does not hold `id` shifts but never loses the
/// first occurrence of `id`.
pub proof fn lemma_ids_index_remove(ids: Seq<Seq<char>>, i: int, id: Seq<char>)
    requires
        0 <= i < ids.len(),
        ids[i] != id,
    ensures
        ids_index(ids.remove(i), id) == if ids_index(ids, id) == -1 {
            -1
        } else if ids_index(ids, id) < i {
            ids_index(ids, id)
        } else {
            ids_index(ids, id) - 1
        },
    decreases ids.len(),
{
    lemma_ids_index_props(ids, id);
    lemma_ids_index_props(ids.remove(i), id);
    let tail = ids.subrange(1, ids.len() as int);
    if i == 0 {
        assert(ids.remove(0) =~= tail);
    } else {
        if ids[0] == id {
            assert(ids.remove(i)[0] == id);
        } else {
            lemma_ids_index_remove(tail, i - 1, id);
            assert(ids.remove(i).subrange(1, ids.remove(i).len() as int) =~= tail.remove(i - 1));
            assert(ids.remove(i)[0] == ids[0]);
        }
    }
}

/// The concurrent registry's sequential core: the identifier-to-connection
/// store itself. Identifiers are unique across slots.
pub struct Registry<C> {
    entries: Vec<(String, C)>,
}

impl<C> View for Registry<C> {
    type V = Map<Seq<char>, C>;

    /// The map from identifier characters to the stored connection.
    closed spec fn view(&self) -> Map<Seq<char>, C> {
        Map::new(
            |k: Seq<char>| ids_index(reg_ids(self.entries@), k) >= 0,
            |k: Seq<char>| self.entries@[ids_index(reg_ids(self.entries@), k)].1,
        )
    }
}

impl<C> Registry<C> {
    /// Identifiers are pairwise distinct: each has exactly one slot.
    pub closed spec fn wf(&self) -> bool {
        reg_ids(self.entries@).no_duplicates()
    }

    /// An empty registry.
    pub fn new() -> (r: Registry<C>)
        ensures
            r.wf(),
            r@ == Map::<Seq<char>, C>::empty(),
    {
        let r = Registry { entries: Vec::new() };
        proof {
            assert(r@ =~= Map::<Seq<char>, C>::empty());
        }
        r
    }

    /// First slot holding `id`, if any.
    fn find_index(&self, id: &str) -> (r: Option<usize>)
        ensures
            match r {
                Some(i) => i < self.entries@.len() && self.entries@[i as int].0@ == id@ && (
                forall|j: int| 0 <= j < i ==> self.entries@[j].0@ != id@),
                None => forall|j: int| 0 <= j < self.entries@.len() ==> self.entries@[j].0@ != id@,
            },
    {
        let n = self.entries.len();
        let mut i: usize = 0;
        while i < n
            invariant
                n == self.entries@.len(),
                i <= n,
                forall|j: int| 0 <= j < i ==> self.entries@[j].0@ != id@,
            decreases n - i,
        {
            if str_eq(self.entries[i].0.as_str(), id) {
                return Some(i);
            }
            i = i + 1;
        }
        None
    }

    /// Opens (registers) a connection under `id`. An existing connection
    /// under the same identifier is replaced outright; the registry
    /// afterwards maps `id` to exactly this connection and nothing else
    /// changed.
    pub fn connect(&mut self, id: String, conn: C)
        requires
            old(self).wf(),
        ensures
            final(self).wf(),
            final(self)@ == old(self)@.insert(id@, conn),
    {
        broadcast use group_seq_properties;

        let found = self.find_index(id.as_str());
        match found {
            Some(i) => {
                let ghost pre = self.entries@;
                self.entries.remove(i);
                self.entries.insert(i, (id, conn));
                proof {
                    let post = self.entries@;
                    pre.remove_ensures(i as int);
                    pre.remove(i as int).insert_ensures(i as int, (id, conn));
                    assert(post.len() == pre.len());
                    assert forall|j: int| 0 <= j < pre.len() && j != i implies post[j] == pre[j] by {
                        if j < i {
                            assert(pre.remove(i as int)[j] == pre[j]);
                        } else {
                            assert(pre.remove(i as int)[j - 1] == pre[j]);
                            assert(post[j] == pre.remove(i as int)[j - 1]);
                        }
                    }
                    assert(post[i as int] == (id, conn));
                    assert(reg_ids(post) =~= reg_ids(pre));
                    assert(pre[i as int].0@ == id@);
                    lemma_ids_index_first(reg_ids(pre), id@, i as int);
                    assert forall|k: Seq<char>| true implies {
                        &&& self@.dom().contains(k) == old(self)@.insert(id@, conn).dom().contains(
                            k,
                        )
                        &&& self@.dom().contains(k) ==> self@[k] == old(self)@.insert(id@, conn)[k]
                    } by {
                        lemma_ids_index_props(reg_ids(pre), k);
                        if k != id@ && ids_index(reg_ids(pre), k) >= 0 {
                            assert(reg_ids(pre)[ids_index(reg_ids(pre), k)] == k);
                            assert(ids_index(reg_ids(pre), k) != i as int);
                            assert(post[ids_index(reg_ids(pre), k)] == pre[ids_index(
                                reg_ids(pre),
                                k,
                            )]);
                        }
                    }
                    assert(self@ =~= old(self)@.insert(id@, conn));
                }
            },
            None => {
                let ghost pre = self.entries@;
                self.entries.push((id, conn));
                proof {
                    let post = self.entries@;
                    assert(post == pre.push((id, conn)));
                    assert(reg_ids(post) =~= reg_ids(pre).push(id@));
                    assert(reg_ids(post)[pre.len() as int] == id@);
                    assert forall|j: int| 0 <= j < pre.len() implies reg_ids(post)[j] == reg_ids(
                        pre,
                    )[j] && reg_ids(pre)[j] != id@ by {
                        assert(pre[j].0@ != id@);
                    }
                    lemma_ids_index_first(reg_ids(post), id@, pre.len() as int);
                    assert_maps_equal!(self@, old(self)@.insert(id@, conn), k => {
                        lemma_ids_index_props(reg_ids(pre), k);
                        lemma_ids_index_props(reg_ids(post), k);
                        if k != id@ {
                            let pre_idx = ids_index(reg_ids(pre), k);
                            let post_idx = ids_index(reg_ids(post), k);
                            if pre_idx >= 0 {
                                // the first match is in the unchanged prefix
                                assert(reg_ids(post)[pre_idx] == k);
                                if post_idx < pre_idx {
                                    assert(reg_ids(pre)[post_idx] == reg_ids(post)[post_idx]);
                                    assert(reg_ids(pre)[post_idx] != k);
                                    assert(false);
                                } else if post_idx > pre_idx {
                                    assert(reg_ids(post)[pre_idx] != k);
                                    assert(false);
                                }
                                assert(post[post_idx] == pre[pre_idx]);
                            } else {
                                // absent before, still absent: only the new id was added
                                if post_idx >= 0 {
                                    assert(reg_ids(post)[post_idx] == k);
                                    assert(post_idx != pre.len());
                                    assert(reg_ids(pre)[post_idx] == k);
                                    assert(reg_ids(pre).contains(k));
                                    assert(false);
                                }
                            }
                        }
                    });
                    // uniqueness is kept: the pushed identifier was absent
                    assert forall|a: int, b: int|
                        0 <= a < b < reg_ids(post).len() implies reg_ids(post)[a] != reg_ids(
                        post,
                    )[b] by {
                        if b == pre.len() {
                            assert(reg_ids(post)[a] == reg_ids(pre)[a]);
                        } else {
                            assert(reg_ids(post)[a] == reg_ids(pre)[a]);
                            assert(reg_ids(post)[b] == reg_ids(pre)[b]);
                        }
                    }
                }
            },
        }
    }

    /// Closes the connection under `id`, if one is live. Idempotent: an
    /// unknown or already-removed identifier is a successful no-op.
    pub fn disconnect(&mut self, id: &str)
        requires
            old(self).wf(),
        ensures
            final(self).wf(),
            final(self)@ == old(self)@.remove(id@),
    {
        broadcast use group_seq_properties;

        let found = self.find_index(id);
        match found {
            Some(i) => {
                let ghost pre = self.entries@;
                self.entries.remove(i);
                proof {
                    let post = self.entries@;
                    pre.remove_ensures(i as int);
                    assert(post == pre.remove(i as int));
                    assert forall|j: int|
                        0 <= j < post.len() implies reg_ids(post)[j] == (if j < i as int {
                        reg_ids(pre)[j]
                    } else {
                        reg_ids(pre)[j + 1]
                    }) by {
                        if j < i as int {
                            assert(post[j] == pre[j]);
                        } else {
                            assert(post[j] == pre[j + 1]);
                        }
                    }
                    assert(reg_ids(post) =~= reg_ids(pre).remove(i as int));
                    assert(reg_ids(pre)[i as int] == id@);
                    assert_maps_equal!(self@, old(self)@.remove(id@), k => {
                        lemma_ids_index_props(reg_ids(pre), k);
                        lemma_ids_index_props(reg_ids(post), k);
                        if k == id@ {
                            // the only slot holding the identifier was removed
                            if ids_index(reg_ids(post), k) >= 0 {
                                let w = ids_index(reg_ids(post), k);
                                assert(reg_ids(post)[w] == k);
                                if w < i as int {
                                    assert(reg_ids(pre)[w] == k);
                                    assert(pre[w].0@ == id@);
                                    assert(false);
                                } else {
                                    assert(reg_ids(pre)[w + 1] == k);
                                    assert(reg_ids(pre)[i as int] == reg_ids(pre)[w + 1]);
                                    assert(i as int != w + 1);
                                    assert(false);
                                }
                            }
                        } else {
                            lemma_ids_index_remove(reg_ids(pre), i as int, k);
                            let pre_idx = ids_index(reg_ids(pre), k);
                            let post_idx = ids_index(reg_ids(post), k);
                            if pre_idx >= 0 {
                                if pre_idx < i as int {
                                    assert(post[post_idx] == pre[pre_idx]);
                                } else {
                                    assert(reg_ids(pre)[pre_idx] == k);
                                    assert(pre_idx != i as int);
                                    assert(post_idx == pre_idx - 1);
                                    assert(post[post_idx] == pre[pre_idx]);
                                }
                            }
                        }
                    });
                    // uniqueness is kept under removal
                    assert forall|a: int, b: int|
                        0 <= a < b < reg_ids(post).len() implies reg_ids(post)[a] != reg_ids(
                        post,
                    )[b] by {
                        let pa: int = if a < i as int {
                            a
                        } else {
                            a + 1
                        };
                        let pb: int = if b < i as int {
                            b
                        } else {
                            b + 1
                        };
                        assert(reg_ids(post)[a] == reg_ids(pre)[pa]);
                        assert(reg_ids(post)[b] == reg_ids(pre)[pb]);
                        assert(pa < pb);
                    }
                }
            },
            None => {
                proof {
                    assert_maps_equal!(self@, old(self)@.remove(id@), k => {
                        lemma_ids_index_props(reg_ids(self.entries@), k);
                        if k == id@ && ids_index(reg_ids(self.entries@), k) >= 0 {
                            assert(self.entries@[ids_index(reg_ids(self.entries@), k)].0@ == id@);
                        }
                    });
                }
            },
        }
    }

    /// The live connection under `id`, or the "not connected" error every
    /// operation on an unknown identifier surfaces.
    pub fn lookup(&self, id: &str) -> (r: Result<&C, DbError>)
        ensures
            match r {
                Ok(c) => self@.dom().contains(id@) && *c == self@[id@],
                Err(e) => !self@.dom().contains(id@) && e matches DbError::NotConnected,
            },
    {
        let found = self.find_index(id);
        match found {
            Some(i) => {
                proof {
                    lemma_ids_index_props(reg_ids(self.entries@), id@);
                    assert(reg_ids(self.entries@)[i as int] == id@);
                    assert(reg_ids(self.entries@).contains(id@));
                    assert(ids_index(reg_ids(self.entries@), id@) == i as int);
                }
                Ok(&self.entries[i].1)
            },
            None => {
                proof {
                    lemma_ids_index_props(reg_ids(self.entries@), id@);
                    if reg_ids(self.entries@).contains(id@) {
                        let w = choose|w: int|
                            0 <= w < self.entries@.len() && reg_ids(self.entries@)[w] == id@;
                        assert(self.entries@[w].0@ == id@);
                    }
                }
                Err(DbError::NotConnected)
            },
        }
    }

    /// How many connections are live: the size of the registry's domain.
    pub fn count(&self) -> (r: usize)
        requires
            self.wf(),
        ensures
            self@.dom().finite(),
            self@.dom().len() == r,
    {
        proof {
            let ids = reg_ids(self.entries@);
            assert forall|k: Seq<char>| self@.dom().contains(k) == ids.to_set().contains(k) by {
                lemma_ids_index_props(ids, k);
            }
            assert(self@.dom() =~= ids.to_set());
            ids.unique_seq_to_set();
        }
        self.entries.len()
    }
}

/// Replace on reconnect: connecting twice under one identifier leaves the
/// registry exactly as a single connect with the second connection would,
/// so later operations observe only the second connection.
pub proof fn lemma_replace_on_reconnect<C>(m: Map<Seq<char>, C>, id: Seq<char>, c1: C, c2: C)
    ensures
        m.insert(id, c1).insert(id, c2) == m.insert(id, c2),
        m.insert(id, c1).insert(id, c2).dom() =~= m.dom().insert(id),
{
    assert(m.insert(id, c1).insert(id, c2) =~= m.insert(id, c2));
}

/// Disconnect is idempotent: removing an identifier twice leaves exactly
/// the state one removal leaves, and both calls succeed.
pub proof fn lemma_disconnect_idempotent<C>(m: Map<Seq<char>, C>, id: Seq<char>)
    ensures
        m.remove(id).remove(id) == m.remove(id),
{
    assert(m.remove(id).remove(id) =~= m.remove(id));
}

} // verus!
