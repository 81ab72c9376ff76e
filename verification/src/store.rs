//! The snapshot store: a mapping from repository identifier to its latest
//! snapshot. A snapshot is either a rendered page (`Ready`) or the record of
//! a failed fetch (`Failed`); a `put` replaces the whole entry at once, so a
//! reader always sees one complete snapshot, never a partial one.
//!
//! The store itself is sequential; callers that share it across tasks wrap
//! it in a readers-writer lock and hold the write side only for the instant
//! of the swap.

use vstd::prelude::*;

verus! {

/// The latest known state of one monitored repository: a rendered page with
/// its generation time and render duration, or the reason the last fetch
/// failed.
pub enum Snapshot {
    Ready { rendered_body: String, generated_at: String, render_duration_ms: u64 },
    Failed { reason: String },
}

/// Spec-level image of a [`Snapshot`].
pub ghost enum SnapshotView {
    Ready { rendered_body: Seq<char>, generated_at: Seq<char>, render_duration_ms: u64 },
    Failed { reason: Seq<char> },
}

impl DeepView for Snapshot {
    type V = SnapshotView;

    open spec fn deep_view(&self) -> SnapshotView {
        match self {
            Snapshot::Ready { rendered_body, generated_at, render_duration_ms } =>
                SnapshotView::Ready {
                    rendered_body: rendered_body@,
                    generated_at: generated_at@,
                    render_duration_ms: *render_duration_ms,
                },
            Snapshot::Failed { reason } => SnapshotView::Failed { reason: reason@ },
        }
    }
}

/// Maps repository identifiers (`"org/repo"` strings) to their latest
/// snapshot. Keys are unique; their order is insertion order, which `put`
/// preserves when it replaces an existing entry.
pub struct SnapshotStore {
    entries: Vec<(String, Snapshot)>,
}

impl View for SnapshotStore {
    type V = Map<Seq<char>, SnapshotView>;

    closed spec fn view(&self) -> Map<Seq<char>, SnapshotView> {
        Map::new(
            |k: Seq<char>|
                exists|i: int|
                    0 <= i < self.entries.deep_view().len() && (#[trigger] self.entries.deep_view()[
                        i
                    ]).0 == k,
            |k: Seq<char>|
                self.entries.deep_view()[
                    choose|i: int|
                        0 <= i < self.entries.deep_view().len() && (
                        #[trigger] self.entries.deep_view()[i]).0 == k
                ].1,
        )
    }
}

impl SnapshotStore {
    /// Key uniqueness: no repository identifier occurs twice. Established by
    /// [`SnapshotStore::new`] and preserved by [`SnapshotStore::put`].
    pub closed spec fn wf(&self) -> bool {
        forall|i: int, j: int|
            0 <= i < j < self.entries.deep_view().len() ==> (#[trigger] self.entries.deep_view()[
                i
            ]).0 != (#[trigger] self.entries.deep_view()[j]).0
    }

    /// The stored repository identifiers, in insertion order.
    pub closed spec fn key_seq(&self) -> Seq<Seq<char>> {
        Seq::new(self.entries.deep_view().len(), |i: int| self.entries.deep_view()[i].0)
    }

    /// An empty store.
    pub fn new() -> (r: SnapshotStore)
        ensures
            r.wf(),
            r@ == Map::<Seq<char>, SnapshotView>::empty(),
            r.key_seq() == Seq::<Seq<char>>::empty(),
    {
        let r = SnapshotStore { entries: Vec::new() };
        proof {
            assert(r@ =~= Map::<Seq<char>, SnapshotView>::empty());
            assert(r.key_seq() =~= Seq::<Seq<char>>::empty());
        }
        r
    }

    /// Looks a repository up. Returns its current snapshot exactly when one
    /// was ever published for it.
    #[verifier::loop_isolation(false)]
    pub fn get(&self, key: &String) -> (r: Option<&Snapshot>)
        requires
            self.wf(),
        ensures
            match r {
                Some(snap) => self@.contains_key(key@) && snap.deep_view() == self@[key@],
                None => !self@.contains_key(key@),
            },
    {
        let ghost ev = self.entries.deep_view();
        let mut i: usize = 0;
        while i < self.entries.len()
            invariant
                0 <= i <= self.entries.len(),
                ev == self.entries.deep_view(),
                forall|j: int| 0 <= j < i ==> (#[trigger] ev[j]).0 != key@,
            decreases self.entries.len() - i,
        {
            proof {
                assert(ev[i as int] == self.entries@[i as int].deep_view());
            }
            if self.entries[i].0 == *key {
                proof {
                    let w = choose|w: int| 0 <= w < ev.len() && (#[trigger] ev[w]).0 == key@;
                    assert(w == i as int);
                }
                return Some(&self.entries[i].1);
            }
            i += 1;
        }
        proof {
            assert(forall|j: int| 0 <= j < ev.len() ==> (#[trigger] ev[j]).0 != key@);
        }
        None
    }

    /// Publishes a snapshot: atomically replaces whatever the repository had
    /// before, and leaves every other repository untouched. A key already
    /// present keeps its place; a new key goes to the end.
    #[verifier::loop_isolation(false)]
    pub fn put(&mut self, key: String, snap: Snapshot)
        requires
            old(self).wf(),
        ensures
            final(self).wf(),
            final(self)@ == old(self)@.insert(key@, snap.deep_view()),
            old(self)@.contains_key(key@) ==> final(self).key_seq() == old(self).key_seq(),
            !old(self)@.contains_key(key@) ==> final(self).key_seq() == old(self).key_seq().push(
                key@,
            ),
    {
        let ghost oldev = self.entries.deep_view();
        let ghost snapv = snap.deep_view();
        let mut i: usize = 0;
        while i < self.entries.len()
            invariant
                0 <= i <= self.entries.len(),
                oldev == self.entries.deep_view(),
                forall|j: int| 0 <= j < i ==> (#[trigger] oldev[j]).0 != key@,
            decreases self.entries.len() - i,
        {
            proof {
                assert(oldev[i as int] == self.entries@[i as int].deep_view());
            }
            if self.entries[i].0 == key {
                self.entries.remove(i);
                self.entries.insert(i, (key, snap));
                proof {
                    let ev = self.entries.deep_view();
                    assert(ev =~= oldev.update(i as int, (oldev[i as int].0, snapv)));
                    assert(old(self)@.contains_key(oldev[i as int].0));
                    assert(self.key_seq() =~= old(self).key_seq());
                    assert forall|k: Seq<char>| true implies self@.contains_key(k) == old(
                        self,
                    )@.insert(key@, snapv).contains_key(k) by {
                        if k == key@ {
                            assert(ev[i as int].0 == k);
                            assert(self@.contains_key(k));
                        } else {
                            if self@.contains_key(k) {
                                let w = choose|w: int|
                                    0 <= w < ev.len() && (#[trigger] ev[w]).0 == k;
                                assert(oldev[w].0 == k);
                                assert(old(self)@.contains_key(k));
                            }
                            if old(self)@.contains_key(k) {
                                let w = choose|w: int|
                                    0 <= w < oldev.len() && (#[trigger] oldev[w]).0 == k;
                                assert(ev[w].0 == k);
                                assert(self@.contains_key(k));
                            }
                        }
                    }
                    assert forall|k: Seq<char>| self@.contains_key(k) implies self@[k] == old(
                        self,
                    )@.insert(key@, snapv)[k] by {
                        let w = choose|w: int| 0 <= w < ev.len() && (#[trigger] ev[w]).0 == k;
                        if k == key@ {
                            assert(w == i as int);
                        } else {
                            assert(ev[w] == oldev[w]);
                            let w2 = choose|w2: int|
                                0 <= w2 < oldev.len() && (#[trigger] oldev[w2]).0 == k;
                            assert(w2 == w);
                        }
                    }
                    assert(self@ =~= old(self)@.insert(key@, snapv));
                }
                return ;
            }
            i += 1;
        }
        proof {
            assert(forall|j: int| 0 <= j < oldev.len() ==> (#[trigger] oldev[j]).0 != key@);
            assert(!old(self)@.contains_key(key@));
        }
        let ghost keyv = key@;
        self.entries.push((key, snap));
        proof {
            let ev = self.entries.deep_view();
            assert(ev =~= oldev.push((keyv, snapv)));
            assert(self.key_seq() =~= old(self).key_seq().push(keyv));
            assert forall|k: Seq<char>| self@.contains_key(k) implies self@[k] == old(
                self,
            )@.insert(keyv, snapv)[k] by {
                let w = choose|w: int| 0 <= w < ev.len() && (#[trigger] ev[w]).0 == k;
                if k == keyv {
                    assert(w == ev.len() - 1);
                } else {
                    assert(ev[w] == oldev[w]);
                    let w2 = choose|w2: int| 0 <= w2 < oldev.len() && (#[trigger] oldev[w2]).0 == k;
                    assert(w2 == w);
                }
            }
            assert forall|k: Seq<char>| true implies self@.contains_key(k) == old(
                self,
            )@.insert(keyv, snapv).contains_key(k) by {
                if k == keyv {
                    assert(ev[ev.len() - 1].0 == k);
                    assert(self@.contains_key(k));
                } else {
                    if self@.contains_key(k) {
                        let w = choose|w: int| 0 <= w < ev.len() && (#[trigger] ev[w]).0 == k;
                        assert(oldev[w].0 == k);
                        assert(old(self)@.contains_key(k));
                    }
                    if old(self)@.contains_key(k) {
                        let w = choose|w: int| 0 <= w < oldev.len() && (#[trigger] oldev[w]).0 == k;
                        assert(ev[w].0 == k);
                        assert(self@.contains_key(k));
                    }
                }
            }
            assert(self@ =~= old(self)@.insert(keyv, snapv));
        }
    }

    /// The stored repository identifiers, in insertion order, as owned
    /// strings.
    #[verifier::loop_isolation(false)]
    pub fn keys(&self) -> (r: Vec<String>)
        ensures
            r.deep_view() == self.key_seq(),
    {
        let ghost ev = self.entries.deep_view();
        let mut r: Vec<String> = Vec::new();
        let mut i: usize = 0;
        while i < self.entries.len()
            invariant
                0 <= i <= self.entries.len(),
                ev == self.entries.deep_view(),
                r.deep_view() == self.key_seq().take(i as int),
            decreases self.entries.len() - i,
        {
            proof {
                assert(ev[i as int] == self.entries@[i as int].deep_view());
            }
            r.push(self.entries[i].0.clone());
            proof {
                assert(r.deep_view() =~= self.key_seq().take(i + 1));
            }
            i += 1;
        }
        proof {
            assert(self.key_seq().take(i as int) =~= self.key_seq());
        }
        r
    }
}

} // verus!
