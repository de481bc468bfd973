//! The store: subscribed feeds, keyed by an auto-increment id, and the set
//! of hashes of items already notified (the seen-set). Feed rows are only
//! ever inserted and deleted; seen hashes are only ever inserted, never
//! removed. Duplicate feed URLs are permitted and will be polled
//! redundantly.

use vstd::prelude::*;

verus! {

/// One subscribed feed: its id and its URL.
pub struct Feed {
    pub id: i64,
    pub url: String,
}

/// Mathematical value of a [`Store`]: the feed rows in order, the id the
/// next insertion gets, and the seen-set.
pub struct StoreView {
    pub feeds: Seq<(i64, Seq<char>)>,
    pub next_id: i64,
    pub seen: Set<u64>,
}

/// Feed subscriptions and seen-item hashes.
pub struct Store {
    feeds: Vec<Feed>,
    next_id: i64,
    seen: Vec<u64>,
}

/// The values of a sequence of feed rows.
pub open spec fn feeds_view(feeds: Seq<Feed>) -> Seq<(i64, Seq<char>)> {
    feeds.map(|i: int, f: Feed| (f.id, f.url@))
}

impl View for Store {
    type V = StoreView;

    closed spec fn view(&self) -> StoreView {
        StoreView {
            feeds: feeds_view(self.feeds@),
            next_id: self.next_id,
            seen: self.seen@.to_set(),
        }
    }
}

/// Ids strictly increase along the row order. Rows are only ever appended
/// with a fresh, larger id, so this holds throughout; it implies that ids
/// are unique.
pub open spec fn ids_increasing(feeds: Seq<(i64, Seq<char>)>) -> bool {
    forall|i: int, j: int| 0 <= i < j < feeds.len() ==> feeds[i].0 < feeds[j].0
}

/// The feed rows left after deleting those whose id is `pk`, order kept.
pub open spec fn remove_by_id(feeds: Seq<(i64, Seq<char>)>, pk: i64) -> Seq<(i64, Seq<char>)>
    decreases feeds.len(),
{
    if feeds.len() == 0 {
        Seq::empty()
    } else if feeds[0].0 == pk {
        remove_by_id(feeds.drop_first(), pk)
    } else {
        seq![feeds[0]] + remove_by_id(feeds.drop_first(), pk)
    }
}

/// Deletion keeps no row that was not already there.
pub proof fn lemma_remove_by_id_keeps(feeds: Seq<(i64, Seq<char>)>, pk: i64)
    ensures
        forall|x: (i64, Seq<char>)|
            #[trigger] remove_by_id(feeds, pk).contains(x) ==> feeds.contains(x),
    decreases feeds.len(),
{
    if feeds.len() == 0 {
    } else {
        let rest = feeds.drop_first();
        lemma_remove_by_id_keeps(rest, pk);
        assert forall|x: (i64, Seq<char>)|
            #[trigger] remove_by_id(feeds, pk).contains(x) implies feeds.contains(x) by {
            if feeds[0].0 == pk {
                assert(remove_by_id(feeds, pk) == remove_by_id(rest, pk));
                assert(rest.contains(x));
                let j = rest.lemma_contains_to_index(x);
                assert(feeds[j + 1] == x);
            } else {
                let r = seq![feeds[0]] + remove_by_id(rest, pk);
                let j = r.lemma_contains_to_index(x);
                if j == 0 {
                    assert(feeds[0] == x);
                } else {
                    assert(remove_by_id(rest, pk)[j - 1] == x);
                    assert(remove_by_id(rest, pk).contains(x));
                    let k = rest.lemma_contains_to_index(x);
                    assert(feeds[k + 1] == x);
                }
            }
        }
    }
}

/// Deletion keeps the remaining rows in their order: strictly increasing
/// ids stay strictly increasing.
pub proof fn lemma_remove_by_id_increasing(feeds: Seq<(i64, Seq<char>)>, pk: i64)
    requires
        ids_increasing(feeds),
    ensures
        ids_increasing(remove_by_id(feeds, pk)),
    decreases feeds.len(),
{
    if feeds.len() == 0 {
    } else {
        let rest = feeds.drop_first();
        assert(ids_increasing(rest)) by {
            assert forall|i: int, j: int| 0 <= i < j < rest.len() implies rest[i].0 < rest[j].0 by {
                assert(feeds[i + 1].0 < feeds[j + 1].0);
            }
        }
        lemma_remove_by_id_increasing(rest, pk);
        lemma_remove_by_id_keeps(rest, pk);
        if feeds[0].0 == pk {
        } else {
            let r = seq![feeds[0]] + remove_by_id(rest, pk);
            assert forall|i: int, j: int| 0 <= i < j < r.len() implies r[i].0 < r[j].0 by {
                if i == 0 {
                    let x = remove_by_id(rest, pk)[j - 1];
                    assert(remove_by_id(rest, pk).contains(x));
                    assert(rest.contains(x));
                    let k = rest.lemma_contains_to_index(x);
                    assert(feeds[0].0 < feeds[k + 1].0);
                } else {
                    assert(remove_by_id(rest, pk)[i - 1].0 < remove_by_id(rest, pk)[j - 1].0);
                }
            }
        }
    }
}

impl Store {
    /// Row ids strictly increase and stay below the id the next insertion
    /// gets, so a fresh insertion never collides with an existing row.
    pub open spec fn wf(&self) -> bool {
        &&& self@.next_id >= 1
        &&& forall|i: int| 0 <= i < self@.feeds.len() ==> self@.feeds[i].0 < self@.next_id
        &&& ids_increasing(self@.feeds)
    }

    /// An empty store: no feeds, nothing seen, ids start at 1.
    pub fn new() -> (r: Store)
        ensures
            r.wf(),
            r@.feeds == Seq::<(i64, Seq<char>)>::empty(),
            r@.next_id == 1,
            r@.seen == Set::<u64>::empty(),
    {
        let r = Store { feeds: Vec::new(), next_id: 1, seen: Vec::new() };
        proof {
            assert(feeds_view(r.feeds@) =~= Seq::<(i64, Seq<char>)>::empty());
            assert(r.seen@.to_set() =~= Set::<u64>::empty());
        }
        r
    }

    /// Inserts a feed row for `url` under a fresh id and returns that id.
    /// Duplicate URLs are allowed. The id space is bounded by the machine
    /// word, hence the precondition.
    pub fn add(&mut self, url: String) -> (id: i64)
        requires
            old(self).wf(),
            old(self)@.next_id < i64::MAX,
        ensures
            final(self).wf(),
            id == old(self)@.next_id,
            final(self)@.feeds == old(self)@.feeds.push((id, url@)),
            final(self)@.next_id == old(self)@.next_id + 1,
            final(self)@.seen == old(self)@.seen,
    {
        let id = self.next_id;
        self.feeds.push(Feed { id, url });
        self.next_id = self.next_id + 1;
        proof {
            let oldf = feeds_view(old(self).feeds@);
            let newf = feeds_view(self.feeds@);
            assert(newf =~= oldf.push((id, self.feeds@.last().url@)));
            assert forall|i: int, j: int| 0 <= i < j < newf.len() implies newf[i].0 < newf[j].0 by {
                if j < newf.len() - 1 {
                    assert(oldf[i].0 < oldf[j].0);
                } else {
                    assert(oldf[i].0 < old(self).next_id);
                }
            }
        }
        id
    }

    /// The id the next insertion gets; lets a caller test that the id
    /// space is not exhausted before adding.
    pub fn next_id(&self) -> (r: i64)
        ensures
            r == self@.next_id,
    {
        self.next_id
    }

    /// All feed rows, as (id, url) pairs, in storage order.
    pub fn list(&self) -> (r: Vec<Feed>)
        ensures
            feeds_view(r@) == self@.feeds,
    {
        let mut r: Vec<Feed> = Vec::new();
        let mut i: usize = 0;
        while i < self.feeds.len()
            invariant
                i <= self.feeds.len(),
                r@.len() == i,
                forall|k: int|
                    0 <= k < i ==> r@[k].id == self.feeds@[k].id && r@[k].url@
                        == self.feeds@[k].url@,
            decreases self.feeds.len() - i,
        {
            let f = &self.feeds[i];
            r.push(Feed { id: f.id, url: f.url.clone() });
            i = i + 1;
        }
        proof {
            assert(feeds_view(r@) =~= feeds_view(self.feeds@));
        }
        r
    }

    /// Deletes the feed rows whose id is `pk`; a no-op when no row matches.
    pub fn remove(&mut self, pk: i64)
        requires
            old(self).wf(),
        ensures
            final(self).wf(),
            final(self)@.feeds == remove_by_id(old(self)@.feeds, pk),
            final(self)@.next_id == old(self)@.next_id,
            final(self)@.seen == old(self)@.seen,
    {
        let ghost oldv = feeds_view(old(self).feeds@);
        let mut kept: Vec<Feed> = Vec::new();
        let mut i: usize = 0;
        proof {
            assert(oldv.skip(0) =~= oldv);
            assert(feeds_view(kept@) =~= Seq::<(i64, Seq<char>)>::empty());
        }
        while i < self.feeds.len()
            invariant
                i <= self.feeds.len(),
                oldv == feeds_view(self.feeds@),
                remove_by_id(oldv, pk) == feeds_view(kept@) + remove_by_id(
                    oldv.skip(i as int),
                    pk,
                ),
            decreases self.feeds.len() - i,
        {
            proof {
                assert(oldv[i as int] == (self.feeds@[i as int].id, self.feeds@[i as int].url@));
                assert(oldv.skip(i as int)[0] == oldv[i as int]);
                assert(oldv.skip(i as int).drop_first() =~= oldv.skip(i + 1 as int));
            }
            let f = &self.feeds[i];
            if f.id != pk {
                kept.push(Feed { id: f.id, url: f.url.clone() });
                proof {
                    assert(feeds_view(kept@) =~= feeds_view(kept@.drop_last()).push(
                        (f.id, f.url@),
                    ));
                    assert(feeds_view(kept@.drop_last()) + (seq![oldv[i as int]] + remove_by_id(
                        oldv.skip(i + 1 as int),
                        pk,
                    )) =~= feeds_view(kept@) + remove_by_id(oldv.skip(i + 1 as int), pk));
                }
            }
            i = i + 1;
        }
        proof {
            assert(feeds_view(kept@) + remove_by_id(
                oldv.skip(self.feeds@.len() as int),
                pk,
            ) =~= feeds_view(kept@));
        }
        self.feeds = kept;
        proof {
            let newf = remove_by_id(oldv, pk);
            lemma_remove_by_id_keeps(oldv, pk);
            lemma_remove_by_id_increasing(oldv, pk);
            assert forall|i: int| 0 <= i < newf.len() implies newf[i].0 < old(self).next_id by {
                assert(newf.contains(newf[i]));
                assert(oldv.contains(newf[i]));
                let k = oldv.lemma_contains_to_index(newf[i]);
                assert(oldv[k].0 < old(self).next_id);
            }
        }
    }

    /// True iff a seen-hash row with this value exists.
    pub fn has_seen(&self, h: u64) -> (r: bool)
        ensures
            r == self@.seen.contains(h),
    {
        let mut i: usize = 0;
        while i < self.seen.len()
            invariant
                i <= self.seen.len(),
                forall|j: int| 0 <= j < i ==> self.seen@[j] != h,
            decreases self.seen.len() - i,
        {
            if self.seen[i] == h {
                proof {
                    assert(self.seen@.contains(h));
                }
                return true;
            }
            i = i + 1;
        }
        proof {
            assert(!self.seen@.contains(h));
        }
        false
    }

    /// A hash is new iff it is not in the seen-set.
    pub fn is_new(&self, h: u64) -> (r: bool)
        ensures
            r == !self@.seen.contains(h),
    {
        !self.has_seen(h)
    }

    /// Inserts a seen-hash row. Never removes anything: every hash already
    /// seen stays seen.
    pub fn mark_seen(&mut self, h: u64)
        requires
            old(self).wf(),
        ensures
            final(self).wf(),
            final(self)@.seen == old(self)@.seen.insert(h),
            final(self)@.feeds == old(self)@.feeds,
            final(self)@.next_id == old(self)@.next_id,
    {
        self.seen.push(h);
        proof {
            Seq::lemma_push_to_set_commute(old(self).seen@, h);
        }
    }
}

/// A hash is new until it is first marked seen, and never new afterwards;
/// marking one hash leaves every other hash's status unchanged.
pub proof fn lemma_is_new_lifecycle(seen: Set<u64>, h: u64, other: u64)
    requires
        !seen.contains(h),
    ensures
        seen.insert(h).contains(h),
        other != h ==> seen.insert(h).contains(other) == seen.contains(other),
{
}

} // verus!
