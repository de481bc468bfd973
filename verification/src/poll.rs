//! The per-feed poll step: parse a fetched feed body, and for each item in
//! document order decide between skipping (its hash is already in the
//! seen-set) and sending (mark the hash seen, then notify). The decisions
//! come out as a list of actions; fetching the body and delivering the
//! mail are the caller's work.
//!
//! A poll run needs the mail-API credential before any feed is touched;
//! [`require_credential`] enforces that.

use vstd::prelude::*;
use crate::hashing::item_hash;
use crate::item::{Item, ItemView};
use crate::feedxml::{parse, parse_spec};
use crate::store::Store;

verus! {

/// Mathematical value of a [`PollAction`].
pub enum ActionView {
    Skip(u64),
    Send(u64, ItemView),
}

/// What one item demands of the caller: log a skip, or record-and-notify.
/// A send carries the item's hash and the item the notification is built
/// from.
pub enum PollAction {
    Skip(u64),
    Send(u64, Item),
}

impl View for PollAction {
    type V = ActionView;

    open spec fn view(&self) -> ActionView {
        match self {
            PollAction::Skip(h) => ActionView::Skip(*h),
            PollAction::Send(h, it) => ActionView::Send(*h, it@),
        }
    }
}

/// The values of a sequence of actions.
pub open spec fn actions_view(acts: Seq<PollAction>) -> Seq<ActionView> {
    acts.map(|i: int, a: PollAction| a@)
}

/// The seen-set after processing the items in order: every item's hash is
/// recorded (recording an already-present hash changes nothing).
pub open spec fn seen_after(seen: Set<u64>, items: Seq<ItemView>) -> Set<u64>
    decreases items.len(),
{
    if items.len() == 0 {
        seen
    } else {
        seen_after(seen.insert(item_hash(items[0])), items.drop_first())
    }
}

/// The actions for the items in order: a skip when the hash is already in
/// the seen-set, else a send; each send takes effect on the seen-set before
/// the next item is judged, so a duplicate item later in the same feed is
/// skipped.
pub open spec fn actions_of(seen: Set<u64>, items: Seq<ItemView>) -> Seq<ActionView>
    decreases items.len(),
{
    if items.len() == 0 {
        Seq::empty()
    } else {
        let h = item_hash(items[0]);
        let first = if seen.contains(h) {
            ActionView::Skip(h)
        } else {
            ActionView::Send(h, items[0])
        };
        seq![first] + actions_of(seen.insert(h), items.drop_first())
    }
}

/// Processes one fetched feed body against the store: parses its items and,
/// per item in document order, either skips (hash already seen) or marks
/// the hash seen and asks for a notification. Feed subscriptions are
/// untouched. A malformed body simply yields the actions for the items
/// parsed before the error.
pub fn process_body(store: &mut Store, body: &str) -> (r: Vec<PollAction>)
    requires
        old(store).wf(),
    ensures
        final(store).wf(),
        final(store)@.feeds == old(store)@.feeds,
        final(store)@.next_id == old(store)@.next_id,
        final(store)@.seen == seen_after(old(store)@.seen, parse_spec(body@)),
        actions_view(r@) == actions_of(old(store)@.seen, parse_spec(body@)),
{
    let items = parse(body);
    let ghost itemsv = parse_spec(body@);
    let mut out: Vec<PollAction> = Vec::new();
    let mut i: usize = 0;
    proof {
        assert(itemsv.skip(0) =~= itemsv);
        assert(actions_view(out@) =~= Seq::<ActionView>::empty());
        assert(actions_view(out@) + actions_of(old(store)@.seen, itemsv) =~= actions_of(
            old(store)@.seen,
            itemsv,
        ));
    }
    while i < items.len()
        invariant
            i <= items.len(),
            itemsv == crate::feedxml::items_view(items@),
            store.wf(),
            store@.feeds == old(store)@.feeds,
            store@.next_id == old(store)@.next_id,
            seen_after(old(store)@.seen, itemsv) == seen_after(store@.seen, itemsv.skip(i as int)),
            actions_of(old(store)@.seen, itemsv) == actions_view(out@) + actions_of(
                store@.seen,
                itemsv.skip(i as int),
            ),
        decreases items.len() - i,
    {
        proof {
            assert(itemsv[i as int] == items@[i as int]@);
            assert(itemsv.skip(i as int)[0] == itemsv[i as int]);
            assert(itemsv.skip(i as int).drop_first() =~= itemsv.skip(i + 1 as int));
        }
        let it = &items[i];
        let h = it.hash_of();
        let ghost seen_before = store@.seen;
        let act: PollAction;
        if store.is_new(h) {
            store.mark_seen(h);
            act = PollAction::Send(
                h,
                Item { desc: it.desc.clone(), link: it.link.clone(), title: it.title.clone() },
            );
        } else {
            act = PollAction::Skip(h);
            proof {
                assert(seen_before.insert(h) =~= seen_before);
            }
        }
        out.push(act);
        proof {
            assert(actions_view(out@) =~= actions_view(out@.drop_last()).push(out@.last()@));
            assert(actions_view(out@.drop_last()) + (seq![out@.last()@] + actions_of(
                store@.seen,
                itemsv.skip(i + 1 as int),
            )) =~= actions_view(out@) + actions_of(store@.seen, itemsv.skip(i + 1 as int)));
        }
        i = i + 1;
    }
    proof {
        assert(itemsv.skip(items@.len() as int) =~= Seq::<ItemView>::empty());
        assert(actions_view(out@) + Seq::<ActionView>::empty() =~= actions_view(out@));
    }
    out
}

/// Nothing already in the seen-set leaves it while items are processed.
pub proof fn lemma_seen_is_kept(seen: Set<u64>, items: Seq<ItemView>, h: u64)
    requires
        seen.contains(h),
    ensures
        seen_after(seen, items).contains(h),
    decreases items.len(),
{
    if items.len() > 0 {
        lemma_seen_is_kept(seen.insert(item_hash(items[0])), items.drop_first(), h);
    }
}

/// After processing, every processed item's hash is in the seen-set.
pub proof fn lemma_seen_after_has_every_hash(seen: Set<u64>, items: Seq<ItemView>, i: int)
    requires
        0 <= i < items.len(),
    ensures
        seen_after(seen, items).contains(item_hash(items[i])),
    decreases items.len(),
{
    let h0 = item_hash(items[0]);
    if i == 0 {
        lemma_seen_is_kept(seen.insert(h0), items.drop_first(), h0);
    } else {
        lemma_seen_after_has_every_hash(seen.insert(h0), items.drop_first(), i - 1);
    }
}

/// When every item's hash is already in the seen-set, processing the items
/// only skips.
pub proof fn lemma_all_seen_all_skipped(seen: Set<u64>, items: Seq<ItemView>)
    requires
        forall|i: int| 0 <= i < items.len() ==> seen.contains(item_hash(#[trigger] items[i])),
    ensures
        forall|k: int|
            0 <= k < actions_of(seen, items).len() ==> (actions_of(seen, items)[k] is Skip),
    decreases items.len(),
{
    if items.len() > 0 {
        let h = item_hash(items[0]);
        let rest = items.drop_first();
        assert forall|i: int|
            0 <= i < rest.len() implies seen.insert(h).contains(
            item_hash(#[trigger] rest[i]),
        ) by {
            assert(rest[i] == items[i + 1]);
        }
        lemma_all_seen_all_skipped(seen.insert(h), rest);
        assert forall|k: int|
            0 <= k < actions_of(seen, items).len() implies (actions_of(seen, items)[k]
            is Skip) by {
            if k > 0 {
                assert(actions_of(seen, items)[k] == actions_of(seen.insert(h), rest)[k - 1]);
            }
        }
    }
}

/// Processing the same items a second time sends nothing: every hash was
/// recorded by the first pass, so the second pass only skips.
pub proof fn lemma_second_pass_only_skips(seen: Set<u64>, items: Seq<ItemView>)
    ensures
        forall|k: int|
            0 <= k < actions_of(seen_after(seen, items), items).len() ==> (actions_of(
                seen_after(seen, items),
                items,
            )[k] is Skip),
{
    let seen2 = seen_after(seen, items);
    assert forall|i: int|
        0 <= i < items.len() implies seen2.contains(item_hash(#[trigger] items[i])) by {
        lemma_seen_after_has_every_hash(seen, items, i);
    }
    lemma_all_seen_all_skipped(seen2, items);
}

/// The error of a poll run that was not allowed to start.
pub enum PollError {
    /// The mail-API credential is absent from the environment.
    MissingCredential,
}

/// Stands at the head of a poll run: hands the mail-API credential through
/// when it is present, and fails — before any feed is touched — when it is
/// not.
pub fn require_credential(key: Option<String>) -> (r: Result<String, PollError>)
    ensures
        match key {
            Some(k) => r == Ok::<String, PollError>(k),
            None => r == Err::<String, PollError>(PollError::MissingCredential),
        },
{
    match key {
        Some(k) => Ok(k),
        None => Err(PollError::MissingCredential),
    }
}

} // verus!
