//! What the transactions manager remembers of one peer: the hashes of the
//! transactions that the peer is known to hold, most recently touched last,
//! and never more of them than a limit allows.

use vstd::prelude::*;
use crate::primitives::TxHash;

verus! {

/// `hashes` without repetitions: each hash once, in the order of the first
/// occurrences.
pub open spec fn distinct(hashes: Seq<TxHash>) -> Seq<TxHash>
    decreases hashes.len(),
{
    if hashes.len() == 0 {
        Seq::empty()
    } else {
        let rest = distinct(hashes.drop_last());
        if rest.contains(hashes.last()) {
            rest
        } else {
            rest.push(hashes.last())
        }
    }
}

/// `items` without the hashes that occur in `listed`, in the same order.
pub open spec fn excluding(items: Seq<TxHash>, listed: Seq<TxHash>) -> Seq<TxHash>
    decreases items.len(),
{
    if items.len() == 0 {
        Seq::empty()
    } else {
        let rest = excluding(items.drop_last(), listed);
        if listed.contains(items.last()) {
            rest
        } else {
            rest.push(items.last())
        }
    }
}

/// The last `limit` elements of `items`, or all of them where there are
/// fewer.
pub open spec fn keep_last(items: Seq<TxHash>, limit: nat) -> Seq<TxHash> {
    if items.len() <= limit {
        items
    } else {
        items.skip(items.len() - limit)
    }
}

/// The hashes of `hashes` that a peer with the memory `seen` is not known to
/// hold: each once, in the order of the first occurrences.
pub open spec fn unannounced(hashes: Seq<TxHash>, seen: Seq<TxHash>) -> Seq<TxHash> {
    distinct(excluding(hashes, seen))
}

/// The memory `seen` after the peer was found to hold `hashes`: these move
/// to the end, and the oldest entries leave where the limit is passed.
pub open spec fn remembered(seen: Seq<TxHash>, hashes: Seq<TxHash>, limit: nat) -> Seq<TxHash> {
    keep_last(excluding(seen, hashes) + distinct(hashes), limit)
}

/// Whether no hash occurs twice in `hashes`.
pub open spec fn no_repetition(hashes: Seq<TxHash>) -> bool {
    forall|i: int, j: int| 0 <= i < j < hashes.len() ==> hashes[i] != hashes[j]
}

/// `distinct` keeps exactly the hashes of its argument, each once.
pub proof fn lemma_distinct(hashes: Seq<TxHash>)
    ensures
        forall|h: TxHash| #[trigger] distinct(hashes).contains(h) <==> hashes.contains(h),
        no_repetition(distinct(hashes)),
        distinct(hashes).len() <= hashes.len(),
    decreases hashes.len(),
{
    if hashes.len() > 0 {
        let front = hashes.drop_last();
        let rest = distinct(front);
        lemma_distinct(front);
        assert forall|h: TxHash| #[trigger] distinct(hashes).contains(h) <==> hashes.contains(h) by {
            if hashes.contains(h) {
                let i = choose|i: int| 0 <= i < hashes.len() && hashes[i] == h;
                if i < front.len() {
                    assert(front[i] == h);
                    assert(front.contains(h));
                    assert(rest.contains(h));
                    let k = choose|k: int| 0 <= k < rest.len() && rest[k] == h;
                    assert(distinct(hashes)[k] == h);
                } else {
                    assert(h == hashes.last());
                    if !rest.contains(h) {
                        assert(distinct(hashes)[rest.len() as int] == h);
                    } else {
                        let k = choose|k: int| 0 <= k < rest.len() && rest[k] == h;
                        assert(distinct(hashes)[k] == h);
                    }
                }
            }
            if distinct(hashes).contains(h) {
                let k = choose|k: int| 0 <= k < distinct(hashes).len() && distinct(hashes)[k] == h;
                if k < rest.len() {
                    assert(rest[k] == h);
                    assert(rest.contains(h));
                    assert(front.contains(h));
                    let i = choose|i: int| 0 <= i < front.len() && front[i] == h;
                    assert(hashes[i] == h);
                } else {
                    assert(hashes[hashes.len() - 1] == h);
                }
            }
        }
        assert forall|i: int, j: int| 0 <= i < j < distinct(hashes).len() implies distinct(hashes)[i]
            != distinct(hashes)[j] by {
            if j < rest.len() {
                assert(rest[i] != rest[j]);
            } else {
                assert(rest[i] == distinct(hashes)[i]);
            }
        }
    }
}

/// `excluding` keeps exactly the hashes of `items` that `listed` lacks, and
/// adds no repetition.
pub proof fn lemma_excluding(items: Seq<TxHash>, listed: Seq<TxHash>)
    ensures
        forall|h: TxHash|
            #[trigger] excluding(items, listed).contains(h) <==> items.contains(h) && !listed.contains(h),
        no_repetition(items) ==> no_repetition(excluding(items, listed)),
        excluding(items, listed).len() <= items.len(),
    decreases items.len(),
{
    if items.len() > 0 {
        let front = items.drop_last();
        let rest = excluding(front, listed);
        let all = excluding(items, listed);
        lemma_excluding(front, listed);
        assert forall|h: TxHash| #[trigger] all.contains(h) <==> items.contains(h) && !listed.contains(h) by {
            if items.contains(h) && !listed.contains(h) {
                let i = choose|i: int| 0 <= i < items.len() && items[i] == h;
                if i < front.len() {
                    assert(front[i] == h);
                    assert(front.contains(h));
                    assert(rest.contains(h));
                    let k = choose|k: int| 0 <= k < rest.len() && rest[k] == h;
                    assert(all[k] == h);
                } else {
                    assert(all[rest.len() as int] == h);
                }
            }
            if all.contains(h) {
                let k = choose|k: int| 0 <= k < all.len() && all[k] == h;
                if k < rest.len() {
                    assert(rest[k] == h);
                    assert(rest.contains(h));
                    assert(front.contains(h));
                    let i = choose|i: int| 0 <= i < front.len() && front[i] == h;
                    assert(items[i] == h);
                } else {
                    assert(items[items.len() - 1] == h);
                    assert(!listed.contains(h));
                }
            }
        }
        if no_repetition(items) {
            assert forall|i: int, j: int| 0 <= i < j < front.len() implies front[i] != front[j] by {
                assert(items[i] != items[j]);
            }
            assert forall|i: int, j: int| 0 <= i < j < all.len() implies all[i] != all[j] by {
                if j < rest.len() {
                    assert(rest[i] != rest[j]);
                } else {
                    assert(rest[i] == all[i]);
                    assert(rest.contains(all[i]));
                    assert(front.contains(all[i]));
                    let k = choose|k: int| 0 <= k < front.len() && front[k] == all[i];
                    assert(items[k] != items[items.len() - 1]);
                }
            }
        }
    }
}

/// Where every hash of `items` occurs in `listed`, nothing of `items` is
/// left.
pub proof fn lemma_excluding_all(items: Seq<TxHash>, listed: Seq<TxHash>)
    requires
        forall|h: TxHash| #[trigger] items.contains(h) ==> listed.contains(h),
    ensures
        excluding(items, listed) == Seq::<TxHash>::empty(),
{
    lemma_excluding(items, listed);
    let left = excluding(items, listed);
    if left.len() > 0 {
        assert(left.contains(left[0]));
        assert(items.contains(left[0]));
    }
    assert(left =~= Seq::<TxHash>::empty());
}

/// Excluding nothing leaves everything.
pub proof fn lemma_excluding_nothing(items: Seq<TxHash>)
    ensures
        excluding(items, Seq::<TxHash>::empty()) == items,
    decreases items.len(),
{
    if items.len() > 0 {
        lemma_excluding_nothing(items.drop_last());
        assert(items.drop_last().push(items.last()) =~= items);
    }
}

/// What a peer is not known to hold is new to its memory, is among the
/// hashes offered, and names no hash twice.
pub proof fn lemma_unannounced(hashes: Seq<TxHash>, seen: Seq<TxHash>)
    ensures
        forall|h: TxHash|
            #[trigger] unannounced(hashes, seen).contains(h) <==> hashes.contains(h) && !seen.contains(h),
        no_repetition(unannounced(hashes, seen)),
{
    lemma_excluding(hashes, seen);
    lemma_distinct(excluding(hashes, seen));
}

/// The memory never passes its limit, never repeats a hash, and holds every
/// hash it was just given as long as these are no more than the limit.
pub proof fn lemma_remembered(seen: Seq<TxHash>, hashes: Seq<TxHash>, limit: nat)
    ensures
        remembered(seen, hashes, limit).len() <= limit,
        no_repetition(seen) ==> no_repetition(remembered(seen, hashes, limit)),
        distinct(hashes).len() <= limit ==> forall|h: TxHash|
            #[trigger] hashes.contains(h) ==> remembered(seen, hashes, limit).contains(h),
        forall|h: TxHash|
            #[trigger] remembered(seen, hashes, limit).contains(h) ==> seen.contains(h) || hashes.contains(h),
{
    let kept = excluding(seen, hashes);
    let new = distinct(hashes);
    let all = kept + new;
    let r = remembered(seen, hashes, limit);
    let cut = if all.len() <= limit { 0 } else { all.len() - limit };
    lemma_excluding(seen, hashes);
    lemma_distinct(hashes);
    assert(r =~= all.skip(cut));
    if no_repetition(seen) {
        assert forall|i: int, j: int| 0 <= i < j < all.len() implies all[i] != all[j] by {
            if j < kept.len() {
                assert(kept[i] != kept[j]);
            } else if i >= kept.len() {
                assert(new[i - kept.len()] != new[j - kept.len()]);
            } else {
                assert(kept[i] == all[i]);
                assert(new[j - kept.len()] == all[j]);
                assert(kept.contains(all[i]));
                assert(new.contains(all[j]));
                assert(hashes.contains(all[j]));
            }
        }
        assert forall|i: int, j: int| 0 <= i < j < r.len() implies r[i] != r[j] by {
            assert(all[cut + i] != all[cut + j]);
        }
    }
    if new.len() <= limit {
        assert forall|h: TxHash| #[trigger] hashes.contains(h) implies r.contains(h) by {
            assert(new.contains(h));
            let k = choose|k: int| 0 <= k < new.len() && new[k] == h;
            assert(all[kept.len() + k] == h);
            assert(r[kept.len() + k - cut] == h);
        }
    }
    assert forall|h: TxHash| #[trigger] r.contains(h) implies seen.contains(h) || hashes.contains(h) by {
        let k = choose|k: int| 0 <= k < r.len() && r[k] == h;
        assert(all[cut + k] == h);
        if cut + k < kept.len() {
            assert(kept.contains(h));
        } else {
            assert(new[cut + k - kept.len()] == h);
            assert(new.contains(h));
        }
    }
}

/// The memory `seen` after the peer was found to hold each batch of
/// `batches` in turn.
pub open spec fn remembered_all(seen: Seq<TxHash>, batches: Seq<Seq<TxHash>>, limit: nat) -> Seq<TxHash>
    decreases batches.len(),
{
    if batches.len() == 0 {
        seen
    } else {
        remembered(remembered_all(seen, batches.drop_last(), limit), batches.last(), limit)
    }
}

/// How many hashes `batches` hold, repetitions counted.
pub open spec fn total_hashes(batches: Seq<Seq<TxHash>>) -> nat
    decreases batches.len(),
{
    if batches.len() == 0 {
        0
    } else {
        total_hashes(batches.drop_last()) + batches.last().len()
    }
}

/// The first batches hold no more hashes than all of them.
pub proof fn lemma_total_hashes_take(batches: Seq<Seq<TxHash>>, k: int)
    requires
        0 <= k <= batches.len(),
    ensures
        total_hashes(batches.take(k)) <= total_hashes(batches),
        k < batches.len() ==> total_hashes(batches.take(k + 1)) == total_hashes(batches.take(k))
            + batches[k].len(),
    decreases batches.len() - k,
{
    if k < batches.len() {
        assert(batches.take(k + 1).drop_last() =~= batches.take(k));
        lemma_total_hashes_take(batches, k + 1);
    } else {
        assert(batches.take(k) =~= batches);
    }
}

/// While there is room, the memory loses nothing: it holds what it held
/// and what it was given.
pub proof fn lemma_remembered_with_room(seen: Seq<TxHash>, hashes: Seq<TxHash>, limit: nat)
    requires
        seen.len() + hashes.len() <= limit,
    ensures
        remembered(seen, hashes, limit) == excluding(seen, hashes) + distinct(hashes),
        remembered(seen, hashes, limit).len() <= seen.len() + hashes.len(),
        forall|h: TxHash| #[trigger] seen.contains(h) ==> remembered(seen, hashes, limit).contains(h),
        forall|h: TxHash| #[trigger] hashes.contains(h) ==> remembered(seen, hashes, limit).contains(h),
{
    lemma_excluding(seen, hashes);
    lemma_distinct(hashes);
    lemma_remembered_without_forgetting(seen, hashes, limit);
}

/// While there is room for all of `batches`, the memory grows only: after
/// the first `k` batches it holds what it held at the start and every hash
/// of these batches.
pub proof fn lemma_memory_grows(seen: Seq<TxHash>, batches: Seq<Seq<TxHash>>, limit: nat, k: int)
    requires
        seen.len() + total_hashes(batches) <= limit,
        0 <= k <= batches.len(),
    ensures
        remembered_all(seen, batches.take(k), limit).len() <= seen.len() + total_hashes(batches.take(k)),
        forall|h: TxHash| #[trigger] seen.contains(h) ==> remembered_all(seen, batches.take(k), limit).contains(h),
        forall|i: int, h: TxHash|
            0 <= i < k && #[trigger] batches[i].contains(h) ==> remembered_all(
                seen,
                batches.take(k),
                limit,
            ).contains(h),
    decreases k,
{
    if k == 0 {
        assert(batches.take(0) =~= Seq::<Seq<TxHash>>::empty());
    } else {
        lemma_memory_grows(seen, batches, limit, k - 1);
        lemma_total_hashes_take(batches, k - 1);
        lemma_total_hashes_take(batches, k);
        let before = remembered_all(seen, batches.take(k - 1), limit);
        let after = remembered_all(seen, batches.take(k), limit);
        assert(batches.take(k).drop_last() =~= batches.take(k - 1));
        assert(batches.take(k).last() == batches[k - 1]);
        lemma_remembered_with_room(before, batches[k - 1], limit);
        assert forall|h: TxHash| #[trigger] seen.contains(h) implies after.contains(h) by {
            assert(before.contains(h));
        }
        assert forall|i: int, h: TxHash| 0 <= i < k && #[trigger] batches[i].contains(h) implies after.contains(
            h,
        ) by {
            if i < k - 1 {
                assert(before.contains(h));
            }
        }
    }
}

/// No hash is told twice: when batches of hashes are offered to a peer one
/// after the other, a hash that the peer was told of with one batch is not
/// among what it is told with a later batch, nor is a hash that it held at
/// the start. This holds while the memory has room for what it held and all
/// the batches; a memory that is full forgets its oldest entries, and a
/// hash it forgot is told again when it is offered again.
pub proof fn lemma_never_told_twice(
    seen: Seq<TxHash>,
    batches: Seq<Seq<TxHash>>,
    limit: nat,
    i: int,
    j: int,
)
    requires
        seen.len() + total_hashes(batches) <= limit,
        0 <= i < j < batches.len(),
    ensures
        forall|h: TxHash|
            !(#[trigger] unannounced(batches[i], remembered_all(seen, batches.take(i), limit)).contains(h)
                && unannounced(batches[j], remembered_all(seen, batches.take(j), limit)).contains(h)),
        forall|h: TxHash|
            #[trigger] seen.contains(h) ==> !unannounced(
                batches[j],
                remembered_all(seen, batches.take(j), limit),
            ).contains(h),
{
    lemma_room_forgets_nothing(seen, batches, limit, j);
    lemma_told_again_only_after_forgetting(seen, batches, limit, i, j);
}

/// Whether the memory `seen` has to forget something when the peer is found
/// to hold `hashes`: what it held and what it is given, each hash once, are
/// more than the limit.
pub open spec fn forgets(seen: Seq<TxHash>, hashes: Seq<TxHash>, limit: nat) -> bool {
    (excluding(seen, hashes) + distinct(hashes)).len() > limit
}

/// Whether the memory `seen` forgot nothing while the peer was found to hold
/// each batch of `batches` in turn.
pub open spec fn forgot_nothing(seen: Seq<TxHash>, batches: Seq<Seq<TxHash>>, limit: nat) -> bool
    decreases batches.len(),
{
    batches.len() == 0 || (forgot_nothing(seen, batches.drop_last(), limit) && !forgets(
        remembered_all(seen, batches.drop_last(), limit),
        batches.last(),
        limit,
    ))
}

/// A memory that forgets nothing holds what it held and what it was given.
pub proof fn lemma_remembered_without_forgetting(seen: Seq<TxHash>, hashes: Seq<TxHash>, limit: nat)
    requires
        !forgets(seen, hashes, limit),
    ensures
        remembered(seen, hashes, limit) == excluding(seen, hashes) + distinct(hashes),
        forall|h: TxHash| #[trigger] seen.contains(h) ==> remembered(seen, hashes, limit).contains(h),
        forall|h: TxHash| #[trigger] hashes.contains(h) ==> remembered(seen, hashes, limit).contains(h),
{
    lemma_excluding(seen, hashes);
    lemma_distinct(hashes);
    let kept = excluding(seen, hashes);
    let new = distinct(hashes);
    let all = kept + new;
    assert forall|h: TxHash| #[trigger] hashes.contains(h) implies all.contains(h) by {
        assert(new.contains(h));
        let k = choose|k: int| 0 <= k < new.len() && new[k] == h;
        assert(all[kept.len() + k] == h);
    }
    assert forall|h: TxHash| #[trigger] seen.contains(h) implies all.contains(h) by {
        if !hashes.contains(h) {
            assert(kept.contains(h));
            let k = choose|k: int| 0 <= k < kept.len() && kept[k] == h;
            assert(all[k] == h);
        }
    }
}

/// A memory that forgot nothing over some batches forgot nothing over the
/// first of them.
pub proof fn lemma_forgot_nothing_so_far(seen: Seq<TxHash>, batches: Seq<Seq<TxHash>>, limit: nat, k: int)
    requires
        forgot_nothing(seen, batches, limit),
        0 <= k <= batches.len(),
    ensures
        forgot_nothing(seen, batches.take(k), limit),
    decreases batches.len(),
{
    if k == batches.len() {
        assert(batches.take(k) =~= batches);
    } else {
        lemma_forgot_nothing_so_far(seen, batches.drop_last(), limit, k);
        assert(batches.drop_last().take(k) =~= batches.take(k));
    }
}

/// A memory that forgets nothing grows only: after the first `k` batches it
/// holds what it held at the start and every hash of these batches.
pub proof fn lemma_memory_keeps(seen: Seq<TxHash>, batches: Seq<Seq<TxHash>>, limit: nat, k: int)
    requires
        0 <= k <= batches.len(),
        forgot_nothing(seen, batches.take(k), limit),
    ensures
        forall|h: TxHash| #[trigger] seen.contains(h) ==> remembered_all(seen, batches.take(k), limit).contains(h),
        forall|i: int, h: TxHash|
            0 <= i < k && #[trigger] batches[i].contains(h) ==> remembered_all(
                seen,
                batches.take(k),
                limit,
            ).contains(h),
    decreases k,
{
    if k == 0 {
        assert(batches.take(0) =~= Seq::<Seq<TxHash>>::empty());
    } else {
        assert(batches.take(k).drop_last() =~= batches.take(k - 1));
        assert(batches.take(k).last() == batches[k - 1]);
        lemma_memory_keeps(seen, batches, limit, k - 1);
        let before = remembered_all(seen, batches.take(k - 1), limit);
        let after = remembered_all(seen, batches.take(k), limit);
        lemma_remembered_without_forgetting(before, batches[k - 1], limit);
        assert forall|h: TxHash| #[trigger] seen.contains(h) implies after.contains(h) by {
            assert(before.contains(h));
        }
        assert forall|i: int, h: TxHash| 0 <= i < k && #[trigger] batches[i].contains(h) implies after.contains(
            h,
        ) by {
            if i < k - 1 {
                assert(before.contains(h));
            }
        }
    }
}

/// A hash is told again only after the memory forgot something: when
/// batches of hashes are offered to a peer one after the other and the
/// memory forgot nothing before batch `j`, then no hash that the peer was
/// told of with an earlier batch, and none that it held at the start, is
/// among what it is told with batch `j`.
pub proof fn lemma_told_again_only_after_forgetting(
    seen: Seq<TxHash>,
    batches: Seq<Seq<TxHash>>,
    limit: nat,
    i: int,
    j: int,
)
    requires
        0 <= i < j < batches.len(),
        forgot_nothing(seen, batches.take(j), limit),
    ensures
        forall|h: TxHash|
            !(#[trigger] unannounced(batches[i], remembered_all(seen, batches.take(i), limit)).contains(h)
                && unannounced(batches[j], remembered_all(seen, batches.take(j), limit)).contains(h)),
        forall|h: TxHash|
            #[trigger] seen.contains(h) ==> !unannounced(
                batches[j],
                remembered_all(seen, batches.take(j), limit),
            ).contains(h),
{
    let at_i = remembered_all(seen, batches.take(i), limit);
    let at_j = remembered_all(seen, batches.take(j), limit);
    lemma_memory_keeps(seen, batches, limit, j);
    lemma_unannounced(batches[i], at_i);
    lemma_unannounced(batches[j], at_j);
    assert forall|h: TxHash|
        !(#[trigger] unannounced(batches[i], at_i).contains(h) && unannounced(batches[j], at_j).contains(h)) by {
        if unannounced(batches[i], at_i).contains(h) {
            assert(batches[i].contains(h));
            assert(at_j.contains(h));
        }
    }
    assert forall|h: TxHash| #[trigger] seen.contains(h) implies !unannounced(batches[j], at_j).contains(h) by {
        assert(at_j.contains(h));
    }
}

/// A memory with room for what it holds and all of `batches` forgets
/// nothing.
pub proof fn lemma_room_forgets_nothing(seen: Seq<TxHash>, batches: Seq<Seq<TxHash>>, limit: nat, k: int)
    requires
        seen.len() + total_hashes(batches) <= limit,
        0 <= k <= batches.len(),
    ensures
        forgot_nothing(seen, batches.take(k), limit),
    decreases k,
{
    if k == 0 {
        assert(batches.take(0) =~= Seq::<Seq<TxHash>>::empty());
    } else {
        lemma_room_forgets_nothing(seen, batches, limit, k - 1);
        lemma_memory_grows(seen, batches, limit, k - 1);
        lemma_total_hashes_take(batches, k - 1);
        lemma_total_hashes_take(batches, k);
        assert(batches.take(k).drop_last() =~= batches.take(k - 1));
        assert(batches.take(k).last() == batches[k - 1]);
        let before = remembered_all(seen, batches.take(k - 1), limit);
        lemma_excluding(before, batches[k - 1]);
        lemma_distinct(batches[k - 1]);
    }
}

/// Tells whether `h` occurs in `hashes`.
pub fn contains_hash(hashes: &Vec<TxHash>, h: TxHash) -> (r: bool)
    ensures
        r == hashes@.contains(h),
{
    let mut i: usize = 0;
    while i < hashes.len()
        invariant
            i <= hashes.len(),
            forall|k: int| 0 <= k < i ==> hashes@[k] != h,
        decreases hashes.len() - i,
    {
        if hashes[i] == h {
            return true;
        }
        i += 1;
    }
    false
}

/// `hashes` without repetitions.
pub fn distinct_hashes(hashes: &Vec<TxHash>) -> (r: Vec<TxHash>)
    ensures
        r@ == distinct(hashes@),
{
    let mut out: Vec<TxHash> = Vec::new();
    let mut i: usize = 0;
    while i < hashes.len()
        invariant
            i <= hashes.len(),
            out@ == distinct(hashes@.take(i as int)),
        decreases hashes.len() - i,
    {
        assert(hashes@.take(i + 1).drop_last() =~= hashes@.take(i as int));
        if !contains_hash(&out, hashes[i]) {
            out.push(hashes[i]);
        }
        i += 1;
    }
    assert(hashes@.take(i as int) =~= hashes@);
    out
}

/// `items` without the hashes that occur in `listed`.
pub fn exclude_hashes(items: &Vec<TxHash>, listed: &Vec<TxHash>) -> (r: Vec<TxHash>)
    ensures
        r@ == excluding(items@, listed@),
{
    let mut out: Vec<TxHash> = Vec::new();
    let mut i: usize = 0;
    while i < items.len()
        invariant
            i <= items.len(),
            out@ == excluding(items@.take(i as int), listed@),
        decreases items.len() - i,
    {
        assert(items@.take(i + 1).drop_last() =~= items@.take(i as int));
        if !contains_hash(listed, items[i]) {
            out.push(items[i]);
        }
        i += 1;
    }
    assert(items@.take(i as int) =~= items@);
    out
}

/// The hashes of `hashes` that a peer with the memory `seen` is not known to
/// hold.
pub fn unannounced_hashes(hashes: &Vec<TxHash>, seen: &Vec<TxHash>) -> (r: Vec<TxHash>)
    ensures
        r@ == unannounced(hashes@, seen@),
{
    let left = exclude_hashes(hashes, seen);
    distinct_hashes(&left)
}

/// The memory `seen` after the peer was found to hold `hashes`.
pub fn remember(seen: &Vec<TxHash>, hashes: &Vec<TxHash>, limit: usize) -> (r: Vec<TxHash>)
    ensures
        r@ == remembered(seen@, hashes@, limit as nat),
{
    let mut all = exclude_hashes(seen, hashes);
    let new = distinct_hashes(hashes);
    let mut i: usize = 0;
    let ghost kept = all@;
    while i < new.len()
        invariant
            i <= new.len(),
            all@ == kept + new@.take(i as int),
        decreases new.len() - i,
    {
        all.push(new[i]);
        assert(kept + new@.take(i + 1) =~= (kept + new@.take(i as int)).push(new@[i as int]));
        i += 1;
    }
    assert(new@.take(i as int) =~= new@);
    if all.len() > limit {
        let cut = all.len() - limit;
        let tail = all.split_off(cut);
        assert(tail@ =~= (kept + new@).skip(cut as int));
        tail
    } else {
        all
    }
}

} // verus!
