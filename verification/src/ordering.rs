//! Ordering segments by their keys and dropping repeated paths.
//!
//! The sort is stable: segments with the same key stay in the order in which
//! they were found.

use crate::paths::{is_same_path, lemma_same_path, same_path};
use crate::sort_key::{FileSortKey, SortKeyView};
use vstd::prelude::*;

verus! {

/// A segment file: its path and the key read off it.
pub struct Descriptor {
    pub path: String,
    pub key: FileSortKey,
}

/// The mathematical model of a [`Descriptor`].
pub struct SegmentView {
    pub path: Seq<char>,
    pub key: SortKeyView,
}

impl View for Descriptor {
    type V = SegmentView;

    open spec fn view(&self) -> SegmentView {
        SegmentView { path: self.path@, key: self.key@ }
    }
}

/// The models of a sequence of descriptors.
pub open spec fn segment_views(items: Seq<Descriptor>) -> Seq<SegmentView> {
    Seq::new(items.len(), |i: int| items[i]@)
}

/// The texts of a sequence of strings.
pub open spec fn texts(items: Seq<String>) -> Seq<Seq<char>> {
    Seq::new(items.len(), |i: int| items[i]@)
}

/// The paths of a sequence of segments.
pub open spec fn paths_of(items: Seq<SegmentView>) -> Seq<Seq<char>> {
    Seq::new(items.len(), |i: int| items[i].path)
}

/// The keys of a sequence of segments.
pub open spec fn keys_of(items: Seq<SegmentView>) -> Seq<SortKeyView> {
    Seq::new(items.len(), |i: int| items[i].key)
}

/// `sorted` with `item` put in behind the last segment that is not after
/// it.
pub open spec fn inserted(sorted: Seq<SegmentView>, item: SegmentView) -> Seq<SegmentView>
    decreases sorted.len(),
{
    if sorted.len() == 0 || sorted.last().key.le(item.key) {
        sorted.push(item)
    } else {
        inserted(sorted.drop_last(), item).push(sorted.last())
    }
}

/// The segments in the order of their keys, those with equal keys in the
/// order in which they stand in `items`.
pub open spec fn sorted_by_key(items: Seq<SegmentView>) -> Seq<SegmentView>
    decreases items.len(),
{
    if items.len() == 0 {
        items
    } else {
        inserted(sorted_by_key(items.drop_last()), items.last())
    }
}

/// Whether each segment is not after the ones that follow it.
pub open spec fn is_ordered(items: Seq<SegmentView>) -> bool {
    forall|i: int, j: int| 0 <= i < j < items.len() ==> items[i].key.le(items[j].key)
}

/// The paths without a path that repeats the one kept before it: that has
/// the same components, however it is written.
pub open spec fn without_repeats(paths: Seq<Seq<char>>) -> Seq<Seq<char>>
    decreases paths.len(),
{
    if paths.len() == 0 {
        paths
    } else {
        let kept = without_repeats(paths.drop_last());
        if kept.len() > 0 && is_same_path(kept.last(), paths.last()) {
            kept
        } else {
            kept.push(paths.last())
        }
    }
}

proof fn lemma_inserted_at(sorted: Seq<SegmentView>, item: SegmentView, at: int)
    requires
        0 <= at <= sorted.len(),
        forall|j: int| at <= j < sorted.len() ==> item.key.lt(sorted[j].key),
        at == 0 || sorted[at - 1].key.le(item.key),
    ensures
        inserted(sorted, item) == sorted.insert(at, item),
    decreases sorted.len(),
{
    if sorted.len() == 0 || sorted.last().key.le(item.key) {
        assert(at == sorted.len());
        assert(sorted.insert(at, item) =~= sorted.push(item));
    } else {
        assert(at < sorted.len());
        let front = sorted.drop_last();
        lemma_inserted_at(front, item, at);
        assert(front.insert(at, item).push(sorted.last()) =~= sorted.insert(at, item));
    }
}

/// Sorts the segments by their keys, keeping the order of those with equal
/// keys.
pub fn sort_by_key(items: &Vec<Descriptor>) -> (sorted: Vec<Descriptor>)
    ensures
        segment_views(sorted@) == sorted_by_key(segment_views(items@)),
{
    let ghost all = segment_views(items@);
    let mut sorted: Vec<Descriptor> = Vec::new();
    let mut i: usize = 0;
    assert(all.take(0) =~= Seq::<SegmentView>::empty());
    assert(segment_views(sorted@) =~= Seq::<SegmentView>::empty());
    while i < items.len()
        invariant
            i <= items.len(),
            all == segment_views(items@),
            segment_views(sorted@) == sorted_by_key(all.take(i as int)),
        decreases items.len() - i,
    {
        let item = Descriptor { path: items[i].path.clone(), key: items[i].key };
        let mut at: usize = sorted.len();
        while at > 0 && item.key.precedes(&sorted[at - 1].key)
            invariant
                at <= sorted.len(),
                forall|j: int| at <= j < sorted.len() ==> item.key@.lt(sorted@[j].key@),
            decreases at,
        {
            at -= 1;
        }
        let ghost before = segment_views(sorted@);
        proof {
            assert(item@ == all[i as int]);
            assert(all.take(i + 1).drop_last() =~= all.take(i as int));
            assert(all.take(i + 1).last() == all[i as int]);
            lemma_inserted_at(before, item@, at as int);
        }
        sorted.insert(at, item);
        assert(segment_views(sorted@) =~= before.insert(at as int, all[i as int]));
        i += 1;
    }
    assert(all.take(items@.len() as int) =~= all);
    sorted
}

/// The paths of the segments, in their order, without a path that repeats
/// the one before it.
pub fn distinct_paths(items: &Vec<Descriptor>) -> (paths: Vec<String>)
    ensures
        texts(paths@) == without_repeats(paths_of(segment_views(items@))),
{
    let ghost all = paths_of(segment_views(items@));
    let mut paths: Vec<String> = Vec::new();
    let mut i: usize = 0;
    assert(all.take(0) =~= Seq::<Seq<char>>::empty());
    assert(texts(paths@) =~= Seq::<Seq<char>>::empty());
    while i < items.len()
        invariant
            i <= items.len(),
            all == paths_of(segment_views(items@)),
            texts(paths@) == without_repeats(all.take(i as int)),
        decreases items.len() - i,
    {
        let ghost before = texts(paths@);
        proof {
            assert(all.take(i + 1).drop_last() =~= all.take(i as int));
            assert(all.take(i + 1).last() == items@[i as int].path@);
        }
        let repeated = paths.len() > 0 && same_path(
            paths[paths.len() - 1].as_str(),
            items[i].path.as_str(),
        );
        if !repeated {
            paths.push(items[i].path.clone());
            assert(texts(paths@) =~= before.push(items@[i as int].path@));
        }
        i += 1;
    }
    assert(all.take(items@.len() as int) =~= all);
    paths
}

/// The order of the keys is a strict total order: no key is before
/// itself, of two different keys one is before the other, and the order is
/// transitive.
pub proof fn lemma_key_order(a: SortKeyView, b: SortKeyView, c: SortKeyView)
    ensures
        !a.lt(a),
        a == b || a.lt(b) || b.lt(a),
        !(a.lt(b) && b.lt(a)),
        a.lt(b) && b.lt(c) ==> a.lt(c),
        a.le(b) && b.le(c) ==> a.le(c),
{
}

/// The segments of `items` that have the key `key`, in their order.
pub open spec fn with_key(items: Seq<SegmentView>, key: SortKeyView) -> Seq<SegmentView> {
    items.filter(|s: SegmentView| s.key == key)
}

proof fn lemma_inserted(sorted: Seq<SegmentView>, item: SegmentView)
    ensures
        inserted(sorted, item).len() == sorted.len() + 1,
        inserted(sorted, item).to_multiset() == sorted.to_multiset().insert(item),
        is_ordered(sorted) ==> is_ordered(inserted(sorted, item)),
        forall|bound: SortKeyView|
            item.key.le(bound) && (forall|i: int|
                0 <= i < sorted.len() ==> (#[trigger] sorted[i]).key.le(bound)) ==> (forall|
                i: int,
            |
                0 <= i < inserted(sorted, item).len() ==> (#[trigger] inserted(
                    sorted,
                    item,
                )[i]).key.le(bound)),
    decreases sorted.len(),
{
    broadcast use vstd::seq_lib::to_multiset_build;

    let result = inserted(sorted, item);
    if sorted.len() == 0 || sorted.last().key.le(item.key) {
        if is_ordered(sorted) {
            assert forall|i: int, j: int| 0 <= i < j < result.len() implies result[i].key.le(
                result[j].key,
            ) by {
                if j == sorted.len() {
                    if i < sorted.len() - 1 {
                        lemma_key_order(sorted[i].key, sorted.last().key, item.key);
                    }
                }
            }
        }
    } else {
        let front = sorted.drop_last();
        let last = sorted.last();
        lemma_inserted(front, item);
        let inner = inserted(front, item);
        assert(sorted =~= front.push(last));
        assert(result.to_multiset() =~= sorted.to_multiset().insert(item));
        if is_ordered(sorted) {
            assert(is_ordered(front));
            lemma_key_order(item.key, last.key, last.key);
            assert(item.key.le(last.key));
            assert forall|i: int| 0 <= i < front.len() implies (#[trigger] front[i]).key.le(
                last.key,
            ) by {
                assert(front[i] == sorted[i]);
            }
            assert forall|i: int, j: int| 0 <= i < j < result.len() implies result[i].key.le(
                result[j].key,
            ) by {
                if j == inner.len() {
                    assert(result[i] == inner[i]);
                } else {
                    assert(result[i] == inner[i] && result[j] == inner[j]);
                }
            }
        }
        assert forall|bound: SortKeyView|
            item.key.le(bound) && (forall|i: int|
                0 <= i < sorted.len() ==> (#[trigger] sorted[i]).key.le(bound)) implies (forall|
            i: int,
        | 0 <= i < result.len() ==> (#[trigger] result[i]).key.le(bound)) by {
            assert forall|i: int| 0 <= i < front.len() implies (#[trigger] front[i]).key.le(
                bound,
            ) by {
                assert(front[i] == sorted[i]);
            }
            assert forall|i: int| 0 <= i < result.len() implies (#[trigger] result[i]).key.le(
                bound,
            ) by {
                if i < inner.len() {
                    assert(result[i] == inner[i]);
                } else {
                    assert(result[i] == sorted[sorted.len() - 1]);
                }
            }
        }
    }
}

proof fn lemma_inserted_with_key(sorted: Seq<SegmentView>, item: SegmentView, key: SortKeyView)
    ensures
        with_key(inserted(sorted, item), key) == with_key(sorted.push(item), key),
    decreases sorted.len(),
{
    broadcast use Seq::lemma_filter_push;

    let holds = |s: SegmentView| s.key == key;
    if sorted.len() == 0 || sorted.last().key.le(item.key) {
    } else {
        let front = sorted.drop_last();
        let last = sorted.last();
        lemma_inserted_with_key(front, item, key);
        lemma_key_order(item.key, last.key, last.key);
        assert(sorted =~= front.push(last));
        assert(inserted(sorted, item) == inserted(front, item).push(last));
        assert(inserted(front, item).push(last).filter(holds) == if holds(last) {
            inserted(front, item).filter(holds).push(last)
        } else {
            inserted(front, item).filter(holds)
        });
        assert(front.push(item).filter(holds) == if holds(item) {
            front.filter(holds).push(item)
        } else {
            front.filter(holds)
        });
        assert(sorted.push(item).filter(holds) == if holds(item) {
            sorted.filter(holds).push(item)
        } else {
            sorted.filter(holds)
        });
        assert(front.push(last).filter(holds) == if holds(last) {
            front.filter(holds).push(last)
        } else {
            front.filter(holds)
        });
    }
}

/// Sorting puts the segments in the order of their keys.
pub proof fn lemma_sorted_is_ordered(items: Seq<SegmentView>)
    ensures
        is_ordered(sorted_by_key(items)),
    decreases items.len(),
{
    if items.len() > 0 {
        lemma_sorted_is_ordered(items.drop_last());
        lemma_inserted(sorted_by_key(items.drop_last()), items.last());
    }
}

/// Sorting neither drops nor adds a segment: the result holds each segment
/// as often as `items` does.
pub proof fn lemma_sorted_is_permutation(items: Seq<SegmentView>)
    ensures
        sorted_by_key(items).len() == items.len(),
        sorted_by_key(items).to_multiset() == items.to_multiset(),
    decreases items.len(),
{
    broadcast use vstd::seq_lib::to_multiset_build;

    if items.len() > 0 {
        lemma_sorted_is_permutation(items.drop_last());
        lemma_inserted(sorted_by_key(items.drop_last()), items.last());
        assert(items =~= items.drop_last().push(items.last()));
    }
}

/// Sorting is stable: the segments with one and the same key stand in the
/// result in the order in which they stand in `items`.
pub proof fn lemma_sort_is_stable(items: Seq<SegmentView>, key: SortKeyView)
    ensures
        with_key(sorted_by_key(items), key) == with_key(items, key),
    decreases items.len(),
{
    broadcast use Seq::lemma_filter_push;

    if items.len() > 0 {
        let front = items.drop_last();
        lemma_sort_is_stable(front, key);
        lemma_inserted_with_key(sorted_by_key(front), items.last(), key);
        assert(items =~= front.push(items.last()));
    }
}

/// After the repeats are dropped no path stands right behind the same
/// path. Every path that is left is one of `paths`, and every one of
/// `paths` is the same path as one that is left. The first path stays the
/// first.
pub proof fn lemma_without_repeats(paths: Seq<Seq<char>>)
    ensures
        forall|i: int|
            0 < i < without_repeats(paths).len() ==> !is_same_path(
                without_repeats(paths)[i - 1],
                #[trigger] without_repeats(paths)[i],
            ),
        forall|i: int|
            0 <= i < without_repeats(paths).len() ==> paths.contains(
                #[trigger] without_repeats(paths)[i],
            ),
        forall|j: int|
            0 <= j < paths.len() ==> exists|i: int|
                0 <= i < without_repeats(paths).len() && is_same_path(
                    without_repeats(paths)[i],
                    #[trigger] paths[j],
                ),
        paths.len() > 0 ==> without_repeats(paths).len() > 0 && is_same_path(
            without_repeats(paths).last(),
            paths.last(),
        ) && without_repeats(paths)[0] == paths[0],
    decreases paths.len(),
{
    let kept = without_repeats(paths);
    if paths.len() > 0 {
        let front = paths.drop_last();
        let before = without_repeats(front);
        lemma_without_repeats(front);
        lemma_same_path(paths.last(), paths.last(), paths.last());
        assert forall|i: int| 0 <= i < kept.len() implies paths.contains(#[trigger] kept[i]) by {
            if i < before.len() {
                assert(kept[i] == before[i]);
                assert(front.contains(before[i]));
                let j = choose|j: int| 0 <= j < front.len() && front[j] == before[i];
                assert(paths[j] == kept[i]);
            } else {
                assert(paths[paths.len() - 1] == kept[i]);
            }
        }
        assert forall|j: int| 0 <= j < paths.len() implies exists|i: int|
            0 <= i < kept.len() && is_same_path(kept[i], #[trigger] paths[j]) by {
            if j < front.len() {
                assert(front[j] == paths[j]);
                let i = choose|i: int|
                    0 <= i < before.len() && is_same_path(before[i], front[j]);
                assert(kept[i] == before[i]);
                assert(is_same_path(kept[i], paths[j]));
            } else {
                lemma_same_path(paths[j], paths[j], paths[j]);
                assert(is_same_path(kept[kept.len() - 1], paths[j]));
            }
        }
    }
}

} // verus!
