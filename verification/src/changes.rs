//! Which changes of crates a report shows, and in what order.

use vstd::prelude::*;

use crate::model::CrateChange;
use crate::text;

verus! {

/// The size of a change: by how many milliseconds the crate got slower or
/// faster.
pub open spec fn size(change: CrateChange) -> int {
    match change {
        CrateChange::Changed { change, .. } => if change.abs_delta_ms < 0 {
            -change.abs_delta_ms
        } else {
            change.abs_delta_ms as int
        },
        _ => 0,
    }
}

/// The crates that took another time, in the order given.
pub open spec fn changed(changes: Seq<CrateChange>) -> Seq<CrateChange> {
    changes.filter(|c: CrateChange| c is Changed)
}

/// The crates that only the later build compiled, in the order given.
pub open spec fn added(changes: Seq<CrateChange>) -> Seq<CrateChange> {
    changes.filter(|c: CrateChange| c is Added)
}

/// The crates that only the earlier build compiled, in the order given.
pub open spec fn removed(changes: Seq<CrateChange>) -> Seq<CrateChange> {
    changes.filter(|c: CrateChange| c is Removed)
}

/// The crates of which there is nothing to report.
pub open spec fn unchanged(changes: Seq<CrateChange>) -> Seq<CrateChange> {
    changes.filter(|c: CrateChange| c is Unchanged)
}

/// The crates of which there is something to report, in the order given.
pub open spec fn noteworthy(changes: Seq<CrateChange>) -> Seq<CrateChange> {
    changes.filter(|c: CrateChange| !(c is Unchanged))
}

/// Where a change of size `n` goes among `sorted`: behind the last one that is
/// at least as large.
pub open spec fn place(sorted: Seq<CrateChange>, n: int) -> int
    decreases sorted.len(),
{
    if sorted.len() == 0 || size(sorted.last()) >= n {
        sorted.len() as int
    } else {
        place(sorted.drop_last(), n)
    }
}

/// The changes from the largest to the smallest, those of one size in the
/// order given.
pub open spec fn largest_first(changes: Seq<CrateChange>) -> Seq<CrateChange>
    decreases changes.len(),
{
    if changes.len() == 0 {
        changes
    } else {
        let sorted = largest_first(changes.drop_last());
        sorted.insert(place(sorted, size(changes.last())), changes.last())
    }
}

/// The changes that a report shows, in the order in which it shows them: the
/// changed crates from the largest change down, the added ones, the removed
/// ones.
pub open spec fn shown(changes: Seq<CrateChange>) -> Seq<CrateChange> {
    largest_first(changed(changes)) + added(changes) + removed(changes)
}

/// The changes of size `n`, in the order given.
pub open spec fn of_size(changes: Seq<CrateChange>, n: int) -> Seq<CrateChange> {
    changes.filter(|c: CrateChange| size(c) == n)
}

/// No change is followed by a larger one.
pub open spec fn descending(changes: Seq<CrateChange>) -> bool {
    forall|i: int, j: int|
        0 <= i <= j < changes.len() ==> size(#[trigger] changes[i]) >= size(#[trigger] changes[j])
}

proof fn lemma_place(sorted: Seq<CrateChange>, n: int)
    requires
        descending(sorted),
    ensures
        0 <= place(sorted, n) <= sorted.len(),
        forall|i: int| 0 <= i < place(sorted, n) ==> size(#[trigger] sorted[i]) >= n,
        forall|i: int| place(sorted, n) <= i < sorted.len() ==> size(#[trigger] sorted[i]) < n,
    decreases sorted.len(),
{
    if sorted.len() > 0 && size(sorted.last()) < n {
        let rest = sorted.drop_last();
        lemma_place(rest, n);
        assert forall|i: int| 0 <= i < place(sorted, n) implies size(#[trigger] sorted[i]) >= n by {
            assert(rest[i] == sorted[i]);
        }
        assert forall|i: int| place(sorted, n) <= i < sorted.len() implies size(
            #[trigger] sorted[i],
        ) < n by {
            if i < rest.len() {
                assert(rest[i] == sorted[i]);
            }
        }
    }
}

/// The biggest movers come first.
pub proof fn biggest_movers_first(changes: Seq<CrateChange>)
    ensures
        descending(largest_first(changes)),
    decreases changes.len(),
{
    if changes.len() > 0 {
        let sorted = largest_first(changes.drop_last());
        let last = changes.last();
        biggest_movers_first(changes.drop_last());
        lemma_place(sorted, size(last));
    }
}

/// Ordering the changes neither loses one nor makes one up.
pub proof fn ordering_keeps_changes(changes: Seq<CrateChange>)
    ensures
        largest_first(changes).to_multiset() == changes.to_multiset(),
        largest_first(changes).len() == changes.len(),
    decreases changes.len(),
{
    if changes.len() > 0 {
        let rest = changes.drop_last();
        let sorted = largest_first(rest);
        let last = changes.last();
        ordering_keeps_changes(rest);
        biggest_movers_first(rest);
        lemma_place(sorted, size(last));
        vstd::seq_lib::to_multiset_insert(sorted, place(sorted, size(last)), last);
        vstd::seq_lib::to_multiset_build(rest, last);
        assert(rest.push(last) =~= changes);
    }
}

proof fn lemma_none_of_size(changes: Seq<CrateChange>, n: int)
    requires
        forall|i: int| 0 <= i < changes.len() ==> size(#[trigger] changes[i]) != n,
    ensures
        of_size(changes, n).len() == 0,
    decreases changes.len(),
{
    reveal(Seq::filter);
    if changes.len() > 0 {
        let rest = changes.drop_last();
        assert forall|i: int| 0 <= i < rest.len() implies size(#[trigger] rest[i]) != n by {
            assert(rest[i] == changes[i]);
        }
        lemma_none_of_size(rest, n);
        assert(size(changes[changes.len() - 1]) != n);
    }
}

/// Changes of one size keep the order in which they were given.
pub proof fn equal_movers_keep_order(changes: Seq<CrateChange>, n: int)
    ensures
        of_size(largest_first(changes), n) == of_size(changes, n),
    decreases changes.len(),
{
    if changes.len() > 0 {
        let rest = changes.drop_last();
        let sorted = largest_first(rest);
        let last = changes.last();
        let pred = |c: CrateChange| size(c) == n;
        let at = place(sorted, size(last));
        equal_movers_keep_order(rest, n);
        biggest_movers_first(rest);
        lemma_place(sorted, size(last));
        let front = sorted.take(at);
        let back = sorted.skip(at);
        assert(sorted =~= front + back);
        assert(sorted.insert(at, last) =~= front.push(last) + back);
        Seq::filter_distributes_over_add(front, back, pred);
        Seq::filter_distributes_over_add(front.push(last), back, pred);
        front.lemma_filter_push(last, pred);
        rest.lemma_filter_push(last, pred);
        assert(rest.push(last) =~= changes);
        if size(last) == n {
            assert forall|i: int| 0 <= i < back.len() implies size(#[trigger] back[i]) != n by {
                assert(back[i] == sorted[at + i]);
            }
            lemma_none_of_size(back, n);
            assert(of_size(back, n) =~= Seq::empty());
            assert(of_size(sorted, n) =~= of_size(front, n));
            assert(of_size(largest_first(changes), n) =~= of_size(front, n).push(last));
        } else {
            assert(of_size(largest_first(changes), n) =~= of_size(sorted, n));
        }
    }
}

/// A report shows every crate that was added, removed or changed, each once.
pub proof fn every_noteworthy_change_is_shown(changes: Seq<CrateChange>)
    ensures
        shown(changes).to_multiset() == noteworthy(changes).to_multiset(),
        shown(changes).len() + unchanged(changes).len() == changes.len(),
{
    ordering_keeps_changes(changed(changes));
    lemma_split_by_kind(changes);
    vstd::seq_lib::lemma_multiset_commutative(largest_first(changed(changes)), added(changes));
    vstd::seq_lib::lemma_multiset_commutative(
        largest_first(changed(changes)) + added(changes),
        removed(changes),
    );
}

proof fn lemma_split_by_kind(changes: Seq<CrateChange>)
    ensures
        noteworthy(changes).to_multiset() == changed(changes).to_multiset().add(
            added(changes).to_multiset(),
        ).add(removed(changes).to_multiset()),
        changed(changes).len() + added(changes).len() + removed(changes).len() + unchanged(
            changes,
        ).len() == changes.len(),
    decreases changes.len(),
{
    broadcast use vstd::seq_lib::group_to_multiset_ensures;

    reveal(Seq::filter);
    if changes.len() > 0 {
        lemma_split_by_kind(changes.drop_last());
        assert(noteworthy(changes).to_multiset() =~= changed(changes).to_multiset().add(
            added(changes).to_multiset(),
        ).add(removed(changes).to_multiset()));
    } else {
        assert(noteworthy(changes).to_multiset() =~= changed(changes).to_multiset().add(
            added(changes).to_multiset(),
        ).add(removed(changes).to_multiset()));
    }
}

/// Crates that did not change have no part in what a report shows of the
/// others.
pub proof fn unchanged_crates_are_not_shown(changes: Seq<CrateChange>)
    ensures
        shown(noteworthy(changes)) == shown(changes),
    decreases changes.len(),
{
    lemma_noteworthy_kinds(changes);
}

proof fn lemma_noteworthy_kinds(changes: Seq<CrateChange>)
    ensures
        changed(noteworthy(changes)) == changed(changes),
        added(noteworthy(changes)) == added(changes),
        removed(noteworthy(changes)) == removed(changes),
    decreases changes.len(),
{
    reveal(Seq::filter);
    if changes.len() > 0 {
        let rest = changes.drop_last();
        let last = changes.last();
        lemma_noteworthy_kinds(rest);
        if !(last is Unchanged) {
            assert(noteworthy(changes) == noteworthy(rest).push(last));
            assert(noteworthy(changes).drop_last() =~= noteworthy(rest));
        }
    }
}

/// Among the crates of which there is something to report none is unchanged.
pub proof fn noteworthy_changes_have_no_unchanged(changes: Seq<CrateChange>)
    ensures
        unchanged(noteworthy(changes)).len() == 0,
    decreases changes.len(),
{
    reveal(Seq::filter);
    if changes.len() > 0 {
        let rest = changes.drop_last();
        noteworthy_changes_have_no_unchanged(rest);
        if !(changes.last() is Unchanged) {
            assert(noteworthy(changes).drop_last() =~= noteworthy(rest));
        }
    }
}

/// A crate of which there is something to report is among those shown.
pub proof fn noteworthy_change_is_shown(changes: Seq<CrateChange>, i: int)
    requires
        0 <= i < changes.len(),
        !(changes[i] is Unchanged),
    ensures
        shown(changes).contains(changes[i]),
{
    broadcast use vstd::seq_lib::group_to_multiset_ensures;

    every_noteworthy_change_is_shown(changes);
    changes.lemma_filter_contains(|c: CrateChange| !(c is Unchanged), i);
    assert(noteworthy(changes).to_multiset().count(changes[i]) > 0);
    assert(shown(changes).to_multiset().count(changes[i]) > 0);
}

/// Of two changed crates in the order shown the first has at least the delta
/// of the second, their signs aside.
pub proof fn larger_deltas_come_first(changes: Seq<CrateChange>, i: int, j: int)
    requires
        0 <= i <= j < shown(changes).len(),
        shown(changes)[i] is Changed,
        shown(changes)[j] is Changed,
    ensures
        ({
            let first = shown(changes)[i]->change.abs_delta_ms as int;
            let second = shown(changes)[j]->change.abs_delta_ms as int;
            (if first < 0 {
                -first
            } else {
                first
            }) >= (if second < 0 {
                -second
            } else {
                second
            })
        }),
{
    let sorted = largest_first(changed(changes));
    biggest_movers_first(changed(changes));
    lemma_section(changes, i);
    lemma_section(changes, j);
    assert(shown(changes)[i] == sorted[i]);
    assert(shown(changes)[j] == sorted[j]);
}

/// Of two changed crates of a diff the one with the larger delta, its sign
/// aside, is shown first.
pub proof fn larger_delta_is_shown_before(
    changes: Seq<CrateChange>,
    a: int,
    b: int,
    i: int,
    j: int,
)
    requires
        0 <= a < changes.len(),
        0 <= b < changes.len(),
        changes[a] is Changed,
        changes[b] is Changed,
        ({
            let larger = changes[a]->change.abs_delta_ms as int;
            let smaller = changes[b]->change.abs_delta_ms as int;
            (if larger < 0 {
                -larger
            } else {
                larger
            }) > (if smaller < 0 {
                -smaller
            } else {
                smaller
            })
        }),
        0 <= i < shown(changes).len(),
        0 <= j < shown(changes).len(),
        shown(changes)[i] == changes[a],
        shown(changes)[j] == changes[b],
    ensures
        i < j,
{
    if j <= i {
        larger_deltas_come_first(changes, j, i);
    }
}

/// The place of a crate in the order shown goes by its kind: first the changed
/// crates, then the added ones, then the removed ones, and no other.
pub proof fn kinds_follow_one_another(changes: Seq<CrateChange>, i: int, j: int)
    requires
        0 <= i < j < shown(changes).len(),
    ensures
        shown(changes)[i] is Changed || shown(changes)[i] is Added || shown(changes)[i] is Removed,
        shown(changes)[j] is Changed ==> shown(changes)[i] is Changed,
        shown(changes)[j] is Added ==> !(shown(changes)[i] is Removed),
        !(shown(changes)[j] is Unchanged),
{
    lemma_section(changes, i);
    lemma_section(changes, j);
}

proof fn lemma_section(changes: Seq<CrateChange>, i: int)
    requires
        0 <= i < shown(changes).len(),
    ensures
        ({
            let first = largest_first(changed(changes)).len();
            let second = first + added(changes).len();
            &&& shown(changes)[i] is Changed <==> i < first
            &&& shown(changes)[i] is Added <==> first <= i < second
            &&& shown(changes)[i] is Removed <==> second <= i
        }),
{
    let sorted = largest_first(changed(changes));
    if i < sorted.len() {
        let pred = |c: CrateChange| c is Changed;
        ordering_keeps_changes(changed(changes));
        lemma_same_members(sorted, changed(changes), i);
        let k = choose|k: int| 0 <= k < changed(changes).len() && changed(changes)[k] == sorted[i];
        changes.lemma_filter_pred(pred, k);
        assert(shown(changes)[i] == sorted[i]);
    } else if i < sorted.len() + added(changes).len() {
        let k = i - sorted.len();
        changes.lemma_filter_pred(|c: CrateChange| c is Added, k);
        assert(shown(changes)[i] == added(changes)[k]);
    } else {
        let k = i - sorted.len() - added(changes).len();
        changes.lemma_filter_pred(|c: CrateChange| c is Removed, k);
        assert(shown(changes)[i] == removed(changes)[k]);
    }
}

proof fn lemma_same_members(some: Seq<CrateChange>, other: Seq<CrateChange>, i: int)
    requires
        some.to_multiset() == other.to_multiset(),
        0 <= i < some.len(),
    ensures
        other.contains(some[i]),
{
    broadcast use vstd::seq_lib::group_to_multiset_ensures;

    assert(some.contains(some[i]));
    assert(some.to_multiset().count(some[i]) > 0);
    assert(other.to_multiset().count(some[i]) > 0);
}

/// A crate that was added, removed or changed is shown as often as the diff
/// has it; one that did not change is not shown.
pub proof fn shown_as_often_as_given(changes: Seq<CrateChange>, change: CrateChange)
    ensures
        shown(changes).to_multiset().count(change) == if change is Unchanged {
            0
        } else {
            changes.to_multiset().count(change)
        },
{
    every_noteworthy_change_is_shown(changes);
    lemma_noteworthy_count(changes, change);
}

proof fn lemma_noteworthy_count(changes: Seq<CrateChange>, change: CrateChange)
    ensures
        noteworthy(changes).to_multiset().count(change) == if change is Unchanged {
            0
        } else {
            changes.to_multiset().count(change)
        },
    decreases changes.len(),
{
    broadcast use vstd::seq_lib::group_to_multiset_ensures;

    reveal(Seq::filter);
    if changes.len() > 0 {
        let rest = changes.drop_last();
        lemma_noteworthy_count(rest, change);
        assert(rest.push(changes.last()) =~= changes);
    } else {
        assert(changes.to_multiset().count(change) == 0) by {
            assert(!changes.contains(change));
        }
    }
}

/// The crates of a diff are those that are shown and those that are counted
/// as unchanged.
pub proof fn shown_or_counted(changes: Seq<CrateChange>, change: CrateChange)
    ensures
        shown(changes).len() + unchanged(changes).len() == changes.len(),
        unchanged(changes.push(change)).len() == unchanged(changes).len() + if change is Unchanged {
            1int
        } else {
            0int
        },
        unchanged(Seq::<CrateChange>::empty()).len() == 0,
{
    every_noteworthy_change_is_shown(changes);
    changes.lemma_filter_push(change, |c: CrateChange| c is Unchanged);
    reveal(Seq::filter);
}

/// The added crates keep the order in which they were given.
pub proof fn added_crates_keep_their_order(changes: Seq<CrateChange>)
    ensures
        shown(changes).filter(|c: CrateChange| c is Added) == changes.filter(
            |c: CrateChange| c is Added,
        ),
{
    let pred = |c: CrateChange| c is Added;
    lemma_kinds_of_sections(changes);
    lemma_filter_shown(changes, pred);
    lemma_filter_none(largest_first(changed(changes)), pred);
    lemma_filter_all(added(changes), pred);
    lemma_filter_none(removed(changes), pred);
    assert(shown(changes).filter(pred) =~= added(changes));
}

/// The removed crates keep the order in which they were given.
pub proof fn removed_crates_keep_their_order(changes: Seq<CrateChange>)
    ensures
        shown(changes).filter(|c: CrateChange| c is Removed) == changes.filter(
            |c: CrateChange| c is Removed,
        ),
{
    let pred = |c: CrateChange| c is Removed;
    lemma_kinds_of_sections(changes);
    lemma_filter_shown(changes, pred);
    lemma_filter_none(largest_first(changed(changes)), pred);
    lemma_filter_none(added(changes), pred);
    lemma_filter_all(removed(changes), pred);
    assert(shown(changes).filter(pred) =~= removed(changes));
}

/// The crate took another time, by `n` milliseconds more or fewer.
pub open spec fn moved_by(change: CrateChange, n: int) -> bool {
    change matches CrateChange::Changed { change, .. } && (change.abs_delta_ms == n
        || change.abs_delta_ms == -n)
}

/// The changed crates of one delta, its sign aside, keep the order in which
/// they were given.
pub proof fn equal_deltas_keep_their_order(changes: Seq<CrateChange>, n: nat)
    ensures
        shown(changes).filter(|c: CrateChange| moved_by(c, n as int)) == changes.filter(
            |c: CrateChange| moved_by(c, n as int),
        ),
{
    let pred = |c: CrateChange| moved_by(c, n as int);
    let by_size = |c: CrateChange| size(c) == n as int;
    let sorted = largest_first(changed(changes));
    lemma_kinds_of_sections(changes);
    lemma_filter_shown(changes, pred);
    lemma_filter_none(added(changes), pred);
    lemma_filter_none(removed(changes), pred);
    assert(shown(changes).filter(pred) =~= sorted.filter(pred));
    equal_movers_keep_order(changed(changes), n as int);
    lemma_filter_same(sorted, pred, by_size);
    lemma_filter_same(changed(changes), pred, by_size);
    lemma_filter_twice(changes, |c: CrateChange| c is Changed, pred);
}

proof fn lemma_filter_shown(changes: Seq<CrateChange>, pred: spec_fn(CrateChange) -> bool)
    ensures
        shown(changes).filter(pred) == largest_first(changed(changes)).filter(pred) + added(
            changes,
        ).filter(pred) + removed(changes).filter(pred),
{
    let sorted = largest_first(changed(changes));
    Seq::filter_distributes_over_add(sorted + added(changes), removed(changes), pred);
    Seq::filter_distributes_over_add(sorted, added(changes), pred);
}

proof fn lemma_kinds_of_sections(changes: Seq<CrateChange>)
    ensures
        forall|i: int|
            0 <= i < largest_first(changed(changes)).len() ==> (#[trigger] largest_first(
                changed(changes),
            )[i]) is Changed,
        forall|i: int|
            0 <= i < changed(changes).len() ==> (#[trigger] changed(changes)[i]) is Changed,
        forall|i: int| 0 <= i < added(changes).len() ==> (#[trigger] added(changes)[i]) is Added,
        forall|i: int|
            0 <= i < removed(changes).len() ==> (#[trigger] removed(changes)[i]) is Removed,
{
    let sorted = largest_first(changed(changes));
    assert forall|i: int| 0 <= i < sorted.len() implies (#[trigger] sorted[i]) is Changed by {
        lemma_section(changes, i);
        assert(shown(changes)[i] == sorted[i]);
    }
    assert forall|i: int| 0 <= i < changed(changes).len() implies (#[trigger] changed(
        changes,
    )[i]) is Changed by {
        changes.lemma_filter_pred(|c: CrateChange| c is Changed, i);
    }
    assert forall|i: int| 0 <= i < added(changes).len() implies (#[trigger] added(
        changes,
    )[i]) is Added by {
        changes.lemma_filter_pred(|c: CrateChange| c is Added, i);
    }
    assert forall|i: int| 0 <= i < removed(changes).len() implies (#[trigger] removed(
        changes,
    )[i]) is Removed by {
        changes.lemma_filter_pred(|c: CrateChange| c is Removed, i);
    }
}

proof fn lemma_filter_none(list: Seq<CrateChange>, pred: spec_fn(CrateChange) -> bool)
    requires
        forall|i: int| 0 <= i < list.len() ==> !pred(#[trigger] list[i]),
    ensures
        list.filter(pred) == Seq::<CrateChange>::empty(),
    decreases list.len(),
{
    reveal(Seq::filter);
    if list.len() > 0 {
        let rest = list.drop_last();
        assert forall|i: int| 0 <= i < rest.len() implies !pred(#[trigger] rest[i]) by {
            assert(rest[i] == list[i]);
        }
        lemma_filter_none(rest, pred);
        assert(!pred(list[list.len() - 1]));
    } else {
        assert(list.filter(pred) =~= Seq::<CrateChange>::empty());
    }
}

proof fn lemma_filter_all(list: Seq<CrateChange>, pred: spec_fn(CrateChange) -> bool)
    requires
        forall|i: int| 0 <= i < list.len() ==> pred(#[trigger] list[i]),
    ensures
        list.filter(pred) == list,
    decreases list.len(),
{
    reveal(Seq::filter);
    if list.len() > 0 {
        let rest = list.drop_last();
        assert forall|i: int| 0 <= i < rest.len() implies pred(#[trigger] rest[i]) by {
            assert(rest[i] == list[i]);
        }
        lemma_filter_all(rest, pred);
        assert(pred(list[list.len() - 1]));
        assert(rest.push(list.last()) =~= list);
    } else {
        assert(list.filter(pred) =~= list);
    }
}

proof fn lemma_filter_same(
    list: Seq<CrateChange>,
    one: spec_fn(CrateChange) -> bool,
    other: spec_fn(CrateChange) -> bool,
)
    requires
        forall|i: int| 0 <= i < list.len() ==> one(#[trigger] list[i]) == other(list[i]),
    ensures
        list.filter(one) == list.filter(other),
    decreases list.len(),
{
    reveal(Seq::filter);
    if list.len() > 0 {
        let rest = list.drop_last();
        assert forall|i: int| 0 <= i < rest.len() implies one(#[trigger] rest[i]) == other(
            rest[i],
        ) by {
            assert(rest[i] == list[i]);
        }
        lemma_filter_same(rest, one, other);
        assert(one(list[list.len() - 1]) == other(list[list.len() - 1]));
    }
}

proof fn lemma_filter_twice(
    list: Seq<CrateChange>,
    wide: spec_fn(CrateChange) -> bool,
    narrow: spec_fn(CrateChange) -> bool,
)
    requires
        forall|c: CrateChange| #[trigger] narrow(c) ==> wide(c),
    ensures
        list.filter(wide).filter(narrow) == list.filter(narrow),
    decreases list.len(),
{
    reveal(Seq::filter);
    if list.len() > 0 {
        let rest = list.drop_last();
        lemma_filter_twice(rest, wide, narrow);
        if wide(list.last()) {
            assert(list.filter(wide).drop_last() =~= rest.filter(wide));
        }
    }
}

/// What the references refer to.
pub open spec fn referents(changes: Seq<&CrateChange>) -> Seq<CrateChange> {
    Seq::new(changes.len(), |i: int| *changes[i])
}

/// The changes of a report by kind.
pub struct Sections<'a> {
    /// The crates that took another time, from the largest change down.
    pub changed: Vec<&'a CrateChange>,
    pub added: Vec<&'a CrateChange>,
    pub removed: Vec<&'a CrateChange>,
    /// How many crates did not change.
    pub unchanged: usize,
}

/// The size of a change.
fn size_of_change(change: &CrateChange) -> (n: u64)
    ensures
        n == size(*change),
{
    match change {
        CrateChange::Changed { change, .. } => text::magnitude(change.abs_delta_ms),
        _ => 0,
    }
}

/// Puts `change` behind the last of `sorted` that is at least as large.
fn settle<'a>(sorted: &mut Vec<&'a CrateChange>, change: &'a CrateChange)
    ensures
        referents(final(sorted)@) == referents(old(sorted)@).insert(
            place(referents(old(sorted)@), size(*change)),
            *change,
        ),
{
    let n: u64 = size_of_change(change);
    let ghost all = referents(sorted@);
    let mut at: usize = sorted.len();
    assert(all.take(at as int) =~= all);
    while at > 0 && size_of_change(sorted[at - 1]) < n
        invariant
            at <= sorted@.len(),
            all == referents(sorted@),
            forall|i: int| 0 <= i < sorted@.len() ==> *(#[trigger] sorted@[i]) == all[i],
            n == size(*change),
            place(all.take(at as int), n as int) == place(all, n as int),
        decreases at,
    {
        assert(all.take(at as int).drop_last() =~= all.take(at - 1));
        at = at - 1;
    }
    assert(place(all, n as int) == at);
    sorted.insert(at, change);
    assert(referents(sorted@) =~= all.insert(at as int, *change));
}

/// Sorts the changes into the sections of a report.
pub fn sections<'a>(changes: &'a [CrateChange]) -> (found: Sections<'a>)
    ensures
        referents(found.changed@) == largest_first(changed(changes@)),
        referents(found.added@) == added(changes@),
        referents(found.removed@) == removed(changes@),
        found.unchanged == unchanged(changes@).len(),
{
    let mut found = Sections {
        changed: Vec::new(),
        added: Vec::new(),
        removed: Vec::new(),
        unchanged: 0,
    };
    proof {
        reveal(Seq::filter);
    }
    let mut i: usize = 0;
    while i < changes.len()
        invariant
            i <= changes.len(),
            referents(found.changed@) == largest_first(changed(changes@.take(i as int))),
            referents(found.added@) == added(changes@.take(i as int)),
            referents(found.removed@) == removed(changes@.take(i as int)),
            found.unchanged == unchanged(changes@.take(i as int)).len(),
            found.unchanged <= i,
        decreases changes.len() - i,
    {
        let change = &changes[i];
        let ghost before = changes@.take(i as int);
        let ghost sofar = found;
        match change {
            CrateChange::Added { .. } => found.added.push(change),
            CrateChange::Removed { .. } => found.removed.push(change),
            CrateChange::Changed { .. } => settle(&mut found.changed, change),
            CrateChange::Unchanged { .. } => found.unchanged = found.unchanged + 1,
        }
        i = i + 1;
        proof {
            let now = changes@.take(i as int);
            assert(now =~= before.push(*change));
            before.lemma_filter_push(*change, |c: CrateChange| c is Changed);
            before.lemma_filter_push(*change, |c: CrateChange| c is Added);
            before.lemma_filter_push(*change, |c: CrateChange| c is Removed);
            before.lemma_filter_push(*change, |c: CrateChange| c is Unchanged);
            if change is Changed {
                assert(changed(now).drop_last() =~= changed(before));
            }
            assert(referents(found.added@) =~= added(now));
            assert(referents(found.removed@) =~= removed(now));
        }
    }
    assert(changes@.take(i as int) =~= changes@);
    found
}

} // verus!
