//! The comparison of two critical paths.
//!
//! A critical path is the longest chain of dependencies of a build, and so
//! what bounds its duration. Two of them stand side by side, node by node, and
//! below the table the crates that are on one of them only:
//!
//! ```text
//! Critical path: 3 → 2 nodes (-1)
//!
//!     #  before    after
//!   ───  ────────  ────────
//!     1  cfg_if    memchr
//!     2  foldhash  foldhash  ✓ same position
//!     3  ryu       —
//!
//!   removed: cfg_if, ryu
//!   added:   memchr
//! ```

use vstd::hash_set::StringHashSet;
use vstd::prelude::*;
use vstd::string::*;

use crate::text;

verus! {

/// The names as sequences of characters.
pub open spec fn texts(names: Seq<String>) -> Seq<Seq<char>> {
    Seq::new(names.len(), |i: int| names[i]@)
}

/// The greater of two lengths.
pub open spec fn greater(a: nat, b: nat) -> nat {
    if a < b {
        b
    } else {
        a
    }
}

/// The length of the longest name.
pub open spec fn longest(names: Seq<Seq<char>>) -> nat
    decreases names.len(),
{
    if names.len() == 0 {
        0
    } else {
        greater(longest(names.drop_last()), names.last().len())
    }
}

/// The width of the two columns of names: that of the longest name, but at
/// least 6 and at most 28.
pub open spec fn column_width(before: Seq<Seq<char>>, after: Seq<Seq<char>>) -> nat {
    let need = greater(longest(before), longest(after));
    if need < 6 {
        6
    } else if need > 28 {
        28
    } else {
        need
    }
}

/// The width of the column of positions in a table of `rows` rows: that of the
/// last position, but at least 3.
pub open spec fn index_width(rows: nat) -> nat {
    greater(text::decimal(rows).len(), 3)
}

/// How many nodes more or fewer the second path has.
pub open spec fn length_change(before: nat, after: nat) -> Seq<char> {
    if after > before {
        " (+"@ + text::decimal((after - before) as nat) + ")"@
    } else if after < before {
        " (-"@ + text::decimal((before - after) as nat) + ")"@
    } else {
        Seq::empty()
    }
}

/// The node at a position, or a dash behind the end of the path.
pub open spec fn node(path: Seq<Seq<char>>, i: int) -> Seq<char> {
    if 0 <= i < path.len() {
        path[i]
    } else {
        "—"@
    }
}

/// Both paths have a node at a position, and it is the same.
pub open spec fn same_node(before: Seq<Seq<char>>, after: Seq<Seq<char>>, i: int) -> bool {
    0 <= i < before.len() && i < after.len() && before[i] == after[i]
}

/// The three cells of a line of the table.
pub open spec fn cells(
    index: Seq<char>,
    before: Seq<char>,
    after: Seq<char>,
    index_width: nat,
    width: nat,
) -> Seq<char> {
    "  "@ + text::pad_left(index, index_width) + "  "@ + text::pad_right(before, width) + "  "@
        + text::pad_right(after, width)
}

/// The titles of the columns, and the rule below them.
pub open spec fn titles(index_width: nat, width: nat) -> Seq<char> {
    cells("#"@, "before"@, "after"@, index_width, width) + "\n  "@ + text::repeated(
        '─',
        index_width,
    ) + "  "@ + text::repeated('─', width) + "  "@ + text::repeated('─', width) + "\n"@
}

/// What follows the cells of a row.
pub open spec fn note(before: Seq<Seq<char>>, after: Seq<Seq<char>>, i: int) -> Seq<char> {
    if same_node(before, after, i) {
        "  ✓ same position"@
    } else {
        Seq::empty()
    }
}

/// The cells of the row of a position, counted from 0 and shown from 1.
pub open spec fn row_cells(
    before: Seq<Seq<char>>,
    after: Seq<Seq<char>>,
    i: int,
    index_width: nat,
    width: nat,
) -> Seq<char> {
    cells(
        text::decimal((i + 1) as nat),
        text::truncated(node(before, i), width),
        text::truncated(node(after, i), width),
        index_width,
        width,
    )
}

/// The row of a position.
pub open spec fn row(
    before: Seq<Seq<char>>,
    after: Seq<Seq<char>>,
    i: int,
    index_width: nat,
    width: nat,
) -> Seq<char> {
    row_cells(before, after, i, index_width, width) + note(before, after, i) + "\n"@
}

/// The rows of the first `n` positions.
pub open spec fn rows(
    before: Seq<Seq<char>>,
    after: Seq<Seq<char>>,
    n: nat,
    index_width: nat,
    width: nat,
) -> Seq<char>
    decreases n,
{
    if n == 0 {
        Seq::empty()
    } else {
        rows(before, after, (n - 1) as nat, index_width, width) + row(
            before,
            after,
            n - 1,
            index_width,
            width,
        )
    }
}

/// The table of two paths: a row for each position of the longer one.
pub open spec fn table(before: Seq<Seq<char>>, after: Seq<Seq<char>>) -> Seq<char> {
    let n = greater(before.len(), after.len());
    let width = column_width(before, after);
    titles(index_width(n), width) + rows(before, after, n, index_width(n), width)
}

/// The nodes of `path` that are not on `other`, in the order of `path`.
pub open spec fn only_on(path: Seq<Seq<char>>, other: Seq<Seq<char>>) -> Seq<Seq<char>> {
    path.filter(|name: Seq<char>| !other.contains(name))
}

/// A list of names, or the remark that there are none.
pub open spec fn list_or_none(names: Seq<Seq<char>>) -> Seq<char> {
    if names.len() == 0 {
        "(none)"@
    } else {
        text::comma_list(names)
    }
}

/// Which crates left the path and which came onto it.
pub open spec fn summary(before: Seq<Seq<char>>, after: Seq<Seq<char>>) -> Seq<char> {
    let removed = only_on(before, after);
    let added = only_on(after, before);
    "  removed: "@ + list_or_none(removed) + "\n  added:   "@ + list_or_none(added) + "\n"@ + (
    if removed.len() == 0 && added.len() == 0 {
        "  same crate set, possibly reordered\n"@
    } else {
        Seq::empty()
    })
}

/// The whole comparison.
pub open spec fn comparison(before: Seq<Seq<char>>, after: Seq<Seq<char>>) -> Seq<char> {
    "Critical path: "@ + text::decimal(before.len()) + " → "@ + text::decimal(after.len())
        + " nodes"@ + length_change(before.len(), after.len()) + "\n"@ + (if before.len() == 0
        && after.len() == 0 {
        "  (empty)\n"@
    } else {
        "\n"@ + table(before, after) + "\n"@ + summary(before, after)
    })
}

proof fn lemma_longest(names: Seq<Seq<char>>, i: int)
    requires
        0 <= i < names.len(),
    ensures
        names[i].len() <= longest(names),
    decreases names.len(),
{
    if i < names.len() - 1 {
        assert(names.drop_last()[i] == names[i]);
        lemma_longest(names.drop_last(), i);
    }
}

/// The columns of names are between 6 and 28 characters wide.
pub proof fn columns_stay_narrow(before: Seq<Seq<char>>, after: Seq<Seq<char>>)
    ensures
        6 <= column_width(before, after) <= 28,
{
}

/// A name of at most 28 characters is shown whole, on whichever path it is.
pub proof fn short_names_stay_whole(before: Seq<Seq<char>>, after: Seq<Seq<char>>, i: int)
    ensures
        0 <= i < before.len() && before[i].len() <= 28 ==> text::truncated(
            node(before, i),
            column_width(before, after),
        ) == before[i],
        0 <= i < after.len() && after[i].len() <= 28 ==> text::truncated(
            node(after, i),
            column_width(before, after),
        ) == after[i],
{
    if 0 <= i < before.len() {
        lemma_longest(before, i);
    }
    if 0 <= i < after.len() {
        lemma_longest(after, i);
    }
}

/// The cells of every row are as wide as the titles, however many rows there
/// are and however long the names.
pub proof fn rows_align(before: Seq<Seq<char>>, after: Seq<Seq<char>>, i: int)
    requires
        0 <= i < greater(before.len(), after.len()),
    ensures
        ({
            let positions = index_width(greater(before.len(), after.len()));
            let width = column_width(before, after);
            &&& row_cells(before, after, i, positions, width).len() == 6 + positions + 2 * width
            &&& cells("#"@, "before"@, "after"@, positions, width).len() == 6 + positions + 2
                * width
        }),
{
    let n = greater(before.len(), after.len());
    let width = column_width(before, after);
    text::decimal_len_grows((i + 1) as nat, n);
    text::truncate_fits(node(before, i), width);
    text::truncate_fits(node(after, i), width);
    reveal_strlit("  ");
    reveal_strlit("#");
    reveal_strlit("before");
    reveal_strlit("after");
}

/// In a table of fewer than a thousand positions the cells of a row take at
/// most 65 columns, and a row with its note at most 82, the line break not
/// counted.
pub proof fn tables_stay_narrow(before: Seq<Seq<char>>, after: Seq<Seq<char>>, i: int)
    requires
        0 <= i < greater(before.len(), after.len()) < 1000,
    ensures
        ({
            let positions = index_width(greater(before.len(), after.len()));
            let width = column_width(before, after);
            &&& row_cells(before, after, i, positions, width).len() <= 65
            &&& row(before, after, i, positions, width).len() <= 83
        }),
{
    reveal_with_fuel(text::decimal, 3);
    rows_align(before, after, i);
    reveal_strlit("  ✓ same position");
    reveal_strlit("\n");
}

/// Swapping the two paths swaps the two cells of every row and the two lists
/// below the table. Widths, notes and the remark on equal sets stay.
pub proof fn swapped_paths_swap_columns(before: Seq<Seq<char>>, after: Seq<Seq<char>>, i: int)
    requires
        0 <= i < greater(before.len(), after.len()),
    ensures
        ({
            let positions = index_width(greater(before.len(), after.len()));
            let width = column_width(before, after);
            &&& column_width(after, before) == width
            &&& index_width(greater(after.len(), before.len())) == positions
            &&& row(after, before, i, positions, width) == cells(
                text::decimal((i + 1) as nat),
                text::truncated(node(after, i), width),
                text::truncated(node(before, i), width),
                positions,
                width,
            ) + note(before, after, i) + "\n"@
        }),
        summary(after, before) == "  removed: "@ + list_or_none(only_on(after, before))
            + "\n  added:   "@ + list_or_none(only_on(before, after)) + "\n"@ + (if only_on(
            before,
            after,
        ).len() == 0 && only_on(after, before).len() == 0 {
            "  same crate set, possibly reordered\n"@
        } else {
            Seq::empty()
        }),
{
}

proof fn lemma_row_in_rows(
    before: Seq<Seq<char>>,
    after: Seq<Seq<char>>,
    i: int,
    n: nat,
    positions: nat,
    width: nat,
)
    requires
        0 <= i < n,
    ensures
        text::occurs_in(
            row(before, after, i, positions, width),
            rows(before, after, n, positions, width),
        ),
    decreases n,
{
    let part = row(before, after, i, positions, width);
    let earlier = rows(before, after, (n - 1) as nat, positions, width);
    let last = row(before, after, n - 1, positions, width);
    let none = Seq::<char>::empty();
    if i < n - 1 {
        lemma_row_in_rows(before, after, i, (n - 1) as nat, positions, width);
        text::occurs_in_longer(part, earlier, none, last);
        assert(none + earlier + last =~= earlier + last);
    } else {
        text::occurs_in_itself(part);
        text::occurs_in_longer(part, last, earlier, none);
        assert(earlier + last + none =~= earlier + last);
    }
}

/// The whole of both paths is always shown: the comparison holds a row for
/// each of their positions.
pub proof fn whole_path_is_shown(before: Seq<Seq<char>>, after: Seq<Seq<char>>, i: int)
    requires
        0 <= i < greater(before.len(), after.len()),
    ensures
        ({
            let positions = index_width(greater(before.len(), after.len()));
            let width = column_width(before, after);
            text::occurs_in(
                row(before, after, i, positions, width),
                comparison(before, after),
            )
        }),
{
    let n = greater(before.len(), after.len());
    let positions = index_width(n);
    let width = column_width(before, after);
    let part = row(before, after, i, positions, width);
    let all = rows(before, after, n, positions, width);
    let head = "Critical path: "@ + text::decimal(before.len()) + " → "@ + text::decimal(
        after.len(),
    ) + " nodes"@ + length_change(before.len(), after.len()) + "\n"@;
    let above = head + "\n"@ + titles(positions, width);
    let below = "\n"@ + summary(before, after);
    lemma_row_in_rows(before, after, i, n, positions, width);
    text::occurs_in_longer(part, all, above, below);
    assert(comparison(before, after) =~= above + all + below);
}

/// A crate is reported as removed where only the first path has it and as
/// added where only the second has it, and so never as both.
pub proof fn removed_or_added(before: Seq<Seq<char>>, after: Seq<Seq<char>>, name: Seq<char>)
    ensures
        only_on(before, after).contains(name) <==> before.contains(name) && !after.contains(name),
        only_on(after, before).contains(name) <==> after.contains(name) && !before.contains(name),
{
    lemma_only_on(before, after, name);
    lemma_only_on(after, before, name);
}

proof fn lemma_only_on(path: Seq<Seq<char>>, other: Seq<Seq<char>>, name: Seq<char>)
    ensures
        only_on(path, other).contains(name) <==> path.contains(name) && !other.contains(name),
{
    let absent = |n: Seq<char>| !other.contains(n);
    if only_on(path, other).contains(name) {
        let k = choose|k: int| 0 <= k < only_on(path, other).len() && only_on(path, other)[k] == name;
        path.lemma_filter_pred(absent, k);
        path.lemma_filter_contains_rev(absent, name);
    }
    if path.contains(name) && !other.contains(name) {
        let k = choose|k: int| 0 <= k < path.len() && path[k] == name;
        path.lemma_filter_contains(absent, k);
    }
}

/// The summary reports no difference exactly where the two paths consist of
/// the same crates.
pub proof fn no_difference_means_same_crates(before: Seq<Seq<char>>, after: Seq<Seq<char>>)
    ensures
        only_on(before, after).len() == 0 && only_on(after, before).len() == 0
            <==> before.to_set() == after.to_set(),
{
    let removed = only_on(before, after);
    let added = only_on(after, before);
    if before.to_set() == after.to_set() {
        if removed.len() > 0 {
            assert(removed.contains(removed[0]));
            removed_or_added(before, after, removed[0]);
            assert(before.to_set().contains(removed[0]));
            assert(after.to_set().contains(removed[0]));
        }
        if added.len() > 0 {
            assert(added.contains(added[0]));
            removed_or_added(before, after, added[0]);
            assert(after.to_set().contains(added[0]));
            assert(before.to_set().contains(added[0]));
        }
    } else if removed.len() == 0 && added.len() == 0 {
        assert forall|name: Seq<char>| before.to_set().contains(name) <==> #[trigger] after.to_set()
            .contains(name) by {
            removed_or_added(before, after, name);
        }
        assert(before.to_set() =~= after.to_set());
    }
}

/// A path is compared by the names of its nodes, all of them.
pub proof fn texts_are_the_names(names: Seq<String>)
    ensures
        texts(names).len() == names.len(),
        forall|i: int| 0 <= i < names.len() ==> #[trigger] texts(names)[i] == names[i]@,
{
}

/// No name is longer than the longest, and one is as long.
pub proof fn longest_is_reached(names: Seq<Seq<char>>)
    ensures
        forall|i: int| 0 <= i < names.len() ==> (#[trigger] names[i]).len() <= longest(names),
        names.len() > 0 ==> exists|i: int|
            0 <= i < names.len() && (#[trigger] names[i]).len() == longest(names),
        names.len() == 0 ==> longest(names) == 0,
    decreases names.len(),
{
    if names.len() > 0 {
        let rest = names.drop_last();
        longest_is_reached(rest);
        assert forall|i: int| 0 <= i < names.len() implies (#[trigger] names[i]).len() <= longest(
            names,
        ) by {
            if i < rest.len() {
                assert(rest[i] == names[i]);
            }
        }
        if longest(rest) > names.last().len() {
            let k = choose|k: int| 0 <= k < rest.len() && (#[trigger] rest[k]).len() == longest(rest);
            assert(names[k].len() == longest(names));
        } else {
            assert(names[names.len() - 1].len() == longest(names));
        }
    }
}

/// The columns are wide enough for every name, or 28 characters wide, and no
/// wider than 6 unless some name needs it.
pub proof fn columns_go_by_the_names(before: Seq<Seq<char>>, after: Seq<Seq<char>>)
    ensures
        ({
            let width = column_width(before, after);
            &&& 6 <= width <= 28
            &&& forall|i: int|
                0 <= i < before.len() ==> width == 28 || (#[trigger] before[i]).len() <= width
            &&& forall|i: int|
                0 <= i < after.len() ==> width == 28 || (#[trigger] after[i]).len() <= width
            &&& width > 6 ==> (exists|i: int|
                0 <= i < before.len() && (#[trigger] before[i]).len() >= width) || (exists|i: int|
                0 <= i < after.len() && (#[trigger] after[i]).len() >= width)
        }),
{
    longest_is_reached(before);
    longest_is_reached(after);
}

/// The column of positions holds the last of them, and is no wider than 3
/// unless that needs it.
pub proof fn positions_fit_their_column(rows: nat)
    ensures
        index_width(rows) >= 3,
        index_width(rows) >= text::decimal(rows).len(),
        index_width(rows) == 3 || index_width(rows) == text::decimal(rows).len(),
{
}

/// The change of length reads as the difference of the two lengths, and is
/// left out where there is none.
pub proof fn length_changes_read_back(before: nat, after: nat)
    ensures
        ({
            let shown = length_change(before, after);
            &&& before == after <==> shown.len() == 0
            &&& before != after ==> {
                &&& shown.len() > 4
                &&& shown[0] == ' ' && shown[1] == '(' && shown.last() == ')'
                &&& shown[2] == '+' <==> after > before
                &&& shown[2] == '-' <==> after < before
                &&& text::number_in(shown.subrange(3, shown.len() - 1)) == if after > before {
                    after - before
                } else {
                    before - after
                }
            }
        }),
{
    reveal_strlit(" (+");
    reveal_strlit(" (-");
    reveal_strlit(")");
    let shown = length_change(before, after);
    if before != after {
        let by = (if after > before {
            after - before
        } else {
            before - after
        }) as nat;
        text::decimal_reads_back(by);
        assert(shown.subrange(3, shown.len() - 1) =~= text::decimal(by));
    }
}

/// What a row shows at a position of a path: the node, or a dash behind the
/// end of the path.
pub open spec fn shown_node(path: Seq<Seq<char>>, i: int, width: nat) -> Seq<char> {
    if i < path.len() {
        text::truncated(path[i], width)
    } else {
        seq!['—']
    }
}

/// A row shows its position, counted from 1, and the nodes of both paths at
/// that position. It ends in a note exactly where both paths have a node there
/// and it is the same.
pub proof fn rows_show_both_nodes(before: Seq<Seq<char>>, after: Seq<Seq<char>>, i: int)
    requires
        0 <= i < greater(before.len(), after.len()),
    ensures
        ({
            let positions = index_width(greater(before.len(), after.len()));
            let width = column_width(before, after);
            let line = row(before, after, i, positions, width);
            let left = 4 + positions;
            let right = left + width + 2;
            let digits = text::decimal((i + 1) as nat);
            &&& line.subrange(2, 2int + positions) == text::pad_left(digits, positions)
            &&& shown_node(before, i, width).is_prefix_of(line.skip(left as int))
            &&& shown_node(after, i, width).is_prefix_of(line.skip(right as int))
            &&& forall|k: int|
                left + shown_node(before, i, width).len() <= k < right ==> #[trigger] line[k] == ' '
            &&& forall|k: int|
                right + shown_node(after, i, width).len() <= k < right + width
                    ==> #[trigger] line[k] == ' '
            &&& line.skip((right + width) as int) == if i < before.len() && i < after.len()
                && before[i] == after[i] {
                "  ✓ same position\n"@
            } else {
                "\n"@
            }
        }),
{
    let n = greater(before.len(), after.len());
    let positions = index_width(n);
    let width = column_width(before, after);
    let line = row(before, after, i, positions, width);
    let digits = text::decimal((i + 1) as nat);
    let gap = "  "@;
    assert(gap.len() == 2 && gap[0] == ' ' && gap[1] == ' ') by {
        reveal_strlit("  ");
    }
    assert("—"@ == seq!['—']) by {
        reveal_strlit("—");
        assert("—"@ =~= seq!['—']);
    }
    text::truncate_fits(seq!['—'], width);
    let b = text::truncated(node(before, i), width);
    let a = text::truncated(node(after, i), width);
    assert(b == shown_node(before, i, width));
    assert(a == shown_node(after, i, width));
    text::decimal_len_grows((i + 1) as nat, n);
    text::truncate_fits(node(before, i), width);
    text::truncate_fits(node(after, i), width);
    let end = note(before, after, i) + "\n"@;
    assert(end == if same_node(before, after, i) {
        "  ✓ same position\n"@
    } else {
        "\n"@
    }) by {
        reveal_strlit("  ✓ same position");
        reveal_strlit("\n");
        reveal_strlit("  ✓ same position\n");
        assert("  ✓ same position"@ + "\n"@ =~= "  ✓ same position\n"@);
        assert(Seq::<char>::empty() + "\n"@ =~= "\n"@);
    }
    let p = text::pad_left(digits, positions);
    let pb = text::pad_right(b, width);
    let pa = text::pad_right(a, width);
    let cut = gap + p + gap + pb + gap + pa;
    assert(line == cut + end) by {
        text::lemma_regroup(cut, note(before, after, i), "\n"@);
    }
    text::lemma_tail(cut, end);
    assert(cut.len() == 6 + positions + 2 * width);
    assert forall|k: int| 0 <= k < cut.len() implies line[k] == cut[k] by {}
    assert(line.subrange(2, 2int + positions) =~= p);
    assert(line.skip((4 + positions) as int).subrange(0, b.len() as int) =~= b);
    assert(line.skip((6 + positions + width) as int).subrange(0, a.len() as int) =~= a);
}

/// Each further position adds its row below the others.
pub proof fn rows_stack(
    before: Seq<Seq<char>>,
    after: Seq<Seq<char>>,
    n: nat,
    index_width: nat,
    width: nat,
)
    ensures
        rows(before, after, 0, index_width, width).len() == 0,
        rows(before, after, n + 1, index_width, width) == rows(
            before,
            after,
            n,
            index_width,
            width,
        ) + row(before, after, n as int, index_width, width),
{
}

/// Below its titles a table has the rows of all positions of the longer path.
pub proof fn tables_have_a_row_for_each_position(
    before: Seq<Seq<char>>,
    after: Seq<Seq<char>>,
)
    ensures
        ({
            let n = if before.len() > after.len() {
                before.len()
            } else {
                after.len()
            };
            let heading = titles(index_width(n), column_width(before, after));
            &&& heading.is_prefix_of(table(before, after))
            &&& table(before, after).skip(heading.len() as int) == rows(
                before,
                after,
                n,
                index_width(n),
                column_width(before, after),
            )
        }),
{
    let n = greater(before.len(), after.len());
    let width = column_width(before, after);
    text::lemma_tail(
        titles(index_width(n), width),
        rows(before, after, n, index_width(n), width),
    );
}

/// The titles stand over the columns that they are of, and the rule below them
/// underlines each column over its whole width.
pub proof fn titles_stand_over_their_columns(positions: nat, width: nat)
    requires
        positions >= 3,
        width >= 6,
    ensures
        ({
            let heading = titles(positions, width);
            let left = 4 + positions;
            let right = left + width + 2;
            let below = right + width + 1;
            &&& heading.len() == below + right + width + 1
            &&& heading[1int + positions] == '#'
            &&& seq!['b', 'e', 'f', 'o', 'r', 'e'].is_prefix_of(heading.skip(left as int))
            &&& seq!['a', 'f', 't', 'e', 'r'].is_prefix_of(heading.skip(right as int))
            &&& heading[below - 1] == '\n'
            &&& forall|k: int| 2 <= k < 2 + positions ==> heading[#[trigger] (below + k)] == '─'
            &&& forall|k: int| left <= k < left + width ==> heading[#[trigger] (below + k)] == '─'
            &&& forall|k: int| right <= k < right + width ==> heading[#[trigger] (below + k)]
                == '─'
            &&& heading.last() == '\n'
        }),
{
    let gap = "  "@;
    let lead = "\n  "@;
    let end = "\n"@;
    let top = cells("#"@, "before"@, "after"@, positions, width);
    let six = lead + text::repeated('─', positions) + gap + text::repeated('─', width) + gap
        + text::repeated('─', width);
    lemma_six_parts(
        top,
        lead,
        text::repeated('─', positions),
        gap,
        text::repeated('─', width),
        gap,
        text::repeated('─', width),
    );
    text::lemma_regroup(top, six, end);
    lemma_title_cells(positions, width);
    lemma_rule(positions, width);
    lemma_title_lines(top, six + end, positions, width);
}

proof fn lemma_title_cells(positions: nat, width: nat)
    requires
        positions >= 3,
        width >= 6,
    ensures
        ({
            let top = cells("#"@, "before"@, "after"@, positions, width);
            &&& top.len() == 6 + positions + 2 * width
            &&& top[1int + positions] == '#'
            &&& seq!['b', 'e', 'f', 'o', 'r', 'e'].is_prefix_of(top.skip(4int + positions))
            &&& seq!['a', 'f', 't', 'e', 'r'].is_prefix_of(top.skip(6int + positions + width))
        }),
{
    reveal_strlit("  ");
    reveal_strlit("#");
    reveal_strlit("before");
    reveal_strlit("after");
    let top = cells("#"@, "before"@, "after"@, positions, width);
    assert(top.skip(4int + positions).subrange(0, 6) =~= seq!['b', 'e', 'f', 'o', 'r', 'e']);
    assert(top.skip(6int + positions + width).subrange(0, 5) =~= seq!['a', 'f', 't', 'e', 'r']);
}

proof fn lemma_rule(positions: nat, width: nat)
    ensures
        ({
            let rule = "\n  "@ + text::repeated('─', positions) + "  "@ + text::repeated('─', width)
                + "  "@ + text::repeated('─', width) + "\n"@;
            &&& rule.len() == 8 + positions + 2 * width
            &&& rule[0] == '\n'
            &&& forall|k: int| 3 <= k < 3 + positions ==> #[trigger] rule[k] == '─'
            &&& forall|k: int|
                5 + positions <= k < 5 + positions + width ==> #[trigger] rule[k] == '─'
            &&& forall|k: int|
                7 + positions + width <= k < 7 + positions + 2 * width ==> #[trigger] rule[k]
                    == '─'
            &&& rule.last() == '\n'
        }),
{
    reveal_strlit("  ");
    reveal_strlit("\n  ");
    reveal_strlit("\n");
}

proof fn lemma_title_lines(top: Seq<char>, rule: Seq<char>, positions: nat, width: nat)
    requires
        width >= 6,
        top.len() == 6 + positions + 2 * width,
        top[1int + positions] == '#',
        seq!['b', 'e', 'f', 'o', 'r', 'e'].is_prefix_of(top.skip(4int + positions)),
        seq!['a', 'f', 't', 'e', 'r'].is_prefix_of(top.skip(6int + positions + width)),
        rule.len() == 8 + positions + 2 * width,
        rule[0] == '\n',
        forall|k: int| 3 <= k < 3 + positions ==> #[trigger] rule[k] == '─',
        forall|k: int| 5 + positions <= k < 5 + positions + width ==> #[trigger] rule[k] == '─',
        forall|k: int|
            7 + positions + width <= k < 7 + positions + 2 * width ==> #[trigger] rule[k] == '─',
        rule.last() == '\n',
    ensures
        ({
            let heading = top + rule;
            let left = 4 + positions;
            let right = left + width + 2;
            let below = right + width + 1;
            &&& heading.len() == below + right + width + 1
            &&& heading[1int + positions] == '#'
            &&& seq!['b', 'e', 'f', 'o', 'r', 'e'].is_prefix_of(heading.skip(left as int))
            &&& seq!['a', 'f', 't', 'e', 'r'].is_prefix_of(heading.skip(right as int))
            &&& heading[below - 1] == '\n'
            &&& forall|k: int| 2 <= k < 2 + positions ==> heading[#[trigger] (below + k)] == '─'
            &&& forall|k: int| left <= k < left + width ==> heading[#[trigger] (below + k)] == '─'
            &&& forall|k: int| right <= k < right + width ==> heading[#[trigger] (below + k)]
                == '─'
            &&& heading.last() == '\n'
        }),
{
    let heading = top + rule;
    let below = 7 + positions + 2 * width;
    assert forall|k: int| 0 <= k < rule.len() - 1 implies heading[#[trigger] (below + k)] == rule[k
        + 1] by {}
    assert(heading.skip(4int + positions) =~= top.skip(4int + positions) + rule);
    assert(heading.skip(6int + positions + width) =~= top.skip(6int + positions + width) + rule);
}

/// The crates on one path only are found node by node: a node counts unless
/// the other path has it.
pub proof fn only_on_goes_node_by_node(
    path: Seq<Seq<char>>,
    name: Seq<char>,
    other: Seq<Seq<char>>,
)
    ensures
        only_on(Seq::<Seq<char>>::empty(), other).len() == 0,
        only_on(path.push(name), other) == if other.contains(name) {
            only_on(path, other)
        } else {
            only_on(path, other).push(name)
        },
{
    reveal(Seq::filter);
    path.lemma_filter_push(name, |n: Seq<char>| !other.contains(n));
}

/// The summary lists every crate that is on one path only, behind `removed:`
/// where that is the first path and behind `added:` where it is the second,
/// and says of an empty list that it is one. It closes with a remark exactly
/// where both paths have the same crates.
pub proof fn summaries_list_every_difference(
    before: Seq<Seq<char>>,
    after: Seq<Seq<char>>,
    i: int,
)
    ensures
        ({
            let shown = summary(before, after);
            let removed = list_or_none(only_on(before, after));
            let added = list_or_none(only_on(after, before));
            let second = 11 + removed.len() + 12;
            &&& "  removed: "@.is_prefix_of(shown)
            &&& removed.is_prefix_of(shown.skip(11))
            &&& "\n  added:   "@.is_prefix_of(shown.skip(11int + removed.len()))
            &&& added.is_prefix_of(shown.skip(second as int))
            &&& shown.skip((second + added.len()) as int) == if before.to_set() == after.to_set() {
                "\n  same crate set, possibly reordered\n"@
            } else {
                "\n"@
            }
            &&& 0 <= i < before.len() && !after.contains(before[i]) ==> text::occurs_in(
                before[i],
                removed,
            )
            &&& 0 <= i < after.len() && !before.contains(after[i]) ==> text::occurs_in(
                after[i],
                added,
            )
            &&& (forall|k: int| 0 <= k < before.len() ==> after.contains(#[trigger] before[k]))
                ==> removed == "(none)"@
            &&& (forall|k: int| 0 <= k < after.len() ==> before.contains(#[trigger] after[k]))
                ==> added == "(none)"@
        }),
{
    lemma_lost_is_listed(before, after, i);
    lemma_lost_is_listed(after, before, i);
    no_difference_means_same_crates(before, after);
    let removed = list_or_none(only_on(before, after));
    let added = list_or_none(only_on(after, before));
    let shown = summary(before, after);
    let first = "  removed: "@;
    let middle = "\n  added:   "@;
    let remark = if only_on(before, after).len() == 0 && only_on(after, before).len() == 0 {
        "  same crate set, possibly reordered\n"@
    } else {
        Seq::empty()
    };
    assert(first.len() == 11 && middle.len() == 12) by {
        reveal_strlit("  removed: ");
        reveal_strlit("\n  added:   ");
    }
    let tail = "\n"@ + remark;
    assert(tail == if before.to_set() == after.to_set() {
        "\n  same crate set, possibly reordered\n"@
    } else {
        "\n"@
    }) by {
        reveal_strlit("\n");
        reveal_strlit("  same crate set, possibly reordered\n");
        reveal_strlit("\n  same crate set, possibly reordered\n");
        assert("\n"@ + "  same crate set, possibly reordered\n"@
            =~= "\n  same crate set, possibly reordered\n"@);
        assert("\n"@ + Seq::<char>::empty() =~= "\n"@);
    }
    let a1 = first + removed;
    let a2 = a1 + middle;
    let a3 = a2 + added;
    assert(shown == a3 + "\n"@ + remark);
    text::lemma_regroup(a3, "\n"@, remark);
    text::lemma_tail(a3, tail);
    text::lemma_behind(a2, added, tail);
    text::lemma_regroup(a2, added, tail);
    text::lemma_behind(a1, middle, added + tail);
    text::lemma_regroup(a1, middle, added + tail);
    text::lemma_behind(first, removed, middle + (added + tail));
    text::lemma_regroup(first, removed, middle + (added + tail));
    text::lemma_tail(first, removed + (middle + (added + tail)));
}

proof fn lemma_lost_is_listed(path: Seq<Seq<char>>, other: Seq<Seq<char>>, i: int)
    ensures
        0 <= i < path.len() && !other.contains(path[i]) ==> text::occurs_in(
            path[i],
            list_or_none(only_on(path, other)),
        ),
        (forall|k: int| 0 <= k < path.len() ==> other.contains(#[trigger] path[k]))
            ==> list_or_none(only_on(path, other)) == "(none)"@,
{
    let lost = only_on(path, other);
    if 0 <= i < path.len() && !other.contains(path[i]) {
        lemma_only_on(path, other, path[i]);
        let k = choose|k: int| 0 <= k < lost.len() && lost[k] == path[i];
        text::listed_names_are_shown(lost, k);
    }
    if lost.len() > 0 && (forall|k: int|
        0 <= k < path.len() ==> other.contains(#[trigger] path[k])) {
        lemma_only_on(path, other, lost[0]);
        assert(lost.contains(lost[0]));
        let k = choose|k: int| 0 <= k < path.len() && path[k] == lost[0];
        assert(other.contains(path[k]));
    }
}

/// A comparison gives the number of nodes of each path and by how many they
/// differ, and then, unless both paths are empty, the table and the summary.
pub proof fn comparisons_are_complete(before: Seq<Seq<char>>, after: Seq<Seq<char>>)
    ensures
        ({
            let shown = comparison(before, after);
            let b = text::decimal(before.len());
            let a = text::decimal(after.len());
            let by = length_change(before.len(), after.len());
            let second = 15 + b.len() + 3;
            let third = second + a.len() + 6;
            let rest = shown.skip((third + by.len()) as int);
            &&& "Critical path: "@.is_prefix_of(shown)
            &&& b.is_prefix_of(shown.skip(15))
            &&& " → "@.is_prefix_of(shown.skip(15int + b.len()))
            &&& a.is_prefix_of(shown.skip(second as int))
            &&& " nodes"@.is_prefix_of(shown.skip((second + a.len()) as int))
            &&& by.is_prefix_of(shown.skip(third as int))
            &&& before.len() == 0 && after.len() == 0 ==> rest == "\n  (empty)\n"@
            &&& before.len() > 0 || after.len() > 0 ==> {
                &&& seq!['\n', '\n'].is_prefix_of(rest)
                &&& table(before, after).is_prefix_of(rest.skip(2))
                &&& rest.skip(2).skip(table(before, after).len() as int) == seq!['\n'] + summary(
                    before,
                    after,
                )
            }
        }),
{
    let shown = comparison(before, after);
    let b = text::decimal(before.len());
    let a = text::decimal(after.len());
    let by = length_change(before.len(), after.len());
    let body = if before.len() == 0 && after.len() == 0 {
        "  (empty)\n"@
    } else {
        "\n"@ + table(before, after) + "\n"@ + summary(before, after)
    };
    let first = "Critical path: "@;
    let arrow = " → "@;
    let nodes = " nodes"@;
    let tail = "\n"@ + body;
    assert(first.len() == 15 && arrow.len() == 3 && nodes.len() == 6) by {
        reveal_strlit("Critical path: ");
        reveal_strlit(" → ");
        reveal_strlit(" nodes");
    }
    let a1 = first + b;
    let a2 = a1 + arrow;
    let a3 = a2 + a;
    let a4 = a3 + nodes;
    let a5 = a4 + by;
    assert(shown == a5 + "\n"@ + body);
    text::lemma_regroup(a5, "\n"@, body);
    text::lemma_tail(a5, tail);
    text::lemma_behind(a4, by, tail);
    text::lemma_regroup(a4, by, tail);
    text::lemma_behind(a3, nodes, by + tail);
    text::lemma_regroup(a3, nodes, by + tail);
    text::lemma_behind(a2, a, nodes + (by + tail));
    text::lemma_regroup(a2, a, nodes + (by + tail));
    text::lemma_behind(a1, arrow, a + (nodes + (by + tail)));
    text::lemma_regroup(a1, arrow, a + (nodes + (by + tail)));
    text::lemma_behind(first, b, arrow + (a + (nodes + (by + tail))));
    text::lemma_regroup(first, b, arrow + (a + (nodes + (by + tail))));
    text::lemma_tail(first, b + (arrow + (a + (nodes + (by + tail)))));
    lemma_comparison_tail(table(before, after), summary(before, after));
}

proof fn lemma_comparison_tail(table: Seq<char>, summary: Seq<char>)
    ensures
        "\n"@ + "  (empty)\n"@ == "\n  (empty)\n"@,
        ({
            let rest = "\n"@ + ("\n"@ + table + "\n"@ + summary);
            &&& seq!['\n', '\n'].is_prefix_of(rest)
            &&& table.is_prefix_of(rest.skip(2))
            &&& rest.skip(2).skip(table.len() as int) == seq!['\n'] + summary
        }),
{
    reveal_strlit("\n");
    reveal_strlit("  (empty)\n");
    reveal_strlit("\n  (empty)\n");
    assert("\n"@ + "  (empty)\n"@ =~= "\n  (empty)\n"@);
    let rest = "\n"@ + ("\n"@ + table + "\n"@ + summary);
    assert(rest.skip(2) =~= table + (seq!['\n'] + summary));
    text::lemma_tail(table, seq!['\n'] + summary);
}

/// A list grows by a comma, a space and the name that joins it. A list of one
/// name is that name, and in place of an empty list there is a remark.
pub proof fn lists_grow_name_by_name(names: Seq<Seq<char>>, name: Seq<char>)
    ensures
        list_or_none(Seq::empty()) == "(none)"@,
        list_or_none(seq![name]) == name,
        names.len() > 0 ==> list_or_none(names.push(name)) == list_or_none(names) + seq![
            ',',
            ' ',
        ] + name,
{
    let none = Seq::<Seq<char>>::empty();
    text::lists_join_their_names(none, name);
    text::lists_join_their_names(names, name);
    assert(none.push(name) =~= seq![name]);
}

/// A comparison names every crate that is on exactly one of the two paths: in
/// the list behind `removed:` where that is the first path, and in the list
/// behind `added:` where it is the second.
pub proof fn differences_are_listed(before: Seq<Seq<char>>, after: Seq<Seq<char>>, i: int)
    requires
        before.len() > 0 || after.len() > 0,
    ensures
        ({
            let removed = list_or_none(only_on(before, after));
            let added = list_or_none(only_on(after, before));
            &&& text::occurs_in(
                "\n  removed: "@ + removed + "\n  added:   "@ + added + "\n"@,
                comparison(before, after),
            )
            &&& 0 <= i < before.len() && !after.contains(before[i]) ==> text::occurs_in(
                before[i],
                removed,
            )
            &&& 0 <= i < after.len() && !before.contains(after[i]) ==> text::occurs_in(
                after[i],
                added,
            )
        }),
{
    lemma_lost_is_listed(before, after, i);
    lemma_lost_is_listed(after, before, i);
    let removed = list_or_none(only_on(before, after));
    let added = list_or_none(only_on(after, before));
    let remark = if only_on(before, after).len() == 0 && only_on(after, before).len() == 0 {
        "  same crate set, possibly reordered\n"@
    } else {
        Seq::empty()
    };
    assert("\n"@ + "  removed: "@ == "\n  removed: "@) by {
        reveal_strlit("\n");
        reveal_strlit("  removed: ");
        reveal_strlit("\n  removed: ");
        assert("\n"@ + "  removed: "@ =~= "\n  removed: "@);
    }
    lemma_six_parts("\n"@, "  removed: "@, removed, "\n  added:   "@, added, "\n"@, remark);
    lemma_below_the_table(
        "Critical path: "@ + text::decimal(before.len()) + " → "@ + text::decimal(after.len())
            + " nodes"@ + length_change(before.len(), after.len()) + "\n"@,
        "\n"@ + table(before, after),
        "\n"@,
        summary(before, after),
        "\n  removed: "@ + removed + "\n  added:   "@ + added + "\n"@,
        remark,
    );
}

proof fn lemma_six_parts(
    lead: Seq<char>,
    a: Seq<char>,
    b: Seq<char>,
    c: Seq<char>,
    d: Seq<char>,
    e: Seq<char>,
    f: Seq<char>,
)
    ensures
        lead + (a + b + c + d + e + f) == lead + a + b + c + d + e + f,
{
    text::lemma_regroup(lead, a, b);
    text::lemma_regroup(lead, a + b, c);
    text::lemma_regroup(lead, a + b + c, d);
    text::lemma_regroup(lead, a + b + c + d, e);
    text::lemma_regroup(lead, a + b + c + d + e, f);
}

proof fn lemma_below_the_table(
    head: Seq<char>,
    table: Seq<char>,
    gap: Seq<char>,
    summary: Seq<char>,
    part: Seq<char>,
    rest: Seq<char>,
)
    requires
        gap + summary == part + rest,
    ensures
        text::occurs_in(part, head + (table + gap + summary)),
{
    text::occurs_in_itself(part);
    text::occurs_in_longer(part, part, head + table, rest);
    text::lemma_regroup(head + table, part, rest);
    text::lemma_regroup(table, gap, summary);
    text::lemma_regroup(head, table, gap + summary);
}

/// The length of the longest name.
fn longest_name(names: &[String]) -> (len: usize)
    ensures
        len == longest(texts(names@)),
{
    let ghost all = texts(names@);
    let mut len: usize = 0;
    let mut i: usize = 0;
    while i < names.len()
        invariant
            i <= names.len(),
            all == texts(names@),
            len == longest(all.take(i as int)),
        decreases names.len() - i,
    {
        let n: usize = names[i].as_str().unicode_len();
        if len < n {
            len = n;
        }
        i = i + 1;
        assert(all.take(i as int).drop_last() =~= all.take(i - 1));
    }
    assert(all.take(i as int) =~= all);
    len
}

/// The set of the names.
fn name_set(names: &[String]) -> (set: StringHashSet)
    ensures
        forall|name: Seq<char>| #[trigger] set@.contains(name) <==> texts(names@).contains(name),
{
    let ghost all = texts(names@);
    let mut set = StringHashSet::new();
    let mut i: usize = 0;
    while i < names.len()
        invariant
            i <= names.len(),
            all == texts(names@),
            forall|name: Seq<char>|
                #[trigger] set@.contains(name) <==> all.take(i as int).contains(name),
        decreases names.len() - i,
    {
        set.insert(names[i].clone());
        i = i + 1;
        proof {
            let now = all.take(i as int);
            let prior = all.take(i - 1);
            assert(now =~= prior.push(all[i - 1]));
            assert forall|name: Seq<char>| #[trigger]
                set@.contains(name) <==> now.contains(name) by {
                if name == all[i - 1] {
                    assert(now[i - 1] == name);
                } else if prior.contains(name) {
                    let k = choose|k: int| 0 <= k < prior.len() && prior[k] == name;
                    assert(now[k] == name);
                } else if now.contains(name) {
                    let k = choose|k: int| 0 <= k < now.len() && now[k] == name;
                    assert(prior[k] == name);
                }
            }
        }
    }
    assert(all.take(i as int) =~= all);
    set
}

/// The names of `path` that are not on `other`.
fn names_only_on(path: &[String], other: &[String]) -> (names: Vec<String>)
    ensures
        texts(names@) == only_on(texts(path@), texts(other@)),
{
    let ghost all = texts(path@);
    let ghost absent = |name: Seq<char>| !texts(other@).contains(name);
    let taken = name_set(other);
    let mut names: Vec<String> = Vec::new();
    let mut i: usize = 0;
    assert(texts(names@) =~= all.take(0).filter(absent)) by {
        reveal(Seq::filter);
    }
    while i < path.len()
        invariant
            i <= path.len(),
            all == texts(path@),
            absent == |name: Seq<char>| !texts(other@).contains(name),
            forall|name: Seq<char>| #[trigger]
                taken@.contains(name) <==> texts(other@).contains(name),
            texts(names@) == all.take(i as int).filter(absent),
        decreases path.len() - i,
    {
        if !taken.contains(path[i].as_str()) {
            names.push(path[i].clone());
        }
        i = i + 1;
        proof {
            assert(all.take(i as int) =~= all.take(i - 1).push(all[i - 1]));
            all.take(i - 1).lemma_filter_push(all[i - 1], absent);
            assert(texts(names@) =~= all.take(i as int).filter(absent));
        }
    }
    assert(all.take(i as int) =~= all);
    names
}

/// Appends the names, or the remark that there are none.
fn append_list(out: &mut String, names: &Vec<String>)
    ensures
        final(out)@ == old(out)@ + list_or_none(texts(names@)),
{
    if names.len() == 0 {
        out.append("(none)");
        return ;
    }
    let ghost all = texts(names@);
    let mut i: usize = 0;
    assert(all.take(0) =~= Seq::empty());
    while i < names.len()
        invariant
            i <= names.len(),
            all == texts(names@),
            out@ == old(out)@ + text::comma_list(all.take(i as int)),
        decreases names.len() - i,
    {
        if i > 0 {
            out.append(", ");
        }
        out.append(names[i].as_str());
        i = i + 1;
        proof {
            assert(all.take(i as int).drop_last() =~= all.take(i - 1));
            assert(out@ =~= old(out)@ + text::comma_list(all.take(i as int)));
        }
    }
    assert(all.take(i as int) =~= all);
}

/// Appends the three cells of a line of the table.
fn append_cells(
    out: &mut String,
    index: &str,
    before: &str,
    after: &str,
    index_width: usize,
    width: usize,
)
    ensures
        final(out)@ == old(out)@ + cells(
            index@,
            before@,
            after@,
            index_width as nat,
            width as nat,
        ),
{
    out.append("  ");
    text::append_right_aligned(out, index, index_width);
    out.append("  ");
    text::append_left_aligned(out, before, width);
    out.append("  ");
    text::append_left_aligned(out, after, width);
    assert(out@ =~= old(out)@ + cells(
        index@,
        before@,
        after@,
        index_width as nat,
        width as nat,
    ));
}

/// Appends the titles of the columns and the rule below them.
fn append_titles(out: &mut String, index_width: usize, width: usize)
    ensures
        final(out)@ == old(out)@ + titles(index_width as nat, width as nat),
{
    proof {
        reveal_strlit("─");
    }
    append_cells(out, "#", "before", "after", index_width, width);
    out.append("\n  ");
    text::append_repeated(out, "─", index_width);
    out.append("  ");
    text::append_repeated(out, "─", width);
    out.append("  ");
    text::append_repeated(out, "─", width);
    out.append("\n");
    assert(out@ =~= old(out)@ + titles(index_width as nat, width as nat));
}

/// The node at a position, cut to the width of its column.
fn node_cell(path: &[String], i: usize, width: usize) -> (cell: String)
    ensures
        cell@ == text::truncated(node(texts(path@), i as int), width as nat),
{
    if i < path.len() {
        text::truncate(path[i].as_str(), width)
    } else {
        text::truncate("—", width)
    }
}

/// Appends the row of a position.
fn append_row(
    out: &mut String,
    before: &[String],
    after: &[String],
    i: usize,
    index_width: usize,
    width: usize,
)
    requires
        i < usize::MAX,
    ensures
        final(out)@ == old(out)@ + row(
            texts(before@),
            texts(after@),
            i as int,
            index_width as nat,
            width as nat,
        ),
{
    let index = text::decimal_text(i + 1);
    let left = node_cell(before, i, width);
    let right = node_cell(after, i, width);
    append_cells(out, index.as_str(), left.as_str(), right.as_str(), index_width, width);
    if i < before.len() && i < after.len() && before[i] == after[i] {
        out.append("  ✓ same position");
    }
    out.append("\n");
    assert(out@ =~= old(out)@ + row(
        texts(before@),
        texts(after@),
        i as int,
        index_width as nat,
        width as nat,
    ));
}

/// Appends the table of two paths.
fn append_table(out: &mut String, before: &[String], after: &[String])
    ensures
        final(out)@ == old(out)@ + table(texts(before@), texts(after@)),
{
    let ghost b = texts(before@);
    let ghost a = texts(after@);
    let n: usize = if before.len() < after.len() {
        after.len()
    } else {
        before.len()
    };
    let longest_before: usize = longest_name(before);
    let longest_after: usize = longest_name(after);
    let need: usize = if longest_before < longest_after {
        longest_after
    } else {
        longest_before
    };
    let width: usize = if need < 6 {
        6
    } else if need > 28 {
        28
    } else {
        need
    };
    let digits: usize = text::decimal_text(n).as_str().unicode_len();
    let index_width: usize = if digits < 3 {
        3
    } else {
        digits
    };
    append_titles(out, index_width, width);
    let ghost head = out@;
    let mut i: usize = 0;
    assert(out@ =~= head + rows(b, a, 0, index_width as nat, width as nat));
    while i < n
        invariant
            i <= n,
            b == texts(before@),
            a == texts(after@),
            out@ == head + rows(b, a, i as nat, index_width as nat, width as nat),
        decreases n - i,
    {
        append_row(out, before, after, i, index_width, width);
        i = i + 1;
        assert(out@ =~= head + rows(b, a, i as nat, index_width as nat, width as nat));
    }
    assert(out@ =~= old(out)@ + table(b, a));
}

/// Appends how many nodes more or fewer the second path has.
fn append_length_change(out: &mut String, before: usize, after: usize)
    ensures
        final(out)@ == old(out)@ + length_change(before as nat, after as nat),
{
    if after > before {
        out.append(" (+");
        let count = text::decimal_text(after - before);
        out.append(count.as_str());
        out.append(")");
    } else if after < before {
        out.append(" (-");
        let count = text::decimal_text(before - after);
        out.append(count.as_str());
        out.append(")");
    }
    assert(out@ =~= old(out)@ + length_change(before as nat, after as nat));
}

/// Appends which crates left the path and which came onto it.
fn append_summary(out: &mut String, before: &[String], after: &[String])
    ensures
        final(out)@ == old(out)@ + summary(texts(before@), texts(after@)),
{
    let removed = names_only_on(before, after);
    let added = names_only_on(after, before);
    out.append("  removed: ");
    append_list(out, &removed);
    out.append("\n  added:   ");
    append_list(out, &added);
    out.append("\n");
    assert(removed@.len() == texts(removed@).len());
    assert(added@.len() == texts(added@).len());
    if removed.len() == 0 && added.len() == 0 {
        out.append("  same crate set, possibly reordered\n");
    }
    assert(out@ =~= old(out)@ + summary(texts(before@), texts(after@)));
}

/// Compares two critical paths side by side. The whole of both is shown.
pub fn critical_path_diff(before: &[String], after: &[String]) -> (shown: String)
    ensures
        shown@ == comparison(texts(before@), texts(after@)),
{
    let mut out = "Critical path: ".to_owned();
    let count = text::decimal_text(before.len());
    out.append(count.as_str());
    out.append(" → ");
    let count = text::decimal_text(after.len());
    out.append(count.as_str());
    out.append(" nodes");
    append_length_change(&mut out, before.len(), after.len());
    out.append("\n");
    if before.len() == 0 && after.len() == 0 {
        out.append("  (empty)\n");
    } else {
        out.append("\n");
        append_table(&mut out, before, after);
        out.append("\n");
        append_summary(&mut out, before, after);
    }
    assert(out@ =~= comparison(texts(before@), texts(after@)));
    out
}

} // verus!
