//! The report on what changed between two builds.

use vstd::prelude::*;
use vstd::string::*;

use crate::changes;
use crate::model;
use crate::model::{BuildDiff, CrateChange, DurationChange};
use crate::path;
use crate::text;

verus! {

/// A change of a duration, whose seconds are shown as `before`, `after` and
/// `delta`.
pub open spec fn duration_text(
    before: Seq<char>,
    after: Seq<char>,
    delta: Seq<char>,
    pct: Seq<char>,
) -> Seq<char> {
    before + "s → "@ + after + "s ("@ + delta + "s, "@ + pct + "%)"@
}

/// The line of a change of a duration under a label, whose seconds are shown
/// as `before` and `after`. The delta has one digit.
pub open spec fn labelled_text(
    label: Seq<char>,
    before: Seq<char>,
    after: Seq<char>,
    change: DurationChange,
) -> Seq<char> {
    "  "@ + label + ": "@ + duration_text(
        before,
        after,
        change.delta_tenths@,
        change.pct_delta@,
    ) + "\n"@
}

/// The line of an added crate, whose seconds are shown as `secs`.
pub open spec fn added_text(crate_id: Seq<char>, secs: Seq<char>) -> Seq<char> {
    "  + "@ + crate_id + " (new) "@ + secs + "s\n"@
}

/// The line of a removed crate, whose seconds are shown as `secs`.
pub open spec fn removed_text(crate_id: Seq<char>, secs: Seq<char>) -> Seq<char> {
    "  - "@ + crate_id + " (gone) "@ + secs + "s\n"@
}

/// The mark of a crate that got slower, or else faster.
pub open spec fn arrow(change: DurationChange) -> Seq<char> {
    if change.abs_delta_ms > 0 {
        "▲"@
    } else {
        "▼"@
    }
}

/// The line of a changed crate, whose seconds are shown as `before` and
/// `after`. The delta has two digits.
pub open spec fn changed_text(
    crate_id: Seq<char>,
    before: Seq<char>,
    after: Seq<char>,
    change: DurationChange,
) -> Seq<char> {
    "  "@ + arrow(change) + " "@ + crate_id + " "@ + duration_text(
        before,
        after,
        change.delta_hundredths@,
        change.pct_delta@,
    ) + "\n"@
}

/// The line of a change of a crate, with its seconds to two digits. There is
/// none for a crate that did not change.
pub open spec fn change_text(change: CrateChange) -> Seq<char> {
    match change {
        CrateChange::Added { crate_id, duration } => added_text(
            crate_id@,
            duration.in_seconds(2),
        ),
        CrateChange::Removed { crate_id, duration } => removed_text(
            crate_id@,
            duration.in_seconds(2),
        ),
        CrateChange::Changed { crate_id, change } => changed_text(
            crate_id@,
            change.before.in_seconds(2),
            change.after.in_seconds(2),
            change,
        ),
        CrateChange::Unchanged { .. } => Seq::empty(),
    }
}

/// The lines of the changes, in the order given.
pub open spec fn lines(list: Seq<CrateChange>) -> Seq<char>
    decreases list.len(),
{
    if list.len() == 0 {
        Seq::empty()
    } else {
        lines(list.drop_last()) + change_text(list.last())
    }
}

/// The part of a report on single crates.
pub open spec fn crates_text(list: Seq<CrateChange>) -> Seq<char> {
    let shown = changes::shown(list);
    let rest = changes::unchanged(list).len();
    (if shown.len() == 0 {
        "  No crate-level changes.\n"@
    } else {
        lines(shown)
    }) + (if rest > 0 {
        "  … "@ + text::decimal(rest) + " crates unchanged\n"@
    } else {
        Seq::empty()
    })
}

/// The whole report.
pub open spec fn report_text(diff: BuildDiff) -> Seq<char> {
    "Build "@ + text::signed_decimal(diff.before.0 as int) + " → Build "@ + text::signed_decimal(
        diff.after.0 as int,
    ) + "\n"@ + labelled_text(
        "Total"@,
        diff.total_change.before.in_seconds(1),
        diff.total_change.after.in_seconds(1),
        diff.total_change,
    ) + "\n"@ + crates_text(diff.crate_changes@) + "\n"@ + path::comparison(
        path::texts(diff.critical_path_before@),
        path::texts(diff.critical_path_after@),
    )
}

proof fn lemma_lines_add(first: Seq<CrateChange>, second: Seq<CrateChange>)
    ensures
        lines(first + second) == lines(first) + lines(second),
    decreases second.len(),
{
    if second.len() == 0 {
        assert(first + second =~= first);
        assert(lines(first) + lines(second) =~= lines(first));
    } else {
        lemma_lines_add(first, second.drop_last());
        assert((first + second).drop_last() =~= first + second.drop_last());
        assert(lines(first + second) =~= lines(first) + lines(second));
    }
}

/// The sections of a report follow one another: the changed crates from the
/// largest change down, the added ones, the removed ones.
pub proof fn sections_follow_one_another(list: Seq<CrateChange>)
    ensures
        lines(changes::shown(list)) == lines(changes::largest_first(changes::changed(list)))
            + lines(changes::added(list)) + lines(changes::removed(list)),
{
    let first = changes::largest_first(changes::changed(list));
    lemma_lines_add(first, changes::added(list));
    lemma_lines_add(first + changes::added(list), changes::removed(list));
}

/// Of the crates that did not change a report gives their number alone: to
/// leave them out changes nothing but the line of that number.
pub proof fn unchanged_crates_are_only_counted(list: Seq<CrateChange>)
    ensures
        crates_text(list) == crates_text(changes::noteworthy(list)) + (if changes::unchanged(
            list,
        ).len() > 0 {
            "  … "@ + text::decimal(changes::unchanged(list).len()) + " crates unchanged\n"@
        } else {
            Seq::empty()
        }),
{
    changes::unchanged_crates_are_not_shown(list);
    changes::every_noteworthy_change_is_shown(list);
    changes::every_noteworthy_change_is_shown(changes::noteworthy(list));
    changes::noteworthy_changes_have_no_unchanged(list);
    assert(crates_text(list) =~= crates_text(changes::noteworthy(list)) + (if changes::unchanged(
        list,
    ).len() > 0 {
        "  … "@ + text::decimal(changes::unchanged(list).len()) + " crates unchanged\n"@
    } else {
        Seq::empty()
    }));
}

/// Every crate that was added, removed or changed has its line in the report.
pub proof fn every_change_has_its_line(diff: BuildDiff, i: int)
    requires
        0 <= i < diff.crate_changes@.len(),
        !(diff.crate_changes@[i] is Unchanged),
    ensures
        text::occurs_in(change_text(diff.crate_changes@[i]), report_text(diff)),
{
    let list = diff.crate_changes@;
    let change = list[i];
    let shown = changes::shown(list);
    let part = change_text(change);
    changes::noteworthy_change_is_shown(list, i);
    let k = choose|k: int| 0 <= k < shown.len() && shown[k] == change;
    lemma_line_in_lines(shown, k);
    let above = "Build "@ + text::signed_decimal(diff.before.0 as int) + " → Build "@
        + text::signed_decimal(diff.after.0 as int) + "\n"@ + labelled_text(
        "Total"@,
        diff.total_change.before.in_seconds(1),
        diff.total_change.after.in_seconds(1),
        diff.total_change,
    ) + "\n"@;
    let rest = changes::unchanged(list).len();
    let count = if rest > 0 {
        "  … "@ + text::decimal(rest) + " crates unchanged\n"@
    } else {
        Seq::empty()
    };
    let below = count + "\n"@ + path::comparison(
        path::texts(diff.critical_path_before@),
        path::texts(diff.critical_path_after@),
    );
    text::occurs_in_longer(part, lines(shown), above, below);
    assert(report_text(diff) =~= above + lines(shown) + below);
}

proof fn lemma_line_in_lines(list: Seq<CrateChange>, i: int)
    requires
        0 <= i < list.len(),
    ensures
        text::occurs_in(change_text(list[i]), lines(list)),
    decreases list.len(),
{
    let part = change_text(list[i]);
    let earlier = lines(list.drop_last());
    let last = change_text(list.last());
    let none = Seq::<char>::empty();
    if i < list.len() - 1 {
        assert(list.drop_last()[i] == list[i]);
        lemma_line_in_lines(list.drop_last(), i);
        text::occurs_in_longer(part, earlier, none, last);
        assert(none + earlier + last =~= earlier + last);
    } else {
        text::occurs_in_itself(part);
        text::occurs_in_longer(part, last, earlier, none);
        assert(earlier + last + none =~= earlier + last);
    }
}

/// A change of a duration shows its figures whole and in order: the seconds
/// before and after, and in brackets the delta and the percentage.
pub proof fn durations_show_their_figures(
    before: Seq<char>,
    after: Seq<char>,
    delta: Seq<char>,
    pct: Seq<char>,
)
    ensures
        ({
            let shown = duration_text(before, after, delta, pct);
            let second = before.len() + 4int;
            let third = second + after.len() + 3;
            let fourth = third + delta.len() + 3;
            &&& before.is_prefix_of(shown)
            &&& seq!['s', ' ', '→', ' '].is_prefix_of(shown.skip(before.len() as int))
            &&& after.is_prefix_of(shown.skip(second))
            &&& seq!['s', ' ', '('].is_prefix_of(shown.skip(second + after.len()))
            &&& delta.is_prefix_of(shown.skip(third))
            &&& seq!['s', ',', ' '].is_prefix_of(shown.skip(third + delta.len()))
            &&& pct.is_prefix_of(shown.skip(fourth))
            &&& shown.skip(fourth + pct.len()) == seq!['%', ')']
        }),
{
    let one = seq!['s', ' ', '→', ' '];
    let two = seq!['s', ' ', '('];
    let three = seq!['s', ',', ' '];
    let four = seq!['%', ')'];
    assert("s → "@ == one) by {
        reveal_strlit("s → ");
        assert("s → "@ =~= one);
    }
    assert("s ("@ == two) by {
        reveal_strlit("s (");
        assert("s ("@ =~= two);
    }
    assert("s, "@ == three) by {
        reveal_strlit("s, ");
        assert("s, "@ =~= three);
    }
    assert("%)"@ == four) by {
        reveal_strlit("%)");
        assert("%)"@ =~= four);
    }
    lemma_eight_parts(before, one, after, two, delta, three, pct, four);
}

proof fn lemma_eight_parts(
    a: Seq<char>,
    b: Seq<char>,
    c: Seq<char>,
    d: Seq<char>,
    e: Seq<char>,
    f: Seq<char>,
    g: Seq<char>,
    h: Seq<char>,
)
    ensures
        ({
            let whole = a + b + c + d + e + f + g + h;
            let c_at = a.len() + b.len();
            let e_at = c_at + c.len() + d.len();
            let g_at = e_at + e.len() + f.len();
            &&& a.is_prefix_of(whole)
            &&& b.is_prefix_of(whole.skip(a.len() as int))
            &&& c.is_prefix_of(whole.skip(c_at as int))
            &&& d.is_prefix_of(whole.skip((c_at + c.len()) as int))
            &&& e.is_prefix_of(whole.skip(e_at as int))
            &&& f.is_prefix_of(whole.skip((e_at + e.len()) as int))
            &&& g.is_prefix_of(whole.skip(g_at as int))
            &&& whole.skip((g_at + g.len()) as int) == h
        }),
{
    let ab = a + b;
    let abc = ab + c;
    let abcd = abc + d;
    let abcde = abcd + e;
    let abcdef = abcde + f;
    let gh = g + h;
    let fgh = f + gh;
    let efgh = e + fgh;
    let defgh = d + efgh;
    let cdefgh = c + defgh;
    text::lemma_tail(abcdef + g, h);
    text::lemma_behind(abcdef, g, h);
    text::lemma_regroup(abcdef, g, h);
    text::lemma_behind(abcde, f, gh);
    text::lemma_regroup(abcde, f, gh);
    text::lemma_behind(abcd, e, fgh);
    text::lemma_regroup(abcd, e, fgh);
    text::lemma_behind(abc, d, efgh);
    text::lemma_regroup(abc, d, efgh);
    text::lemma_behind(ab, c, defgh);
    text::lemma_regroup(ab, c, defgh);
    text::lemma_behind(a, b, cdefgh);
    text::lemma_regroup(a, b, cdefgh);
    text::lemma_tail(a, b + cdefgh);
}

/// The line under a label shows the label, the seconds, and the delta to one
/// digit.
pub proof fn labelled_lines_show_tenths(
    label: Seq<char>,
    before: Seq<char>,
    after: Seq<char>,
    change: DurationChange,
)
    ensures
        ({
            let line = labelled_text(label, before, after, change);
            &&& seq![' ', ' '].is_prefix_of(line)
            &&& label.is_prefix_of(line.skip(2))
            &&& seq![':', ' '].is_prefix_of(line.skip(2int + label.len()))
            &&& line.skip(4int + label.len()) == duration_text(
                before,
                after,
                change.delta_tenths@,
                change.pct_delta@,
            ).push('\n')
        }),
{
    reveal_strlit("  ");
    reveal_strlit(": ");
    reveal_strlit("\n");
    let line = labelled_text(label, before, after, change);
    let figures = duration_text(before, after, change.delta_tenths@, change.pct_delta@);
    assert(line =~= "  "@ + label + (": "@ + figures + "\n"@));
    text::lemma_behind("  "@, label, ": "@ + figures + "\n"@);
    assert(line =~= ("  "@ + label) + ": "@ + (figures + "\n"@));
    text::lemma_behind("  "@ + label, ": "@, figures + "\n"@);
    assert(seq![':', ' '] =~= ": "@);
    assert(line.skip(4int + label.len()) =~= figures.push('\n'));
}

/// The line of an added crate shows its label and the seconds that it is given.
pub proof fn added_lines_show_their_seconds(label: Seq<char>, secs: Seq<char>)
    ensures
        ({
            let line = added_text(label, secs);
            &&& seq![' ', ' ', '+', ' '].is_prefix_of(line)
            &&& label.is_prefix_of(line.skip(4))
            &&& line.skip(4int + label.len()) == seq![' ', '(', 'n', 'e', 'w', ')', ' '] + secs
                + seq!['s', '\n']
        }),
{
    reveal_strlit("  + ");
    reveal_strlit(" (new) ");
    reveal_strlit("s\n");
    let line = added_text(label, secs);
    assert(seq![' ', '(', 'n', 'e', 'w', ')', ' '] =~= " (new) "@);
    assert(line =~= "  + "@ + label + (" (new) "@ + secs + "s\n"@));
    text::lemma_behind("  + "@, label, " (new) "@ + secs + "s\n"@);
    assert(line.skip(4int + label.len()) =~= " (new) "@ + secs + seq!['s', '\n']);
}

/// The line of a removed crate shows its label and the seconds that it is
/// given.
pub proof fn removed_lines_show_their_seconds(label: Seq<char>, secs: Seq<char>)
    ensures
        ({
            let line = removed_text(label, secs);
            &&& seq![' ', ' ', '-', ' '].is_prefix_of(line)
            &&& label.is_prefix_of(line.skip(4))
            &&& line.skip(4int + label.len()) == seq![' ', '(', 'g', 'o', 'n', 'e', ')', ' ']
                + secs + seq!['s', '\n']
        }),
{
    reveal_strlit("  - ");
    reveal_strlit(" (gone) ");
    reveal_strlit("s\n");
    let line = removed_text(label, secs);
    assert(seq![' ', '(', 'g', 'o', 'n', 'e', ')', ' '] =~= " (gone) "@);
    assert(line =~= "  - "@ + label + (" (gone) "@ + secs + "s\n"@));
    text::lemma_behind("  - "@, label, " (gone) "@ + secs + "s\n"@);
    assert(line.skip(4int + label.len()) =~= " (gone) "@ + secs + seq!['s', '\n']);
}

/// The line of a changed crate points up exactly where the crate got slower,
/// and shows its label, the seconds that it is given and its delta to two
/// digits.
pub proof fn changed_lines_show_hundredths(
    label: Seq<char>,
    before: Seq<char>,
    after: Seq<char>,
    by: DurationChange,
)
    ensures
        ({
            let line = changed_text(label, before, after, by);
            &&& line.len() > 4
            &&& line[0] == ' ' && line[1] == ' ' && line[3] == ' '
            &&& line[2] == '▲' <==> by.abs_delta_ms > 0
            &&& line[2] == '▼' <==> by.abs_delta_ms <= 0
            &&& label.is_prefix_of(line.skip(4))
            &&& line[4int + label.len()] == ' '
            &&& line.skip(5int + label.len()) == duration_text(
                before,
                after,
                by.delta_hundredths@,
                by.pct_delta@,
            ).push('\n')
        }),
{
    reveal_strlit("  ");
    reveal_strlit(" ");
    reveal_strlit("\n");
    reveal_strlit("▲");
    reveal_strlit("▼");
    let line = changed_text(label, before, after, by);
    let figures = duration_text(before, after, by.delta_hundredths@, by.pct_delta@);
    let head = "  "@ + arrow(by) + " "@;
    assert(head.len() == 4);
    assert(line =~= head + label + (" "@ + figures + "\n"@));
    text::lemma_behind(head, label, " "@ + figures + "\n"@);
    assert(line.skip(5int + label.len()) =~= figures.push('\n'));
}

/// A crate has the line of what became of it, under its own label and with its
/// own seconds to two digits. A crate that did not change has none.
pub proof fn crates_have_the_line_of_their_kind(change: CrateChange)
    ensures
        match change {
            CrateChange::Added { crate_id, duration } => change_text(change) == added_text(
                crate_id@,
                model::seconds_text(duration.secs(), duration.nanos(), 2),
            ),
            CrateChange::Removed { crate_id, duration } => change_text(change) == removed_text(
                crate_id@,
                model::seconds_text(duration.secs(), duration.nanos(), 2),
            ),
            CrateChange::Changed { crate_id, change: by } => change_text(change) == changed_text(
                crate_id@,
                model::seconds_text(by.before.secs(), by.before.nanos(), 2),
                model::seconds_text(by.after.secs(), by.after.nanos(), 2),
                by,
            ),
            CrateChange::Unchanged { .. } => change_text(change).len() == 0,
        },
{
}

/// Each further change adds its line below the others.
pub proof fn lines_stack(list: Seq<CrateChange>, change: CrateChange)
    ensures
        lines(Seq::<CrateChange>::empty()).len() == 0,
        lines(list.push(change)) == lines(list) + change_text(change),
{
    assert(list.push(change).drop_last() =~= list);
}

/// The lines of a report stand in the order shown: each right behind the lines
/// of those that are shown before it.
pub proof fn lines_stand_in_order(list: Seq<CrateChange>, i: int)
    requires
        0 <= i < changes::shown(list).len(),
    ensures
        change_text(changes::shown(list)[i]).is_prefix_of(
            crates_text(list).skip(lines(changes::shown(list).take(i)).len() as int),
        ),
{
    let shown = changes::shown(list);
    let above = lines(shown.take(i));
    let part = change_text(shown[i]);
    let below = lines(shown.skip(i + 1));
    assert(shown.take(i + 1) =~= shown.take(i).push(shown[i]));
    assert(shown =~= shown.take(i + 1) + shown.skip(i + 1));
    lines_stack(shown.take(i), shown[i]);
    lemma_lines_add(shown.take(i + 1), shown.skip(i + 1));
    let rest = changes::unchanged(list).len();
    let count = if rest > 0 {
        "  … "@ + text::decimal(rest) + " crates unchanged\n"@
    } else {
        Seq::empty()
    };
    assert(crates_text(list) =~= above + part + (below + count));
    text::lemma_behind(above, part, below + count);
}

/// The part of a report on single crates has the lines of all that are shown,
/// or says that there are none, and then, where some crates did not change,
/// how many they are.
pub proof fn crates_are_shown_and_counted(list: Seq<CrateChange>)
    ensures
        ({
            let part = crates_text(list);
            let count = list.filter(|c: CrateChange| c is Unchanged).len();
            let head = if changes::shown(list).len() == 0 {
                "  No crate-level changes.\n"@
            } else {
                lines(changes::shown(list))
            };
            &&& head.is_prefix_of(part)
            &&& count == 0 ==> part == head
            &&& count > 0 ==> part.skip(head.len() as int) == seq![' ', ' ', '…', ' ']
                + text::decimal(count) + " crates unchanged\n"@
        }),
{
    reveal_strlit("  … ");
    assert("  … "@ =~= seq![' ', ' ', '…', ' ']);
    let count = changes::unchanged(list).len();
    let head = if changes::shown(list).len() == 0 {
        "  No crate-level changes.\n"@
    } else {
        lines(changes::shown(list))
    };
    if count > 0 {
        let tail = "  … "@ + text::decimal(count) + " crates unchanged\n"@;
        assert(crates_text(list) =~= head + tail);
        assert(crates_text(list).skip(head.len() as int) =~= tail);
    } else {
        assert(crates_text(list) =~= head);
    }
}

/// A report names the two builds, and then has the change of the total
/// duration, the crates, and the two critical paths, each whole and in this
/// order.
pub proof fn reports_are_complete(diff: BuildDiff)
    ensures
        ({
            let report = report_text(diff);
            let before = text::signed_decimal(diff.before.0 as int);
            let after = text::signed_decimal(diff.after.0 as int);
            let total = labelled_text(
                seq!['T', 'o', 't', 'a', 'l'],
                model::seconds_text(diff.total_change.before.secs(), diff.total_change.before.nanos(), 1),
                model::seconds_text(diff.total_change.after.secs(), diff.total_change.after.nanos(), 1),
                diff.total_change,
            );
            let crates = crates_text(diff.crate_changes@);
            let paths = path::comparison(
                path::texts(diff.critical_path_before@),
                path::texts(diff.critical_path_after@),
            );
            let second = 6int + before.len() + 9;
            let third = second + after.len() + 1;
            let fourth = third + total.len() + 1;
            &&& "Build "@.is_prefix_of(report)
            &&& before.is_prefix_of(report.skip(6))
            &&& " → Build "@.is_prefix_of(report.skip(6int + before.len()))
            &&& after.is_prefix_of(report.skip(second))
            &&& seq!['\n'].is_prefix_of(report.skip(second + after.len()))
            &&& total.is_prefix_of(report.skip(third))
            &&& seq!['\n'].is_prefix_of(report.skip(third + total.len()))
            &&& crates.is_prefix_of(report.skip(fourth))
            &&& seq!['\n'].is_prefix_of(report.skip(fourth + crates.len()))
            &&& report.skip(fourth + crates.len() + 1) == paths
        }),
{
    let end = seq!['\n'];
    assert("\n"@ == end) by {
        reveal_strlit("\n");
        assert("\n"@ =~= end);
    }
    assert("Total"@ == seq!['T', 'o', 't', 'a', 'l']) by {
        reveal_strlit("Total");
        assert("Total"@ =~= seq!['T', 'o', 't', 'a', 'l']);
    }
    reveal_strlit("Build ");
    reveal_strlit(" → Build ");
    let report = report_text(diff);
    let before = text::signed_decimal(diff.before.0 as int);
    let after = text::signed_decimal(diff.after.0 as int);
    let total = labelled_text(
        "Total"@,
        model::seconds_text(diff.total_change.before.secs(), diff.total_change.before.nanos(), 1),
        model::seconds_text(diff.total_change.after.secs(), diff.total_change.after.nanos(), 1),
        diff.total_change,
    );
    let crates = crates_text(diff.crate_changes@);
    let paths = path::comparison(
        path::texts(diff.critical_path_before@),
        path::texts(diff.critical_path_after@),
    );
    let naming = "Build "@ + before + " → Build "@ + after + end;
    assert(report == naming + total + end + crates + end + paths);
    // The parts below the names of the builds.
    let a1 = naming + total;
    let a2 = a1 + end;
    let a3 = a2 + crates;
    let a4 = a3 + end;
    text::lemma_tail(a4, paths);
    text::lemma_behind(a3, end, paths);
    text::lemma_regroup(a3, end, paths);
    text::lemma_behind(a2, crates, end + paths);
    text::lemma_regroup(a2, crates, end + paths);
    text::lemma_behind(a1, end, crates + (end + paths));
    text::lemma_regroup(a1, end, crates + (end + paths));
    let rest = end + (crates + (end + paths));
    text::lemma_behind(naming, total, rest);
    text::lemma_regroup(naming, total, rest);
    // The names of the builds.
    let below = total + rest;
    let b1 = "Build "@ + before;
    let b2 = b1 + " → Build "@;
    let b3 = b2 + after;
    text::lemma_behind(b3, end, below);
    text::lemma_regroup(b3, end, below);
    text::lemma_behind(b2, after, end + below);
    text::lemma_regroup(b2, after, end + below);
    text::lemma_behind(b1, " → Build "@, after + (end + below));
    text::lemma_regroup(b1, " → Build "@, after + (end + below));
    text::lemma_behind("Build "@, before, " → Build "@ + (after + (end + below)));
    text::lemma_regroup("Build "@, before, " → Build "@ + (after + (end + below)));
    text::lemma_tail("Build "@, before + (" → Build "@ + (after + (end + below))));
}

/// Appends a change of a duration.
fn append_duration(out: &mut String, before: &str, after: &str, delta: &str, pct: &str)
    ensures
        final(out)@ == old(out)@ + duration_text(before@, after@, delta@, pct@),
{
    out.append(before);
    out.append("s → ");
    out.append(after);
    out.append("s (");
    out.append(delta);
    out.append("s, ");
    out.append(pct);
    out.append("%)");
    assert(out@ =~= old(out)@ + duration_text(before@, after@, delta@, pct@));
}

/// The line of a change of a duration under a label, whose seconds are shown
/// as `before` and `after`. The delta has one digit.
pub fn duration_line(label: &str, before: &str, after: &str, change: &DurationChange) -> (line:
    String)
    ensures
        line@ == labelled_text(label@, before@, after@, *change),
{
    let mut line = "  ".to_owned();
    line.append(label);
    line.append(": ");
    append_duration(
        &mut line,
        before,
        after,
        change.delta_tenths.as_str(),
        change.pct_delta.as_str(),
    );
    line.append("\n");
    line
}

/// The line of a change of a duration under a label, with its seconds to one
/// digit.
pub fn render_duration_change(label: &str, change: &DurationChange) -> (line: String)
    ensures
        line@ == labelled_text(
            label@,
            change.before.in_seconds(1),
            change.after.in_seconds(1),
            *change,
        ),
{
    let before = change.before.seconds(1);
    let after = change.after.seconds(1);
    duration_line(label, before.as_str(), after.as_str(), change)
}

/// The line of an added crate, whose seconds are shown as `secs`.
pub fn added_line(crate_id: &str, secs: &str) -> (line: String)
    ensures
        line@ == added_text(crate_id@, secs@),
{
    let mut line = "  + ".to_owned();
    line.append(crate_id);
    line.append(" (new) ");
    line.append(secs);
    line.append("s\n");
    line
}

/// The line of a removed crate, whose seconds are shown as `secs`.
pub fn removed_line(crate_id: &str, secs: &str) -> (line: String)
    ensures
        line@ == removed_text(crate_id@, secs@),
{
    let mut line = "  - ".to_owned();
    line.append(crate_id);
    line.append(" (gone) ");
    line.append(secs);
    line.append("s\n");
    line
}

/// The line of a changed crate, whose seconds are shown as `before` and
/// `after`. The delta has two digits.
pub fn changed_line(crate_id: &str, before: &str, after: &str, change: &DurationChange) -> (line:
    String)
    ensures
        line@ == changed_text(crate_id@, before@, after@, *change),
{
    let mut line = "  ".to_owned();
    line.append(
        if change.abs_delta_ms > 0 {
            "▲"
        } else {
            "▼"
        },
    );
    line.append(" ");
    line.append(crate_id);
    line.append(" ");
    append_duration(
        &mut line,
        before,
        after,
        change.delta_hundredths.as_str(),
        change.pct_delta.as_str(),
    );
    line.append("\n");
    line
}

/// The line of a change of a crate, empty for one that did not change.
fn change_line(change: &CrateChange) -> (line: String)
    ensures
        line@ == change_text(*change),
{
    match change {
        CrateChange::Added { crate_id, duration } => {
            let secs = duration.seconds(2);
            added_line(crate_id.as_str(), secs.as_str())
        },
        CrateChange::Removed { crate_id, duration } => {
            let secs = duration.seconds(2);
            removed_line(crate_id.as_str(), secs.as_str())
        },
        CrateChange::Changed { crate_id, change } => {
            let before = change.before.seconds(2);
            let after = change.after.seconds(2);
            changed_line(crate_id.as_str(), before.as_str(), after.as_str(), change)
        },
        CrateChange::Unchanged { .. } => String::new(),
    }
}

/// Appends the lines of the changes.
fn append_lines(out: &mut String, list: &Vec<&CrateChange>)
    ensures
        final(out)@ == old(out)@ + lines(changes::referents(list@)),
{
    let ghost all = changes::referents(list@);
    let mut i: usize = 0;
    assert(out@ =~= old(out)@ + lines(all.take(0)));
    while i < list.len()
        invariant
            i <= list.len(),
            all == changes::referents(list@),
            out@ == old(out)@ + lines(all.take(i as int)),
        decreases list.len() - i,
    {
        let line = change_line(list[i]);
        out.append(line.as_str());
        i = i + 1;
        proof {
            assert(all.take(i as int).drop_last() =~= all.take(i - 1));
            assert(out@ =~= old(out)@ + lines(all.take(i as int)));
        }
    }
    assert(all.take(i as int) =~= all);
}

/// Appends the part of a report on single crates.
fn append_crates(out: &mut String, list: &[CrateChange])
    ensures
        final(out)@ == old(out)@ + crates_text(list@),
{
    let found = changes::sections(list);
    assert(found.changed@.len() == changes::referents(found.changed@).len());
    assert(found.added@.len() == changes::referents(found.added@).len());
    assert(found.removed@.len() == changes::referents(found.removed@).len());
    if found.changed.len() == 0 && found.added.len() == 0 && found.removed.len() == 0 {
        out.append("  No crate-level changes.\n");
    } else {
        append_lines(out, &found.changed);
        append_lines(out, &found.added);
        append_lines(out, &found.removed);
        proof {
            sections_follow_one_another(list@);
        }
    }
    if found.unchanged > 0 {
        out.append("  … ");
        let count = text::decimal_text(found.unchanged);
        out.append(count.as_str());
        out.append(" crates unchanged\n");
    }
    assert(out@ =~= old(out)@ + crates_text(list@));
}

/// A report on what changed between two builds: the total duration, the
/// crates, and the critical paths.
pub fn render_diff(diff: &BuildDiff) -> (report: String)
    ensures
        report@ == report_text(*diff),
{
    let mut out = "Build ".to_owned();
    let id = text::signed_decimal_text(diff.before.0);
    out.append(id.as_str());
    out.append(" → Build ");
    let id = text::signed_decimal_text(diff.after.0);
    out.append(id.as_str());
    out.append("\n");
    let total = render_duration_change("Total", &diff.total_change);
    out.append(total.as_str());
    out.append("\n");
    append_crates(&mut out, diff.crate_changes.as_slice());
    out.append("\n");
    let paths = path::critical_path_diff(
        diff.critical_path_before.as_slice(),
        diff.critical_path_after.as_slice(),
    );
    out.append(paths.as_str());
    assert(out@ =~= report_text(*diff));
    out
}

} // verus!
