//! The table that lists recorded builds.

use vstd::prelude::*;
use vstd::string::*;

use crate::model;
use crate::model::Build;
use crate::text;

verus! {

/// The line that stands in place of an empty table.
pub open spec fn empty_text() -> Seq<char> {
    "No builds recorded yet.\n"@
}

/// A line of the table: five cells, of which the last is as wide as it needs.
pub open spec fn table_line(
    id: Seq<char>,
    started: Seq<char>,
    profile: Seq<char>,
    duration: Seq<char>,
    status: Seq<char>,
) -> Seq<char> {
    text::pad_right(id, 6) + " "@ + text::pad_right(started, 20) + " "@ + text::pad_right(
        profile,
        8,
    ) + " "@ + text::pad_right(duration, 10) + " "@ + status + "\n"@
}

/// The column titles, and the rule of sixty dashes below them.
pub open spec fn header_text() -> Seq<char> {
    table_line("ID"@, "Started"@, "Profile"@, "Duration"@, "Status"@) + text::repeated('-', 60)
        + "\n"@
}

/// The cell of a build's duration, where its seconds are shown as `secs`.
pub open spec fn duration_cell(secs: Option<Seq<char>>) -> Seq<char> {
    match secs {
        Some(text) => text + "s"@,
        None => "—"@,
    }
}

/// The cell of a build's outcome.
pub open spec fn status_cell(success: Option<bool>) -> Seq<char> {
    match success {
        Some(true) => "ok"@,
        Some(false) => "FAIL"@,
        None => "???"@,
    }
}

/// The line of a build, where its seconds are shown as `secs`.
pub open spec fn row_text(build: Build, secs: Option<Seq<char>>) -> Seq<char> {
    table_line(
        text::signed_decimal(build.id.0 as int),
        text::byte_prefix(build.started_at@, model::TIMESTAMP_BYTES as nat),
        build.profile@,
        duration_cell(secs),
        status_cell(build.success),
    )
}

/// The seconds that a listing shows for a build, to one digit.
pub open spec fn listed_seconds(build: Build) -> Option<Seq<char>> {
    match build.total_duration {
        Some(span) => Some(span.in_seconds(1)),
        None => None,
    }
}

/// The lines of the builds, in the order given.
pub open spec fn rows_text(builds: Seq<Build>) -> Seq<char>
    decreases builds.len(),
{
    if builds.len() == 0 {
        Seq::empty()
    } else {
        rows_text(builds.drop_last()) + row_text(builds.last(), listed_seconds(builds.last()))
    }
}

/// The whole listing.
pub open spec fn listing_text(builds: Seq<Build>) -> Seq<char> {
    if builds.len() == 0 {
        empty_text()
    } else {
        header_text() + rows_text(builds)
    }
}

/// One more build adds its line at the end of a listing and changes nothing
/// above it.
pub proof fn listing_grows_by_a_line(builds: Seq<Build>, build: Build)
    requires
        builds.len() > 0,
    ensures
        listing_text(builds.push(build)) == listing_text(builds) + row_text(
            build,
            listed_seconds(build),
        ),
{
    assert(builds.push(build).drop_last() =~= builds);
    assert(listing_text(builds.push(build)) =~= listing_text(builds) + row_text(
        build,
        listed_seconds(build),
    ));
}

/// Cells that fit their columns put the outcome of every build, like the
/// title of its column, behind the same number of characters.
pub proof fn columns_align(
    id: Seq<char>,
    started: Seq<char>,
    profile: Seq<char>,
    duration: Seq<char>,
    status: Seq<char>,
)
    requires
        id.len() <= 6,
        started.len() <= 20,
        profile.len() <= 8,
        duration.len() <= 10,
    ensures
        table_line(id, started, profile, duration, status).skip(48) == status + "\n"@,
{
    reveal_strlit(" ");
    assert(table_line(id, started, profile, duration, status).skip(48) =~= status + "\n"@);
}

/// A line of the table holds each of its cells whole and in order, each behind
/// the column before it and a space. What a cell leaves of its column is
/// blank.
pub proof fn lines_hold_their_cells(
    id: Seq<char>,
    started: Seq<char>,
    profile: Seq<char>,
    duration: Seq<char>,
    status: Seq<char>,
)
    ensures
        ({
            let line = table_line(id, started, profile, duration, status);
            let second = column_end(0, 6, id.len());
            let third = column_end(second, 20, started.len());
            let fourth = column_end(third, 8, profile.len());
            let fifth = column_end(fourth, 10, duration.len());
            &&& id.is_prefix_of(line)
            &&& started.is_prefix_of(line.skip(second))
            &&& profile.is_prefix_of(line.skip(third))
            &&& duration.is_prefix_of(line.skip(fourth))
            &&& line.skip(fifth) == status + seq!['\n']
            &&& forall|i: int| id.len() <= i < second ==> #[trigger] line[i] == ' '
            &&& forall|i: int| second + started.len() <= i < third ==> #[trigger] line[i] == ' '
            &&& forall|i: int| third + profile.len() <= i < fourth ==> #[trigger] line[i] == ' '
            &&& forall|i: int| fourth + duration.len() <= i < fifth ==> #[trigger] line[i] == ' '
        }),
{
    reveal_strlit(" ");
    reveal_strlit("\n");
    let end = status + "\n"@;
    let a = text::pad_right(id, 6) + " "@;
    let b = text::pad_right(started, 20) + " "@;
    let c = text::pad_right(profile, 8) + " "@;
    let d = text::pad_right(duration, 10) + " "@;
    let none = Seq::<char>::empty();
    let line = table_line(id, started, profile, duration, status);
    assert(line =~= none + a + (b + c + d + end));
    lemma_column(none, id, 6, b + c + d + end);
    assert(line.skip(0) =~= line);
    assert(line =~= a + b + (c + d + end));
    lemma_column(a, started, 20, c + d + end);
    assert(line =~= (a + b) + c + (d + end));
    lemma_column(a + b, profile, 8, d + end);
    assert(line =~= (a + b + c) + d + end);
    lemma_column(a + b + c, duration, 10, end);
    assert(line.skip((a + b + c + d).len() as int) =~= end);
    assert(end =~= status + seq!['\n']);
}

proof fn lemma_column(above: Seq<char>, s: Seq<char>, width: nat, below: Seq<char>)
    ensures
        ({
            let whole = above + (text::pad_right(s, width) + " "@) + below;
            let end = column_end(above.len() as int, width as int, s.len());
            &&& s.is_prefix_of(whole.skip(above.len() as int))
            &&& (above + (text::pad_right(s, width) + " "@)).len() == end
            &&& forall|i: int| above.len() + s.len() <= i < end ==> #[trigger] whole[i] == ' '
        }),
{
    reveal_strlit(" ");
}

/// Where the column after a column of `width` begins that itself begins at
/// `start` and holds `len` characters.
pub open spec fn column_end(start: int, width: int, len: nat) -> int {
    if len > width {
        start + len + 1
    } else {
        start + width + 1
    }
}

/// A row shows the number of its build, the timestamp, the profile, the whole
/// text of the seconds that it is given, or a dash where it is given none, and
/// the outcome.
pub proof fn rows_show_what_they_are_given(build: Build, secs: Option<Seq<char>>)
    ensures
        ({
            let row = row_text(build, secs);
            let id = text::signed_decimal(build.id.0 as int);
            let started = text::byte_prefix(build.started_at@, 19);
            let duration = match secs {
                Some(text) => text.push('s'),
                None => seq!['—'],
            };
            let second = column_end(0, 6, id.len());
            let third = column_end(second, 20, started.len());
            let fourth = column_end(third, 8, build.profile@.len());
            let fifth = column_end(fourth, 10, duration.len());
            &&& id.is_prefix_of(row)
            &&& started.is_prefix_of(row.skip(second))
            &&& build.profile@.is_prefix_of(row.skip(third))
            &&& duration.is_prefix_of(row.skip(fourth))
            &&& forall|i: int| id.len() <= i < second ==> #[trigger] row[i] == ' '
            &&& forall|i: int| second + started.len() <= i < third ==> #[trigger] row[i] == ' '
            &&& forall|i: int|
                third + build.profile@.len() <= i < fourth ==> #[trigger] row[i] == ' '
            &&& forall|i: int| fourth + duration.len() <= i < fifth ==> #[trigger] row[i] == ' '
            &&& row.skip(fifth) == match build.success {
                Some(success) => if success {
                    seq!['o', 'k', '\n']
                } else {
                    seq!['F', 'A', 'I', 'L', '\n']
                },
                None => seq!['?', '?', '?', '\n'],
            }
        }),
{
    reveal_strlit("s");
    reveal_strlit("—");
    reveal_strlit("ok");
    reveal_strlit("FAIL");
    reveal_strlit("???");
    let duration = duration_cell(secs);
    match secs {
        Some(text) => {
            assert(duration =~= text.push('s'));
        },
        None => {
            assert(duration =~= seq!['—']);
        },
    }
    lines_hold_their_cells(
        text::signed_decimal(build.id.0 as int),
        text::byte_prefix(build.started_at@, 19),
        build.profile@,
        duration,
        status_cell(build.success),
    );
    match build.success {
        Some(success) => {
            if success {
                assert("ok"@ + seq!['\n'] =~= seq!['o', 'k', '\n']);
            } else {
                assert("FAIL"@ + seq!['\n'] =~= seq!['F', 'A', 'I', 'L', '\n']);
            }
        },
        None => {
            assert("???"@ + seq!['\n'] =~= seq!['?', '?', '?', '\n']);
        },
    }
}

/// In a listing a build is given the seconds that it took, to one digit, and
/// none where that is not known.
pub proof fn builds_are_listed_with_their_seconds(build: Build)
    ensures
        listed_seconds(build) is Some <==> build.total_duration is Some,
        build.total_duration matches Some(span) ==> listed_seconds(build) == Some(
            model::seconds_text(span.secs(), span.nanos(), 1),
        ),
{
}

/// The titles stand where the cells of a build do that fit their columns, over
/// a rule of sixty dashes.
pub proof fn titles_stand_over_their_columns()
    ensures
        "ID"@.is_prefix_of(header_text()),
        "Started"@.is_prefix_of(header_text().skip(7)),
        "Profile"@.is_prefix_of(header_text().skip(28)),
        "Duration"@.is_prefix_of(header_text().skip(37)),
        "Status\n"@.is_prefix_of(header_text().skip(48)),
        forall|i: int| 55 <= i < 115 ==> #[trigger] header_text()[i] == '-',
        header_text().skip(115) == seq!['\n'],
{
    reveal_strlit("ID");
    reveal_strlit("Started");
    reveal_strlit("Profile");
    reveal_strlit("Duration");
    reveal_strlit("Status");
    reveal_strlit("Status\n");
    reveal_strlit("\n");
    lines_hold_their_cells("ID"@, "Started"@, "Profile"@, "Duration"@, "Status"@);
    let line = table_line("ID"@, "Started"@, "Profile"@, "Duration"@, "Status"@);
    let rule = text::repeated('-', 60);
    let header = header_text();
    assert(line.skip(48).len() == 7);
    assert(line.len() == 55);
    assert(header == line + rule + "\n"@);
    assert(header.skip(0) =~= header);
    assert forall|i: int| 0 <= i < 55 implies header[i] == line[i] by {}
    assert("Started"@ =~= header.skip(7).subrange(0, 7)) by {
        assert forall|k: int| 0 <= k < 7 implies header.skip(7)[k] == "Started"@[k] by {
            assert(line.skip(7)[k] == "Started"@[k]);
        }
    }
    assert("Profile"@ =~= header.skip(28).subrange(0, 7)) by {
        assert forall|k: int| 0 <= k < 7 implies header.skip(28)[k] == "Profile"@[k] by {
            assert(line.skip(28)[k] == "Profile"@[k]);
        }
    }
    assert("Duration"@ =~= header.skip(37).subrange(0, 8)) by {
        assert forall|k: int| 0 <= k < 8 implies header.skip(37)[k] == "Duration"@[k] by {
            assert(line.skip(37)[k] == "Duration"@[k]);
        }
    }
    assert("Status\n"@ =~= header.skip(48).subrange(0, 7)) by {
        assert forall|k: int| 0 <= k < 7 implies header.skip(48)[k] == "Status\n"@[k] by {
            assert(line.skip(48)[k] == ("Status"@ + seq!['\n'])[k]);
        }
    }
    assert(header.skip(115) =~= seq!['\n']);
}

/// Where the cells before it fit their columns, the seconds of a build stand
/// whole at the same place of every row, however long they are.
pub proof fn seconds_stand_in_their_column(build: Build)
    requires
        text::signed_decimal(build.id.0 as int).len() <= 6,
        text::byte_prefix(build.started_at@, 19).len() <= 20,
        build.profile@.len() <= 8,
        build.total_duration is Some,
    ensures
        build.total_duration->0.in_seconds(1).push('s').is_prefix_of(
            row_text(build, listed_seconds(build)).skip(37),
        ),
{
    rows_show_what_they_are_given(build, listed_seconds(build));
}

/// A listing of one build is the header and its row; of none, it is neither.
pub proof fn listing_begins_with_its_header(build: Build)
    ensures
        listing_text(seq![build]) == header_text() + row_text(build, listed_seconds(build)),
        listing_text(Seq::<Build>::empty()) == "No builds recorded yet.\n"@,
{
    assert(seq![build].drop_last() =~= Seq::<Build>::empty());
    assert(rows_text(Seq::<Build>::empty()) =~= Seq::<char>::empty());
    assert(rows_text(seq![build]) =~= row_text(build, listed_seconds(build)));
}

/// Every build has its row in a listing, behind the rows of the builds before
/// it.
pub proof fn every_build_has_its_row(builds: Seq<Build>, i: int)
    requires
        0 <= i < builds.len(),
    ensures
        row_text(builds[i], listed_seconds(builds[i])).is_prefix_of(
            listing_text(builds).skip((header_text() + rows_text(builds.take(i))).len() as int),
        ),
    decreases builds.len(),
{
    let row = row_text(builds[i], listed_seconds(builds[i]));
    let above = header_text() + rows_text(builds.take(i));
    let head = builds.drop_last();
    let last = row_text(builds.last(), listed_seconds(builds.last()));
    if i == builds.len() - 1 {
        assert(builds.take(i) =~= head);
        assert(listing_text(builds) =~= above + row);
        assert(listing_text(builds).skip(above.len() as int) =~= row);
    } else {
        assert(head[i] == builds[i]);
        assert(head.take(i) =~= builds.take(i));
        every_build_has_its_row(head, i);
        assert(listing_text(builds) =~= listing_text(head) + last);
        let tail = listing_text(head).skip(above.len() as int);
        assert(above.len() <= listing_text(head).len()) by {
            lemma_rows_grow(head, i);
        }
        assert(listing_text(builds).skip(above.len() as int) =~= tail + last);
        assert(row =~= (tail + last).subrange(0, row.len() as int));
    }
}

proof fn lemma_rows_grow(builds: Seq<Build>, i: int)
    requires
        0 <= i <= builds.len(),
    ensures
        rows_text(builds.take(i)).len() <= rows_text(builds).len(),
    decreases builds.len(),
{
    if i == builds.len() {
        assert(builds.take(i) =~= builds);
    } else {
        lemma_rows_grow(builds.drop_last(), i);
        assert(builds.drop_last().take(i) =~= builds.take(i));
    }
}

/// Appends a line of the table.
fn append_line(
    out: &mut String,
    id: &str,
    started: &str,
    profile: &str,
    duration: &str,
    status: &str,
)
    ensures
        final(out)@ == old(out)@ + table_line(id@, started@, profile@, duration@, status@),
{
    text::append_left_aligned(out, id, 6);
    out.append(" ");
    text::append_left_aligned(out, started, 20);
    out.append(" ");
    text::append_left_aligned(out, profile, 8);
    out.append(" ");
    text::append_left_aligned(out, duration, 10);
    out.append(" ");
    out.append(status);
    out.append("\n");
    assert(out@ =~= old(out)@ + table_line(id@, started@, profile@, duration@, status@));
}

/// The line of a build in a listing, where its seconds are shown as `secs`.
pub fn listing_row(build: &Build, secs: Option<String>) -> (row: String)
    requires
        build.listable(),
    ensures
        row@ == row_text(
            *build,
            match secs {
                Some(text) => Some(text@),
                None => None,
            },
        ),
{
    let duration = match secs {
        Some(text) => text.concat("s"),
        None => "—".to_owned(),
    };
    let status = match build.success {
        Some(true) => "ok",
        Some(false) => "FAIL",
        None => "???",
    };
    let id = text::signed_decimal_text(build.id.0);
    let started = text::leading_bytes(build.started_at.as_str(), model::TIMESTAMP_BYTES);
    let mut row = String::new();
    append_line(
        &mut row,
        id.as_str(),
        started,
        build.profile.as_str(),
        duration.as_str(),
        status,
    );
    row
}

/// A table of the builds: number, timestamp, profile, duration and outcome.
pub fn render_ls(builds: &[Build]) -> (listing: String)
    requires
        model::all_listable(builds@),
    ensures
        listing@ == listing_text(builds@),
{
    if builds.len() == 0 {
        return "No builds recorded yet.\n".to_owned();
    }
    let mut out = String::new();
    append_line(&mut out, "ID", "Started", "Profile", "Duration", "Status");
    proof {
        reveal_strlit("-");
    }
    text::append_repeated(&mut out, "-", 60);
    out.append("\n");
    assert(out@ =~= header_text() + rows_text(builds@.take(0)));
    let mut i: usize = 0;
    while i < builds.len()
        invariant
            i <= builds.len(),
            model::all_listable(builds@),
            out@ == header_text() + rows_text(builds@.take(i as int)),
        decreases builds.len() - i,
    {
        let build = &builds[i];
        let secs = match build.total_duration {
            Some(span) => Some(span.seconds(1)),
            None => None,
        };
        let row = listing_row(build, secs);
        out.append(row.as_str());
        i = i + 1;
        proof {
            assert(builds@.take(i as int).drop_last() =~= builds@.take(i - 1));
            assert(out@ =~= header_text() + rows_text(builds@.take(i as int)));
        }
    }
    assert(builds@.take(i as int) =~= builds@);
    out
}

} // verus!
