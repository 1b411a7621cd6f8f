//! Recorded builds and what changed between two of them.

use vstd::prelude::*;

use crate::text;

verus! {

/// Nanoseconds in a second.
pub const NANOS_PER_SEC: u32 = 1_000_000_000;

/// How many bytes of a timestamp a listing shows: date and time to the second.
pub const TIMESTAMP_BYTES: usize = 19;

/// The number under which a build is recorded.
#[derive(Copy, Clone, Debug, PartialEq, Eq, Structural)]
pub struct BuildId(pub i64);

/// A span of time: whole seconds and the nanoseconds beyond them.
#[derive(Copy, Clone, Debug, PartialEq, Eq, Structural)]
pub struct Elapsed {
    secs: u64,
    nanos: u32,
}

impl Elapsed {
    /// The nanoseconds make less than a second.
    #[verifier::type_invariant]
    spec fn below_a_second(self) -> bool {
        self.nanos < NANOS_PER_SEC
    }

    /// The whole seconds.
    pub closed spec fn secs(self) -> u64 {
        self.secs
    }

    /// The nanoseconds beyond the whole seconds.
    pub closed spec fn nanos(self) -> u32 {
        self.nanos
    }

    /// `secs` seconds and `nanos` nanoseconds.
    pub fn new(secs: u64, nanos: u32) -> (span: Elapsed)
        requires
            nanos < NANOS_PER_SEC,
        ensures
            span.secs() == secs,
            span.nanos() == nanos,
    {
        Elapsed { secs, nanos }
    }

    /// `millis` milliseconds.
    pub fn from_millis(millis: u64) -> (span: Elapsed)
        ensures
            span.secs() == millis / 1000,
            span.nanos() == (millis % 1000) * 1_000_000,
            span.secs() * 1_000_000_000 + span.nanos() == millis * 1_000_000,
    {
        Elapsed { secs: millis / 1000, nanos: (millis % 1000) as u32 * 1_000_000 }
    }

    /// The span in seconds, as decimal text with `digits` digits behind the
    /// point.
    pub open spec fn in_seconds(self, digits: usize) -> Seq<char> {
        seconds_text(self.secs(), self.nanos(), digits)
    }

    /// The span in seconds, as decimal text with `digits` digits behind the
    /// point.
    pub fn seconds(self, digits: usize) -> (text: String)
        requires
            digits <= u16::MAX,
        ensures
            text@ == self.in_seconds(digits),
    {
        proof {
            use_type_invariant(&self);
        }
        format_seconds(self.secs, self.nanos, digits)
    }
}

/// What `std` shows for `secs` seconds and `nanos` nanoseconds taken as a
/// floating-point number of seconds, with `digits` digits behind the point.
pub uninterp spec fn seconds_text(secs: u64, nanos: u32, digits: usize) -> Seq<char>;

/// Formats a `std::time::Duration`, converted by `as_secs_f64`, with
/// `format!("{:.*}")`. The text is that of the floating-point number nearest
/// to the span, rounded to `digits` digits; the contract names it and claims
/// only that the seconds, the nanoseconds and the digits determine it. A whole
/// second or more of nanoseconds could make `Duration::new` panic, and more
/// than `u16::MAX` digits `format!`: both are left out.
#[verifier::external_body]
fn format_seconds(secs: u64, nanos: u32, digits: usize) -> (text: String)
    requires
        nanos < NANOS_PER_SEC,
        digits <= u16::MAX,
    ensures
        text@ == seconds_text(secs, nanos, digits),
{
    format!("{:.*}", digits, std::time::Duration::new(secs, nanos).as_secs_f64())
}

/// A recorded build.
#[derive(Debug)]
pub struct Build {
    pub id: BuildId,
    /// When the build began, as an ISO 8601 timestamp.
    pub started_at: String,
    pub finished_at: Option<String>,
    pub commit_hash: Option<String>,
    /// The arguments of cargo, as a JSON array.
    pub cargo_args: String,
    pub profile: String,
    /// Whether the build succeeded; `None` while that is not known.
    pub success: Option<bool>,
    /// How long the build took; `None` while that is not known.
    pub total_duration: Option<Elapsed>,
}

impl Build {
    /// The bytes that a listing shows of the timestamp are whole characters.
    pub open spec fn listable(self) -> bool {
        text::splits_cleanly(self.started_at@, TIMESTAMP_BYTES as nat)
    }

    /// Whether a listing can show the build.
    pub fn is_listable(&self) -> (listable: bool)
        ensures
            listable == self.listable(),
    {
        text::can_split(self.started_at.as_str(), TIMESTAMP_BYTES)
    }
}

/// How a duration changed.
///
/// The figures that come of a division are kept as the text that shows them,
/// the delta once to each precision that a report uses.
#[derive(Debug)]
pub struct DurationChange {
    pub before: Elapsed,
    pub after: Elapsed,
    /// `after` less `before`, in milliseconds.
    pub abs_delta_ms: i64,
    /// `abs_delta_ms` in seconds, with its sign, rounded to one digit.
    pub delta_tenths: String,
    /// `abs_delta_ms` in seconds, with its sign, rounded to two digits.
    pub delta_hundredths: String,
    /// The change in percent, with its sign, rounded to one digit.
    pub pct_delta: String,
}

/// What became of a crate between two builds. A crate goes by the label that
/// a report shows.
#[derive(Debug)]
pub enum CrateChange {
    /// Only the later build compiled the crate.
    Added { crate_id: String, duration: Elapsed },
    /// Only the earlier build compiled the crate.
    Removed { crate_id: String, duration: Elapsed },
    /// Compiling the crate took another time.
    Changed { crate_id: String, change: DurationChange },
    /// Compiling the crate took as long as before.
    Unchanged { crate_id: String },
}

/// What changed between two builds.
#[derive(Debug)]
pub struct BuildDiff {
    pub before: BuildId,
    pub after: BuildId,
    pub total_change: DurationChange,
    pub crate_changes: Vec<CrateChange>,
    /// The longest chain of dependencies in the earlier build.
    pub critical_path_before: Vec<String>,
    /// The longest chain of dependencies in the later build.
    pub critical_path_after: Vec<String>,
}

/// Every one of the builds can be listed.
pub open spec fn all_listable(builds: Seq<Build>) -> bool {
    forall|i: int| 0 <= i < builds.len() ==> (#[trigger] builds[i]).listable()
}

/// A span is shown by its own seconds and nanoseconds, to the digits asked for.
pub proof fn spans_show_their_own_seconds(span: Elapsed, digits: usize)
    ensures
        span.in_seconds(digits) == seconds_text(span.secs(), span.nanos(), digits),
{
}

/// Builds can be listed exactly where the first 19 bytes of each of their
/// timestamps are whole characters.
pub proof fn listable_builds(builds: Seq<Build>)
    ensures
        all_listable(builds) <==> forall|i: int|
            0 <= i < builds.len() ==> text::splits_cleanly((#[trigger] builds[i]).started_at@, 19),
{
    if all_listable(builds) {
        assert forall|i: int| 0 <= i < builds.len() implies text::splits_cleanly(
            (#[trigger] builds[i]).started_at@,
            19,
        ) by {
            assert(builds[i].listable());
        }
    }
}

/// Whether a listing can show every one of the builds.
pub fn are_listable(builds: &[Build]) -> (listable: bool)
    ensures
        listable == all_listable(builds@),
{
    let mut i: usize = 0;
    while i < builds.len()
        invariant
            i <= builds.len(),
            forall|j: int| 0 <= j < i ==> (#[trigger] builds@[j]).listable(),
        decreases builds.len() - i,
    {
        if !builds[i].is_listable() {
            return false;
        }
        i = i + 1;
    }
    true
}

/// The profile that a build is made with.
#[derive(Copy, Clone, Debug, PartialEq, Eq, Structural)]
pub enum BuildProfile {
    Dev,
    Release,
}

/// What is known of a build before its output is read.
#[derive(Debug)]
pub struct ParserConfig {
    pub commit_hash: Option<String>,
    pub cargo_args: Vec<String>,
    pub profile: BuildProfile,
}

} // verus!
