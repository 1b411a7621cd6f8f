//! The course of a command, step by step.
//!
//! A session decides what comes next; what it asks for is done elsewhere. Each
//! [`Action`] is answered with an [`Event`], and [`next`] turns the two into
//! the next action, until there is nothing left to do.

use vstd::prelude::*;
use vstd::string::*;

use crate::cli::{Command, Format, Shell};
use crate::git;
use crate::git::GitReply;
use crate::listing;
use crate::model;
use crate::model::{Build, BuildDiff, BuildId, BuildProfile, ParserConfig};
use crate::report;
use crate::text;

verus! {

/// The directory of the database, within the project root.
pub const DB_DIR: &'static str = ".cargo-chronoscope";

/// The file of the database.
pub const DB_FILE: &'static str = "history.db";

/// How many events each reader of a watched build may lag behind.
pub const EVENT_CAPACITY: usize = 1024;

/// A build to be run.
#[derive(Debug)]
pub struct BuildRun {
    /// Arguments forwarded to `cargo build`.
    pub cargo_args: Vec<String>,
    /// Whether a dashboard shows the build.
    pub watched: bool,
}

/// A question to the database.
#[derive(Debug)]
pub enum Query {
    /// The most recent builds.
    Ls { last: usize, format: Format },
    /// What changed between two builds.
    Diff { before: BuildId, after: BuildId, format: Format },
}

/// How far a command has come: what it waits for, and what it still needs.
#[derive(Debug)]
pub enum Session {
    /// The directory of the database is being made, for a build.
    PreparingBuild(BuildRun),
    /// The directory of the database is being made, for a question.
    PreparingQuery(Query),
    /// Git is being asked for the commit.
    AskingGit(BuildRun),
    /// The database is being opened, for a build.
    OpeningForBuild { config: ParserConfig, watched: bool },
    /// The database is being opened, for a question.
    OpeningForQuery(Query),
    /// Cargo is being started.
    Spawning { config: ParserConfig, watched: bool },
    /// The reader of cargo's output is being set up.
    Parsing { watched: bool },
    /// The build is running and being recorded.
    Recording,
    /// The record of an interrupted build is being deleted.
    Discarding,
    /// The builds are being looked up.
    Listing(Format),
    /// The two builds are being compared.
    Comparing(Format),
    /// The last output is under way.
    Finishing,
    /// Nothing is left to do.
    Over,
}

/// What is to be done next.
#[derive(Debug)]
pub enum Action {
    /// Write the completion script of a shell to the standard output.
    WriteCompletions(Shell),
    /// Make the directory of the database.
    PrepareStore,
    /// Ask git for the commit.
    AskGit,
    /// Open the database.
    OpenStore,
    /// Start cargo, to be killed on cancellation.
    SpawnBuild(Vec<String>),
    /// Read events from cargo's output.
    Parse(ParserConfig),
    /// Record the events.
    Record,
    /// Record the events and show them on a dashboard, each from a queue of
    /// this capacity.
    RecordAndWatch(usize),
    /// Delete the record of a build.
    Delete(BuildId),
    /// Look up this many of the most recent builds.
    List(usize),
    /// Compare two builds.
    Compare(BuildId, BuildId),
    /// Write to the standard output.
    Print(String),
    /// Write to the standard error.
    Warn(String),
    /// Write the builds to the standard output as JSON.
    PrintBuildsJson(Vec<Build>),
    /// Write the diff to the standard output as JSON.
    PrintDiffJson(BuildDiff),
    /// End with success.
    Exit,
    /// End with the failure that was reported.
    Fail,
}

/// What became of an action.
#[derive(Debug)]
pub enum Event {
    /// It was done.
    Done,
    /// Git replied, or could not be run.
    GitReply(Option<GitReply>),
    /// The build was recorded. It may have been cancelled meanwhile.
    Recorded { build: BuildId, cancelled: bool },
    /// The builds were looked up.
    Listed(Vec<Build>),
    /// The builds were compared.
    Compared(BuildDiff),
    /// It failed.
    Failed,
}

/// One of the arguments asks for an optimised build.
pub open spec fn asks_for_release(cargo_args: Seq<String>) -> bool {
    exists|i: int| 0 <= i < cargo_args.len() && (#[trigger] cargo_args[i])@ == "--release"@
}

/// The profile that cargo builds with under the arguments.
pub open spec fn profile_of(cargo_args: Seq<String>) -> BuildProfile {
    if asks_for_release(cargo_args) {
        BuildProfile::Release
    } else {
        BuildProfile::Dev
    }
}

/// The line that announces a recorded build.
pub open spec fn recorded_text(build: BuildId) -> Seq<char> {
    "Build "@ + text::signed_decimal(build.0 as int) + " recorded.\n"@
}

/// The line that says that an interrupted build left no record.
pub open spec fn interrupted_text() -> Seq<char> {
    "Build interrupted — not recorded.\n"@
}

/// The session can go on from the event.
pub open spec fn awaits(session: Session, event: Event) -> bool {
    match (session, event) {
        (Session::Over, _) => false,
        (Session::AskingGit(_), Event::GitReply(_)) => true,
        (Session::AskingGit(_), _) => false,
        (_, Event::Failed) => true,
        (Session::Recording, Event::Recorded { .. }) => true,
        (Session::Recording, _) => false,
        (Session::Listing(format), Event::Listed(builds)) => format == Format::Json
            || model::all_listable(builds@),
        (Session::Listing(_), _) => false,
        (Session::Comparing(_), Event::Compared(_)) => true,
        (Session::Comparing(_), _) => false,
        (_, Event::Done) => true,
        (_, _) => false,
    }
}

/// How a command begins.
pub open spec fn begins(command: Command, session: Session, action: Action) -> bool {
    match command {
        Command::Record { cargo_args } => {
            &&& session == Session::PreparingBuild(BuildRun { cargo_args, watched: false })
            &&& action == Action::PrepareStore
        },
        Command::Watch { cargo_args } => {
            &&& session == Session::PreparingBuild(BuildRun { cargo_args, watched: true })
            &&& action == Action::PrepareStore
        },
        Command::Ls { last, format } => {
            &&& session == Session::PreparingQuery(Query::Ls { last, format })
            &&& action == Action::PrepareStore
        },
        Command::Diff { before, after, format } => {
            &&& session == Session::PreparingQuery(
                Query::Diff { before: BuildId(before), after: BuildId(after), format },
            )
            &&& action == Action::PrepareStore
        },
        Command::Completions { shell } => {
            &&& session == Session::Finishing
            &&& action == Action::WriteCompletions(shell)
        },
    }
}

/// What is known of a build before it starts: its arguments, the profile that
/// they ask for, and the commit that git names.
pub open spec fn configures(config: ParserConfig, run: BuildRun, reply: Option<GitReply>) -> bool {
    &&& config.cargo_args == run.cargo_args
    &&& config.profile == profile_of(run.cargo_args@)
    &&& git::optional_text(config.commit_hash) == git::commit_of(reply)
}

/// How a recorded build ends: it is announced, or its record deleted where it
/// was cancelled.
pub open spec fn ends_build(
    build: BuildId,
    cancelled: bool,
    session: Session,
    action: Action,
) -> bool {
    if cancelled {
        &&& session == Session::Discarding
        &&& action == Action::Delete(build)
    } else {
        &&& session == Session::Finishing
        &&& action matches Action::Print(line)
        &&& line@ == recorded_text(build)
    }
}

/// How a session goes on after an event.
pub open spec fn follows(session: Session, event: Event, then: Session, action: Action) -> bool {
    match (session, event) {
        (_, Event::Failed) => then == Session::Over && action == Action::Fail,
        (Session::PreparingBuild(run), _) => {
            &&& then == Session::AskingGit(run)
            &&& action == Action::AskGit
        },
        (Session::PreparingQuery(query), _) => {
            &&& then == Session::OpeningForQuery(query)
            &&& action == Action::OpenStore
        },
        (Session::AskingGit(run), Event::GitReply(reply)) => {
            &&& then matches Session::OpeningForBuild { config, watched }
            &&& configures(config, run, reply)
            &&& watched == run.watched
            &&& action == Action::OpenStore
        },
        (Session::OpeningForBuild { config, watched }, _) => {
            &&& then == (Session::Spawning { config, watched })
            &&& action matches Action::SpawnBuild(cargo_args)
            &&& cargo_args@ == config.cargo_args@
        },
        (Session::Spawning { config, watched }, _) => {
            &&& then == (Session::Parsing { watched })
            &&& action == Action::Parse(config)
        },
        (Session::Parsing { watched }, _) => {
            &&& then == Session::Recording
            &&& action == if watched {
                Action::RecordAndWatch(EVENT_CAPACITY)
            } else {
                Action::Record
            }
        },
        (Session::Recording, Event::Recorded { build, cancelled }) => ends_build(
            build,
            cancelled,
            then,
            action,
        ),
        (Session::Discarding, _) => {
            &&& then == Session::Finishing
            &&& action matches Action::Warn(line)
            &&& line@ == interrupted_text()
        },
        (Session::OpeningForQuery(Query::Ls { last, format }), _) => {
            &&& then == Session::Listing(format)
            &&& action == Action::List(last)
        },
        (Session::OpeningForQuery(Query::Diff { before, after, format }), _) => {
            &&& then == Session::Comparing(format)
            &&& action == Action::Compare(before, after)
        },
        (Session::Listing(Format::Text), Event::Listed(builds)) => {
            &&& then == Session::Finishing
            &&& action matches Action::Print(listing)
            &&& listing@ == listing::listing_text(builds@)
        },
        (Session::Listing(Format::Json), Event::Listed(builds)) => {
            &&& then == Session::Finishing
            &&& action == Action::PrintBuildsJson(builds)
        },
        (Session::Comparing(Format::Text), Event::Compared(diff)) => {
            &&& then == Session::Finishing
            &&& action matches Action::Print(report)
            &&& report@ == report::report_text(diff)
        },
        (Session::Comparing(Format::Json), Event::Compared(diff)) => {
            &&& then == Session::Finishing
            &&& action == Action::PrintDiffJson(diff)
        },
        (_, _) => then == Session::Over && action == Action::Exit,
    }
}

/// One step of a session: where it stood, what happened, where it then stands
/// and what it asks for.
pub struct Step {
    pub from: Session,
    pub event: Event,
    pub to: Session,
    pub action: Action,
}

/// The steps are a course that the command can take.
pub open spec fn course(command: Command, opening: Action, steps: Seq<Step>) -> bool {
    &&& forall|i: int|
        0 <= i < steps.len() ==> awaits((#[trigger] steps[i]).from, steps[i].event) && follows(
            steps[i].from,
            steps[i].event,
            steps[i].to,
            steps[i].action,
        )
    &&& forall|i: int|
        #![trigger steps[i]]
        0 < i < steps.len() ==> steps[i].from == steps[i - 1].to
    &&& steps.len() > 0 ==> begins(command, steps[0].from, opening)
}

/// How many steps a session can still take.
pub open spec fn steps_left(session: Session) -> nat {
    match session {
        Session::PreparingBuild(_) => 8,
        Session::AskingGit(_) => 7,
        Session::OpeningForBuild { .. } => 6,
        Session::Spawning { .. } => 5,
        Session::Parsing { .. } => 4,
        Session::Recording => 3,
        Session::Discarding => 2,
        Session::PreparingQuery(_) => 4,
        Session::OpeningForQuery(_) => 3,
        Session::Listing(_) => 2,
        Session::Comparing(_) => 2,
        Session::Finishing => 1,
        Session::Over => 0,
    }
}

/// The arguments that a command has for cargo.
pub open spec fn build_args(command: Command) -> Option<Seq<String>> {
    match command {
        Command::Record { cargo_args } => Some(cargo_args@),
        Command::Watch { cargo_args } => Some(cargo_args@),
        _ => None,
    }
}

/// Every step brings a session nearer to its end, and at the end nothing is
/// awaited any more.
pub proof fn sessions_end(session: Session, event: Event, then: Session, action: Action)
    requires
        awaits(session, event),
        follows(session, event, then, action),
    ensures
        steps_left(then) < steps_left(session),
        then == Session::Over <==> action == Action::Exit || action == Action::Fail,
        !awaits(Session::Over, event),
{
}

/// A failure ends a session, with that failure and without another action.
pub proof fn failure_ends_the_session(
    session: Session,
    event: Event,
    then: Session,
    action: Action,
)
    requires
        awaits(session, event),
        follows(session, event, then, action),
    ensures
        event == Event::Failed <==> action == Action::Fail,
        event == Event::Failed ==> then == Session::Over,
{
}

/// No outcome of git ends a command: whether git names a commit, fails or
/// cannot be run, the database is opened next, for the same build.
pub proof fn git_cannot_fail_a_build(
    run: BuildRun,
    event: Event,
    then: Session,
    action: Action,
)
    requires
        awaits(Session::AskingGit(run), event),
        follows(Session::AskingGit(run), event, then, action),
    ensures
        event is GitReply,
        action == Action::OpenStore,
        then matches Session::OpeningForBuild { config, watched } && config.cargo_args
            == run.cargo_args && watched == run.watched,
{
}

/// A command first does what it is for: completions are those of the shell that
/// was asked for, and every other command makes the directory of the database.
pub proof fn commands_begin_as_asked(command: Command, session: Session, action: Action)
    requires
        begins(command, session, action),
    ensures
        command matches Command::Completions { shell } ==> action == Action::WriteCompletions(
            shell,
        ),
        command !is Completions ==> action == Action::PrepareStore,
{
}

/// A completion script is that of the shell asked for, and needs no database:
/// its one step is the end.
pub proof fn completions_need_no_store(shell: Shell, opening: Action, steps: Seq<Step>)
    requires
        course(Command::Completions { shell }, opening, steps),
    ensures
        steps.len() > 0 ==> opening == Action::WriteCompletions(shell),
        steps.len() <= 1,
        forall|i: int|
            0 <= i < steps.len() ==> (#[trigger] steps[i]).action == Action::Exit
                || steps[i].action == Action::Fail,
{
    if steps.len() > 1 {
        assert(steps[1].from == steps[0].to);
        assert(awaits(steps[1].from, steps[1].event));
    }
}

/// Cargo is not started before the database was opened.
pub proof fn store_opens_before_the_build(
    command: Command,
    opening: Action,
    steps: Seq<Step>,
    i: int,
)
    requires
        course(command, opening, steps),
        0 <= i < steps.len(),
        steps[i].action is SpawnBuild,
    ensures
        exists|j: int| 0 <= j < i && (#[trigger] steps[j]).action == Action::OpenStore,
{
    assert(steps[i].from is OpeningForBuild);
    assert(i > 0);
    assert(steps[i - 1].to == steps[i].from);
    assert(steps[i - 1].action == Action::OpenStore);
}

/// Cargo and the reader of its output are both given the arguments of the
/// command line, and the profile goes by them.
pub proof fn build_runs_as_recorded(
    command: Command,
    opening: Action,
    steps: Seq<Step>,
    i: int,
)
    requires
        course(command, opening, steps),
        0 <= i < steps.len(),
        steps[i].action is Parse,
    ensures
        i == 3,
        steps[2].action is SpawnBuild,
        build_args(command) == Some(steps[2].action->SpawnBuild_0@),
        build_args(command) == Some(steps[3].action->Parse_0.cargo_args@),
        steps[3].action->Parse_0.profile == profile_of(steps[3].action->Parse_0.cargo_args@),
{
    assert(steps[i].from is Spawning);
    assert(i > 0);
    assert(steps[i].from == steps[i - 1].to);
    assert(steps[i - 1].from is OpeningForBuild);
    assert(i > 1);
    assert(steps[i - 1].from == steps[i - 2].to);
    assert(steps[i - 2].from is AskingGit);
    assert(i > 2);
    assert(steps[i - 2].from == steps[i - 3].to);
    assert(steps[i - 3].from is PreparingBuild);
    if i > 3 {
        assert(steps[i - 3].from == steps[i - 4].to);
    }
}

/// The commit that a build is recorded with is the one that git named for it,
/// and none where git could not be run or failed, whether the build is watched
/// or not.
pub proof fn builds_are_recorded_with_their_commit(
    command: Command,
    opening: Action,
    steps: Seq<Step>,
    i: int,
)
    requires
        course(command, opening, steps),
        0 <= i < steps.len(),
        steps[i].action is Parse,
    ensures
        i == 3,
        steps[1].event is GitReply,
        ({
            let reply = steps[1].event->GitReply_0;
            let commit = steps[3].action->Parse_0.commit_hash;
            &&& git::optional_text(commit) == git::commit_of(reply)
            &&& commit is Some <==> reply is Some && reply->0.success
            &&& commit is Some ==> commit->0@ == git::trimmed(
                git::lossy_text(reply->0.stdout@),
            )
        }),
{
    build_runs_as_recorded(command, opening, steps, i);
    assert(steps[3].from == steps[2].to);
    assert(steps[2].from == steps[1].to);
    assert(steps[2].from is OpeningForBuild);
    assert(steps[1].from is AskingGit);
}

/// The arguments ask for an optimised build exactly where `--release` is among
/// them.
pub proof fn release_is_asked_for(cargo_args: Seq<String>, arg: String)
    ensures
        profile_of(Seq::empty()) == BuildProfile::Dev,
        profile_of(cargo_args.push(arg)) == BuildProfile::Release <==> arg@ == "--release"@
            || profile_of(cargo_args) == BuildProfile::Release,
{
    let more = cargo_args.push(arg);
    if arg@ == "--release"@ {
        assert(more[cargo_args.len() as int]@ == "--release"@);
    }
    if asks_for_release(cargo_args) {
        let k = choose|k: int|
            0 <= k < cargo_args.len() && (#[trigger] cargo_args[k])@ == "--release"@;
        assert(more[k]@ == "--release"@);
    }
    if asks_for_release(more) {
        let k = choose|k: int| 0 <= k < more.len() && (#[trigger] more[k])@ == "--release"@;
        if k < cargo_args.len() {
            assert(cargo_args[k]@ == "--release"@);
        }
    }
}

/// The announcement of a recorded build holds its number.
pub proof fn announcements_hold_the_number(build: BuildId)
    ensures
        ({
            let line = recorded_text(build);
            let number = text::signed_decimal(build.0 as int);
            &&& seq!['B', 'u', 'i', 'l', 'd', ' '].is_prefix_of(line)
            &&& line.subrange(6, line.len() - 11) == number
            &&& line.skip(line.len() - 11) == seq![
                ' ',
                'r',
                'e',
                'c',
                'o',
                'r',
                'd',
                'e',
                'd',
                '.',
                '\n',
            ]
        }),
{
    reveal_strlit("Build ");
    reveal_strlit(" recorded.\n");
    let line = recorded_text(build);
    assert(line.subrange(0, 6) =~= seq!['B', 'u', 'i', 'l', 'd', ' ']);
    assert(line.subrange(6, line.len() - 11) =~= text::signed_decimal(build.0 as int));
    assert(line.skip(line.len() - 11) =~= seq![
        ' ',
        'r',
        'e',
        'c',
        'o',
        'r',
        'd',
        'e',
        'd',
        '.',
        '\n',
    ]);
}

/// An action and the session that asked for it belong together.
pub open spec fn asked(session: Session, action: Action) -> bool {
    ||| exists|command: Command| begins(command, session, action)
    ||| exists|from: Session, event: Event|
        awaits(from, event) && follows(from, event, session, action)
}

/// What a session waits for is a reply to what it asked for. Only git cannot
/// fail, and only builds that a listing cannot show are turned down.
pub proof fn replies_are_awaited(session: Session, action: Action, event: Event)
    requires
        asked(session, action),
    ensures
        awaits(session, event) <==> match action {
            Action::AskGit => event is GitReply,
            Action::Record => event is Recorded || event is Failed,
            Action::RecordAndWatch(_) => event is Recorded || event is Failed,
            Action::List(_) => event is Failed || (event matches Event::Listed(builds) && (session
                == Session::Listing(Format::Json) || forall|i: int|
                0 <= i < builds.len() ==> text::splits_cleanly(
                    (#[trigger] builds@[i]).started_at@,
                    19,
                ))),
            Action::Compare(_, _) => event is Compared || event is Failed,
            Action::Exit => false,
            Action::Fail => false,
            _ => event is Done || event is Failed,
        },
{
    if let Event::Listed(builds) = event {
        model::listable_builds(builds@);
    }
}

/// Only the last step of a course can end it, so every step before another one
/// got what it asked for.
proof fn lemma_no_failure_before(
    command: Command,
    opening: Action,
    steps: Seq<Step>,
    i: int,
)
    requires
        course(command, opening, steps),
        0 < i < steps.len(),
    ensures
        steps[i - 1].event !is Failed,
        steps[i].from == steps[i - 1].to,
        awaits(steps[i - 1].from, steps[i - 1].event),
        follows(steps[i - 1].from, steps[i - 1].event, steps[i].from, steps[i - 1].action),
{
    assert(awaits(steps[i].from, steps[i].event));
    assert(awaits(steps[i - 1].from, steps[i - 1].event));
}

/// A listing is asked for as the command line has it: once the database is
/// open, as many builds as were asked for are looked up, and the builds that
/// are found are printed in the format asked for.
pub proof fn listings_are_as_asked(
    last: usize,
    format: Format,
    opening: Action,
    steps: Seq<Step>,
)
    requires
        course(Command::Ls { last, format }, opening, steps),
    ensures
        steps.len() <= 4,
        steps.len() > 0 ==> opening == Action::PrepareStore,
        steps.len() > 0 && steps[0].event !is Failed ==> steps[0].action == Action::OpenStore,
        steps.len() > 1 && steps[1].event !is Failed ==> steps[1].action == Action::List(last),
        steps.len() > 2 && steps[2].event !is Failed ==> {
            &&& steps[2].event matches Event::Listed(builds)
            &&& format == Format::Text ==> (steps[2].action matches Action::Print(shown) && shown@
                == listing::listing_text(builds@))
            &&& format == Format::Json ==> steps[2].action == Action::PrintBuildsJson(builds)
        },
        steps.len() > 3 && steps[3].event !is Failed ==> steps[3].action == Action::Exit,
{
    if steps.len() > 1 {
        lemma_no_failure_before(Command::Ls { last, format }, opening, steps, 1);
    }
    if steps.len() > 2 {
        lemma_no_failure_before(Command::Ls { last, format }, opening, steps, 2);
    }
    if steps.len() > 3 {
        lemma_no_failure_before(Command::Ls { last, format }, opening, steps, 3);
    }
    if steps.len() > 4 {
        lemma_no_failure_before(Command::Ls { last, format }, opening, steps, 4);
        assert(awaits(steps[4].from, steps[4].event));
    }
}

/// A comparison is asked for as the command line has it: once the database is
/// open, the two builds are compared, the earlier one first, and what changed
/// is printed in the format asked for.
pub proof fn comparisons_are_as_asked(
    before: i64,
    after: i64,
    format: Format,
    opening: Action,
    steps: Seq<Step>,
)
    requires
        course(Command::Diff { before, after, format }, opening, steps),
    ensures
        steps.len() <= 4,
        steps.len() > 0 ==> opening == Action::PrepareStore,
        steps.len() > 0 && steps[0].event !is Failed ==> steps[0].action == Action::OpenStore,
        steps.len() > 1 && steps[1].event !is Failed ==> {
            &&& steps[1].action matches Action::Compare(first, second)
            &&& first.0 == before
            &&& second.0 == after
        },
        steps.len() > 2 && steps[2].event !is Failed ==> {
            &&& steps[2].event matches Event::Compared(diff)
            &&& format == Format::Text ==> (steps[2].action matches Action::Print(shown) && shown@
                == report::report_text(diff))
            &&& format == Format::Json ==> steps[2].action == Action::PrintDiffJson(diff)
        },
        steps.len() > 3 && steps[3].event !is Failed ==> steps[3].action == Action::Exit,
{
    let command = Command::Diff { before, after, format };
    if steps.len() > 1 {
        lemma_no_failure_before(command, opening, steps, 1);
    }
    if steps.len() > 2 {
        lemma_no_failure_before(command, opening, steps, 2);
    }
    if steps.len() > 3 {
        lemma_no_failure_before(command, opening, steps, 3);
    }
    if steps.len() > 4 {
        lemma_no_failure_before(command, opening, steps, 4);
        assert(awaits(steps[4].from, steps[4].event));
    }
}

/// A build goes its way step by step until something fails: git is asked, the
/// database opened, cargo started with the arguments of the command line, its
/// output read and recorded, on a dashboard where the build is watched. Then
/// its number is announced, or its record deleted where it was cancelled.
pub proof fn builds_go_step_by_step(command: Command, opening: Action, steps: Seq<Step>)
    requires
        course(command, opening, steps),
        command is Record || command is Watch,
    ensures
        steps.len() <= 8,
        steps.len() > 0 ==> opening == Action::PrepareStore,
        steps.len() > 0 && steps[0].event !is Failed ==> steps[0].action == Action::AskGit,
        steps.len() > 1 ==> steps[1].event is GitReply && steps[1].action == Action::OpenStore,
        steps.len() > 2 && steps[2].event !is Failed ==> (steps[2].action matches
            Action::SpawnBuild(given) && Some(given@) == build_args(command)),
        steps.len() > 3 && steps[3].event !is Failed ==> steps[3].action is Parse,
        steps.len() > 4 && steps[4].event !is Failed ==> steps[4].action == if command is Watch {
            Action::RecordAndWatch(1024)
        } else {
            Action::Record
        },
        steps.len() > 5 && steps[5].event !is Failed ==> {
            &&& steps[5].event matches Event::Recorded { build, cancelled }
            &&& cancelled ==> steps[5].action == Action::Delete(build)
            &&& !cancelled ==> (steps[5].action matches Action::Print(line) && line@
                == recorded_text(build))
        },
        steps.len() > 6 && steps[6].event !is Failed ==> {
            &&& steps[5].event matches Event::Recorded { build, cancelled }
            &&& cancelled ==> (steps[6].action matches Action::Warn(line) && line@
                == "Build interrupted — not recorded.\n"@)
            &&& !cancelled ==> steps[6].action == Action::Exit
        },
        steps.len() > 7 && steps[7].event !is Failed ==> steps[7].action == Action::Exit,
{
    if steps.len() > 1 {
        lemma_no_failure_before(command, opening, steps, 1);
    }
    if steps.len() > 2 {
        lemma_no_failure_before(command, opening, steps, 2);
    }
    if steps.len() > 3 {
        lemma_no_failure_before(command, opening, steps, 3);
    }
    if steps.len() > 4 {
        lemma_no_failure_before(command, opening, steps, 4);
    }
    if steps.len() > 5 {
        lemma_no_failure_before(command, opening, steps, 5);
    }
    if steps.len() > 6 {
        lemma_no_failure_before(command, opening, steps, 6);
    }
    if steps.len() > 7 {
        lemma_no_failure_before(command, opening, steps, 7);
    }
    if steps.len() > 8 {
        lemma_no_failure_before(command, opening, steps, 8);
        assert(awaits(steps[8].from, steps[8].event));
    }
}

/// The arguments for cargo are those of the command line, for both ways to run
/// a build, and no other command has any.
pub proof fn arguments_are_those_given(command: Command)
    ensures
        command matches Command::Record { cargo_args } ==> build_args(command) == Some(
            cargo_args@,
        ),
        command matches Command::Watch { cargo_args } ==> build_args(command) == Some(
            cargo_args@,
        ),
        build_args(command) is Some <==> command is Record || command is Watch,
{
}

/// A recorded build is deleted if it was cancelled, and announced if it was
/// not.
pub proof fn cancelled_builds_are_deleted(
    session: Session,
    build: BuildId,
    cancelled: bool,
    then: Session,
    action: Action,
)
    requires
        follows(session, Event::Recorded { build, cancelled }, then, action),
        awaits(session, Event::Recorded { build, cancelled }),
    ensures
        cancelled <==> action == Action::Delete(build),
        !cancelled <==> (action matches Action::Print(line) && line@ == recorded_text(build)),
{
}

/// Nothing but a cancelled build is ever deleted.
pub proof fn only_cancelled_builds_are_deleted(
    session: Session,
    event: Event,
    then: Session,
    action: Action,
)
    requires
        awaits(session, event),
        follows(session, event, then, action),
        action is Delete,
    ensures
        event == (Event::Recorded { build: action->Delete_0, cancelled: true }),
{
}

/// The profile that cargo builds with under the arguments.
pub fn infer_profile(cargo_args: &[String]) -> (profile: BuildProfile)
    ensures
        profile == profile_of(cargo_args@),
{
    let release = "--release".to_owned();
    let mut i: usize = 0;
    while i < cargo_args.len()
        invariant
            i <= cargo_args.len(),
            release@ == "--release"@,
            forall|j: int| 0 <= j < i ==> (#[trigger] cargo_args@[j])@ != "--release"@,
        decreases cargo_args.len() - i,
    {
        if cargo_args[i] == release {
            return BuildProfile::Release;
        }
        i = i + 1;
    }
    BuildProfile::Dev
}

/// A copy of the arguments.
fn copy_args(args: &Vec<String>) -> (copy: Vec<String>)
    ensures
        copy@ == args@,
{
    let mut copy: Vec<String> = Vec::new();
    let mut i: usize = 0;
    while i < args.len()
        invariant
            i <= args.len(),
            copy@ == args@.take(i as int),
        decreases args.len() - i,
    {
        copy.push(args[i].clone());
        i = i + 1;
        assert(copy@ =~= args@.take(i as int));
    }
    assert(args@.take(i as int) =~= args@);
    copy
}

/// Begins a command: says what to do first. A completion script is written at
/// once; every other command needs the database.
pub fn start(command: Command) -> (first: (Session, Action))
    ensures
        begins(command, first.0, first.1),
        command is Completions ==> first.1 == Action::WriteCompletions(
            command->Completions_shell,
        ),
        command !is Completions ==> first.1 == Action::PrepareStore,
{
    match command {
        Command::Record { cargo_args } => (
            Session::PreparingBuild(BuildRun { cargo_args, watched: false }),
            Action::PrepareStore,
        ),
        Command::Watch { cargo_args } => (
            Session::PreparingBuild(BuildRun { cargo_args, watched: true }),
            Action::PrepareStore,
        ),
        Command::Ls { last, format } => (
            Session::PreparingQuery(Query::Ls { last, format }),
            Action::PrepareStore,
        ),
        Command::Diff { before, after, format } => (
            Session::PreparingQuery(
                Query::Diff { before: BuildId(before), after: BuildId(after), format },
            ),
            Action::PrepareStore,
        ),
        Command::Completions { shell } => (Session::Finishing, Action::WriteCompletions(shell)),
    }
}

/// Whether the session can go on from the event.
pub fn expects(session: &Session, event: &Event) -> (expected: bool)
    ensures
        expected == awaits(*session, *event),
{
    match (session, event) {
        (Session::Over, _) => false,
        (Session::AskingGit(_), Event::GitReply(_)) => true,
        (Session::AskingGit(_), _) => false,
        (_, Event::Failed) => true,
        (Session::Recording, Event::Recorded { .. }) => true,
        (Session::Recording, _) => false,
        (Session::Listing(format), Event::Listed(builds)) => *format == Format::Json
            || model::are_listable(builds.as_slice()),
        (Session::Listing(_), _) => false,
        (Session::Comparing(_), Event::Compared(_)) => true,
        (Session::Comparing(_), _) => false,
        (_, Event::Done) => true,
        (_, _) => false,
    }
}

/// Announces a recorded build, or has its record deleted where it was
/// cancelled, so that it neither clutters listings nor counts as a measure of
/// later builds. A build that failed on its own keeps its record.
pub fn finalize_or_discard(build: BuildId, cancelled: bool) -> (last: (Session, Action))
    ensures
        ends_build(build, cancelled, last.0, last.1),
{
    if cancelled {
        (Session::Discarding, Action::Delete(build))
    } else {
        let mut line = "Build ".to_owned();
        let id = text::signed_decimal_text(build.0);
        line.append(id.as_str());
        line.append(" recorded.\n");
        (Session::Finishing, Action::Print(line))
    }
}

/// The builds that were looked up, in the format asked for.
pub fn cmd_ls(builds: Vec<Build>, format: Format) -> (output: Action)
    requires
        format == Format::Json || model::all_listable(builds@),
    ensures
        match format {
            Format::Text => output matches Action::Print(listing) && listing@
                == listing::listing_text(builds@),
            Format::Json => output == Action::PrintBuildsJson(builds),
        },
{
    match format {
        Format::Text => Action::Print(listing::render_ls(builds.as_slice())),
        Format::Json => Action::PrintBuildsJson(builds),
    }
}

/// What changed between two builds, in the format asked for.
pub fn cmd_diff(diff: BuildDiff, format: Format) -> (output: Action)
    ensures
        match format {
            Format::Text => output matches Action::Print(shown) && shown@ == report::report_text(
                diff,
            ),
            Format::Json => output == Action::PrintDiffJson(diff),
        },
{
    match format {
        Format::Text => Action::Print(report::render_diff(&diff)),
        Format::Json => Action::PrintDiffJson(diff),
    }
}

/// Goes on after an event: says what to do next.
pub fn next(session: Session, event: Event) -> (step: (Session, Action))
    requires
        awaits(session, event),
    ensures
        follows(session, event, step.0, step.1),
{
    match (session, event) {
        (_, Event::Failed) => (Session::Over, Action::Fail),
        (Session::PreparingBuild(run), _) => (Session::AskingGit(run), Action::AskGit),
        (Session::PreparingQuery(query), _) => (
            Session::OpeningForQuery(query),
            Action::OpenStore,
        ),
        (Session::AskingGit(run), Event::GitReply(reply)) => {
            let profile = infer_profile(run.cargo_args.as_slice());
            let commit_hash = git::read_git_head(&reply);
            let config = ParserConfig { commit_hash, cargo_args: run.cargo_args, profile };
            (Session::OpeningForBuild { config, watched: run.watched }, Action::OpenStore)
        },
        (Session::OpeningForBuild { config, watched }, _) => {
            let cargo_args = copy_args(&config.cargo_args);
            (Session::Spawning { config, watched }, Action::SpawnBuild(cargo_args))
        },
        (Session::Spawning { config, watched }, _) => (
            Session::Parsing { watched },
            Action::Parse(config),
        ),
        (Session::Parsing { watched }, _) => {
            let action = if watched {
                Action::RecordAndWatch(EVENT_CAPACITY)
            } else {
                Action::Record
            };
            (Session::Recording, action)
        },
        (Session::Recording, Event::Recorded { build, cancelled }) => finalize_or_discard(
            build,
            cancelled,
        ),
        (Session::Discarding, _) => (
            Session::Finishing,
            Action::Warn("Build interrupted — not recorded.\n".to_owned()),
        ),
        (Session::OpeningForQuery(Query::Ls { last, format }), _) => (
            Session::Listing(format),
            Action::List(last),
        ),
        (Session::OpeningForQuery(Query::Diff { before, after, format }), _) => (
            Session::Comparing(format),
            Action::Compare(before, after),
        ),
        (Session::Listing(format), Event::Listed(builds)) => (
            Session::Finishing,
            cmd_ls(builds, format),
        ),
        (Session::Comparing(format), Event::Compared(diff)) => (
            Session::Finishing,
            cmd_diff(diff, format),
        ),
        (_, _) => (Session::Over, Action::Exit),
    }
}

} // verus!
