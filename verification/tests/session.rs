use cargo_chronoscope::cli::{Cli, Command, Format, Shell};
use cargo_chronoscope::git::GitReply;
use cargo_chronoscope::listing::render_ls;
use cargo_chronoscope::model::{
    Build, BuildDiff, BuildId, BuildProfile, CrateChange, DurationChange, Elapsed,
};
use cargo_chronoscope::report::render_diff;
use cargo_chronoscope::session::{
    expects, finalize_or_discard, infer_profile, next, start, Action, Event, Session, DB_DIR,
    DB_FILE, EVENT_CAPACITY,
};

fn args(list: &[&str]) -> Vec<String> {
    list.iter().map(|s| s.to_string()).collect()
}

fn step(session: Session, event: Event) -> (Session, Action) {
    assert!(expects(&session, &event));
    next(session, event)
}

fn build(started_at: &str) -> Build {
    Build {
        id: BuildId(4),
        started_at: started_at.to_string(),
        finished_at: None,
        commit_hash: None,
        cargo_args: "[]".to_string(),
        profile: "dev".to_string(),
        success: Some(true),
        total_duration: Some(Elapsed::from_millis(1500)),
    }
}

fn diff(delta_ms: i64) -> BuildDiff {
    let change = || DurationChange {
        before: Elapsed::from_millis(1000),
        after: Elapsed::from_millis(2000),
        abs_delta_ms: delta_ms,
        delta_tenths: "+1.0".to_string(),
        delta_hundredths: "+1.00".to_string(),
        pct_delta: "+100.0".to_string(),
    };
    BuildDiff {
        before: BuildId(3),
        after: BuildId(7),
        total_change: change(),
        crate_changes: vec![CrateChange::Changed { crate_id: "foo".into(), change: change() }],
        critical_path_before: vec![],
        critical_path_after: vec![],
    }
}

#[test]
fn profile_goes_by_the_arguments() {
    assert_eq!(infer_profile(&args(&["-p", "demo", "--release"])), BuildProfile::Release);
    assert_eq!(infer_profile(&args(&["--release"])), BuildProfile::Release);
    assert_eq!(infer_profile(&args(&["-r", "--releases", "release"])), BuildProfile::Dev);
    assert_eq!(infer_profile(&[]), BuildProfile::Dev);
}

#[test]
fn text_is_the_default_format() {
    assert_eq!(Format::default(), Format::Text);
}

#[test]
fn database_location() {
    assert_eq!(DB_DIR, ".cargo-chronoscope");
    assert_eq!(DB_FILE, "history.db");
}

#[test]
fn recorded_build_is_announced() {
    let cli = Cli { command: Command::Record { cargo_args: args(&["--release", "-p", "demo"]) } };
    let (s, a) = start(cli.command);
    assert!(matches!(a, Action::PrepareStore));
    let (s, a) = step(s, Event::Done);
    assert!(matches!(a, Action::AskGit));
    let reply = GitReply { success: true, stdout: b"0123abcd\n".to_vec() };
    let (s, a) = step(s, Event::GitReply(Some(reply)));
    assert!(matches!(a, Action::OpenStore));
    let (s, a) = step(s, Event::Done);
    match a {
        Action::SpawnBuild(given) => assert_eq!(given, args(&["--release", "-p", "demo"])),
        other => panic!("expected SpawnBuild, got {:?}", other),
    }
    let (s, a) = step(s, Event::Done);
    match a {
        Action::Parse(config) => {
            assert_eq!(config.commit_hash, Some("0123abcd".to_string()));
            assert_eq!(config.cargo_args, args(&["--release", "-p", "demo"]));
            assert_eq!(config.profile, BuildProfile::Release);
        }
        other => panic!("expected Parse, got {:?}", other),
    }
    let (s, a) = step(s, Event::Done);
    assert!(matches!(a, Action::Record));
    let (s, a) = step(s, Event::Recorded { build: BuildId(42), cancelled: false });
    match a {
        Action::Print(line) => assert_eq!(line, "Build 42 recorded.\n"),
        other => panic!("expected Print, got {:?}", other),
    }
    let (s, a) = step(s, Event::Done);
    assert!(matches!(a, Action::Exit));
    assert!(matches!(s, Session::Over));
    assert!(!expects(&s, &Event::Done));
    assert!(!expects(&s, &Event::Failed));
}

#[test]
fn cancelled_build_is_deleted() {
    let (s, _) = start(Command::Watch { cargo_args: args(&[]) });
    let (s, _) = step(s, Event::Done);
    let (s, _) = step(s, Event::GitReply(None));
    let (s, _) = step(s, Event::Done);
    let (s, a) = step(s, Event::Done);
    match a {
        Action::Parse(config) => {
            assert_eq!(config.commit_hash, None);
            assert_eq!(config.profile, BuildProfile::Dev);
        }
        other => panic!("expected Parse, got {:?}", other),
    }
    let (s, a) = step(s, Event::Done);
    assert!(matches!(a, Action::RecordAndWatch(EVENT_CAPACITY)));
    assert!(matches!(a, Action::RecordAndWatch(1024)));
    let (s, a) = step(s, Event::Recorded { build: BuildId(9), cancelled: true });
    assert!(matches!(a, Action::Delete(BuildId(9))));
    let (s, a) = step(s, Event::Done);
    match a {
        Action::Warn(line) => assert_eq!(line, "Build interrupted — not recorded.\n"),
        other => panic!("expected Warn, got {:?}", other),
    }
    let (s, a) = step(s, Event::Done);
    assert!(matches!(a, Action::Exit));
    assert!(matches!(s, Session::Over));
}

#[test]
fn outcome_of_a_recorded_build() {
    let (_, a) = finalize_or_discard(BuildId(-1), false);
    assert!(matches!(a, Action::Print(line) if line == "Build -1 recorded.\n"));
    let (_, a) = finalize_or_discard(BuildId(-1), true);
    assert!(matches!(a, Action::Delete(BuildId(-1))));
}

#[test]
fn listing_in_both_formats() {
    for format in [Format::Text, Format::Json] {
        let (s, a) = start(Command::Ls { last: 5, format });
        assert!(matches!(a, Action::PrepareStore));
        let (s, a) = step(s, Event::Done);
        assert!(matches!(a, Action::OpenStore));
        let (s, a) = step(s, Event::Done);
        assert!(matches!(a, Action::List(5)));
        let (s, a) = step(s, Event::Listed(vec![build("2025-04-19T12:00:00Z")]));
        match (format, a) {
            (Format::Text, Action::Print(text)) => {
                assert_eq!(text, render_ls(&[build("2025-04-19T12:00:00Z")]))
            }
            (Format::Json, Action::PrintBuildsJson(builds)) => assert_eq!(builds.len(), 1),
            (_, other) => panic!("unexpected {:?}", other),
        }
        let (_, a) = step(s, Event::Done);
        assert!(matches!(a, Action::Exit));
    }
}

#[test]
fn unlistable_build_stops_the_table_only() {
    let bad = || Event::Listed(vec![build("aaaaaaaaaaaaaaaaaaé")]);
    assert!(!expects(&Session::Listing(Format::Text), &bad()));
    assert!(expects(&Session::Listing(Format::Json), &bad()));
}

#[test]
fn comparison_in_both_formats() {
    for format in [Format::Text, Format::Json] {
        let (s, _) = start(Command::Diff { before: 3, after: 7, format });
        let (s, a) = step(s, Event::Done);
        assert!(matches!(a, Action::OpenStore));
        let (s, a) = step(s, Event::Done);
        assert!(matches!(a, Action::Compare(BuildId(3), BuildId(7))));
        let (_, a) = step(s, Event::Compared(diff(1000)));
        match (format, a) {
            (Format::Text, Action::Print(text)) => assert_eq!(text, render_diff(&diff(1000))),
            (Format::Json, Action::PrintDiffJson(d)) => assert_eq!(d.after, BuildId(7)),
            (_, other) => panic!("unexpected {:?}", other),
        }
    }
    assert!(expects(&Session::Comparing(Format::Text), &Event::Compared(diff(i64::MIN))));
    assert!(expects(&Session::Comparing(Format::Json), &Event::Compared(diff(i64::MIN))));
}

#[test]
fn completions_do_not_touch_the_database() {
    let (s, a) = start(Command::Completions { shell: Shell::Zsh });
    assert!(matches!(a, Action::WriteCompletions(Shell::Zsh)));
    let (s, a) = step(s, Event::Done);
    assert!(matches!(a, Action::Exit));
    assert!(matches!(s, Session::Over));
}

#[test]
fn failure_ends_a_session() {
    let (s, _) = start(Command::Record { cargo_args: args(&[]) });
    let (s, a) = step(s, Event::Failed);
    assert!(matches!(a, Action::Fail));
    assert!(matches!(s, Session::Over));
    let (s, a) = step(Session::Recording, Event::Failed);
    assert!(matches!(a, Action::Fail));
    assert!(matches!(s, Session::Over));
}

#[test]
fn git_does_not_fail_a_build() {
    for reply in [None, Some(GitReply { success: false, stdout: b"x".to_vec() })] {
        let (s, _) = start(Command::Record { cargo_args: args(&["-v"]) });
        let (s, _) = step(s, Event::Done);
        assert!(!expects(&s, &Event::Failed));
        assert!(!expects(&s, &Event::Done));
        let (s, a) = step(s, Event::GitReply(reply));
        assert!(matches!(a, Action::OpenStore));
        match s {
            Session::OpeningForBuild { config, watched } => {
                assert_eq!(config.commit_hash, None);
                assert_eq!(config.cargo_args, args(&["-v"]));
                assert!(!watched);
            }
            other => panic!("expected OpeningForBuild, got {:?}", other),
        }
    }
}

#[test]
fn unexpected_events() {
    assert!(!expects(&Session::Recording, &Event::Done));
    assert!(!expects(&Session::Finishing, &Event::GitReply(None)));
    assert!(!expects(&Session::Listing(Format::Json), &Event::Compared(diff(0))));
    assert!(!expects(&Session::Comparing(Format::Json), &Event::Listed(vec![])));
}
