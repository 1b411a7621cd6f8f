use cargo_chronoscope::model::{BuildDiff, BuildId, CrateChange, DurationChange, Elapsed};
use cargo_chronoscope::report::{
    added_line, changed_line, duration_line, removed_line, render_diff, render_duration_change,
};

fn secs(n: u64) -> Elapsed {
    Elapsed::new(n, 0)
}

fn change(before: u64, after: u64, delta_ms: i64, pct: &str) -> DurationChange {
    DurationChange {
        before: Elapsed::from_millis(before),
        after: Elapsed::from_millis(after),
        abs_delta_ms: delta_ms,
        delta_tenths: format!("{:+.1}", delta_ms as f64 / 1000.0),
        delta_hundredths: format!("{:+.2}", delta_ms as f64 / 1000.0),
        pct_delta: pct.to_string(),
    }
}

fn changed(name: &str, delta_ms: i64) -> CrateChange {
    CrateChange::Changed {
        crate_id: name.to_string(),
        change: change(1000, 2000, delta_ms, "+1.0"),
    }
}

fn diff(crate_changes: Vec<CrateChange>) -> BuildDiff {
    BuildDiff {
        before: BuildId(1),
        after: BuildId(2),
        total_change: change(1000, 1000, 0, "+0.0"),
        crate_changes,
        critical_path_before: vec![],
        critical_path_after: vec![],
    }
}

fn crate_part(crate_changes: Vec<CrateChange>) -> String {
    let report = render_diff(&diff(crate_changes));
    let start = "Build 1 → Build 2\n  Total: 1.0s → 1.0s (+0.0s, +0.0%)\n\n";
    let end = "\nCritical path: 0 → 0 nodes\n  (empty)\n";
    assert!(report.starts_with(start));
    assert!(report.ends_with(end));
    report[start.len()..report.len() - end.len()].to_string()
}

#[test]
fn render_diff_does_not_panic() {
    let diff = BuildDiff {
        before: BuildId(1),
        after: BuildId(2),
        total_change: DurationChange {
            before: secs(10),
            after: secs(12),
            abs_delta_ms: 2000,
            delta_tenths: format!("{:+.1}", 2000 as f64 / 1000.0),
            delta_hundredths: format!("{:+.2}", 2000 as f64 / 1000.0),
            pct_delta: format!("{:+.1}", 20.0),
        },
        crate_changes: vec![
            CrateChange::Added {
                crate_id: "new-crate".into(),
                duration: Elapsed::from_millis(500),
            },
            CrateChange::Changed {
                crate_id: "foo".into(),
                change: DurationChange {
                    before: secs(1),
                    after: secs(2),
                    abs_delta_ms: 1000,
                    delta_tenths: format!("{:+.1}", 1000 as f64 / 1000.0),
                    delta_hundredths: format!("{:+.2}", 1000 as f64 / 1000.0),
                    pct_delta: format!("{:+.1}", 100.0),
                },
            },
        ],
        critical_path_before: vec!["a".into(), "b".into()],
        critical_path_after: vec!["a".into(), "b".into(), "c".into()],
    };
    let report = render_diff(&diff);
    assert!(report.starts_with(
        "Build 1 → Build 2\n\
         \x20 Total: 10.0s → 12.0s (+2.0s, +20.0%)\n\
         \n\
         \x20 ▲ foo 1.00s → 2.00s (+1.00s, +100.0%)\n\
         \x20 + new-crate (new) 0.50s\n\
         \n\
         Critical path: 2 → 3 nodes (+1)\n"
    ));
}

#[test]
fn render_diff_empty_crate_changes_does_not_panic() {
    let diff = BuildDiff {
        before: BuildId(1),
        after: BuildId(2),
        total_change: DurationChange {
            before: secs(1),
            after: secs(1),
            abs_delta_ms: 0,
            delta_tenths: format!("{:+.1}", 0 as f64 / 1000.0),
            delta_hundredths: format!("{:+.2}", 0 as f64 / 1000.0),
            pct_delta: format!("{:+.1}", 0.0),
        },
        crate_changes: vec![],
        critical_path_before: vec![],
        critical_path_after: vec![],
    };
    assert_eq!(
        render_diff(&diff),
        "Build 1 → Build 2\n\
         \x20 Total: 1.0s → 1.0s (+0.0s, +0.0%)\n\
         \n\
         \x20 No crate-level changes.\n\
         \n\
         Critical path: 0 → 0 nodes\n\
         \x20 (empty)\n"
    );
}

#[test]
fn biggest_movers_come_first_and_equal_ones_keep_their_order() {
    let part = crate_part(vec![
        changed("a", 10),
        changed("b", -500),
        changed("c", 10),
        changed("d", 0),
        changed("e", 500),
        changed("f", -10),
        changed("g", 2000),
    ]);
    let order: Vec<&str> = part.lines().map(|l| l.split(' ').nth(3).unwrap()).collect();
    assert_eq!(order, vec!["g", "b", "e", "a", "c", "f", "d"]);
    let arrows: Vec<&str> = part.lines().map(|l| l.split(' ').nth(2).unwrap()).collect();
    assert_eq!(arrows, vec!["▲", "▼", "▲", "▲", "▲", "▼", "▼"]);
}

#[test]
fn sections_come_in_order() {
    let part = crate_part(vec![
        CrateChange::Removed { crate_id: "r1".into(), duration: Elapsed::from_millis(125) },
        CrateChange::Unchanged { crate_id: "u1".into() },
        CrateChange::Added { crate_id: "a1".into(), duration: Elapsed::from_millis(1500) },
        changed("c1", -1),
        CrateChange::Removed { crate_id: "r2".into(), duration: Elapsed::from_millis(0) },
        CrateChange::Unchanged { crate_id: "u2".into() },
        CrateChange::Added { crate_id: "a2".into(), duration: Elapsed::from_millis(10) },
        changed("c2", 1),
    ]);
    assert_eq!(
        part,
        "  ▼ c1 1.00s → 2.00s (-0.00s, +1.0%)\n\
         \x20 ▲ c2 1.00s → 2.00s (+0.00s, +1.0%)\n\
         \x20 + a1 (new) 1.50s\n\
         \x20 + a2 (new) 0.01s\n\
         \x20 - r1 (gone) 0.12s\n\
         \x20 - r2 (gone) 0.00s\n\
         \x20 … 2 crates unchanged\n"
    );
}

#[test]
fn unchanged_crates_are_counted() {
    let part = crate_part((0..11).map(|i| CrateChange::Unchanged { crate_id: format!("u{}", i) }).collect());
    assert_eq!(part, "  No crate-level changes.\n  … 11 crates unchanged\n");
}

#[test]
fn lines_with_given_seconds() {
    let c = change(0, 0, -240, "-20.0");
    assert_eq!(added_line("serde", "0.50"), "  + serde (new) 0.50s\n");
    assert_eq!(removed_line("serde", "0.50"), "  - serde (gone) 0.50s\n");
    assert_eq!(
        changed_line("serde", "1.25", "1.00", &c),
        "  ▼ serde 1.25s → 1.00s (-0.24s, -20.0%)\n"
    );
    assert_eq!(
        duration_line("Total", "1.2", "1.0", &c),
        "  Total: 1.2s → 1.0s (-0.2s, -20.0%)\n"
    );
}

#[test]
fn duration_change_shows_tenths() {
    let c = change(1250, 61_000, 59_760, "+4780.0");
    assert_eq!(
        render_duration_change("Total", &c),
        "  Total: 1.2s → 61.0s (+59.8s, +4780.0%)\n"
    );
}

#[test]
fn least_delta_is_the_biggest_mover() {
    let part = crate_part(vec![changed("a", i64::MAX), changed("b", i64::MIN), changed("c", 1)]);
    let order: Vec<&str> = part.lines().map(|l| l.split(' ').nth(3).unwrap()).collect();
    assert_eq!(order, vec!["b", "a", "c"]);
    assert!(crate_part(vec![changed("a", i64::MIN)]).starts_with("  ▼ a "));
}
