use cargo_chronoscope::listing::{listing_row, render_ls};
use cargo_chronoscope::model::{are_listable, Build, BuildId, Elapsed};

fn build(id: i64, started_at: &str, success: Option<bool>, millis: Option<u64>) -> Build {
    Build {
        id: BuildId(id),
        started_at: started_at.to_string(),
        finished_at: None,
        commit_hash: None,
        cargo_args: "[]".to_string(),
        profile: "dev".to_string(),
        success,
        total_duration: millis.map(Elapsed::from_millis),
    }
}

fn line(id: i64, started: &str, profile: &str, duration: &str, status: &str) -> String {
    format!("{:<6} {:<20} {:<8} {:<10} {}\n", id, started, profile, duration, status)
}

#[test]
fn render_ls_empty_does_not_panic() {
    render_ls(&[]);
}

#[test]
fn render_ls_with_rows_does_not_panic() {
    let builds = vec![Build {
        id: BuildId(1),
        started_at: "2025-04-19T12:00:00Z".to_string(),
        finished_at: Some("2025-04-19T12:00:05Z".to_string()),
        commit_hash: Some("abc123".to_string()),
        cargo_args: "[\"build\"]".to_string(),
        profile: "dev".to_string(),
        success: Some(true),
        total_duration: Some(Elapsed::from_millis(5000)),
    }];
    render_ls(&builds);
}

#[test]
fn empty_listing_says_so() {
    assert_eq!(render_ls(&[]), "No builds recorded yet.\n");
}

#[test]
fn listing_has_header_and_one_line_per_build() {
    let builds = vec![
        build(12, "2025-04-19T12:00:00Z", Some(true), Some(5000)),
        build(3, "2025-04-18T09:30:00.123Z", Some(false), Some(61_250)),
        build(-7, "2025", None, None),
    ];
    let mut expected = String::from(
        "ID     Started              Profile  Duration   Status\n",
    );
    expected.push_str(&"-".repeat(60));
    expected.push('\n');
    expected.push_str("12     2025-04-19T12:00:00  dev      5.0s       ok\n");
    expected.push_str("3      2025-04-18T09:30:00  dev      61.2s      FAIL\n");
    expected.push_str("-7     2025                 dev      —          ???\n");
    assert_eq!(render_ls(&builds), expected);
}

#[test]
fn wide_cells_push_the_rest_aside() {
    let mut b = build(123_456_789, "2025-04-19T12:00:00Z", Some(true), None);
    b.profile = "release-with-debug".to_string();
    assert_eq!(
        listing_row(&b, Some("0.1".to_string())),
        line(123_456_789, "2025-04-19T12:00:00", "release-with-debug", "0.1s", "ok")
    );
}

#[test]
fn seconds_are_rounded_as_floating_point_rounds_them() {
    for millis in [0u64, 49, 50, 51, 149, 150, 250, 350, 450, 950, 999, 1005, 123_456_789] {
        let span = Elapsed::from_millis(millis);
        let secs = std::time::Duration::from_millis(millis).as_secs_f64();
        assert_eq!(span.seconds(1), format!("{:.1}", secs));
        assert_eq!(span.seconds(2), format!("{:.2}", secs));
    }
    assert_eq!(Elapsed::new(3, 999_999_999).seconds(1), "4.0");
    assert_eq!(Elapsed::new(u64::MAX, 0).seconds(1), format!("{:.1}", u64::MAX as f64));
    assert_eq!(Elapsed::from_millis(250).seconds(1), "0.2");
    assert_eq!(Elapsed::from_millis(350).seconds(1), "0.3");
}

#[test]
fn timestamp_is_cut_by_bytes() {
    // Seventeen bytes, then a character of two bytes that ends at byte 19.
    let fits = build(1, "aaaaaaaaaaaaaaaaaé-rest", None, None);
    assert!(fits.is_listable());
    assert_eq!(listing_row(&fits, None), line(1, "aaaaaaaaaaaaaaaaaé", "dev", "—", "???"));
    // Eighteen bytes, then a character of two bytes across byte 19.
    let split = build(1, "aaaaaaaaaaaaaaaaaaé", None, None);
    assert!(!split.is_listable());
    assert!(!are_listable(&[fits, split]));
    assert!(are_listable(&[build(1, "", None, None)]));
}

#[test]
fn one_more_build_adds_a_line() {
    let two = vec![
        build(2, "2025-04-19T12:00:00Z", Some(true), Some(5000)),
        build(1, "2025-04-18T12:00:00Z", Some(false), Some(700)),
    ];
    let one = vec![build(2, "2025-04-19T12:00:00Z", Some(true), Some(5000))];
    let mut expected = render_ls(&one);
    expected.push_str(&listing_row(&two[1], Some("0.7".to_string())));
    assert_eq!(render_ls(&two), expected);
}

#[test]
fn least_and_greatest_numbers() {
    for id in [i64::MIN, i64::MAX, 0, -1, 9, 10, 99, 100] {
        let b = build(id, "2025-04-19T12:00:00Z", Some(true), None);
        assert_eq!(listing_row(&b, None), line(id, "2025-04-19T12:00:00", "dev", "—", "ok"));
    }
}
