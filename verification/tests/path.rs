use cargo_chronoscope::path::critical_path_diff;
use cargo_chronoscope::text::truncate;

fn names(list: &[&str]) -> Vec<String> {
    list.iter().map(|s| s.to_string()).collect()
}

#[test]
fn empty_paths() {
    assert_eq!(critical_path_diff(&[], &[]), "Critical path: 0 → 0 nodes\n  (empty)\n");
}

#[test]
fn shorter_path_side_by_side() {
    let before = names(&["cfg_if", "foldhash", "ryu"]);
    let after = names(&["memchr", "foldhash"]);
    let expected = "Critical path: 3 → 2 nodes (-1)\n\
                    \n\
                    \x20   #  before    after   \n\
                    \x20 ───  ────────  ────────\n\
                    \x20   1  cfg_if    memchr  \n\
                    \x20   2  foldhash  foldhash  ✓ same position\n\
                    \x20   3  ryu       —       \n\
                    \n\
                    \x20 removed: cfg_if, ryu\n\
                    \x20 added:   memchr\n";
    assert_eq!(critical_path_diff(&before, &after), expected);
}

#[test]
fn longer_path_counts_up() {
    let before = names(&["a", "b"]);
    let after = names(&["a", "b", "c"]);
    let expected = "Critical path: 2 → 3 nodes (+1)\n\
                    \n\
                    \x20   #  before  after \n\
                    \x20 ───  ──────  ──────\n\
                    \x20   1  a       a       ✓ same position\n\
                    \x20   2  b       b       ✓ same position\n\
                    \x20   3  —       c     \n\
                    \n\
                    \x20 removed: (none)\n\
                    \x20 added:   c\n";
    assert_eq!(critical_path_diff(&before, &after), expected);
}

#[test]
fn reordered_path_has_the_same_crates() {
    let shown = critical_path_diff(&names(&["a", "b", "b"]), &names(&["b", "a"]));
    assert!(shown.starts_with("Critical path: 3 → 2 nodes (-1)\n"));
    assert!(shown.ends_with(
        "\n\n  removed: (none)\n  added:   (none)\n  same crate set, possibly reordered\n"
    ));
    assert!(!shown.contains('✓'));
}

#[test]
fn path_that_was_empty_before() {
    let shown = critical_path_diff(&[], &names(&["a", "b", "a"]));
    assert!(shown.contains("    1  —       a     \n"));
    assert!(shown.ends_with("\n\n  removed: (none)\n  added:   a, b, a\n"));
}

#[test]
fn columns_are_as_wide_as_the_longest_name_up_to_28() {
    let exact = "abcdefghijklmnopqrstuvwxyzab";
    let long = "abcdefghijklmnopqrstuvwxyzabc";
    let shown = critical_path_diff(&names(&[exact]), &names(&[long]));
    assert!(shown.contains(&format!(
        "    1  {}  {}\n",
        exact, "abcdefghijklmnopqrstuvwxyza…"
    )));
    assert!(shown.contains(&format!("  ───  {}  {}\n", "─".repeat(28), "─".repeat(28))));
    assert!(shown.ends_with(&format!("  removed: {}\n  added:   {}\n", exact, long)));
}

#[test]
fn widest_row_has_82_columns() {
    let long = "abcdefghijklmnopqrstuvwxyzabcdef";
    let shown = critical_path_diff(&names(&[long]), &names(&[long]));
    let widest = shown.lines().skip(2).take(3).map(|l| l.chars().count()).max();
    assert_eq!(widest, Some(82));
}

#[test]
fn swapped_paths_swap_columns() {
    let one = names(&["a", "b", "long-name"]);
    let other = names(&["b", "b"]);
    let there = critical_path_diff(&one, &other);
    let back = critical_path_diff(&other, &one);
    assert!(there.contains("    1  a          b        \n"));
    assert!(back.contains("    1  b          a        \n"));
    assert!(there.contains("    2  b          b          ✓ same position\n"));
    assert!(back.contains("    2  b          b          ✓ same position\n"));
    assert!(there.ends_with("\n  removed: a, long-name\n  added:   (none)\n"));
    assert!(back.ends_with("\n  removed: (none)\n  added:   a, long-name\n"));
}

#[test]
fn width_counts_characters() {
    let shown = critical_path_diff(&names(&["ééééééé"]), &names(&["x"]));
    assert!(shown.contains("    1  ééééééé  x      \n"));
}

#[test]
fn every_position_has_an_aligned_row() {
    let before: Vec<String> = (0..1200).map(|i| format!("crate-{}", i)).collect();
    let after: Vec<String> = (0..1000).map(|i| format!("crate-{}", i + 1)).collect();
    let shown = critical_path_diff(&before, &after);
    let lines: Vec<&str> = shown.lines().collect();
    assert_eq!(lines[0], "Critical path: 1200 → 1000 nodes (-200)");
    // Four digits of position, and names of up to ten characters.
    assert_eq!(lines[2], format!("  {:>4}  {:<10}  {:<10}", "#", "before", "after"));
    for i in 0..1200 {
        let right = if i < 1000 { after[i].as_str() } else { "—" };
        let expected = format!("  {:>4}  {:<10}  {:<10}", i + 1, before[i], right);
        assert_eq!(lines[4 + i], expected);
        assert_eq!(lines[4 + i].chars().count(), 6 + 4 + 20);
    }
}

#[test]
fn truncation() {
    assert_eq!(truncate("serde", 5), "serde");
    assert_eq!(truncate("serde", 4), "ser…");
    assert_eq!(truncate("serde", 2), "s…");
    assert_eq!(truncate("serde", 1), "…");
    assert_eq!(truncate("serde", 0), "…");
    assert_eq!(truncate("", 0), "");
    assert_eq!(truncate("→→→", 2), "→…");
    assert_eq!(truncate(&truncate("serde_json", 6), 6), truncate("serde_json", 6));
}
