use grep_lite::clamp_radius;
use grep_lite::input::resolve_input;
use grep_lite::lines::split_lines;
use grep_lite::matcher::find_matches;
use grep_lite::matcher::MatchMode;
use grep_lite::render::render_report;
use grep_lite::render::to_decimal;
use grep_lite::run_search;
use grep_lite::text::substring_contains;
use grep_lite::window::build_window;
use grep_lite::window::build_windows;
use grep_lite::GrepError;

fn sep() -> String {
    let mut s = "-".repeat(50);
    s.push('\n');
    s
}

fn sample_lines() -> Vec<String> {
    vec![
        "alpha".to_string(),
        "beta".to_string(),
        "alpha again".to_string(),
        "gamma".to_string(),
    ]
}

#[test]
fn split_basic() {
    let lines = split_lines("alpha\nbeta\ngamma");
    assert_eq!(lines, vec!["alpha".to_string(), "beta".to_string(), "gamma".to_string()]);
}

#[test]
fn split_trailing_newline() {
    let lines = split_lines("alpha\nbeta\n");
    assert_eq!(lines, vec!["alpha".to_string(), "beta".to_string()]);
}

#[test]
fn split_carriage_return() {
    let lines = split_lines("alpha\r\nbeta\r\n");
    assert_eq!(lines, vec!["alpha".to_string(), "beta".to_string()]);
}

#[test]
fn split_empty() {
    let lines = split_lines("");
    assert!(lines.is_empty());
}

#[test]
fn split_bare_carriage_return_kept() {
    let lines = split_lines("alpha\r");
    assert_eq!(lines, vec!["alpha\r".to_string()]);
}

#[test]
fn substring_hits_and_misses() {
    assert!(substring_contains("alpha again", "alpha"));
    assert!(substring_contains("alpha", "alpha"));
    assert!(!substring_contains("alpha", "alphas"));
    assert!(!substring_contains("beta", "alpha"));
    assert!(substring_contains("anything", ""));
    assert!(substring_contains("", ""));
    assert!(!substring_contains("", "a"));
}

#[test]
fn decimal_rendering() {
    assert_eq!(to_decimal(0), "0");
    assert_eq!(to_decimal(7), "7");
    assert_eq!(to_decimal(10), "10");
    assert_eq!(to_decimal(123), "123");
    assert_eq!(to_decimal(90512), "90512");
}

#[test]
fn clamp_radius_negative_is_zero() {
    assert_eq!(clamp_radius(-5), 0);
    assert_eq!(clamp_radius(0), 0);
    assert_eq!(clamp_radius(3), 3);
}

#[test]
fn scenario_a_matches_and_windows() {
    let lines = sample_lines();
    let ms = find_matches(&lines, &"alpha".to_string(), MatchMode::Substring).unwrap();
    assert_eq!(ms, vec![0usize, 2]);

    let ws = build_windows(&lines, &ms, 1);
    assert_eq!(ws.len(), 2);
    assert_eq!(
        ws[0].entries,
        vec![(0usize, "alpha".to_string()), (1usize, "beta".to_string())]
    );
    assert_eq!(
        ws[1].entries,
        vec![
            (1usize, "beta".to_string()),
            (2usize, "alpha again".to_string()),
            (3usize, "gamma".to_string()),
        ]
    );
}

#[test]
fn scenario_a_full_report() {
    let input = "alpha\nbeta\nalpha again\ngamma";
    let report = run_search(input, &"alpha".to_string(), MatchMode::Substring, 1).unwrap();
    let expected = format!(
        "{}{}{}{}{}{}{}",
        sep(),
        "Match_1. line_0. >> alpha\nMatch_1. line_1. > beta\n",
        sep(),
        "Match_2. line_1. >> beta\n",
        "Match_2. line_2. > alpha again\nMatch_2. line_3. >> gamma\n",
        sep(),
        ""
    );
    assert_eq!(report, expected);
}

#[test]
fn scenario_b_no_matches() {
    let lines = sample_lines();
    let ms = find_matches(&lines, &"zzz".to_string(), MatchMode::Substring).unwrap();
    assert!(ms.is_empty());

    let input = "alpha\nbeta\nalpha again\ngamma";
    let report = run_search(input, &"zzz".to_string(), MatchMode::Substring, 1).unwrap();
    assert_eq!(report, sep());
}

#[test]
fn scenario_c_radius_zero() {
    let lines = vec!["one".to_string(), "two".to_string(), "three".to_string()];
    let ms = find_matches(&lines, &"two".to_string(), MatchMode::Substring).unwrap();
    assert_eq!(ms, vec![1usize]);

    let w = build_window(&lines, 1, 0);
    assert_eq!(w.entries, vec![(1usize, "two".to_string())]);

    let report = run_search("one\ntwo\nthree", &"two".to_string(), MatchMode::Substring, 0)
        .unwrap();
    let expected = format!("{}Match_1. line_1. > two\n{}", sep(), sep());
    assert_eq!(report, expected);
}

#[test]
fn boundary_center_mismatch() {
    // A match at the first line with radius 2: the window is clamped to
    // three lines and the center position 3 / 2 == 1 marks line 1, not the
    // matched line 0.
    let input = "alpha\nbeta\ngamma\ndelta\nepsilon";
    let report = run_search(input, &"alpha".to_string(), MatchMode::Substring, 2).unwrap();
    let expected = format!(
        "{}Match_1. line_0. >> alpha\nMatch_1. line_1. > beta\nMatch_1. line_2. >> gamma\n{}",
        sep(),
        sep()
    );
    assert_eq!(report, expected);
}

#[test]
fn scenario_d_invalid_pattern() {
    let lines = sample_lines();
    let r = find_matches(&lines, &"a[".to_string(), MatchMode::Pattern);
    assert_eq!(r, Err(GrepError::InvalidPattern));

    let r2 = run_search("alpha\nbeta", &"a[".to_string(), MatchMode::Pattern, 1);
    assert_eq!(r2, Err(GrepError::InvalidPattern));
}

#[test]
fn scenario_e_unreadable_file_falls_back_to_literal() {
    let r = resolve_input(None, Some("no/such/file.txt".to_string()), None);
    assert_eq!(r, Ok("no/such/file.txt".to_string()));
}

#[test]
fn resolve_input_precedence() {
    let r = resolve_input(
        Some("piped text".to_string()),
        Some("arg".to_string()),
        Some("file".to_string()),
    );
    assert_eq!(r, Ok("piped text".to_string()));

    let r2 = resolve_input(None, Some("arg".to_string()), Some("file".to_string()));
    assert_eq!(r2, Ok("file".to_string()));

    let r3 = resolve_input(None, None, None);
    assert_eq!(r3, Err(GrepError::InputUnavailable));
}

#[test]
fn regex_mode_anchored() {
    let lines = vec!["alpha".to_string(), "balpha".to_string()];
    let ms = find_matches(&lines, &"^a".to_string(), MatchMode::Pattern).unwrap();
    assert_eq!(ms, vec![0usize]);
}

#[test]
fn regex_mode_report() {
    let report = run_search(
        "alpha\nbeta\nalpha again\ngamma",
        &"al.ha".to_string(),
        MatchMode::Pattern,
        0,
    )
    .unwrap();
    let expected = format!(
        "{}Match_1. line_0. > alpha\n{}Match_2. line_2. > alpha again\n{}",
        sep(),
        sep(),
        sep()
    );
    assert_eq!(report, expected);
}

#[test]
fn negative_radius_is_radius_zero() {
    let a = run_search("one\ntwo\nthree", &"two".to_string(), MatchMode::Substring, -3)
        .unwrap();
    let b = run_search("one\ntwo\nthree", &"two".to_string(), MatchMode::Substring, 0)
        .unwrap();
    assert_eq!(a, b);
}

#[test]
fn rerun_is_byte_identical() {
    let input = "alpha\nbeta\nalpha again\ngamma";
    let a = run_search(input, &"alpha".to_string(), MatchMode::Substring, 1).unwrap();
    let b = run_search(input, &"alpha".to_string(), MatchMode::Substring, 1).unwrap();
    assert_eq!(a, b);
}

#[test]
fn overlapping_windows_stay_separate() {
    let lines = vec![
        "match one".to_string(),
        "middle".to_string(),
        "match two".to_string(),
    ];
    let ms = find_matches(&lines, &"match".to_string(), MatchMode::Substring).unwrap();
    assert_eq!(ms, vec![0usize, 2]);
    let ws = build_windows(&lines, &ms, 2);
    assert_eq!(ws.len(), 2);
    assert_eq!(ws[0].entries.len(), 3);
    assert_eq!(ws[1].entries.len(), 3);
    assert_eq!(ws[0].entries, ws[1].entries);
}

#[test]
fn render_empty_window_list() {
    let ws = Vec::new();
    let report = render_report(&ws);
    assert_eq!(report, sep());
}

#[test]
fn empty_input_searches_no_lines() {
    let report = run_search("", &"alpha".to_string(), MatchMode::Substring, 1).unwrap();
    assert_eq!(report, sep());
}
