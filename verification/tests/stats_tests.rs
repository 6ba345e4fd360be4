//! The lines of a diff's statistics.

use git_repos_analysis::stats::parse_stats_line;

#[test]
fn happy_path_normal_line() {
    let result =
        parse_stats_line("src/main.rs          |  42");
    assert_eq!(result, Some("src/main.rs".to_string()));
}

#[test]
fn change_count_exactly_999_is_included() {
    let result = parse_stats_line("src/foo.rs | 999");
    assert_eq!(result, Some("src/foo.rs".to_string()));
}

#[test]
fn change_count_exactly_1000_is_excluded() {
    let result = parse_stats_line("src/foo.rs | 1000");
    assert_eq!(result, None);
}

#[test]
fn change_count_zero_is_included() {
    let result = parse_stats_line("src/foo.rs | 0");
    assert_eq!(result, Some("src/foo.rs".to_string()));
}

#[test]
fn lock_file_yarn_lock_filtered() {
    let result = parse_stats_line("yarn.lock    |   5");
    assert_eq!(result, None);
}

#[test]
fn lock_file_cargo_toml_filtered() {
    let result = parse_stats_line("Cargo.toml   |  10");
    assert_eq!(result, None);
}

#[test]
fn lock_file_nested_poetry_lock_filtered() {
    let result =
        parse_stats_line("some/nested/poetry.lock  |  3");
    assert_eq!(result, None);
}

#[test]
fn lock_file_package_lock_json_filtered() {
    let result =
        parse_stats_line("package-lock.json  | 20");
    assert_eq!(result, None);
}

#[test]
fn lock_file_terraform_lock_filtered() {
    let result =
        parse_stats_line(".terraform.lock.hcl | 1");
    assert_eq!(result, None);
}

#[test]
fn non_lock_file_with_lock_like_prefix_is_included() {
    let result =
        parse_stats_line("src/lock_utils.rs  | 5");
    assert_eq!(result, Some("src/lock_utils.rs".to_string()));
}

#[test]
fn non_numeric_change_count_returns_none() {
    let result = parse_stats_line("src/foo.rs | +--");
    assert_eq!(result, None);
}

#[test]
fn line_without_pipe_returns_none() {
    let result = parse_stats_line("src/foo.rs  42");
    assert_eq!(result, None);
}

#[test]
fn empty_line_returns_none() {
    let result = parse_stats_line("");
    assert_eq!(result, None);
}

#[test]
fn listed_line_as_git_writes_it() {
    let line = " src/main.rs          |  42 ++++++++--";
    assert_eq!(parse_stats_line(line), Some("src/main.rs".to_string()));
}

#[test]
fn leading_bars_are_passed_over() {
    assert_eq!(parse_stats_line("|| a.rs | 7"), Some("a.rs".to_string()));
}

#[test]
fn bar_without_a_count_returns_none() {
    assert_eq!(parse_stats_line("src/foo.rs |   "), None);
}

#[test]
fn count_with_a_plus_sign_is_a_number() {
    assert_eq!(parse_stats_line("src/foo.rs | +5"), Some("src/foo.rs".to_string()));
}

#[test]
fn count_beyond_32_bits_returns_none() {
    assert_eq!(parse_stats_line("src/foo.rs | 4294967296"), None);
    assert_eq!(parse_stats_line("src/foo.rs | 4294967295"), None);
}

#[test]
fn binary_file_line_returns_none() {
    assert_eq!(parse_stats_line(" logo.png | Bin 0 -> 512 bytes"), None);
}

#[test]
fn lock_name_as_part_of_a_longer_name_is_listed() {
    assert_eq!(parse_stats_line("myyarn.lock | 5"), Some("myyarn.lock".to_string()));
    assert_eq!(parse_stats_line("yarn.lock.bak | 5"), Some("yarn.lock.bak".to_string()));
    assert_eq!(parse_stats_line("yarn.lock/a.rs | 5"), Some("yarn.lock/a.rs".to_string()));
}

#[test]
fn nested_manifest_is_filtered() {
    assert_eq!(parse_stats_line("crates/core/Cargo.toml | 5"), None);
}

#[test]
fn lock_names_are_matched_exactly() {
    assert_eq!(parse_stats_line("CargoXtoml | 5"), Some("CargoXtoml".to_string()));
    assert_eq!(parse_stats_line("Cargo/toml | 5"), Some("Cargo/toml".to_string()));
    assert_eq!(parse_stats_line("yarnXlock | 5"), Some("yarnXlock".to_string()));
}
