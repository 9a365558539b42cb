use serpens_manager::branches::{fetch_branches, parse_branch_names};
use serpens_manager::status::CmdOutput;
use serpens_manager::text::trim_string;

fn out(success: bool, stdout: &str, stderr: &str) -> CmdOutput {
    CmdOutput { success, stdout: stdout.to_string(), stderr: stderr.to_string() }
}

#[test]
fn listing_lines_parse_to_branch_names() {
    let stdout = "11aa\trefs/heads/main\n22bb\trefs/heads/feature-x\n33cc\trefs/heads/dev\n";
    let names = parse_branch_names(stdout);
    assert_eq!(names, vec!["main", "feature-x", "dev"]);
}

#[test]
fn malformed_lines_are_ignored() {
    let stdout = "no tab here\n11aa\trefs/heads/main\ntwo\ttabs\there\n\n";
    let names = parse_branch_names(stdout);
    assert_eq!(names, vec!["main"]);
}

#[test]
fn names_outside_refs_heads_are_kept_whole() {
    let names = parse_branch_names("11aa\trefs/tags/v1\n22bb\trefs/heads/main");
    assert_eq!(names, vec!["refs/tags/v1", "main"]);
}

#[test]
fn carriage_returns_are_stripped_from_line_ends() {
    let names = parse_branch_names("11aa\trefs/heads/main\r\n22bb\trefs/heads/dev\r\n");
    assert_eq!(names, vec!["main", "dev"]);
}

#[test]
fn successful_listing_returns_branches_in_order() {
    let r = fetch_branches(&out(true, "11aa\trefs/heads/main\n22bb\trefs/heads/dev\n", ""));
    let bs = r.unwrap();
    assert_eq!(bs.len(), 2);
    assert_eq!(bs[0].name, "main");
    assert_eq!(bs[1].name, "dev");
    assert!(bs[0].last_commit.is_none());
    assert!(bs[1].last_commit.is_none());
}

#[test]
fn zero_branches_is_a_failure_not_an_empty_list() {
    let r = fetch_branches(&out(true, "", ""));
    assert_eq!(r.err().unwrap(), "No branches found");
}

#[test]
fn listing_with_only_malformed_output_is_a_failure() {
    let r = fetch_branches(&out(true, "nothing useful\nat all\n", ""));
    assert_eq!(r.err().unwrap(), "No branches found");
}

#[test]
fn client_failure_surfaces_trimmed_stderr() {
    let r = fetch_branches(&out(false, "", "fatal: unable to access remote\n"));
    assert_eq!(r.err().unwrap(), "Git error: fatal: unable to access remote");
}

#[test]
fn trim_removes_surrounding_whitespace_only() {
    assert_eq!(trim_string(" \t main \r\n"), "main");
    assert_eq!(trim_string("no change"), "no change");
    assert_eq!(trim_string("  "), "");
    assert_eq!(trim_string("a  b"), "a  b");
}
