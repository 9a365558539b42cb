use serpens_manager::model::{CloneOutcome, FileEntry, PluginState};
use serpens_manager::ops::{
    backup_installation, clone_args, pull_latest, pull_precheck, repo_url, restore_backup,
    switch_branch, BackupPlan,
};
use serpens_manager::paths::resolve_paths;
use serpens_manager::status::{check_installation, CmdOutput};

fn out(success: bool, stdout: &str, stderr: &str) -> CmdOutput {
    CmdOutput { success, stdout: stdout.to_string(), stderr: stderr.to_string() }
}

fn paths_for(version: &str) -> serpens_manager::paths::AddonPaths {
    resolve_paths(&Some("C:/Users/u/AppData/Roaming".to_string()), version).unwrap()
}

fn entry(path: &str, data: &[u8]) -> FileEntry {
    FileEntry { path: path.to_string(), data: data.to_vec() }
}

fn tree_pairs(t: &[FileEntry]) -> Vec<(String, Vec<u8>)> {
    t.iter().map(|e| (e.path.clone(), e.data.clone())).collect()
}

#[test]
fn resolve_paths_without_app_data_root_fails() {
    let r = resolve_paths(&None, "5.0");
    assert_eq!(r.err().unwrap(), "APPDATA not found");
}

#[test]
fn resolve_paths_builds_all_three_directories() {
    let p = paths_for("5.0");
    assert_eq!(p.addons, "C:/Users/u/AppData/Roaming/Blender Foundation/Blender/5.0/scripts/addons");
    assert_eq!(
        p.addon,
        "C:/Users/u/AppData/Roaming/Blender Foundation/Blender/5.0/scripts/addons/scripting_nodes"
    );
    assert_eq!(
        p.backup,
        "C:/Users/u/AppData/Roaming/Blender Foundation/Blender/5.0/scripts/addons/_serpens_original_backup"
    );
}

#[test]
fn check_installation_absent_reports_nothing() {
    let p = paths_for("5.0");
    let st = check_installation(&p, false, false, None, None);
    assert!(!st.installed);
    assert_eq!(st.path, p.addons);
    assert!(st.branch.is_none());
    assert!(st.last_updated.is_none());
}

#[test]
fn check_installation_absent_ignores_any_query_output() {
    let p = paths_for("4.2");
    let st = check_installation(&p, false, true, Some(out(true, "main\n", "")), None);
    assert!(!st.installed);
    assert!(st.branch.is_none());
    assert!(st.last_updated.is_none());
}

#[test]
fn check_installation_tracked_reports_branch_and_age() {
    let p = paths_for("5.0");
    let st = check_installation(
        &p,
        true,
        true,
        Some(out(true, "main\n", "")),
        Some(out(true, "2 days ago\n", "")),
    );
    assert!(st.installed);
    assert_eq!(st.branch, Some("main".to_string()));
    assert_eq!(st.last_updated, Some("2 days ago".to_string()));
}

#[test]
fn check_installation_untracked_leaves_metadata_unset() {
    let p = paths_for("5.0");
    let st = check_installation(&p, true, false, None, None);
    assert!(st.installed);
    assert!(st.branch.is_none());
    assert!(st.last_updated.is_none());
}

#[test]
fn check_installation_swallows_failed_queries() {
    let p = paths_for("5.0");
    let st = check_installation(
        &p,
        true,
        true,
        Some(out(false, "", "fatal: not a git repository")),
        Some(out(false, "", "boom")),
    );
    assert!(st.installed);
    assert!(st.branch.is_none());
    assert!(st.last_updated.is_none());
}

#[test]
fn backup_without_installation_fails() {
    let p = paths_for("5.0");
    let r = backup_installation(&p, false, false);
    assert_eq!(r.err().unwrap(), "No installation found to backup");
}

#[test]
fn backup_with_existing_backup_short_circuits() {
    let p = paths_for("5.0");
    let (plan, msg) = backup_installation(&p, true, true).unwrap();
    assert!(matches!(plan, BackupPlan::AlreadyExists));
    assert_eq!(msg, format!("Backup already exists: {}", p.backup));
}

#[test]
fn backup_fresh_asks_for_one_copy() {
    let p = paths_for("5.0");
    let (plan, msg) = backup_installation(&p, true, false).unwrap();
    assert!(matches!(plan, BackupPlan::CopyToBackup));
    assert_eq!(msg, p.backup);
}

#[test]
fn restore_without_backup_is_a_precondition_error() {
    let r = restore_backup(true, false);
    assert_eq!(r.err().unwrap(), "No backup found. Click 'Backup Your Serpens' first!");
}

#[test]
fn restore_with_backup_replaces_any_installation() {
    let plan = restore_backup(true, true).unwrap();
    assert!(plan.remove_addon_first);
    let plan = restore_backup(false, true).unwrap();
    assert!(!plan.remove_addon_first);
}

#[test]
fn clone_args_spell_a_shallow_single_branch_clone() {
    let p = paths_for("5.0");
    let args = clone_args("feature-x", &p);
    let expect = vec![
        "clone",
        "--branch",
        "feature-x",
        "--single-branch",
        "--depth",
        "1",
        "https://github.com/CoreyCorza/scripting_nodes.git",
    ];
    assert_eq!(args.len(), 8);
    for (i, e) in expect.iter().enumerate() {
        assert_eq!(&args[i], e);
    }
    assert_eq!(args[7], p.addon);
    assert_eq!(repo_url(), "https://github.com/CoreyCorza/scripting_nodes.git");
}

#[test]
fn switch_branch_surfaces_clone_failure_with_both_streams() {
    let p = paths_for("5.0");
    let r = switch_branch("dev", &p, &out(false, "some stdout", "fatal: nope"), false);
    assert_eq!(r.err().unwrap(), "Git clone failed:\nsome stdout\nfatal: nope");
}

#[test]
fn switch_branch_missing_marker_fails_despite_clone_success() {
    let p = paths_for("5.0");
    let r = switch_branch("dev", &p, &out(true, "done", "warn"), false);
    let msg = r.err().unwrap();
    assert_eq!(
        msg,
        format!(
            "Clone completed but __init__.py not found. The branch 'dev' may not contain the addon.\nPath: {}\nGit output:\ndonewarn",
            p.addon
        )
    );
}

#[test]
fn switch_branch_succeeds_with_marker() {
    let p = paths_for("5.0");
    let r = switch_branch("dev", &p, &out(true, "", ""), true);
    assert_eq!(r.unwrap(), true);
}

#[test]
fn pull_requires_installation_and_surfaces_stderr() {
    assert_eq!(pull_precheck(false).err().unwrap(), "No installation found");
    assert!(pull_precheck(true).is_ok());
    assert_eq!(pull_latest(&out(true, "", "")).unwrap(), true);
    assert_eq!(pull_latest(&out(false, "", "error: conflict")).err().unwrap(), "error: conflict");
}

#[test]
fn backup_twice_copies_exactly_once() {
    let mut st = PluginState {
        addon: Some(vec![entry("__init__.py", b"code"), entry("sub/mod.py", b"more")]),
        backup: None,
    };
    let first = st.apply_backup().unwrap();
    assert!(first);
    let after_first = tree_pairs(st.backup.as_ref().unwrap());
    assert_eq!(after_first, tree_pairs(st.addon.as_ref().unwrap()));
    let second = st.apply_backup().unwrap();
    assert!(!second);
    let after_second = tree_pairs(st.backup.as_ref().unwrap());
    assert_eq!(after_second, after_first);
}

#[test]
fn existing_backup_is_never_overwritten() {
    let mut st = PluginState {
        addon: Some(vec![entry("__init__.py", b"v1")]),
        backup: Some(vec![entry("__init__.py", b"pristine")]),
    };
    let copied = st.apply_backup().unwrap();
    assert!(!copied);
    let kept = tree_pairs(st.backup.as_ref().unwrap());
    assert_eq!(kept, vec![("__init__.py".to_string(), b"pristine".to_vec())]);
}

#[test]
fn backup_without_installation_state_fails() {
    let mut st = PluginState { addon: None, backup: None };
    assert_eq!(st.apply_backup().err().unwrap(), "No installation found to backup");
    assert!(st.backup.is_none());
}

#[test]
fn restore_state_without_backup_fails() {
    let mut st = PluginState { addon: Some(vec![entry("__init__.py", b"x")]), backup: None };
    assert_eq!(
        st.apply_restore().err().unwrap(),
        "No backup found. Click 'Backup Your Serpens' first!"
    );
}

#[test]
fn restore_leaves_installation_identical_to_backup() {
    let backup = vec![entry("__init__.py", b"original"), entry("data.bin", b"\x00\x01")];
    let mut st = PluginState {
        addon: Some(vec![entry("__init__.py", b"hacked"), entry("extra.py", b"junk")]),
        backup: Some(backup),
    };
    assert!(st.apply_restore().unwrap());
    let restored = tree_pairs(st.addon.as_ref().unwrap());
    let kept = tree_pairs(st.backup.as_ref().unwrap());
    assert_eq!(restored, kept);
    assert_eq!(restored[0], ("__init__.py".to_string(), b"original".to_vec()));
    assert_eq!(restored[1], ("data.bin".to_string(), b"\x00\x01".to_vec()));
}

#[test]
fn switch_to_branch_without_marker_fails_and_leaves_clone_on_disk() {
    let p = paths_for("5.0");
    let cloned = vec![entry("README.md", b"not the plugin")];
    let mut st = PluginState { addon: Some(vec![entry("__init__.py", b"old")]), backup: None };
    let outcome = CloneOutcome { output: out(true, "", ""), tree: Some(cloned) };
    let r = st.apply_switch("empty-branch", &p, outcome);
    assert!(r.is_err());
    let left = tree_pairs(st.addon.as_ref().unwrap());
    assert_eq!(left, vec![("README.md".to_string(), b"not the plugin".to_vec())]);
}

#[test]
fn switch_to_branch_with_marker_installs_that_tree() {
    let p = paths_for("5.0");
    let cloned = vec![entry("__init__.py", b"feature code"), entry("nodes.py", b"n")];
    let mut st = PluginState { addon: None, backup: None };
    let outcome = CloneOutcome { output: out(true, "", ""), tree: Some(cloned) };
    let r = st.apply_switch("feature-x", &p, outcome);
    assert_eq!(r.unwrap(), true);
    let installed = tree_pairs(st.addon.as_ref().unwrap());
    assert_eq!(installed[0], ("__init__.py".to_string(), b"feature code".to_vec()));
    assert_eq!(installed.len(), 2);
}
