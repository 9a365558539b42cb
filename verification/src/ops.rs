//! Decision logic of the manager's operations. Each function takes what the
//! host observed (directory existence, a client invocation's outcome) and
//! decides the result and the next filesystem action; the host performs the
//! action and never decides anything itself.

use vstd::prelude::*;
use crate::paths::AddonPaths;
use crate::status::CmdOutput;

verus! {

/// What the backup operation asks the host to do.
pub enum BackupPlan {
    /// The canonical backup is already on disk; nothing is copied.
    AlreadyExists,
    /// Copy the installed directory to the backup location.
    CopyToBackup,
}

/// Decides the backup operation. Fails when no installation exists; succeeds
/// without copying when the canonical backup already exists (the reported
/// message names the existing backup); otherwise asks for one full copy and
/// reports the backup path.
pub fn backup_installation(
    paths: &AddonPaths,
    addon_exists: bool,
    backup_exists: bool,
) -> (r: Result<(BackupPlan, String), String>)
    ensures
        match r {
            Ok(p) => {
                &&& addon_exists
                &&& (p.0 is AlreadyExists <==> backup_exists)
                &&& backup_exists ==> p.1@ == "Backup already exists: "@ + paths.backup@
                &&& !backup_exists ==> p.1@ == paths.backup@
            },
            Err(m) => {
                &&& !addon_exists
                &&& m@ == "No installation found to backup"@
            },
        },
{
    if !addon_exists {
        Err(String::from_str("No installation found to backup"))
    } else if backup_exists {
        let mut msg = String::from_str("Backup already exists: ");
        msg.append(paths.backup.as_str());
        Ok((BackupPlan::AlreadyExists, msg))
    } else {
        Ok((BackupPlan::CopyToBackup, paths.backup.clone()))
    }
}

/// What the restore operation asks the host to do: remove the installed
/// directory first when one exists, then copy the backup over it.
pub struct RestorePlan {
    pub remove_addon_first: bool,
}

/// Decides the restore operation. Fails, with guidance to create a backup
/// first, when no backup exists; otherwise the installed directory is fully
/// replaced by the backup's contents, never merged.
pub fn restore_backup(addon_exists: bool, backup_exists: bool) -> (r: Result<
    RestorePlan,
    String,
>)
    ensures
        match r {
            Ok(p) => {
                &&& backup_exists
                &&& p.remove_addon_first == addon_exists
            },
            Err(m) => {
                &&& !backup_exists
                &&& m@ == "No backup found. Click 'Backup Your Serpens' first!"@
            },
        },
{
    if !backup_exists {
        Err(String::from_str("No backup found. Click 'Backup Your Serpens' first!"))
    } else {
        Ok(RestorePlan { remove_addon_first: addon_exists })
    }
}

/// The remote repository every clone and branch listing goes to.
pub fn repo_url() -> (r: &'static str)
    ensures
        r@ == "https://github.com/CoreyCorza/scripting_nodes.git"@,
{
    "https://github.com/CoreyCorza/scripting_nodes.git"
}

/// The argument list of the shallow, single-branch clone of `branch` into
/// the plugin directory.
pub fn clone_args(branch: &str, paths: &AddonPaths) -> (r: Vec<String>)
    ensures
        r@.len() == 8,
        r@[0]@ == "clone"@,
        r@[1]@ == "--branch"@,
        r@[2]@ == branch@,
        r@[3]@ == "--single-branch"@,
        r@[4]@ == "--depth"@,
        r@[5]@ == "1"@,
        r@[6]@ == "https://github.com/CoreyCorza/scripting_nodes.git"@,
        r@[7]@ == paths.addon@,
{
    let mut args: Vec<String> = Vec::new();
    args.push(String::from_str("clone"));
    args.push(String::from_str("--branch"));
    args.push(String::from_str(branch));
    args.push(String::from_str("--single-branch"));
    args.push(String::from_str("--depth"));
    args.push(String::from_str("1"));
    args.push(String::from_str(repo_url()));
    args.push(paths.addon.clone());
    args
}

/// The failure message when the clone itself reported a non-success exit.
pub open spec fn clone_failed_msg(out: CmdOutput) -> Seq<char> {
    "Git clone failed:\n"@ + out.stdout@ + "\n"@ + out.stderr@
}

/// The failure message when the clone succeeded but the cloned directory
/// lacks the plugin's marker file.
pub open spec fn marker_missing_msg(branch: Seq<char>, addon: Seq<char>, out: CmdOutput) -> Seq<
    char,
> {
    "Clone completed but __init__.py not found. The branch '"@ + branch
        + "' may not contain the addon.\nPath: "@ + addon + "\nGit output:\n"@ + out.stdout@
        + out.stderr@
}

/// Judges the outcome of a branch switch, after the host removed the old
/// installation and ran the clone. A non-success clone fails with both output
/// streams; a successful clone whose directory lacks the marker file fails
/// too — the switch is only a success when the plugin's code actually
/// arrived. The host leaves the cloned directory in place on a marker
/// failure, for diagnostic inspection.
pub fn switch_branch(
    branch: &str,
    paths: &AddonPaths,
    output: &CmdOutput,
    marker_exists: bool,
) -> (r: Result<bool, String>)
    ensures
        match r {
            Ok(b) => b && output.success && marker_exists,
            Err(m) => {
                &&& !output.success || !marker_exists
                &&& !output.success ==> m@ == clone_failed_msg(*output)
                &&& output.success && !marker_exists ==> m@ == marker_missing_msg(
                    branch@,
                    paths.addon@,
                    *output,
                )
            },
        },
{
    if !output.success {
        let mut msg = String::from_str("Git clone failed:\n");
        msg.append(output.stdout.as_str());
        msg.append("\n");
        msg.append(output.stderr.as_str());
        Err(msg)
    } else if !marker_exists {
        let mut msg = String::from_str("Clone completed but __init__.py not found. The branch '");
        msg.append(branch);
        msg.append("' may not contain the addon.\nPath: ");
        msg.append(paths.addon.as_str());
        msg.append("\nGit output:\n");
        msg.append(output.stdout.as_str());
        msg.append(output.stderr.as_str());
        Err(msg)
    } else {
        Ok(true)
    }
}

/// Gate of the pull operation: it may only run against an existing
/// installation.
pub fn pull_precheck(addon_exists: bool) -> (r: Result<(), String>)
    ensures
        match r {
            Ok(u) => addon_exists,
            Err(m) => !addon_exists && m@ == "No installation found"@,
        },
{
    if addon_exists {
        Ok(())
    } else {
        Err(String::from_str("No installation found"))
    }
}

/// Judges the outcome of the pull: success passes through, and a failure
/// surfaces the client's stderr verbatim.
pub fn pull_latest(output: &CmdOutput) -> (r: Result<bool, String>)
    ensures
        match r {
            Ok(b) => b && output.success,
            Err(m) => !output.success && m@ == output.stderr@,
        },
{
    if output.success {
        Ok(true)
    } else {
        Err(output.stderr.clone())
    }
}

} // verus!
