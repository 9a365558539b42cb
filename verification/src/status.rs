//! Installation status reporting: what the manager answers when asked
//! whether the plugin is installed, and on which branch.

use vstd::prelude::*;
use crate::paths::AddonPaths;
use crate::text::{trim_spec, trim_string};

verus! {

/// What an invocation of the external version-control client produced:
/// its exit status and its captured output streams.
pub struct CmdOutput {
    pub success: bool,
    pub stdout: String,
    pub stderr: String,
}

/// A snapshot of the plugin's presence on disk, computed fresh on every query.
pub struct InstallStatus {
    pub installed: bool,
    pub path: String,
    pub branch: Option<String>,
    pub last_updated: Option<String>,
}

/// The view of an optional string.
pub open spec fn opt_view(o: Option<String>) -> Option<Seq<char>> {
    match o {
        Some(s) => Some(s@),
        None => None,
    }
}

/// What an optional metadata field of the status reports: the trimmed output
/// of the client query, but only when the plugin is installed, tracked, the
/// query was run, and it succeeded. In every other case the field is unset —
/// a failed or missing query never fails the status check.
pub open spec fn metadata_field(
    installed: bool,
    git_present: bool,
    query: Option<CmdOutput>,
) -> Option<Seq<char>> {
    match query {
        Some(o) => if installed && git_present && o.success {
            Some(trim_spec(o.stdout@))
        } else {
            None
        },
        None => None,
    }
}

/// Builds the installation status from what the host observed on disk:
/// whether the plugin directory exists, whether it holds version-control
/// metadata, and what the two optional client queries (current branch,
/// last-commit age) returned, if they were run at all.
pub fn check_installation(
    paths: &AddonPaths,
    addon_exists: bool,
    git_present: bool,
    branch_query: Option<CmdOutput>,
    updated_query: Option<CmdOutput>,
) -> (r: InstallStatus)
    ensures
        r.installed == addon_exists,
        r.path@ == paths.addons@,
        opt_view(r.branch) == metadata_field(addon_exists, git_present, branch_query),
        opt_view(r.last_updated) == metadata_field(addon_exists, git_present, updated_query),
        !addon_exists ==> r.branch is None && r.last_updated is None,
{
    let branch: Option<String> = match branch_query {
        Some(o) => if addon_exists && git_present && o.success {
            Some(trim_string(o.stdout.as_str()))
        } else {
            None
        },
        None => None,
    };
    let last_updated: Option<String> = match updated_query {
        Some(o) => if addon_exists && git_present && o.success {
            Some(trim_string(o.stdout.as_str()))
        } else {
            None
        },
        None => None,
    };
    InstallStatus {
        installed: addon_exists,
        path: paths.addons.clone(),
        branch,
        last_updated,
    }
}

} // verus!
