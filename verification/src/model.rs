//! The installation state machine: the effect of backup, restore and
//! branch-switch on what is on disk, modeled as directory snapshots. A
//! snapshot lists the plugin directory's files with their relative paths
//! and contents; the host mirrors each transition with real filesystem
//! work, and the laws here pin the transitions down.

use vstd::prelude::*;
use crate::ops;
use crate::paths::AddonPaths;
use crate::status::CmdOutput;
use crate::text::str_eq;

verus! {

/// One file of a directory snapshot: its path relative to the directory
/// root, and its contents.
pub struct FileEntry {
    pub path: String,
    pub data: Vec<u8>,
}

/// The view of a snapshot: each file as its path and contents.
pub open spec fn tree_view(t: Seq<FileEntry>) -> Seq<(Seq<char>, Seq<u8>)> {
    t.map_values(|e: FileEntry| (e.path@, e.data@))
}

/// The two directories the state machine governs, per target version:
/// the installed plugin directory and its canonical backup, each either
/// absent or a snapshot of its contents.
pub struct PluginState {
    pub addon: Option<Vec<FileEntry>>,
    pub backup: Option<Vec<FileEntry>>,
}

impl PluginState {
    /// The installed directory's contents, when installed.
    pub open spec fn addon_view(self) -> Option<Seq<(Seq<char>, Seq<u8>)>> {
        match self.addon {
            Some(t) => Some(tree_view(t@)),
            None => None,
        }
    }

    /// The backup's contents, when one exists.
    pub open spec fn backup_view(self) -> Option<Seq<(Seq<char>, Seq<u8>)>> {
        match self.backup {
            Some(t) => Some(tree_view(t@)),
            None => None,
        }
    }
}

/// The backup transition on views: a fresh copy when an installation exists
/// and no backup does; in every other case the state is untouched.
pub open spec fn backup_step(
    a: Option<Seq<(Seq<char>, Seq<u8>)>>,
    b: Option<Seq<(Seq<char>, Seq<u8>)>>,
) -> (Option<Seq<(Seq<char>, Seq<u8>)>>, Option<Seq<(Seq<char>, Seq<u8>)>>) {
    match (a, b) {
        (Some(t), None) => (Some(t), Some(t)),
        _ => (a, b),
    }
}

/// The restore transition on views: the backup's contents fully replace the
/// installed directory; without a backup the state is untouched.
pub open spec fn restore_step(
    a: Option<Seq<(Seq<char>, Seq<u8>)>>,
    b: Option<Seq<(Seq<char>, Seq<u8>)>>,
) -> (Option<Seq<(Seq<char>, Seq<u8>)>>, Option<Seq<(Seq<char>, Seq<u8>)>>) {
    match b {
        Some(t) => (Some(t), Some(t)),
        None => (a, b),
    }
}

/// A second backup in a row changes nothing: the first call is the only
/// one that copies, and the backup is never overwritten afterwards.
pub proof fn lemma_backup_idempotent(
    a: Option<Seq<(Seq<char>, Seq<u8>)>>,
    b: Option<Seq<(Seq<char>, Seq<u8>)>>,
)
    ensures
        backup_step(backup_step(a, b).0, backup_step(a, b).1) == backup_step(a, b),
{
}

/// An existing backup is never overwritten: the backup transition leaves
/// it exactly as it is, whatever is installed.
pub proof fn lemma_backup_never_overwrites(
    a: Option<Seq<(Seq<char>, Seq<u8>)>>,
    b: Option<Seq<(Seq<char>, Seq<u8>)>>,
)
    requires
        b is Some,
    ensures
        backup_step(a, b).1 == b,
        backup_step(a, b).0 == a,
{
}

/// Once a backup exists, restore always leaves the installed directory
/// identical to the backup's contents, whatever was installed before, and
/// the backup itself is unchanged.
pub proof fn lemma_restore_replaces(
    a: Option<Seq<(Seq<char>, Seq<u8>)>>,
    b: Option<Seq<(Seq<char>, Seq<u8>)>>,
)
    requires
        b is Some,
    ensures
        restore_step(a, b).0 == b,
        restore_step(a, b).1 == b,
{
}

/// A copy of a file's contents.
fn clone_bytes(v: &Vec<u8>) -> (r: Vec<u8>)
    ensures
        r@ == v@,
{
    let mut out: Vec<u8> = Vec::new();
    let mut i: usize = 0;
    while i < v.len()
        invariant
            0 <= i <= v@.len(),
            out@ =~= v@.take(i as int),
        decreases v@.len() - i,
    {
        out.push(v[i]);
        i = i + 1;
    }
    proof {
        assert(v@.take(v@.len() as int) =~= v@);
    }
    out
}

/// A copy of a snapshot, file by file: the recursive copy the host mirrors
/// on disk, preserving every path and every file's contents.
pub fn clone_tree(t: &Vec<FileEntry>) -> (r: Vec<FileEntry>)
    ensures
        tree_view(r@) == tree_view(t@),
{
    let mut out: Vec<FileEntry> = Vec::new();
    let mut i: usize = 0;
    while i < t.len()
        invariant
            0 <= i <= t@.len(),
            tree_view(out@) =~= tree_view(t@).take(i as int),
        decreases t@.len() - i,
    {
        let e = FileEntry { path: t[i].path.clone(), data: clone_bytes(&t[i].data) };
        let ghost ge: FileEntry = e;
        let ghost po: Seq<FileEntry> = out@;
        out.push(e);
        i = i + 1;
        proof {
            assert(out@ == po.push(ge));
            assert(tree_view(out@) =~= tree_view(po).push((ge.path@, ge.data@)));
            assert(tree_view(t@).take(i as int) =~= tree_view(t@).take(i - 1).push(
                (t@[i - 1].path@, t@[i - 1].data@),
            ));
        }
    }
    proof {
        assert(tree_view(t@).take(t@.len() as int) =~= tree_view(t@));
    }
    out
}

/// The fixed filename whose presence confirms the plugin's code.
pub open spec fn marker_name() -> Seq<char> {
    "__init__.py"@
}

/// Whether a snapshot holds the plugin's marker file.
pub open spec fn tree_has_marker(t: Seq<(Seq<char>, Seq<u8>)>) -> bool {
    exists|k: int| 0 <= k < t.len() && t[k].0 == marker_name()
}

/// Whether the marker file stands in the snapshot.
pub fn has_marker(t: &Vec<FileEntry>) -> (r: bool)
    ensures
        r == tree_has_marker(tree_view(t@)),
{
    let mut i: usize = 0;
    while i < t.len()
        invariant
            0 <= i <= t@.len(),
            forall|k: int| 0 <= k < i ==> tree_view(t@)[k].0 != marker_name(),
        decreases t@.len() - i,
    {
        if str_eq(t[i].path.as_str(), "__init__.py") {
            proof {
                assert(tree_view(t@)[i as int].0 == marker_name());
            }
            return true;
        }
        proof {
            assert(tree_view(t@)[i as int].0 == t@[i as int].path@);
        }
        i = i + 1;
    }
    false
}

/// What a clone attempt produced: the client's outcome, and the directory
/// the attempt left on disk, if any.
pub struct CloneOutcome {
    pub output: CmdOutput,
    pub tree: Option<Vec<FileEntry>>,
}

/// Whether the clone outcome's directory holds the marker file.
pub open spec fn outcome_has_marker(c: CloneOutcome) -> bool {
    match c.tree {
        Some(t) => tree_has_marker(tree_view(t@)),
        None => false,
    }
}

/// The view of the directory a clone attempt left on disk.
pub open spec fn outcome_tree_view(c: CloneOutcome) -> Option<Seq<(Seq<char>, Seq<u8>)>> {
    match c.tree {
        Some(t) => Some(tree_view(t@)),
        None => None,
    }
}

impl PluginState {
    /// Performs the backup transition. Fails when nothing is installed;
    /// answers whether a copy was made, and makes one only when no backup
    /// existed yet.
    pub fn apply_backup(&mut self) -> (r: Result<bool, String>)
        ensures
            final(self).addon_view() == old(self).addon_view(),
            (final(self).addon_view(), final(self).backup_view()) == backup_step(
                old(self).addon_view(),
                old(self).backup_view(),
            ),
            match r {
                Ok(copied) => {
                    &&& old(self).addon is Some
                    &&& (copied <==> old(self).backup is None)
                    &&& copied ==> final(self).backup_view() == old(self).addon_view()
                    &&& !copied ==> final(self).backup_view() == old(self).backup_view()
                },
                Err(m) => {
                    &&& old(self).addon is None
                    &&& final(self).backup_view() == old(self).backup_view()
                    &&& m@ == "No installation found to backup"@
                },
            },
    {
        match &self.addon {
            None => Err(String::from_str("No installation found to backup")),
            Some(a) => {
                match &self.backup {
                    Some(b) => Ok(false),
                    None => {
                        let copy = clone_tree(a);
                        self.backup = Some(copy);
                        Ok(true)
                    },
                }
            },
        }
    }

    /// Performs the restore transition. Fails, asking for a backup first,
    /// when none exists; otherwise the installed directory is replaced by
    /// the backup's contents, whatever it held before.
    pub fn apply_restore(&mut self) -> (r: Result<bool, String>)
        ensures
            final(self).backup_view() == old(self).backup_view(),
            (final(self).addon_view(), final(self).backup_view()) == restore_step(
                old(self).addon_view(),
                old(self).backup_view(),
            ),
            match r {
                Ok(b) => {
                    &&& b
                    &&& old(self).backup is Some
                    &&& final(self).addon_view() == old(self).backup_view()
                },
                Err(m) => {
                    &&& old(self).backup is None
                    &&& final(self).addon_view() == old(self).addon_view()
                    &&& m@ == "No backup found. Click 'Backup Your Serpens' first!"@
                },
            },
    {
        match &self.backup {
            None => Err(String::from_str("No backup found. Click 'Backup Your Serpens' first!")),
            Some(b) => {
                let copy = clone_tree(b);
                self.addon = Some(copy);
                Ok(true)
            },
        }
    }

    /// Performs the branch-switch transition: the old installation is gone
    /// and the clone attempt's directory stands in its place, success or
    /// not — on a marker failure it is left on disk for inspection. The
    /// verdict is the one `ops::switch_branch` reaches: failure whenever
    /// the clone failed or the marker file is absent.
    pub fn apply_switch(
        &mut self,
        branch: &str,
        paths: &AddonPaths,
        outcome: CloneOutcome,
    ) -> (r: Result<bool, String>)
        ensures
            final(self).backup_view() == old(self).backup_view(),
            final(self).addon_view() == outcome_tree_view(outcome),
            match r {
                Ok(b) => b && outcome.output.success && outcome_has_marker(outcome),
                Err(m) => {
                    &&& !outcome.output.success || !outcome_has_marker(outcome)
                    &&& !outcome.output.success ==> m@ == ops::clone_failed_msg(outcome.output)
                    &&& outcome.output.success && !outcome_has_marker(outcome) ==> m@
                        == ops::marker_missing_msg(branch@, paths.addon@, outcome.output)
                },
            },
    {
        let marker = match &outcome.tree {
            Some(t) => has_marker(t),
            None => false,
        };
        let verdict = ops::switch_branch(branch, paths, &outcome.output, marker);
        self.addon = outcome.tree;
        verdict
    }
}

} // verus!
