//! Resolution of every directory the manager touches, for one target
//! application version. All paths are plain strings with `/` separators;
//! the host binary turns them into platform paths.

use vstd::prelude::*;

verus! {

/// The directories one operation works on: the addon root, the plugin's own
/// directory inside it, and the fixed backup location beside the plugin.
pub struct AddonPaths {
    pub addons: String,
    pub addon: String,
    pub backup: String,
}

/// The addon root: `<app-data-root>/Blender Foundation/Blender/<version>/scripts/addons`.
pub open spec fn addons_root_spec(appdata: Seq<char>, version: Seq<char>) -> Seq<char> {
    appdata + "/Blender Foundation/Blender/"@ + version + "/scripts/addons"@
}

/// The plugin's own directory under the addon root.
pub open spec fn addon_dir_spec(appdata: Seq<char>, version: Seq<char>) -> Seq<char> {
    addons_root_spec(appdata, version) + "/scripting_nodes"@
}

/// The canonical backup directory, a fixed sibling of the plugin directory.
pub open spec fn backup_dir_spec(appdata: Seq<char>, version: Seq<char>) -> Seq<char> {
    addons_root_spec(appdata, version) + "/_serpens_original_backup"@
}

impl AddonPaths {
    /// The three paths all belong to the same app-data root and version.
    pub open spec fn resolved_from(self, appdata: Seq<char>, version: Seq<char>) -> bool {
        &&& self.addons@ == addons_root_spec(appdata, version)
        &&& self.addon@ == addon_dir_spec(appdata, version)
        &&& self.backup@ == backup_dir_spec(appdata, version)
    }
}

/// Builds the three directories from the platform's application-data root.
/// `appdata` is `None` when the platform variable could not be resolved;
/// that is a hard failure for every path-resolving operation.
pub fn resolve_paths(appdata: &Option<String>, version: &str) -> (r: Result<AddonPaths, String>)
    ensures
        match r {
            Ok(p) => {
                &&& appdata matches Some(a) && p.resolved_from(a@, version@)
            },
            Err(m) => {
                &&& appdata is None
                &&& m@ == "APPDATA not found"@
            },
        },
{
    match appdata {
        None => Err(String::from_str("APPDATA not found")),
        Some(a) => {
            let mut addons = a.clone();
            addons.append("/Blender Foundation/Blender/");
            addons.append(version);
            addons.append("/scripts/addons");
            let mut addon = addons.clone();
            addon.append("/scripting_nodes");
            let mut backup = addons.clone();
            backup.append("/_serpens_original_backup");
            Ok(AddonPaths { addons, addon, backup })
        },
    }
}

/// The directory holding this tool's own settings file.
pub open spec fn settings_dir_spec(appdata: Seq<char>) -> Seq<char> {
    appdata + "/SerpensDevManager"@
}

/// The settings file itself.
pub open spec fn settings_file_spec(appdata: Seq<char>) -> Seq<char> {
    settings_dir_spec(appdata) + "/settings.json"@
}

/// Builds the settings directory and file paths from the platform's
/// application-data root, failing as every path resolution does when the
/// root cannot be determined.
pub fn resolve_settings_paths(appdata: &Option<String>) -> (r: Result<(String, String), String>)
    ensures
        match r {
            Ok(p) => {
                &&& appdata matches Some(a) && p.0@ == settings_dir_spec(a@) && p.1@
                    == settings_file_spec(a@)
            },
            Err(m) => {
                &&& appdata is None
                &&& m@ == "APPDATA not found"@
            },
        },
{
    match appdata {
        None => Err(String::from_str("APPDATA not found")),
        Some(a) => {
            let mut dir = a.clone();
            dir.append("/SerpensDevManager");
            let mut file = dir.clone();
            file.append("/settings.json");
            Ok((dir, file))
        },
    }
}

} // verus!
