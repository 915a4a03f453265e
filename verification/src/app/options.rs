//! The launcher's settings, as kept in `options.json`, and how the older format carries over.

use vstd::prelude::*;
use crate::auth::ClientAccount;
use crate::minecraft::auth::MinecraftAccount;
use crate::minecraft::java::DistributionSelection;
use crate::utils::text::{push_str, views};

verus! {

/// The launcher's settings.
pub struct Options {
    pub start_options: StartOptions,
    pub version_options: VersionOptions,
    pub launcher_options: LauncherOptions,
    pub premium_options: PremiumOptions,
}

/// How the game is started.
pub struct StartOptions {
    pub minecraft_account: Option<MinecraftAccount>,
    pub custom_data_path: String,
    pub java_distribution: DistributionSelection,
    pub jvm_args: Option<Vec<String>>,
    /// The heap size, in megabytes.
    pub memory: u64,
}

/// Which build is launched, and the mods turned on or off for each branch.
pub struct VersionOptions {
    pub branch_name: Option<String>,
    /// The chosen build, `-1` for the newest.
    pub build_id: i32,
    /// By branch name.
    pub options: Vec<(String, BranchOptions)>,
}

pub struct LauncherOptions {
    pub show_nightly_builds: bool,
    pub concurrent_downloads: u32,
    pub keep_launcher_open: bool,
}

pub struct PremiumOptions {
    pub account: Option<ClientAccount>,
    pub skip_advertisement: bool,
}

/// The mods turned on or off on a branch, by name.
pub struct BranchOptions {
    pub mod_states: Vec<(String, bool)>,
    pub custom_mod_states: Vec<(String, bool)>,
}

/// The data directory the launcher works in: the custom path where one is set, else `default`.
pub fn data_directory(start_options: &StartOptions, default: String) -> (r: String)
    ensures
        start_options.custom_data_path@.len() > 0 ==> r@ == start_options.custom_data_path@,
        start_options.custom_data_path@.len() == 0 ==> r@ == default@,
{
    if start_options.custom_data_path.as_str().is_empty() {
        default
    } else {
        start_options.custom_data_path.clone()
    }
}

/// What clearing the launcher's data removes below the data directory, where it exists: the
/// downloaded assets, game directories, libraries, cached mods, natives, Java runtimes and
/// versions. Settings and accounts stay.
pub open spec fn cleared_dirs_spec() -> Seq<Seq<char>> {
    seq!["assets"@, "gameDir"@, "libraries"@, "mod_cache"@, "natives"@, "runtimes"@, "versions"@]
}

/// What clearing the launcher's data removes below the data directory, where it exists.
pub fn cleared_dirs() -> (r: Vec<String>)
    ensures
        views(r@) == cleared_dirs_spec(),
{
    let mut r: Vec<String> = Vec::new();
    r.push(owned("assets"));
    r.push(owned("gameDir"));
    r.push(owned("libraries"));
    r.push(owned("mod_cache"));
    r.push(owned("natives"));
    r.push(owned("runtimes"));
    r.push(owned("versions"));
    assert(views(r@) =~= cleared_dirs_spec());
    r
}

fn owned(s: &str) -> (r: String)
    ensures
        r@ == s@,
{
    let mut r = String::new();
    push_str(&mut r, s);
    r
}

/// How many downloads older launchers ran at once unless told otherwise.
pub fn default_concurrent_downloads() -> (r: i32)
    ensures
        r == 10,
{
    10
}

/// The heap size the launcher gives the game unless told otherwise: 4 GB.
pub fn default_memory() -> (r: u64)
    ensures
        r == 4096,
{
    4096
}

impl Default for StartOptions {
    /// No account, the build's Java, no custom arguments and 4 GB of memory.
    fn default() -> (r: Self)
        ensures
            r.minecraft_account is None,
            r.java_distribution matches DistributionSelection::Automatic(text) && text@ == Seq::<char>::empty(),
            r.custom_data_path@ == Seq::<char>::empty(),
            r.jvm_args is None,
            r.memory == 4096,
    {
        StartOptions {
            minecraft_account: None,
            java_distribution: DistributionSelection::Automatic(String::new()),
            custom_data_path: String::new(),
            jvm_args: None,
            memory: default_memory(),
        }
    }
}

impl Default for VersionOptions {
    /// The recommended branch and its newest build.
    fn default() -> (r: Self)
        ensures
            r.branch_name is None,
            r.build_id == -1,
            r.options@.len() == 0,
    {
        VersionOptions { branch_name: None, build_id: -1, options: Vec::new() }
    }
}

impl Default for LauncherOptions {
    /// Releases only, ten downloads at once, and the launcher closed once the game runs.
    fn default() -> (r: Self)
        ensures
            !r.show_nightly_builds,
            !r.keep_launcher_open,
            r.concurrent_downloads == 10,
    {
        LauncherOptions { show_nightly_builds: false, keep_launcher_open: false, concurrent_downloads: 10 }
    }
}

impl Default for PremiumOptions {
    /// No client account, and advertisements shown.
    fn default() -> (r: Self)
        ensures
            r.account is None,
            !r.skip_advertisement,
    {
        PremiumOptions { account: None, skip_advertisement: false }
    }
}

impl Default for Options {
    /// Every part at its default.
    fn default() -> (r: Self)
        ensures
            r.start_options.minecraft_account is None,
            r.start_options.custom_data_path@ == Seq::<char>::empty(),
            r.start_options.jvm_args is None,
            r.start_options.memory == 4096,
            r.version_options.branch_name is None,
            r.version_options.build_id == -1,
            r.version_options.options@.len() == 0,
            !r.launcher_options.show_nightly_builds,
            !r.launcher_options.keep_launcher_open,
            r.launcher_options.concurrent_downloads == 10,
            r.premium_options.account is None,
            !r.premium_options.skip_advertisement,
    {
        Options {
            start_options: StartOptions::default(),
            version_options: VersionOptions::default(),
            launcher_options: LauncherOptions::default(),
            premium_options: PremiumOptions::default(),
        }
    }
}

impl Options {
    /// The settings an older launcher kept, carried over: the accounts, the data path, the
    /// window and download settings and the mods of each branch stay; the branch and build go
    /// back to the recommended one's newest, Java to the build's, and the memory to 4 GB.
    pub fn from_legacy(legacy: LegacyOptions) -> (r: Self)
        ensures
            r.start_options.custom_data_path == legacy.custom_data_path,
            r.start_options.java_distribution matches DistributionSelection::Automatic(text) && text@
                == Seq::<char>::empty(),
            r.start_options.minecraft_account == legacy.current_account,
            r.start_options.jvm_args is None,
            r.start_options.memory == 4096,
            r.version_options.branch_name is None,
            r.version_options.build_id == -1,
            r.version_options.options == legacy.branch_options,
            r.launcher_options.keep_launcher_open == legacy.keep_launcher_open,
            r.launcher_options.show_nightly_builds == legacy.show_nightly_builds,
            r.launcher_options.concurrent_downloads == legacy.concurrent_downloads as u32,
            r.premium_options.account == legacy.client_account,
            r.premium_options.skip_advertisement == legacy.skip_advertisement,
    {
        let LegacyOptions {
            keep_launcher_open,
            custom_data_path,
            show_nightly_builds,
            memory_percentage: _,
            custom_java_path: _,
            selected_branch: _,
            selected_build: _,
            client_account,
            skip_advertisement,
            current_account,
            branch_options,
            concurrent_downloads,
        } = legacy;
        Options {
            start_options: StartOptions {
                custom_data_path,
                java_distribution: DistributionSelection::Automatic(String::new()),
                minecraft_account: current_account,
                jvm_args: None,
                memory: 4096,
            },
            version_options: VersionOptions { branch_name: None, build_id: -1, options: branch_options },
            launcher_options: LauncherOptions {
                keep_launcher_open,
                show_nightly_builds,
                concurrent_downloads: concurrent_downloads as u32,
            },
            premium_options: PremiumOptions { account: client_account, skip_advertisement },
        }
    }
}

/// The settings as older launchers kept them.
pub struct LegacyOptions {
    pub keep_launcher_open: bool,
    pub custom_data_path: String,
    pub show_nightly_builds: bool,
    pub memory_percentage: i32,
    pub custom_java_path: String,
    pub selected_branch: Option<String>,
    pub selected_build: Option<i32>,
    pub client_account: Option<ClientAccount>,
    pub skip_advertisement: bool,
    pub current_account: Option<MinecraftAccount>,
    /// By branch name.
    pub branch_options: Vec<(String, BranchOptions)>,
    pub concurrent_downloads: i32,
}

impl Default for LegacyOptions {
    /// Older launchers' defaults: the window closes, no nightly builds, 80 % of the memory for
    /// the game, ten downloads at once, no accounts and nothing chosen.
    fn default() -> (r: Self)
        ensures
            !r.keep_launcher_open,
            r.custom_data_path@ == Seq::<char>::empty(),
            !r.show_nightly_builds,
            r.memory_percentage == 80,
            r.custom_java_path@ == Seq::<char>::empty(),
            r.selected_branch is None,
            r.selected_build is None,
            r.client_account is None,
            !r.skip_advertisement,
            r.current_account is None,
            r.branch_options@.len() == 0,
            r.concurrent_downloads == 10,
    {
        LegacyOptions {
            keep_launcher_open: false,
            custom_data_path: String::new(),
            show_nightly_builds: false,
            memory_percentage: 80,
            custom_java_path: String::new(),
            selected_branch: None,
            selected_build: None,
            client_account: None,
            skip_advertisement: false,
            current_account: None,
            branch_options: Vec::new(),
            concurrent_downloads: default_concurrent_downloads(),
        }
    }
}

} // verus!
