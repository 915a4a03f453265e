//! What the launcher tells about a plain Minecraft installation beside it: where it is, and how
//! many worlds, resource packs and shader packs it holds. The launcher reads the directories;
//! which directory to read, and what the answer is, are decided here.

use vstd::prelude::*;
use crate::utils::os::OperatingSystem;

verus! {

/// What was found of a plain Minecraft installation.
pub struct VanillaStatus {
    pub found: bool,
    pub path: String,
    pub saves_count: usize,
    pub resource_packs_count: usize,
    pub shader_packs_count: usize,
}

/// The directory a relative location starts from.
#[derive(Debug, Clone, Copy, PartialEq, Eq, Structural)]
pub enum BaseDir {
    /// The user's data directory (`%APPDATA%` on Windows).
    Data,
    /// The user's home directory.
    Home,
}

/// Where the game keeps its data by default on each system, below which base directory.
pub open spec fn default_location_spec(os: OperatingSystem) -> Option<(BaseDir, Seq<char>)> {
    match os {
        OperatingSystem::WINDOWS => Some((BaseDir::Data, ".minecraft"@)),
        OperatingSystem::OSX => Some((BaseDir::Home, "Library/Application Support/minecraft"@)),
        OperatingSystem::LINUX => Some((BaseDir::Home, ".minecraft"@)),
        OperatingSystem::UNKNOWN => None,
    }
}

/// Where the game keeps its data by default on `os`: below the user's data directory on Windows,
/// below the home directory on macOS and Linux. An unknown system has no such place.
pub fn default_location(os: OperatingSystem) -> (r: Option<(BaseDir, &'static str)>)
    ensures
        match r {
            Some((base, rel)) => default_location_spec(os) == Some((base, rel@)),
            None => default_location_spec(os) is None,
        },
{
    match os {
        OperatingSystem::WINDOWS => Some((BaseDir::Data, ".minecraft")),
        OperatingSystem::OSX => Some((BaseDir::Home, "Library/Application Support/minecraft")),
        OperatingSystem::LINUX => Some((BaseDir::Home, ".minecraft")),
        OperatingSystem::UNKNOWN => None,
    }
}

/// The directory to look in: the path the user gave, where it is not empty, else the default
/// place, where there is one.
pub fn chosen_dir(custom_path: Option<String>, default_dir: Option<String>) -> (r: Option<String>)
    ensures
        match custom_path {
            Some(p) => if p@.len() > 0 { r == Some(p) } else { r == default_dir },
            None => r == default_dir,
        },
{
    match custom_path {
        Some(p) => {
            if p.as_str().is_empty() {
                default_dir
            } else {
                Some(p)
            }
        },
        None => default_dir,
    }
}

/// The status of the directory that was chosen: found, with the counts of its worlds, resource
/// packs and shader packs, where there is a directory and it exists; else not found, with an
/// empty path and nothing counted.
pub fn status_of(
    dir: Option<String>,
    exists: bool,
    saves_count: usize,
    resource_packs_count: usize,
    shader_packs_count: usize,
) -> (r: VanillaStatus)
    ensures
        match dir {
            Some(path) => if exists {
                &&& r.found
                &&& r.path == path
                &&& r.saves_count == saves_count
                &&& r.resource_packs_count == resource_packs_count
                &&& r.shader_packs_count == shader_packs_count
            } else {
                r.is_not_found()
            },
            None => r.is_not_found(),
        },
{
    match dir {
        Some(path) => {
            if exists {
                VanillaStatus {
                    found: true,
                    path,
                    saves_count,
                    resource_packs_count,
                    shader_packs_count,
                }
            } else {
                VanillaStatus::not_found()
            }
        },
        None => VanillaStatus::not_found(),
    }
}

impl VanillaStatus {
    /// Nothing found: an empty path and nothing counted.
    pub open spec fn is_not_found(self) -> bool {
        &&& !self.found
        &&& self.path@.len() == 0
        &&& self.saves_count == 0
        &&& self.resource_packs_count == 0
        &&& self.shader_packs_count == 0
    }

    /// No installation: nothing found, an empty path, nothing counted.
    pub fn not_found() -> (r: VanillaStatus)
        ensures
            r.is_not_found(),
    {
        VanillaStatus {
            found: false,
            path: String::new(),
            saves_count: 0,
            resource_packs_count: 0,
            shader_packs_count: 0,
        }
    }
}

} // verus!
