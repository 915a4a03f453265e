//! Maven coordinates and where a repository keeps their jars.

use vstd::prelude::*;
use crate::error::LauncherError;
use crate::utils::text::{chars_of, push_chars, push_str, replace_char, replace_spec, split_chars, split_spec};

verus! {

/// The repository path of `group:name:version`: `group/with/slashes/name/version/name-version.jar`.
pub open spec fn maven_path_spec(group: Seq<char>, name: Seq<char>, version: Seq<char>) -> Seq<char> {
    replace_spec(group, '.', '/') + "/"@ + name + "/"@ + version + "/"@ + name + "-"@ + version
        + ".jar"@
}

/// The repository path of an artifact id, when it has exactly three `:`-separated parts.
pub open spec fn artifact_path_spec(artifact_id: Seq<char>) -> Option<Seq<char>> {
    let parts = split_spec(artifact_id, ':');
    if parts.len() == 3 {
        Some(maven_path_spec(parts[0], parts[1], parts[2]))
    } else {
        None
    }
}

/// The path of `group:name:version` in a Maven repository. Refuses an id that does not have
/// exactly three parts.
pub fn get_maven_artifact_path(artifact_id: &String) -> (r: Result<String, LauncherError>)
    ensures
        match r {
            Ok(path) => artifact_path_spec(artifact_id@) == Some(path@),
            Err(e) => {
                &&& artifact_path_spec(artifact_id@) is None
                &&& e matches LauncherError::InvalidVersionProfile(message)
                &&& message@ == "Invalid artifact name: "@ + artifact_id@
            },
        },
{
    let id = chars_of(artifact_id.as_str());
    let parts = split_chars(id.as_slice(), ':');
    if parts.len() != 3 {
        let mut message = String::new();
        push_str(&mut message, "Invalid artifact name: ");
        push_chars(&mut message, id.as_slice());
        return Err(LauncherError::InvalidVersionProfile(message));
    }
    let group = replace_char(parts[0].as_slice(), '.', '/');
    let mut path = String::new();
    push_chars(&mut path, group.as_slice());
    push_str(&mut path, "/");
    push_chars(&mut path, parts[1].as_slice());
    push_str(&mut path, "/");
    push_chars(&mut path, parts[2].as_slice());
    push_str(&mut path, "/");
    push_chars(&mut path, parts[1].as_slice());
    push_str(&mut path, "-");
    push_chars(&mut path, parts[2].as_slice());
    push_str(&mut path, ".jar");
    Ok(path)
}

} // verus!
