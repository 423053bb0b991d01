//! Naming the workspaces that the tracker's registry lists.

use vstd::prelude::*;
use crate::error::BdError;
use crate::clock::user_home_dir;
use crate::text::join_text;
use crate::json::JsonValue;

verus! {

/// The registry file, relative to the home directory.
pub const REGISTRY_FILE: &'static str = ".beads/registry.json";

/// The last component of a path, as `std::path::Path::file_name` finds it.
pub uninterp spec fn file_name_of(p: Seq<char>) -> Option<Seq<char>>;

/// Relies on `std::path::Path::file_name`: the final component of a path, if
/// it has one; it depends on the text alone.
#[verifier::external_body]
fn path_file_name(p: &str) -> (r: Option<String>)
    ensures
        match r {
            Some(n) => file_name_of(p@) == Some(n@),
            None => file_name_of(p@) is None,
        },
{
    std::path::Path::new(p).file_name().map(|n| n.to_string_lossy().into_owned())
}

/// A workspace that the registry lists.
#[derive(Debug)]
pub struct Workspace {
    /// The workspace directory.
    pub path: String,
    /// Its display name: the directory's name.
    pub name: String,
    /// Whether the tracker's daemon runs for it.
    pub daemon_running: bool,
    /// The registry's other fields for it, kept as they came.
    pub extra: Vec<(String, JsonValue)>,
}

/// Lists and names the workspaces of the registry.
pub struct WorkspaceDiscovery;

impl WorkspaceDiscovery {
    /// A workspace's display name: its directory's name, else the whole path.
    pub fn extract_name(path: &str) -> (r: String)
        ensures
            r@ == match file_name_of(path@) {
                Some(n) => n,
                None => path@,
            },
    {
        match path_file_name(path) {
            Some(n) => n,
            None => String::from_str(path),
        }
    }

    /// The registry file under the user's home directory.
    pub fn get_registry_path() -> (r: Result<String, BdError>)
        ensures
            match r {
                Ok(p) => exists|h: Seq<char>| p@ == h + "/"@ + REGISTRY_FILE@,
                Err(e) => e is DaemonError,
            },
    {
        match user_home_dir() {
            Some(h) => {
                let a = join_text(h.as_str(), "/");
                Ok(join_text(a.as_str(), REGISTRY_FILE))
            },
            None => Err(BdError::DaemonError(String::from_str("Failed to determine home directory"))),
        }
    }
}

} // verus!
