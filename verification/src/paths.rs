//! Per-user filesystem locations and the search path the launcher hands to
//! the programs it starts.

use vstd::prelude::*;

verus! {

/// The application's name, used as the leaf directory everywhere.
pub const NAME: &'static str = "loungy";

/// The per-user locations the launcher uses.
#[derive(Debug)]
pub struct LPaths {
    pub path_env: String,
    pub cache: String,
    pub config: String,
    pub data: String,
}

/// The mathematical value of the path set.
pub ghost struct LPathsView {
    pub path_env: Seq<char>,
    pub cache: Seq<char>,
    pub config: Seq<char>,
    pub data: Seq<char>,
}

impl View for LPaths {
    type V = LPathsView;

    open spec fn view(&self) -> LPathsView {
        LPathsView {
            path_env: self.path_env@,
            cache: self.cache@,
            config: self.config@,
            data: self.data@,
        }
    }
}

/// The search path handed to started programs.
pub open spec fn spec_path_env(u: Seq<char>) -> Seq<char> {
    "/opt/homebrew/bin:/usr/local/bin:/home/"@ + u + "/.nix-profile/bin"@
}

pub open spec fn spec_cache(u: Seq<char>) -> Seq<char> {
    "/home/"@ + u + "/.cache/loungy"@
}

pub open spec fn spec_config(u: Seq<char>) -> Seq<char> {
    "/home/"@ + u + "/.config/loungy"@
}

pub open spec fn spec_data(u: Seq<char>) -> Seq<char> {
    "/home/"@ + u + "/.local/share/loungy"@
}

/// The path set of one username.
pub open spec fn spec_lpaths(u: Seq<char>) -> LPathsView {
    LPathsView {
        path_env: spec_path_env(u),
        cache: spec_cache(u),
        config: spec_config(u),
        data: spec_data(u),
    }
}

/// Relies on whoami::username for the login name of the user the process
/// runs as; nothing is promised of the result, and a name the system
/// cannot report comes back as nothing.
#[verifier::external_body]
fn current_username() -> (r: Option<String>) {
    whoami::username().ok()
}

impl LPaths {
    /// The path set for one username, given explicitly.
    pub fn for_user(username: &str) -> (p: LPaths)
        ensures
            p@ == spec_lpaths(username@),
    {
        let mut path_env = String::from_str("/opt/homebrew/bin:/usr/local/bin:/home/");
        path_env.append(username);
        path_env.append("/.nix-profile/bin");
        let mut cache = String::from_str("/home/");
        cache.append(username);
        cache.append("/.cache/loungy");
        let mut config = String::from_str("/home/");
        config.append(username);
        config.append("/.config/loungy");
        let mut data = String::from_str("/home/");
        data.append(username);
        data.append("/.local/share/loungy");
        LPaths { path_env, cache, config, data }
    }

    /// The path set of the user the process runs as; a username the system
    /// cannot report is taken as empty.
    pub fn new() -> (p: LPaths)
        ensures
            exists|u: Seq<char>| p@ == spec_lpaths(u),
    {
        let username = match current_username() {
            Some(u) => u,
            None => String::new(),
        };
        let p = LPaths::for_user(username.as_str());
        proof {
            assert(p@ == spec_lpaths(username@));
        }
        p
    }
}

/// The path set of the current user, computed fresh.
pub fn paths() -> (p: LPaths)
    ensures
        exists|u: Seq<char>| p@ == spec_lpaths(u),
{
    LPaths::new()
}

} // verus!
