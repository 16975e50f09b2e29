//! User configuration and the files that live next to it.
use vstd::prelude::*;

use crate::text::push_str;

verus! {

/// The user's settings.
pub struct Config {
    /// GitHub owner (user or organisation) whose repositories are listed.
    pub owner: String,
    /// Directory that holds the local clones.
    pub local_base_dir: String,
    /// Working directory for launched applications.
    pub app_run_dir: Option<String>,
    /// Pull fast-forwardable clones on refresh.
    pub auto_pull: bool,
    /// Launch updates of stale `cargo install` applications.
    pub auto_update: bool,
}

/// `<config_home>/cat-repo-auditor/<file>`.
pub open spec fn app_file(config_home: Seq<char>, file: Seq<char>) -> Seq<char> {
    config_home + "/cat-repo-auditor/"@ + file
}

fn app_file_path(config_home: &str, file: &str) -> (r: String)
    ensures
        r@ == app_file(config_home@, file@),
{
    let mut s = String::new();
    push_str(&mut s, config_home);
    push_str(&mut s, "/cat-repo-auditor/");
    push_str(&mut s, file);
    assert(s@ =~= app_file(config_home@, file@));
    s
}

impl Config {
    /// The configuration file below the platform configuration directory.
    pub fn config_path(config_home: &str) -> (r: String)
        ensures
            r@ == app_file(config_home@, "config.toml"@),
    {
        app_file_path(config_home, "config.toml")
    }

    /// The cache file next to the configuration file.
    pub fn history_path(config_home: &str) -> (r: String)
        ensures
            r@ == app_file(config_home@, "history.json"@),
    {
        app_file_path(config_home, "history.json")
    }

    /// The unified log file.
    pub fn log_path(config_home: &str) -> (r: String)
        ensures
            r@ == app_file(config_home@, "logs/log.txt"@),
    {
        app_file_path(config_home, "logs/log.txt")
    }

    /// The log of checks made after an automatic update.
    pub fn cargo_check_after_auto_update_log_path(config_home: &str) -> (r: String)
        ensures
            r@ == app_file(config_home@, "logs/cargo_check_after_auto_update.log"@),
    {
        app_file_path(config_home, "logs/cargo_check_after_auto_update.log")
    }

    /// The working directory for launched applications: the configured one
    /// when it is set and non-empty, else the first existing desktop
    /// directory, else `.`.
    pub fn resolved_app_run_dir(&self, existing_desktops: &[String]) -> (r: String)
        ensures
            (self.app_run_dir matches Some(d) && d@.len() > 0) ==> r@ == self.app_run_dir->Some_0@,
            !(self.app_run_dir matches Some(d) && d@.len() > 0) ==> (if existing_desktops@.len()
                > 0 {
                r@ == existing_desktops@[0]@
            } else {
                r@ == "."@
            }),
    {
        if let Some(d) = &self.app_run_dir {
            if !d.as_str().is_empty() {
                return d.clone();
            }
        }
        if existing_desktops.len() > 0 {
            return existing_desktops[0].clone();
        }
        let mut s = String::new();
        push_str(&mut s, ".");
        assert(s@ =~= "."@);
        s
    }
}

} // verus!
