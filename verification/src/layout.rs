//! Where the persisted state lies below the user's home directory.

use vstd::prelude::*;

verus! {

pub const APP_NAME: &'static str = "iceland";

pub const CONFIG_FILE: &'static str = "config.toml";

pub const CURRENT_AREA_FILE: &'static str = "current_area";

pub const SESSIONS_FILE: &'static str = "sessions.csv";

pub const SESSION_START_FILE: &'static str = "session_start";

/// The path of `name` directly below `base`.
pub open spec fn below(base: Seq<char>, name: Seq<char>) -> Seq<char> {
    base + "/"@ + name
}

/// The path of the directory that holds all persisted state: the hidden
/// directory named after the application, below `home`.
pub open spec fn base_of(home: Seq<char>) -> Seq<char> {
    home + "/."@ + APP_NAME@
}

fn join(base: &str, name: &str) -> (path: String)
    ensures
        path@ == below(base@, name@),
{
    base.to_owned().concat("/").concat(name)
}

/// The directory that holds all persisted state.
pub fn iceland_dir(home: &str) -> (path: String)
    ensures
        path@ == base_of(home@),
{
    home.to_owned().concat("/.").concat(APP_NAME)
}

/// The file of the configuration.
pub fn config_path(home: &str) -> (path: String)
    ensures
        path@ == below(base_of(home@), CONFIG_FILE@),
{
    join(iceland_dir(home).as_str(), CONFIG_FILE)
}

/// The file that names the current area.
pub fn current_area_file(home: &str) -> (path: String)
    ensures
        path@ == below(base_of(home@), CURRENT_AREA_FILE@),
{
    join(iceland_dir(home).as_str(), CURRENT_AREA_FILE)
}

/// The file of the ledger.
pub fn sessions_file(home: &str) -> (path: String)
    ensures
        path@ == below(base_of(home@), SESSIONS_FILE@),
{
    join(iceland_dir(home).as_str(), SESSIONS_FILE)
}

/// The file that holds the start of the session in progress.
pub fn session_start_file(home: &str) -> (path: String)
    ensures
        path@ == below(base_of(home@), SESSION_START_FILE@),
{
    join(iceland_dir(home).as_str(), SESSION_START_FILE)
}

/// The directory of `area`.
pub fn area_dir(home: &str, area: &str) -> (path: String)
    ensures
        path@ == below(base_of(home@), area@),
{
    join(iceland_dir(home).as_str(), area)
}

} // verus!
