//! What is remembered about a host between connections.

use vstd::prelude::*;

use crate::paths::location;
use crate::paths::Location;
use crate::paths::NoHome;
use crate::paths::Root;
use crate::text::clone_opt;

verus! {

/// The persisted state of one host.
#[derive(Debug)]
pub struct HostState {
    /// When the last connection was made, in seconds since the epoch.
    pub last_connected: Option<i64>,
    pub connection_count: i64,
    pub notes: Option<String>,
}

/// What a host state holds.
pub struct StateModel {
    pub last_connected: Option<i64>,
    pub connection_count: i64,
    pub notes: Option<Seq<char>>,
}

impl View for HostState {
    type V = StateModel;

    open spec fn view(&self) -> StateModel {
        StateModel {
            last_connected: self.last_connected,
            connection_count: self.connection_count,
            notes: crate::text::opt_text(self.notes),
        }
    }
}

/// The state of a host that was never connected to.
pub open spec fn fresh_state() -> StateModel {
    StateModel { last_connected: None, connection_count: 0, notes: None }
}

impl Default for HostState {
    fn default() -> (r: HostState)
        ensures
            r@ == fresh_state(),
    {
        HostState { last_connected: None, connection_count: 0, notes: None }
    }
}

impl Clone for HostState {
    fn clone(&self) -> (r: HostState)
        ensures
            r@ == self@,
    {
        HostState {
            last_connected: self.last_connected,
            connection_count: self.connection_count,
            notes: clone_opt(&self.notes),
        }
    }
}

/// Where the state database lies; nowhere without a home directory.
pub open spec fn state_place(xdg_data_set: bool, home_known: bool) -> Option<(Root, Seq<Seq<char>>)> {
    if xdg_data_set {
        Some((Root::XdgData, seq!["ssht"@, "state.db"@]))
    } else if home_known {
        Some((Root::Home, seq![".local"@, "share"@, "ssht"@, "state.db"@]))
    } else {
        None
    }
}

/// Where the state database lies: `ssht/state.db` under `XDG_DATA_HOME`, or under
/// `~/.local/share` where that is unset or empty.
pub fn state_db_path(xdg_data_set: bool, home_known: bool) -> (r: Result<Location, NoHome>)
    ensures
        match r {
            Ok(l) => state_place(xdg_data_set, home_known) == Some(l@),
            Err(_) => state_place(xdg_data_set, home_known) is None,
        },
{
    if xdg_data_set {
        let l = location(Root::XdgData, &["ssht", "state.db"]);
        assert(l@.1 =~= seq!["ssht"@, "state.db"@]);
        Ok(l)
    } else if home_known {
        let l = location(Root::Home, &[".local", "share", "ssht", "state.db"]);
        assert(l@.1 =~= seq![".local"@, "share"@, "ssht"@, "state.db"@]);
        Ok(l)
    } else {
        Err(NoHome)
    }
}

} // verus!
