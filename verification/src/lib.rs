//! Change-detection and notification pipeline for a roster of tracked
//! game-player identities.
//!
//! The library owns the verified core: per-player tracking state, the
//! per-tick match change detector and payload formatter, and the roster
//! MMR leaderboard aggregator.  Network fetches and chat-platform
//! delivery are collaborators that live outside the library and hand it
//! plain values.

pub mod client;
pub mod game_tracker;
pub mod hendrix_mmr_response;
pub mod hendrix_response;
pub mod mmr_tracker;
pub mod stats;
pub mod text;

use vstd::prelude::*;
use vstd::string::StringExecFns;

verus! {

/// One tracked roster entry: a player identity given by name and tag,
/// with an optional chat-platform user reference and an optional cached
/// display name used when rendering titles.
#[derive(Debug, Clone)]
pub struct PlayerData {
    pub name: String,
    pub tag: String,
    pub user_ref: Option<u64>,
    pub cached_display_name: Option<String>,
}

impl PlayerData {
    /// The display string for this identity: the cached display name
    /// when one is present, otherwise the raw `name` field.
    pub open spec fn username_view(&self) -> Seq<char> {
        match self.cached_display_name {
            Some(d) => d@,
            None => self.name@,
        }
    }

    pub fn new(name: String, tag: String) -> (p: PlayerData)
        ensures
            p.name == name,
            p.tag == tag,
            p.user_ref is None,
            p.cached_display_name is None,
    {
        PlayerData { name, tag, user_ref: None, cached_display_name: None }
    }

    /// A field-for-field copy, equal to the original.
    pub fn duplicate(&self) -> (r: PlayerData)
        ensures
            r == *self,
    {
        PlayerData {
            name: self.name.clone(),
            tag: self.tag.clone(),
            user_ref: self.user_ref,
            cached_display_name: match &self.cached_display_name {
                Some(d) => Some(d.clone()),
                None => None,
            },
        }
    }

    pub fn username(&self) -> (r: &String)
        ensures
            r@ == self.username_view(),
    {
        match &self.cached_display_name {
            Some(d) => d,
            None => &self.name,
        }
    }

    /// Whether two roster entries name the same identity: the name and
    /// tag match, exactly; the user reference and cached display name
    /// do not take part.
    pub open spec fn same_identity(&self, other: &PlayerData) -> bool {
        self.name@ == other.name@ && self.tag@ == other.tag@
    }

    /// The identity written out as `"name#tag"`, as logs and the
    /// partied-with field show it.
    pub fn id_string(&self) -> (r: String)
        ensures
            r@ == self.name@ + "#"@ + self.tag@,
    {
        let mut s = self.name.clone();
        s.append("#");
        s.append(self.tag.as_str());
        proof {
            assert(s@ =~= self.name@ + "#"@ + self.tag@);
        }
        s
    }
}

impl PartialEq for PlayerData {
    /// Two identities are equal exactly when name and tag match.
    fn eq(&self, other: &PlayerData) -> (r: bool) {
        self.name == other.name && self.tag == other.tag
    }
}

impl vstd::std_specs::cmp::PartialEqSpecImpl for PlayerData {
    open spec fn obeys_eq_spec() -> bool {
        true
    }

    open spec fn eq_spec(&self, other: &PlayerData) -> bool {
        self.same_identity(other)
    }
}

} // verus!
