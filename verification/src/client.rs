//! The contract-bearing half of the statistics client: a provider
//! response, already deserialized into plain values, is reduced to
//! either its most recent record or a `NotFound` failure.
//!
//! The outbound request itself, and the normalization of network and
//! deserialization failures into `Transport`, live at the unverified
//! boundary.

use vstd::prelude::*;
use crate::hendrix_mmr_response::{HendrixMmrResponse, MmrDatum};
use crate::hendrix_response::{Datum, HendrixResponse};

verus! {

/// Failure kinds of the pipeline; each is recovered at the
/// per-identity, per-tick granularity and none is fatal.
#[derive(Debug, Clone, Copy, PartialEq, Eq, Structural)]
pub enum TrackError {
    /// Network or deserialization failure reaching the provider.
    Transport,
    /// The provider responded with no data or a non-success status.
    NotFound,
    /// The named player is missing from the fetched match's roster.
    PlayerNotInMatch,
    /// The chat platform rejected a send or an edit.
    DeliveryFailure,
}

/// The most recent match of a "latest matches" response: its first
/// element, owed exactly when the status is 200 and the list is
/// non-empty; `NotFound` on every other response.
pub fn extract_latest_match(response: HendrixResponse) -> (r: Result<Datum, TrackError>)
    ensures
        match r {
            Ok(d) => {
                &&& response.status == 200
                &&& response.data matches Some(v) && v@.len() > 0 && d == v@[0]
            },
            Err(e) => {
                &&& e == TrackError::NotFound
                &&& (response.status != 200 || match response.data {
                    Some(v) => v@.len() == 0,
                    None => true,
                })
            },
        },
{
    if response.status != 200 {
        return Err(TrackError::NotFound);
    }
    match response.data {
        Some(mut v) => if v.len() > 0 {
            Ok(v.remove(0))
        } else {
            Err(TrackError::NotFound)
        },
        None => Err(TrackError::NotFound),
    }
}

/// The most recent rating record of an "MMR history" response, under
/// the same rule as `extract_latest_match`.
pub fn extract_latest_mmr(response: HendrixMmrResponse) -> (r: Result<MmrDatum, TrackError>)
    ensures
        match r {
            Ok(d) => {
                &&& response.status == 200
                &&& response.data matches Some(v) && v@.len() > 0 && d == v@[0]
            },
            Err(e) => {
                &&& e == TrackError::NotFound
                &&& (response.status != 200 || match response.data {
                    Some(v) => v@.len() == 0,
                    None => true,
                })
            },
        },
{
    if response.status != 200 {
        return Err(TrackError::NotFound);
    }
    match response.data {
        Some(mut v) => if v.len() > 0 {
            Ok(v.remove(0))
        } else {
            Err(TrackError::NotFound)
        },
        None => Err(TrackError::NotFound),
    }
}

} // verus!
