//! Data model for one fetched rating record: the provider's
//! "MMR history" response, first element most recent.

use vstd::prelude::*;

verus! {

/// Envelope of the "MMR history" endpoint.
#[derive(Debug)]
pub struct HendrixMmrResponse {
    pub status: i64,
    pub name: Option<String>,
    pub tag: Option<String>,
    pub data: Option<Vec<MmrDatum>>,
}

/// One rating record: tier, points within the tier, the signed change
/// since the previous provider-side game, the elo value, and the
/// provider-side timestamp that keys change detection.
#[derive(Debug)]
pub struct MmrDatum {
    pub current_tier: i64,
    pub current_tier_patched: String,
    pub images: Images,
    pub ranking_in_tier: i64,
    pub mmr_change_to_last_game: i64,
    pub elo: i64,
    pub date: String,
    pub date_raw: i64,
}

#[derive(Debug)]
pub struct Images {
    pub small: String,
    pub large: String,
    pub triangle_down: String,
    pub triangle_up: String,
}

impl Images {
    /// A field-for-field copy, equal to the original.
    pub fn duplicate(&self) -> (r: Images)
        ensures
            r == *self,
    {
        Images {
            small: self.small.clone(),
            large: self.large.clone(),
            triangle_down: self.triangle_down.clone(),
            triangle_up: self.triangle_up.clone(),
        }
    }
}

impl MmrDatum {
    /// A field-for-field copy, equal to the original.
    pub fn duplicate(&self) -> (r: MmrDatum)
        ensures
            r == *self,
    {
        MmrDatum {
            current_tier: self.current_tier,
            current_tier_patched: self.current_tier_patched.clone(),
            images: self.images.duplicate(),
            ranking_in_tier: self.ranking_in_tier,
            mmr_change_to_last_game: self.mmr_change_to_last_game,
            elo: self.elo,
            date: self.date.clone(),
            date_raw: self.date_raw,
        }
    }
}

} // verus!
