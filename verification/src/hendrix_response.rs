//! Data model for one fetched competitive match: the provider's
//! "latest matches" response, reduced to the plain values the pipeline
//! reads.
//!
//! Counters the provider reports as fractional values (behaviour
//! penalties, economy averages, view angles) are held here as integers;
//! the boundary layer that talks to the provider truncates them on the
//! way in.

use vstd::prelude::*;

verus! {

/// Envelope of the "latest matches" endpoint: a status code and an
/// optional list whose first element is the most recent match.
#[derive(Debug)]
pub struct HendrixResponse {
    pub status: i64,
    pub data: Option<Vec<Datum>>,
}

/// One fetched competitive match.
#[derive(Debug)]
pub struct Datum {
    pub metadata: Metadata,
    pub players: Players,
    pub teams: Teams,
    pub rounds: Vec<Round>,
    pub kills: Vec<Kill>,
}

#[derive(Debug)]
pub struct Kill {
    pub kill_time_in_round: i64,
    pub kill_time_in_match: i64,
    pub round: Option<i64>,
    pub killer_puuid: String,
    pub killer_display_name: String,
    pub killer_team: TeamEnum,
    pub victim_puuid: String,
    pub victim_display_name: String,
    pub victim_team: TeamEnum,
    pub victim_death_location: Location,
    pub damage_weapon_id: String,
    pub damage_weapon_name: Option<String>,
    pub damage_weapon_assets: DamageWeaponAssetsClass,
    pub secondary_fire_mode: bool,
    pub player_locations_on_kill: Vec<PlayerLocationsOn>,
    pub assistants: Vec<Assistant>,
}

#[derive(Debug)]
pub struct Assistant {
    pub assistant_puuid: String,
    pub assistant_display_name: String,
    pub assistant_team: TeamEnum,
}

#[derive(Debug)]
pub struct DamageWeaponAssetsClass {
    pub display_icon: Option<String>,
    pub killfeed_icon: Option<String>,
}

#[derive(Debug)]
pub struct PlayerLocationsOn {
    pub player_puuid: String,
    pub player_display_name: String,
    pub player_team: TeamEnum,
    pub location: Location,
    pub view_radians: i64,
}

#[derive(Debug)]
pub struct Location {
    pub x: i64,
    pub y: i64,
}

#[derive(Debug)]
pub struct Metadata {
    pub map: String,
    pub game_version: String,
    pub game_length: i64,
    pub game_start: i64,
    pub game_start_patched: String,
    pub rounds_played: i64,
    pub mode: String,
    pub queue: String,
    pub season_id: String,
    pub platform: String,
    pub match_id: String,
    pub region: String,
    pub cluster: String,
}

#[derive(Debug)]
pub struct Players {
    pub all_players: Vec<Player>,
    pub red: Vec<Player>,
    pub blue: Vec<Player>,
}

#[derive(Debug)]
pub struct Player {
    pub puuid: String,
    pub name: String,
    pub tag: String,
    pub team: TeamEnum,
    pub level: i64,
    pub character: String,
    pub current_tier: i64,
    pub current_tier_patched: String,
    pub player_card: String,
    pub player_title: String,
    pub party_id: Option<String>,
    pub session_playtime: SessionPlaytime,
    pub behavior: Behavior,
    pub platform: PlatformClass,
    pub assets: AllPlayerAssets,
    pub stats: Stats,
    pub economy: AllPlayerEconomy,
    pub damage_made: i64,
    pub damage_received: i64,
}

#[derive(Debug)]
pub struct AllPlayerAssets {
    pub card: Card,
    pub agent: Agent,
}

#[derive(Debug)]
pub struct Agent {
    pub small: String,
    pub bust: String,
    pub full: String,
    pub kill_feed: String,
}

#[derive(Debug)]
pub struct Card {
    pub small: String,
    pub large: String,
    pub wide: String,
}

/// Behavioural penalty counters; whole rounds, so plain integers.
#[derive(Debug)]
pub struct Behavior {
    pub afk_rounds: i64,
    pub friendly_fire: FriendlyFire,
    pub rounds_in_spawn: i64,
}

#[derive(Debug)]
pub struct FriendlyFire {
    pub incoming: i64,
    pub outgoing: i64,
}

#[derive(Debug)]
pub struct AllPlayerEconomy {
    pub spent: LoadoutValue,
    pub loadout_value: LoadoutValue,
}

#[derive(Debug)]
pub struct LoadoutValue {
    pub overall: i64,
    pub average: i64,
}

#[derive(Debug)]
pub struct PlatformClass {
    pub platform_type: String,
    pub os: Os,
}

#[derive(Debug)]
pub struct Os {
    pub name: String,
    pub version: String,
}

#[derive(Debug)]
pub struct SessionPlaytime {
    pub minutes: Option<i64>,
    pub seconds: Option<i64>,
    pub milliseconds: Option<i64>,
}

/// Per-match scoreboard counters for one participant.
#[derive(Debug)]
pub struct Stats {
    pub score: i64,
    pub kills: i64,
    pub deaths: i64,
    pub assists: i64,
    pub body_shots: i64,
    pub head_shots: i64,
    pub leg_shots: i64,
}

#[derive(Debug)]
pub struct Round {
    pub winning_team: TeamEnum,
    pub end_type: String,
    pub bomb_planted: bool,
    pub bomb_defused: bool,
    pub plant_events: PlantEvents,
    pub defuse_events: DefuseEvents,
    pub player_stats: Vec<PlayerStat>,
}

#[derive(Debug)]
pub struct DefuseEvents {
    pub defuse_location: Option<Location>,
    pub defused_by: Option<EdBy>,
    pub defuse_time_in_round: Option<i64>,
    pub player_locations_on_defuse: Option<Vec<PlayerLocationsOn>>,
}

#[derive(Debug)]
pub struct EdBy {
    pub puuid: String,
    pub display_name: String,
    pub team: TeamEnum,
}

#[derive(Debug)]
pub struct PlantEvents {
    pub plant_location: Option<Location>,
    pub planted_by: Option<EdBy>,
    pub plant_site: Option<PlantSite>,
    pub plant_time_in_round: Option<i64>,
    pub player_locations_on_plant: Option<Vec<PlayerLocationsOn>>,
}

#[derive(Debug)]
pub struct PlayerStat {
    pub player_puuid: String,
    pub player_display_name: String,
    pub player_team: TeamEnum,
    pub damage_events: Vec<DamageEvent>,
    pub damage: i64,
    pub body_shots: i64,
    pub head_shots: i64,
    pub leg_shots: i64,
    pub kill_events: Vec<Kill>,
    pub kills: i64,
    pub score: i64,
    pub economy: PlayerStatEconomy,
    pub was_afk: bool,
    pub was_penalized: bool,
    pub stayed_in_spawn: bool,
}

#[derive(Debug)]
pub struct DamageEvent {
    pub receiver_puuid: String,
    pub receiver_display_name: String,
    pub receiver_team: TeamEnum,
    pub damage: i64,
    pub body_shots: i64,
    pub head_shots: i64,
    pub leg_shots: i64,
}

#[derive(Debug)]
pub struct PlayerStatEconomy {
    pub loadout_value: i64,
    pub weapon: Weapon,
    pub armor: Armor,
    pub remaining: i64,
    pub spent: i64,
}

#[derive(Debug)]
pub struct Armor {
    pub id: Option<String>,
    pub name: Option<ArmorName>,
    pub assets: ArmorAssets,
}

#[derive(Debug)]
pub struct ArmorAssets {
    pub display_icon: Option<String>,
}

#[derive(Debug)]
pub struct Weapon {
    pub id: Option<String>,
    pub name: Option<String>,
    pub assets: Option<DamageWeaponAssetsClass>,
}

#[derive(Debug)]
pub struct Teams {
    pub red: Team,
    pub blue: Team,
}

/// One team's tallies for the match.
#[derive(Debug)]
pub struct Team {
    pub has_won: bool,
    pub rounds_won: i64,
    pub rounds_lost: i64,
}

#[derive(Debug, Clone, Copy, PartialEq, Eq, Structural)]
pub enum TeamEnum {
    Blue,
    Red,
}

#[derive(Debug, Clone, Copy, PartialEq, Eq, Structural)]
pub enum PlantSite {
    A,
    B,
    C,
    D,
    E,
}

#[derive(Debug, Clone, Copy, PartialEq, Eq, Structural)]
pub enum ArmorName {
    HeavyShields,
    LightShields,
}

impl Stats {
    /// Scoreboard counters are non-negative; the derived-stat
    /// computations depend on this.
    pub open spec fn wf(&self) -> bool {
        &&& 0 <= self.score
        &&& 0 <= self.kills
        &&& 0 <= self.deaths
        &&& 0 <= self.assists
        &&& 0 <= self.body_shots
        &&& 0 <= self.head_shots
        &&& 0 <= self.leg_shots
    }
}

impl Datum {
    /// Well-formedness of a fetched match: the duration and round count
    /// are non-negative and every participant's counters are.
    pub open spec fn wf(&self) -> bool {
        &&& 0 <= self.metadata.game_length
        &&& 0 <= self.metadata.rounds_played
        &&& forall|i: int|
            0 <= i < self.players.all_players@.len() ==> (
            #[trigger] self.players.all_players@[i].stats).wf()
    }
}

fn stats_wf_exec(s: &Stats) -> (b: bool)
    ensures
        b == s.wf(),
{
    0 <= s.score && 0 <= s.kills && 0 <= s.deaths && 0 <= s.assists && 0 <= s.body_shots && 0
        <= s.head_shots && 0 <= s.leg_shots
}

/// Run-time check of `Datum::wf`, so an unverified boundary can test a
/// freshly fetched match before handing it to the verified pipeline.
pub fn datum_wf(game: &Datum) -> (b: bool)
    ensures
        b == game.wf(),
{
    if game.metadata.game_length < 0 || game.metadata.rounds_played < 0 {
        return false;
    }
    let n = game.players.all_players.len();
    let mut i: usize = 0;
    while i < n
        invariant
            n == game.players.all_players@.len(),
            0 <= i <= n,
            forall|k: int| 0 <= k < i ==> (#[trigger] game.players.all_players@[k].stats).wf(),
        decreases n - i,
    {
        if !stats_wf_exec(&game.players.all_players[i].stats) {
            return false;
        }
        i = i + 1;
    }
    true
}

} // verus!
