//! The per-identity match change detector and notification formatter.
//!
//! One call of [`process_game`] is one polling cycle's worth of logic
//! for one identity: compare the fetched match against the stored
//! baseline, advance the baseline unconditionally, and build the
//! notification payload exactly when a genuinely new match was
//! observed.  [`match_tick`] runs that step across the whole roster,
//! isolating each identity's outcome from the others.

use vstd::prelude::*;
use vstd::string::StringExecFns;
use crate::PlayerData;
use crate::client::TrackError;
use crate::hendrix_mmr_response::MmrDatum;
use crate::hendrix_response::{Datum, Player, Team, TeamEnum, Teams};
use crate::stats::{
    average_combat_score, format_kd, headshot_pct, headshot_percentage, kd_position, kd_seq,
    leaderboard_position,
};
use crate::text::{append_i64, dec_int, i64_string, join, join_strings, u64_string, views_of};

verus! {

/// The mutable memory the pipeline keeps for one tracked identity: the
/// most recently observed match identifier and rating timestamp.
/// `None` means no baseline has been established yet.
#[derive(Debug)]
pub struct LastData {
    pub last_game_id: Option<String>,
    pub last_mmr_change_timestamp: Option<i64>,
}

impl LastData {
    /// The stored match identifier, as a mathematical value.
    pub open spec fn game_id(&self) -> Option<Seq<char>> {
        match self.last_game_id {
            Some(s) => Some(s@),
            None => None,
        }
    }

    /// Fresh state with no baseline for either field.
    pub fn new() -> (r: LastData)
        ensures
            r.last_game_id is None,
            r.last_mmr_change_timestamp is None,
    {
        LastData { last_game_id: None, last_mmr_change_timestamp: None }
    }

    /// A field-for-field copy, equal to the original.
    pub fn duplicate(&self) -> (r: LastData)
        ensures
            r == *self,
    {
        LastData {
            last_game_id: match &self.last_game_id {
                Some(s) => Some(s.clone()),
                None => None,
            },
            last_mmr_change_timestamp: self.last_mmr_change_timestamp,
        }
    }
}

/// Whether a notification is owed, given the stored identifier and the
/// newly fetched one: never on the baseline observation, and otherwise
/// exactly when the identifier changed.
pub open spec fn should_notify(prev: Option<Seq<char>>, new_id: Seq<char>) -> bool {
    match prev {
        Some(p) => p != new_id,
        None => false,
    }
}

/// The baseline rule in one place: a first observation is silent, a
/// repeated identifier is silent, and a changed identifier notifies.
pub proof fn lemma_baseline_then_change(m: Seq<char>, m2: Seq<char>)
    ensures
        !should_notify(None, m),
        !should_notify(Some(m), m),
        m != m2 ==> should_notify(Some(m), m2),
{
}

/// One notification field: a key, a rendered value, and the inline
/// flag, which is always set.
pub fn field(key: &str, value: &str) -> (r: (String, String, bool))
    ensures
        r.0@ == key@,
        r.1@ == value@,
        r.2 == true,
{
    (key.to_owned(), value.to_owned(), true)
}

/// Whether one built field carries exactly this key, value and flag.
pub open spec fn field_matches(f: (String, String, bool), sf: (Seq<char>, Seq<char>, bool)) -> bool {
    f.0@ == sf.0 && f.1@ == sf.1 && f.2 == sf.2
}

/// Whether a built field list renders, entry for entry, the given
/// mathematical field list.
pub open spec fn fields_match(
    fs: Seq<(String, String, bool)>,
    sp: Seq<(Seq<char>, Seq<char>, bool)>,
) -> bool {
    &&& fs.len() == sp.len()
    &&& forall|i: int| 0 <= i < fs.len() ==> field_matches(#[trigger] fs[i], sp[i])
}

proof fn lemma_fields_match_push(
    fs: Seq<(String, String, bool)>,
    sp: Seq<(Seq<char>, Seq<char>, bool)>,
    f: (String, String, bool),
    sf: (Seq<char>, Seq<char>, bool),
)
    requires
        fields_match(fs, sp),
        field_matches(f, sf),
    ensures
        fields_match(fs.push(f), sp.push(sf)),
{
    assert forall|i: int| 0 <= i < fs.push(f).len() implies field_matches(
        #[trigger] fs.push(f)[i],
        sp.push(sf)[i],
    ) by {
        if i < fs.len() {
            assert(fs.push(f)[i] == fs[i]);
            assert(sp.push(sf)[i] == sp[i]);
        } else {
            assert(fs.push(f)[i] == f);
            assert(sp.push(sf)[i] == sf);
        }
    }
}

/// The team a participant belongs to, selected by membership.
pub open spec fn team_of(teams: Teams, t: TeamEnum) -> Team {
    match t {
        TeamEnum::Red => teams.red,
        TeamEnum::Blue => teams.blue,
    }
}

pub fn team_for(teams: &Teams, t: TeamEnum) -> (r: &Team)
    ensures
        *r == team_of(*teams, t),
{
    match t {
        TeamEnum::Red => &teams.red,
        TeamEnum::Blue => &teams.blue,
    }
}

/// The first index at or after `i` whose participant carries this name
/// and tag.
pub open spec fn find_player_from(
    players: Seq<Player>,
    name: Seq<char>,
    tag: Seq<char>,
    i: int,
) -> Option<int>
    decreases players.len() - i,
{
    if i < 0 || i >= players.len() {
        None
    } else if players[i].name@ == name && players[i].tag@ == tag {
        Some(i)
    } else {
        find_player_from(players, name, tag, i + 1)
    }
}

/// The first participant with this name and tag, if any: the provider
/// keys matches by profile id, so the named player can be absent.
pub open spec fn find_player_idx(players: Seq<Player>, name: Seq<char>, tag: Seq<char>) -> Option<
    int,
> {
    find_player_from(players, name, tag, 0)
}

fn find_player(players: &Vec<Player>, name: &String, tag: &String) -> (r: Option<usize>)
    ensures
        match r {
            Some(i) => i < players@.len() && find_player_idx(players@, name@, tag@) == Some(
                i as int,
            ),
            None => find_player_idx(players@, name@, tag@) is None,
        },
{
    let n = players.len();
    let mut i: usize = 0;
    while i < n
        invariant
            0 <= i <= n,
            n == players@.len(),
            find_player_idx(players@, name@, tag@) == find_player_from(players@, name@, tag@, i as int),
        decreases n - i,
    {
        if players[i].name == *name && players[i].tag == *tag {
            return Some(i);
        }
        i = i + 1;
    }
    None
}

/// `"name#tag"` of one participant.
pub open spec fn player_id_seq(p: Player) -> Seq<char> {
    p.name@ + "#"@ + p.tag@
}

/// Whether two optional party group identifiers name the same party:
/// both present and equal.
pub open spec fn same_party(a: Option<String>, b: Option<String>) -> bool {
    match (a, b) {
        (Some(x), Some(y)) => x@ == y@,
        _ => false,
    }
}

/// Whether the participant at `j` queued together with the one at
/// `pi` and is not that participant itself.  Self-exclusion goes by
/// the participant's entry, never by display name: names are not
/// unique, identities are.
pub open spec fn in_party_with(players: Seq<Player>, j: int, pi: int) -> bool {
    j != pi && same_party(players[j].party_id, players[pi].party_id)
}

pub open spec fn partied_ids_from(players: Seq<Player>, pi: int, i: int) -> Seq<Seq<char>>
    decreases players.len() - i,
{
    if i < 0 || i >= players.len() {
        Seq::empty()
    } else {
        (if in_party_with(players, i, pi) {
            seq![player_id_seq(players[i])]
        } else {
            Seq::empty()
        }) + partied_ids_from(players, pi, i + 1)
    }
}

/// The `"name#tag"` ids of the other participants sharing the party
/// of the participant at `pi`, self excluded, in provider order.
pub open spec fn partied_ids(players: Seq<Player>, pi: int) -> Seq<Seq<char>> {
    partied_ids_from(players, pi, 0)
}

fn same_party_exec(a: &Option<String>, b: &Option<String>) -> (r: bool)
    ensures
        r == same_party(*a, *b),
{
    match (a, b) {
        (Some(x), Some(y)) => *x == *y,
        _ => false,
    }
}

fn partied_with_ids(players: &Vec<Player>, pi: usize) -> (r: Vec<String>)
    requires
        pi < players@.len(),
    ensures
        views_of(r@) == partied_ids(players@, pi as int),
{
    let mut ids: Vec<String> = Vec::new();
    let n = players.len();
    let mut j: usize = 0;
    proof {
        assert(views_of(ids@) =~= Seq::<Seq<char>>::empty());
    }
    while j < n
        invariant
            0 <= j <= n,
            n == players@.len(),
            pi < n,
            partied_ids(players@, pi as int) == views_of(ids@) + partied_ids_from(
                players@,
                pi as int,
                j as int,
            ),
        decreases n - j,
    {
        let ghost ids_before = ids@;
        if j != pi && same_party_exec(&players[j].party_id, &players[pi].party_id) {
            let mut id = players[j].name.clone();
            id.append("#");
            id.append(players[j].tag.as_str());
            proof {
                assert(id@ =~= player_id_seq(players@[j as int]));
            }
            ids.push(id);
            proof {
                assert(views_of(ids@) =~= views_of(ids_before).push(player_id_seq(
                    players@[j as int],
                )));
                assert(views_of(ids@) + partied_ids_from(players@, pi as int, j as int + 1)
                    =~= views_of(ids_before) + partied_ids_from(players@, pi as int, j as int));
            }
        } else {
            proof {
                assert(!in_party_with(players@, j as int, pi as int));
                assert(views_of(ids@) + partied_ids_from(players@, pi as int, j as int + 1)
                    =~= views_of(ids_before) + partied_ids_from(players@, pi as int, j as int));
            }
        }
        j = j + 1;
    }
    proof {
        assert(views_of(ids@) + partied_ids_from(players@, pi as int, n as int) =~= views_of(ids@));
    }
    ids
}

/// The ordered field list of a match notification: the fixed fields,
/// then each conditional field exactly when its datum is present and
/// meaningful.  Rate fields with a zero denominator are skipped.
pub open spec fn match_fields_spec(game: Datum, pi: int) -> Seq<(Seq<char>, Seq<char>, bool)> {
    let m = game.metadata;
    let p = game.players.all_players@[pi];
    let t = team_of(game.teams, p.team);
    let s0 = seq![
        ("Map"@, m.map@, true),
        ("Rounds"@, dec_int(m.rounds_played as int), true),
        (
            "Player Team Rounds Won / Lost"@,
            dec_int(t.rounds_won as int) + " / "@ + dec_int(t.rounds_lost as int),
            true,
        ),
        ("Game Length"@, dec_int(m.game_length as int / 60000) + "min"@, true),
        ("Agent"@, p.character@, true),
        ("Kills"@, dec_int(p.stats.kills as int), true),
        ("Assists"@, dec_int(p.stats.assists as int), true),
        ("Deaths"@, dec_int(p.stats.deaths as int), true),
        ("KD Ratio"@, kd_seq(p.stats.kills as int, p.stats.deaths as int), true),
        ("Leaderboard Position"@, dec_int(kd_position(game.players.all_players@, pi)), true),
    ];
    let s1 = if p.stats.head_shots + p.stats.body_shots + p.stats.leg_shots > 0 {
        s0.push(
            (
                "Head Shot Percentage"@,
                dec_int(
                    headshot_pct(
                        p.stats.head_shots as int,
                        p.stats.body_shots as int,
                        p.stats.leg_shots as int,
                    ),
                ) + "%"@,
                true,
            ),
        )
    } else {
        s0
    };
    let s2 = if game.rounds@.len() > 0 {
        s1.push(
            (
                "Average Combat Score"@,
                dec_int(p.stats.score as int / game.rounds@.len() as int),
                true,
            ),
        )
    } else {
        s1
    };
    let s3 = match p.session_playtime.minutes {
        Some(mi) => s2.push(("Session Playtime"@, dec_int(mi as int) + "min"@, true)),
        None => s2,
    };
    let s4 = if p.behavior.afk_rounds > 0 {
        s3.push(("AFK Rounds"@, dec_int(p.behavior.afk_rounds as int), true))
    } else {
        s3
    };
    let s5 = if p.behavior.rounds_in_spawn > 0 {
        s4.push(("Rounds in Spawn"@, dec_int(p.behavior.rounds_in_spawn as int), true))
    } else {
        s4
    };
    if p.party_id is Some && partied_ids(game.players.all_players@, pi).len() > 0 {
        s5.push(
            ("Partied With"@, join(partied_ids(game.players.all_players@, pi), ", "@), true),
        )
    } else {
        s5
    }
}

/// Builds the rendered field list for the participant at `pi`.
fn build_match_fields(game: &Datum, pi: usize) -> (r: Vec<(String, String, bool)>)
    requires
        game.wf(),
        pi < game.players.all_players@.len(),
    ensures
        fields_match(r@, match_fields_spec(*game, pi as int)),
{
    let ghost pspec = game.players.all_players@[pi as int];
    proof {
        assert(pspec.stats.wf());
    }
    let p = &game.players.all_players[pi];
    let t = team_for(&game.teams, p.team);
    let mut r: Vec<(String, String, bool)> = Vec::new();
    let ghost mut sp: Seq<(Seq<char>, Seq<char>, bool)> = Seq::empty();

    let f = field("Map", game.metadata.map.as_str());
    proof {
        lemma_fields_match_push(r@, sp, f, ("Map"@, game.metadata.map@, true));
        sp = sp.push(("Map"@, game.metadata.map@, true));
    }
    r.push(f);

    let v = i64_string(game.metadata.rounds_played);
    let f = field("Rounds", v.as_str());
    proof {
        let sf = ("Rounds"@, dec_int(game.metadata.rounds_played as int), true);
        lemma_fields_match_push(r@, sp, f, sf);
        sp = sp.push(sf);
    }
    r.push(f);

    let mut v = i64_string(t.rounds_won);
    v.append(" / ");
    append_i64(&mut v, t.rounds_lost);
    let f = field("Player Team Rounds Won / Lost", v.as_str());
    proof {
        let sf = (
            "Player Team Rounds Won / Lost"@,
            dec_int(t.rounds_won as int) + " / "@ + dec_int(t.rounds_lost as int),
            true,
        );
        assert(v@ =~= dec_int(t.rounds_won as int) + " / "@ + dec_int(t.rounds_lost as int));
        lemma_fields_match_push(r@, sp, f, sf);
        sp = sp.push(sf);
    }
    r.push(f);

    let mins: u64 = (game.metadata.game_length as u64) / 60000;
    let mut v = u64_string(mins);
    v.append("min");
    let f = field("Game Length", v.as_str());
    proof {
        let sf = ("Game Length"@, dec_int(game.metadata.game_length as int / 60000) + "min"@, true);
        assert(v@ =~= dec_int(game.metadata.game_length as int / 60000) + "min"@);
        lemma_fields_match_push(r@, sp, f, sf);
        sp = sp.push(sf);
    }
    r.push(f);

    let f = field("Agent", p.character.as_str());
    proof {
        let sf = ("Agent"@, pspec.character@, true);
        lemma_fields_match_push(r@, sp, f, sf);
        sp = sp.push(sf);
    }
    r.push(f);

    let v = i64_string(p.stats.kills);
    let f = field("Kills", v.as_str());
    proof {
        let sf = ("Kills"@, dec_int(pspec.stats.kills as int), true);
        lemma_fields_match_push(r@, sp, f, sf);
        sp = sp.push(sf);
    }
    r.push(f);

    let v = i64_string(p.stats.assists);
    let f = field("Assists", v.as_str());
    proof {
        let sf = ("Assists"@, dec_int(pspec.stats.assists as int), true);
        lemma_fields_match_push(r@, sp, f, sf);
        sp = sp.push(sf);
    }
    r.push(f);

    let v = i64_string(p.stats.deaths);
    let f = field("Deaths", v.as_str());
    proof {
        let sf = ("Deaths"@, dec_int(pspec.stats.deaths as int), true);
        lemma_fields_match_push(r@, sp, f, sf);
        sp = sp.push(sf);
    }
    r.push(f);

    let v = format_kd(p.stats.kills, p.stats.deaths);
    let f = field("KD Ratio", v.as_str());
    proof {
        let sf = ("KD Ratio"@, kd_seq(pspec.stats.kills as int, pspec.stats.deaths as int), true);
        lemma_fields_match_push(r@, sp, f, sf);
        sp = sp.push(sf);
    }
    r.push(f);

    let pos = leaderboard_position(&game.players.all_players, pi);
    let v = u64_string(pos as u64);
    let f = field("Leaderboard Position", v.as_str());
    proof {
        let sf = (
            "Leaderboard Position"@,
            dec_int(kd_position(game.players.all_players@, pi as int)),
            true,
        );
        lemma_fields_match_push(r@, sp, f, sf);
        sp = sp.push(sf);
    }
    r.push(f);

    match headshot_percentage(p.stats.head_shots, p.stats.body_shots, p.stats.leg_shots) {
        Some(pct) => {
            let mut v = i64_string(pct);
            v.append("%");
            let f = field("Head Shot Percentage", v.as_str());
            proof {
                let sf = (
                    "Head Shot Percentage"@,
                    dec_int(
                        headshot_pct(
                            pspec.stats.head_shots as int,
                            pspec.stats.body_shots as int,
                            pspec.stats.leg_shots as int,
                        ),
                    ) + "%"@,
                    true,
                );
                assert(v@ =~= sf.1);
                lemma_fields_match_push(r@, sp, f, sf);
                sp = sp.push(sf);
            }
            r.push(f);
        },
        None => {},
    }

    match average_combat_score(p.stats.score, game.rounds.len()) {
        Some(acs) => {
            let v = i64_string(acs);
            let f = field("Average Combat Score", v.as_str());
            proof {
                let sf = (
                    "Average Combat Score"@,
                    dec_int(pspec.stats.score as int / game.rounds@.len() as int),
                    true,
                );
                lemma_fields_match_push(r@, sp, f, sf);
                sp = sp.push(sf);
            }
            r.push(f);
        },
        None => {},
    }

    match p.session_playtime.minutes {
        Some(mi) => {
            let mut v = i64_string(mi);
            v.append("min");
            let f = field("Session Playtime", v.as_str());
            proof {
                let sf = ("Session Playtime"@, dec_int(mi as int) + "min"@, true);
                assert(v@ =~= sf.1);
                lemma_fields_match_push(r@, sp, f, sf);
                sp = sp.push(sf);
            }
            r.push(f);
        },
        None => {},
    }

    if p.behavior.afk_rounds > 0 {
        let v = i64_string(p.behavior.afk_rounds);
        let f = field("AFK Rounds", v.as_str());
        proof {
            let sf = ("AFK Rounds"@, dec_int(pspec.behavior.afk_rounds as int), true);
            lemma_fields_match_push(r@, sp, f, sf);
            sp = sp.push(sf);
        }
        r.push(f);
    }

    if p.behavior.rounds_in_spawn > 0 {
        let v = i64_string(p.behavior.rounds_in_spawn);
        let f = field("Rounds in Spawn", v.as_str());
        proof {
            let sf = ("Rounds in Spawn"@, dec_int(pspec.behavior.rounds_in_spawn as int), true);
            lemma_fields_match_push(r@, sp, f, sf);
            sp = sp.push(sf);
        }
        r.push(f);
    }

    if p.party_id.is_some() {
        let ids = partied_with_ids(&game.players.all_players, pi);
        if ids.len() > 0 {
            let v = join_strings(&ids, ", ");
            let f = field("Partied With", v.as_str());
            proof {
                assert(partied_ids(game.players.all_players@, pi as int).len() == views_of(
                    ids@,
                ).len());
                let sf = (
                    "Partied With"@,
                    join(partied_ids(game.players.all_players@, pi as int), ", "@),
                    true,
                );
                lemma_fields_match_push(r@, sp, f, sf);
                sp = sp.push(sf);
            }
            r.push(f);
        } else {
            proof {
                assert(partied_ids(game.players.all_players@, pi as int).len() == views_of(
                    ids@,
                ).len());
            }
        }
    }

    proof {
        assert(sp =~= match_fields_spec(*game, pi as int));
    }
    r
}

/// One match notification payload, ready for delivery: a new message
/// in the configured channel.
#[derive(Debug)]
pub struct MatchMessage {
    pub title: String,
    pub won: bool,
    pub image: String,
    pub thumbnail: String,
    pub timestamp: i64,
    pub description: String,
    pub fields: Vec<(String, String, bool)>,
}

/// The notification title.
pub open spec fn title_seq(username: Seq<char>, map: Seq<char>) -> Seq<char> {
    username + "'s Game on "@ + map
}

/// The notification description sentence.
pub open spec fn description_seq(
    name: Seq<char>,
    won: bool,
    map: Seq<char>,
    kd: Seq<char>,
    tier: Seq<char>,
) -> Seq<char> {
    name + " **"@ + (if won {
        "won"@
    } else {
        "lost"@
    }) + "** their game on "@ + map + " with a KD of "@ + kd + ", and is now at rank "@ + tier
}

/// Whether `msg` is exactly the payload owed for the participant at
/// `pi` of this match, on behalf of the tracked identity `player`.
pub open spec fn match_message_spec(
    msg: MatchMessage,
    player: PlayerData,
    game: Datum,
    pi: int,
) -> bool {
    let p = game.players.all_players@[pi];
    let t = team_of(game.teams, p.team);
    &&& msg.title@ == title_seq(player.username_view(), game.metadata.map@)
    &&& msg.won == t.has_won
    &&& msg.image@ == p.assets.card.wide@
    &&& msg.thumbnail@ == p.assets.agent.small@
    &&& msg.timestamp == game.metadata.game_start
    &&& msg.description@ == description_seq(
        player.name@,
        t.has_won,
        game.metadata.map@,
        kd_seq(p.stats.kills as int, p.stats.deaths as int),
        p.current_tier_patched@,
    )
    &&& fields_match(msg.fields@, match_fields_spec(game, pi))
}

impl MatchMessage {
    /// Appends extra fields (the MMR sub-notification) to the payload.
    pub fn append_fields(&mut self, extra: Vec<(String, String, bool)>)
        ensures
            final(self).fields@ == old(self).fields@ + extra@,
            final(self).title == old(self).title,
            final(self).won == old(self).won,
            final(self).image == old(self).image,
            final(self).thumbnail == old(self).thumbnail,
            final(self).timestamp == old(self).timestamp,
            final(self).description == old(self).description,
    {
        let ghost all = extra@;
        let mut extra = extra;
        while extra.len() > 0
            invariant
                self.fields@ + extra@ == old(self).fields@ + all,
                self.title == old(self).title,
                self.won == old(self).won,
                self.image == old(self).image,
                self.thumbnail == old(self).thumbnail,
                self.timestamp == old(self).timestamp,
                self.description == old(self).description,
            decreases extra@.len(),
        {
            let ghost fields_before = self.fields@;
            let ghost extra_before = extra@;
            let f = extra.remove(0);
            self.fields.push(f);
            proof {
                assert(self.fields@ + extra@ =~= fields_before + extra_before);
            }
        }
        proof {
            assert(self.fields@ =~= self.fields@ + extra@);
        }
    }
}

/// The full per-call contract of [`process_game`], relating the state
/// before and after one detector step to its result.
pub open spec fn process_game_post(
    prev: LastData,
    cur: LastData,
    player: PlayerData,
    game: Datum,
    r: Result<Option<MatchMessage>, TrackError>,
) -> bool {
    match r {
        Err(e) => {
            &&& e == TrackError::PlayerNotInMatch
            &&& cur == prev
            &&& find_player_idx(game.players.all_players@, player.name@, player.tag@) is None
        },
        Ok(opt) => find_player_idx(game.players.all_players@, player.name@, player.tag@)
            matches Some(pi) && {
            &&& cur.game_id() == Some(game.metadata.match_id@)
            &&& cur.last_mmr_change_timestamp == prev.last_mmr_change_timestamp
            &&& (opt is Some <==> should_notify(prev.game_id(), game.metadata.match_id@))
            &&& match opt {
                Some(msg) => match_message_spec(msg, player, game, pi),
                None => true,
            }
        },
    }
}

/// One polling cycle's detector step for one identity, on an already
/// fetched match.
///
/// The named player is looked up in the match roster; if absent, the
/// state is left untouched and `PlayerNotInMatch` comes back.
/// Otherwise the stored match identifier is advanced to the fetched
/// one *before* the decision whether to notify, so a failure after
/// this point cannot duplicate a notification on the next cycle.  A
/// payload is owed exactly when a baseline existed and the identifier
/// changed.
pub fn process_game(last: &mut LastData, player: &PlayerData, game: &Datum) -> (r: Result<
    Option<MatchMessage>,
    TrackError,
>)
    requires
        game.wf(),
    ensures
        process_game_post(*old(last), *final(last), *player, *game, r),
{
    let pi = match find_player(&game.players.all_players, &player.name, &player.tag) {
        Some(i) => i,
        None => {
            return Err(TrackError::PlayerNotInMatch);
        },
    };
    let new_id = game.metadata.match_id.clone();
    let prev = match &last.last_game_id {
        Some(s) => Some(s.clone()),
        None => None,
    };
    last.last_game_id = Some(new_id.clone());
    let notify = match &prev {
        Some(p) => !(*p == new_id),
        None => false,
    };
    if !notify {
        return Ok(None);
    }

    let ghost pspec = game.players.all_players@[pi as int];
    proof {
        assert(pspec.stats.wf());
    }
    let p = &game.players.all_players[pi];
    let t = team_for(&game.teams, p.team);
    let won = t.has_won;

    let mut title = player.username().clone();
    title.append("'s Game on ");
    title.append(game.metadata.map.as_str());

    let kd = format_kd(p.stats.kills, p.stats.deaths);

    let mut description = player.name.clone();
    description.append(" **");
    description.append(if won {
        "won"
    } else {
        "lost"
    });
    description.append("** their game on ");
    description.append(game.metadata.map.as_str());
    description.append(" with a KD of ");
    description.append(kd.as_str());
    description.append(", and is now at rank ");
    description.append(p.current_tier_patched.as_str());

    let fields = build_match_fields(game, pi);

    proof {
        assert(title@ =~= title_seq(player.username_view(), game.metadata.map@));
        assert(description@ =~= description_seq(
            player.name@,
            won,
            game.metadata.map@,
            kd_seq(pspec.stats.kills as int, pspec.stats.deaths as int),
            pspec.current_tier_patched@,
        ));
    }

    Ok(
        Some(
            MatchMessage {
                title,
                won,
                image: p.assets.card.wide.clone(),
                thumbnail: p.assets.agent.small.clone(),
                timestamp: game.metadata.game_start,
                description,
                fields,
            },
        ),
    )
}

/// Three consecutive successful fetches, as the detector's contract
/// sees them: the baseline fetch and a repeat of the same match
/// identifier produce no notification, and a third fetch with a
/// different identifier produces exactly one.
pub proof fn lemma_consecutive_fetches(
    s0: LastData,
    s1: LastData,
    s2: LastData,
    s3: LastData,
    player: PlayerData,
    g1: Datum,
    g2: Datum,
    g3: Datum,
    o1: Option<MatchMessage>,
    o2: Option<MatchMessage>,
    o3: Option<MatchMessage>,
)
    requires
        s0.game_id() is None,
        process_game_post(s0, s1, player, g1, Ok(o1)),
        process_game_post(s1, s2, player, g2, Ok(o2)),
        process_game_post(s2, s3, player, g3, Ok(o3)),
        g2.metadata.match_id@ == g1.metadata.match_id@,
        g3.metadata.match_id@ != g2.metadata.match_id@,
    ensures
        o1 is None,
        o2 is None,
        o3 is Some,
{
}

/// The rendered MMR delta: an explicit `+` prefix on gains.
pub open spec fn signed_delta_seq(n: int) -> Seq<char> {
    (if n > 0 {
        "+"@
    } else {
        Seq::<char>::empty()
    }) + dec_int(n)
}

/// The rendered rank: `"<tier> @ <ranking> MMR"`.
pub open spec fn rank_value_seq(tier: Seq<char>, rp: int) -> Seq<char> {
    tier + " @ "@ + dec_int(rp) + " MMR"@
}

/// The two MMR sub-notification fields.
pub open spec fn mmr_fields_spec(mmr: MmrDatum) -> Seq<(Seq<char>, Seq<char>, bool)> {
    seq![
        ("MMR Change"@, signed_delta_seq(mmr.mmr_change_to_last_game as int), true),
        ("Rank"@, rank_value_seq(mmr.current_tier_patched@, mmr.ranking_in_tier as int), true),
    ]
}

/// The full per-call contract of [`mmr_fields`].
pub open spec fn mmr_fields_post(
    prev: LastData,
    cur: LastData,
    mmr: MmrDatum,
    r: Option<Vec<(String, String, bool)>>,
) -> bool {
    &&& cur.last_mmr_change_timestamp == Some(mmr.date_raw)
    &&& cur.last_game_id == prev.last_game_id
    &&& (r is Some <==> (prev.last_mmr_change_timestamp matches Some(t) && t != mmr.date_raw))
    &&& match r {
        Some(fs) => fields_match(fs@, mmr_fields_spec(mmr)),
        None => true,
    }
}

/// The MMR sub-notification attached to a match payload, on an already
/// fetched rating record.
///
/// The stored timestamp always advances to the fetched one.  Fields
/// are owed exactly when a baseline timestamp existed and differs from
/// the fetched one; the first successful fetch only establishes the
/// baseline.
pub fn mmr_fields(last: &mut LastData, mmr: &MmrDatum) -> (r: Option<Vec<(String, String, bool)>>)
    ensures
        mmr_fields_post(*old(last), *final(last), *mmr, r),
{
    let prev = last.last_mmr_change_timestamp;
    last.last_mmr_change_timestamp = Some(mmr.date_raw);
    let changed = match prev {
        Some(t) => t != mmr.date_raw,
        None => false,
    };
    if !changed {
        return None;
    }

    let mut v = String::new();
    if mmr.mmr_change_to_last_game > 0 {
        v.append("+");
    }
    append_i64(&mut v, mmr.mmr_change_to_last_game);
    let f1 = field("MMR Change", v.as_str());

    let mut v2 = mmr.current_tier_patched.clone();
    v2.append(" @ ");
    append_i64(&mut v2, mmr.ranking_in_tier);
    v2.append(" MMR");
    let f2 = field("Rank", v2.as_str());

    proof {
        assert(v@ =~= signed_delta_seq(mmr.mmr_change_to_last_game as int));
        assert(v2@ =~= rank_value_seq(mmr.current_tier_patched@, mmr.ranking_in_tier as int));
    }

    let mut fs: Vec<(String, String, bool)> = Vec::new();
    let ghost mut sp: Seq<(Seq<char>, Seq<char>, bool)> = Seq::empty();
    proof {
        let sf = ("MMR Change"@, signed_delta_seq(mmr.mmr_change_to_last_game as int), true);
        lemma_fields_match_push(fs@, sp, f1, sf);
        sp = sp.push(sf);
    }
    fs.push(f1);
    proof {
        let sf = (
            "Rank"@,
            rank_value_seq(mmr.current_tier_patched@, mmr.ranking_in_tier as int),
            true,
        );
        lemma_fields_match_push(fs@, sp, f2, sf);
        sp = sp.push(sf);
    }
    fs.push(f2);
    proof {
        assert(sp =~= mmr_fields_spec(*mmr));
    }
    Some(fs)
}

/// The per-identity outcome of one roster-wide tick: a failed fetch
/// leaves that identity's state untouched and produces no payload; a
/// successful fetch behaves as one [`process_game`] step.
pub open spec fn tick_entry_post(
    prev: LastData,
    cur: LastData,
    player: PlayerData,
    fetch: Option<Datum>,
    out: Option<MatchMessage>,
) -> bool {
    match fetch {
        None => cur == prev && out is None,
        Some(game) => if find_player_idx(
            game.players.all_players@,
            player.name@,
            player.tag@,
        ) is None {
            cur == prev && out is None
        } else {
            process_game_post(prev, cur, player, game, Ok(out))
        },
    }
}

/// One tick of the match tracker across the whole roster.
///
/// Each identity's entry is processed independently: a fetch failure
/// (`None`) or a missing player for one identity never disturbs the
/// state transition or the payload of any other.
pub fn match_tick(
    states: &mut Vec<LastData>,
    players: &Vec<PlayerData>,
    fetches: &Vec<Option<Datum>>,
) -> (outs: Vec<Option<MatchMessage>>)
    requires
        old(states)@.len() == players@.len(),
        fetches@.len() == players@.len(),
        forall|i: int|
            0 <= i < fetches@.len() ==> ((#[trigger] fetches@[i]) matches Some(g) ==> g.wf()),
    ensures
        final(states)@.len() == players@.len(),
        outs@.len() == players@.len(),
        forall|i: int|
            0 <= i < players@.len() ==> tick_entry_post(
                old(states)@[i],
                final(states)@[i],
                players@[i],
                fetches@[i],
                #[trigger] outs@[i],
            ),
{
    let n = players.len();
    let mut outs: Vec<Option<MatchMessage>> = Vec::new();
    let mut i: usize = 0;
    while i < n
        invariant
            0 <= i <= n,
            n == players@.len(),
            states@.len() == n,
            fetches@.len() == n,
            outs@.len() == i,
            forall|k: int|
                0 <= k < fetches@.len() ==> ((#[trigger] fetches@[k]) matches Some(g) ==> g.wf()),
            forall|k: int|
                0 <= k < i ==> tick_entry_post(
                    old(states)@[k],
                    states@[k],
                    players@[k],
                    fetches@[k],
                    #[trigger] outs@[k],
                ),
            forall|k: int| i <= k < n ==> states@[k] == old(states)@[k],
        decreases n - i,
    {
        match &fetches[i] {
            None => {
                outs.push(None);
            },
            Some(game) => {
                let mut st = states[i].duplicate();
                let r = process_game(&mut st, &players[i], game);
                states.set(i, st);
                match r {
                    Ok(o) => {
                        outs.push(o);
                    },
                    Err(_) => {
                        outs.push(None);
                    },
                }
            },
        }
        i = i + 1;
    }
    outs
}

} // verus!
