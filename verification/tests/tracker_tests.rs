use valo_tracker::PlayerData;
use valo_tracker::client::{extract_latest_match, extract_latest_mmr, TrackError};
use valo_tracker::game_tracker::{match_tick, mmr_fields, process_game, LastData};
use valo_tracker::hendrix_mmr_response::{HendrixMmrResponse, Images, MmrDatum};
use valo_tracker::hendrix_response::{
    datum_wf, Agent, AllPlayerAssets, AllPlayerEconomy, Behavior, Card, Datum, DefuseEvents,
    FriendlyFire, HendrixResponse, LoadoutValue, Metadata, Os, PlantEvents, PlatformClass, Player,
    Players, Round, SessionPlaytime, Stats, Team, TeamEnum, Teams,
};

fn participant(name: &str, tag: &str, team: TeamEnum) -> Player {
    Player {
        puuid: format!("{name}-{tag}-id"),
        name: name.to_string(),
        tag: tag.to_string(),
        team,
        level: 10,
        character: "Sage".to_string(),
        current_tier: 12,
        current_tier_patched: "Gold 1".to_string(),
        player_card: "card".to_string(),
        player_title: "title".to_string(),
        party_id: None,
        session_playtime: SessionPlaytime { minutes: None, seconds: None, milliseconds: None },
        behavior: Behavior {
            afk_rounds: 0,
            friendly_fire: FriendlyFire { incoming: 0, outgoing: 0 },
            rounds_in_spawn: 0,
        },
        platform: PlatformClass {
            platform_type: "PC".to_string(),
            os: Os { name: "Windows".to_string(), version: "10".to_string() },
        },
        assets: AllPlayerAssets {
            card: Card {
                small: "card-small".to_string(),
                large: "card-large".to_string(),
                wide: "card-wide".to_string(),
            },
            agent: Agent {
                small: "agent-small".to_string(),
                bust: "agent-bust".to_string(),
                full: "agent-full".to_string(),
                kill_feed: "agent-feed".to_string(),
            },
        },
        stats: Stats {
            score: 2500,
            kills: 10,
            deaths: 4,
            assists: 3,
            body_shots: 6,
            head_shots: 12,
            leg_shots: 2,
        },
        economy: AllPlayerEconomy {
            spent: LoadoutValue { overall: 1000, average: 200 },
            loadout_value: LoadoutValue { overall: 2000, average: 400 },
        },
        damage_made: 2000,
        damage_received: 1500,
    }
}

fn empty_round() -> Round {
    Round {
        winning_team: TeamEnum::Red,
        end_type: "Eliminated".to_string(),
        bomb_planted: false,
        bomb_defused: false,
        plant_events: PlantEvents {
            plant_location: None,
            planted_by: None,
            plant_site: None,
            plant_time_in_round: None,
            player_locations_on_plant: None,
        },
        defuse_events: DefuseEvents {
            defuse_location: None,
            defused_by: None,
            defuse_time_in_round: None,
            player_locations_on_defuse: None,
        },
        player_stats: vec![],
    }
}

fn game_with(match_id: &str, all_players: Vec<Player>) -> Datum {
    let rounds = (0..10).map(|_| empty_round()).collect();
    Datum {
        metadata: Metadata {
            map: "Ascent".to_string(),
            game_version: "v1".to_string(),
            game_length: 2_400_000,
            game_start: 1_700_000_000,
            game_start_patched: "today".to_string(),
            rounds_played: 24,
            mode: "Competitive".to_string(),
            queue: "Standard".to_string(),
            season_id: "s1".to_string(),
            platform: "PC".to_string(),
            match_id: match_id.to_string(),
            region: "na".to_string(),
            cluster: "x".to_string(),
        },
        players: Players { all_players, red: vec![], blue: vec![] },
        teams: Teams {
            red: Team { has_won: true, rounds_won: 13, rounds_lost: 11 },
            blue: Team { has_won: false, rounds_won: 11, rounds_lost: 13 },
        },
        rounds,
        kills: vec![],
    }
}

fn identity(name: &str, tag: &str) -> PlayerData {
    PlayerData::new(name.to_string(), tag.to_string())
}

fn rating(elo: i64, delta: i64, date_raw: i64) -> MmrDatum {
    MmrDatum {
        current_tier: 17,
        current_tier_patched: "Diamond 2".to_string(),
        images: Images {
            small: "s".to_string(),
            large: "l".to_string(),
            triangle_down: "d".to_string(),
            triangle_up: "u".to_string(),
        },
        ranking_in_tier: 55,
        mmr_change_to_last_game: delta,
        elo,
        date: "today".to_string(),
        date_raw,
    }
}

#[test]
fn first_fetch_establishes_baseline_without_notification() {
    let mut last = LastData::new();
    let game = game_with("m1", vec![participant("Bob", "NA1", TeamEnum::Red)]);
    let r = process_game(&mut last, &identity("Bob", "NA1"), &game);
    assert!(matches!(r, Ok(None)));
    assert_eq!(last.last_game_id.as_deref(), Some("m1"));
}

#[test]
fn repeated_identifier_is_silent_then_new_identifier_notifies() {
    let mut last = LastData::new();
    let id = identity("Bob", "NA1");
    let g1 = game_with("m1", vec![participant("Bob", "NA1", TeamEnum::Red)]);
    assert!(matches!(process_game(&mut last, &id, &g1), Ok(None)));
    let g2 = game_with("m1", vec![participant("Bob", "NA1", TeamEnum::Red)]);
    assert!(matches!(process_game(&mut last, &id, &g2), Ok(None)));
    let g3 = game_with("m2", vec![participant("Bob", "NA1", TeamEnum::Red)]);
    let r = process_game(&mut last, &id, &g3);
    match r {
        Ok(Some(_)) => {},
        _ => panic!("expected exactly one notification on the changed identifier"),
    }
    assert_eq!(last.last_game_id.as_deref(), Some("m2"));
}

#[test]
fn missing_player_leaves_state_untouched() {
    let mut last = LastData::new();
    let game = game_with("m1", vec![participant("Eve", "NA1", TeamEnum::Red)]);
    let r = process_game(&mut last, &identity("Bob", "NA1"), &game);
    assert!(matches!(r, Err(TrackError::PlayerNotInMatch)));
    assert!(last.last_game_id.is_none());
}

#[test]
fn notification_payload_renders_every_field() {
    let mut last = LastData::new();
    last.last_game_id = Some("m0".to_string());
    let id = identity("Bob", "NA1");
    let game = game_with("m1", vec![participant("Bob", "NA1", TeamEnum::Red)]);
    let msg = match process_game(&mut last, &id, &game) {
        Ok(Some(m)) => m,
        _ => panic!("expected a payload"),
    };
    assert_eq!(msg.title, "Bob's Game on Ascent");
    assert!(msg.won);
    assert_eq!(msg.image, "card-wide");
    assert_eq!(msg.thumbnail, "agent-small");
    assert_eq!(msg.timestamp, 1_700_000_000);
    assert_eq!(
        msg.description,
        "Bob **won** their game on Ascent with a KD of 2.50, and is now at rank Gold 1"
    );
    let expect = vec![
        ("Map", "Ascent"),
        ("Rounds", "24"),
        ("Player Team Rounds Won / Lost", "13 / 11"),
        ("Game Length", "40min"),
        ("Agent", "Sage"),
        ("Kills", "10"),
        ("Assists", "3"),
        ("Deaths", "4"),
        ("KD Ratio", "2.50"),
        ("Leaderboard Position", "1"),
        ("Head Shot Percentage", "60%"),
        ("Average Combat Score", "250"),
    ];
    assert_eq!(msg.fields.len(), expect.len());
    for (got, want) in msg.fields.iter().zip(expect.iter()) {
        assert_eq!(got.0, want.0);
        assert_eq!(got.1, want.1);
        assert!(got.2);
    }
}

#[test]
fn title_uses_cached_display_name_and_description_the_raw_name() {
    let mut last = LastData::new();
    last.last_game_id = Some("m0".to_string());
    let mut id = identity("Bob", "NA1");
    id.cached_display_name = Some("Bobby".to_string());
    let game = game_with("m1", vec![participant("Bob", "NA1", TeamEnum::Red)]);
    let msg = match process_game(&mut last, &id, &game) {
        Ok(Some(m)) => m,
        _ => panic!("expected a payload"),
    };
    assert_eq!(msg.title, "Bobby's Game on Ascent");
    assert!(msg.description.starts_with("Bob **"));
}

#[test]
fn losing_team_renders_a_loss() {
    let mut last = LastData::new();
    last.last_game_id = Some("m0".to_string());
    let id = identity("Bob", "NA1");
    let game = game_with("m1", vec![participant("Bob", "NA1", TeamEnum::Blue)]);
    let msg = match process_game(&mut last, &id, &game) {
        Ok(Some(m)) => m,
        _ => panic!("expected a payload"),
    };
    assert!(!msg.won);
    assert_eq!(
        msg.description,
        "Bob **lost** their game on Ascent with a KD of 2.50, and is now at rank Gold 1"
    );
    // The blue team's tallies drive the team-rounds field.
    let team_rounds = msg.fields.iter().find(|f| f.0 == "Player Team Rounds Won / Lost").unwrap();
    assert_eq!(team_rounds.1, "11 / 13");
}

#[test]
fn optional_fields_appear_when_present() {
    let mut last = LastData::new();
    last.last_game_id = Some("m0".to_string());
    let id = identity("Bob", "NA1");
    let mut me = participant("Bob", "NA1", TeamEnum::Red);
    me.party_id = Some("party-1".to_string());
    me.session_playtime.minutes = Some(95);
    me.behavior.afk_rounds = 2;
    me.behavior.rounds_in_spawn = 1;
    let mut mate = participant("Amy", "NA2", TeamEnum::Red);
    mate.party_id = Some("party-1".to_string());
    let mut stranger = participant("Sam", "NA3", TeamEnum::Blue);
    stranger.party_id = Some("party-2".to_string());
    let game = game_with("m1", vec![me, mate, stranger]);
    let msg = match process_game(&mut last, &id, &game) {
        Ok(Some(m)) => m,
        _ => panic!("expected a payload"),
    };
    let keys: Vec<&str> = msg.fields.iter().map(|f| f.0.as_str()).collect();
    assert!(keys.contains(&"Session Playtime"));
    assert!(keys.contains(&"AFK Rounds"));
    assert!(keys.contains(&"Rounds in Spawn"));
    let partied = msg.fields.iter().find(|f| f.0 == "Partied With").expect("partied field");
    assert_eq!(partied.1, "Amy#NA2");
    let playtime = msg.fields.iter().find(|f| f.0 == "Session Playtime").unwrap();
    assert_eq!(playtime.1, "95min");
}

#[test]
fn partied_with_excludes_self_by_identity_not_by_name() {
    let mut last = LastData::new();
    last.last_game_id = Some("m0".to_string());
    let id = identity("Bob", "NA1");
    let mut me = participant("Bob", "NA1", TeamEnum::Red);
    me.party_id = Some("party-1".to_string());
    // A different identity carrying the same display name, in the same
    // party: it must be listed, only the player's own entry is left out.
    let mut namesake = participant("Bob", "NA9", TeamEnum::Red);
    namesake.party_id = Some("party-1".to_string());
    let game = game_with("m1", vec![me, namesake]);
    let msg = match process_game(&mut last, &id, &game) {
        Ok(Some(m)) => m,
        _ => panic!("expected a payload"),
    };
    let partied = msg.fields.iter().find(|f| f.0 == "Partied With").expect("partied field");
    assert_eq!(partied.1, "Bob#NA9");
}

#[test]
fn mmr_sub_fields_follow_the_baseline_rule() {
    let mut last = LastData::new();
    // First fetch: baseline only.
    assert!(mmr_fields(&mut last, &rating(1900, 21, 100)).is_none());
    assert_eq!(last.last_mmr_change_timestamp, Some(100));
    // Unchanged timestamp: silent.
    assert!(mmr_fields(&mut last, &rating(1900, 21, 100)).is_none());
    // Changed timestamp: both fields, gain carries an explicit plus.
    let fields = mmr_fields(&mut last, &rating(1921, 21, 200)).expect("fields");
    assert_eq!(fields.len(), 2);
    assert_eq!(fields[0].0, "MMR Change");
    assert_eq!(fields[0].1, "+21");
    assert_eq!(fields[1].0, "Rank");
    assert_eq!(fields[1].1, "Diamond 2 @ 55 MMR");
    assert_eq!(last.last_mmr_change_timestamp, Some(200));
}

#[test]
fn mmr_loss_renders_without_plus() {
    let mut last = LastData::new();
    last.last_mmr_change_timestamp = Some(100);
    let fields = mmr_fields(&mut last, &rating(1880, -20, 200)).expect("fields");
    assert_eq!(fields[0].1, "-20");
}

#[test]
fn one_failed_fetch_does_not_block_the_other_identities() {
    let players: Vec<PlayerData> =
        ["Ana", "Ben", "Cal", "Dee", "Eli"].iter().map(|n| identity(n, "NA")).collect();
    let mut states: Vec<LastData> = (0..5)
        .map(|_| {
            let mut st = LastData::new();
            st.last_game_id = Some("old".to_string());
            st
        })
        .collect();
    let fetches: Vec<Option<Datum>> = players
        .iter()
        .enumerate()
        .map(|(i, p)| {
            if i == 2 {
                None
            } else {
                Some(game_with("new", vec![participant(&p.name, "NA", TeamEnum::Red)]))
            }
        })
        .collect();
    let outs = match_tick(&mut states, &players, &fetches);
    assert_eq!(outs.len(), 5);
    for (i, out) in outs.iter().enumerate() {
        if i == 2 {
            assert!(out.is_none());
            assert_eq!(states[i].last_game_id.as_deref(), Some("old"));
        } else {
            assert!(out.is_some());
            assert_eq!(states[i].last_game_id.as_deref(), Some("new"));
        }
    }
}

#[test]
fn wellformedness_check_rejects_negative_counters() {
    let good = game_with("m1", vec![participant("Bob", "NA1", TeamEnum::Red)]);
    assert!(datum_wf(&good));
    let mut bad = game_with("m1", vec![participant("Bob", "NA1", TeamEnum::Red)]);
    bad.players.all_players[0].stats.kills = -1;
    assert!(!datum_wf(&bad));
    let mut bad_meta = game_with("m1", vec![]);
    bad_meta.metadata.game_length = -5;
    assert!(!datum_wf(&bad_meta));
}

#[test]
fn extract_latest_match_requires_success_and_data() {
    let ok = HendrixResponse {
        status: 200,
        data: Some(vec![game_with("m1", vec![]), game_with("m2", vec![])]),
    };
    let got = extract_latest_match(ok).expect("most recent match");
    assert_eq!(got.metadata.match_id, "m1");

    let bad_status = HendrixResponse { status: 404, data: Some(vec![game_with("m1", vec![])]) };
    assert!(matches!(extract_latest_match(bad_status), Err(TrackError::NotFound)));

    let empty = HendrixResponse { status: 200, data: Some(vec![]) };
    assert!(matches!(extract_latest_match(empty), Err(TrackError::NotFound)));

    let missing = HendrixResponse { status: 200, data: None };
    assert!(matches!(extract_latest_match(missing), Err(TrackError::NotFound)));
}

#[test]
fn extract_latest_mmr_requires_success_and_data() {
    let ok = HendrixMmrResponse {
        status: 200,
        name: Some("Bob".to_string()),
        tag: Some("NA1".to_string()),
        data: Some(vec![rating(1900, 5, 100), rating(1895, -5, 50)]),
    };
    let got = extract_latest_mmr(ok).expect("most recent rating");
    assert_eq!(got.date_raw, 100);

    let bad = HendrixMmrResponse { status: 500, name: None, tag: None, data: None };
    assert!(matches!(extract_latest_mmr(bad), Err(TrackError::NotFound)));
}
