use valo_tracker::PlayerData;
use valo_tracker::hendrix_mmr_response::{Images, MmrDatum};
use valo_tracker::mmr_tracker::{mmr_line, RosterMmrBoard};

fn record(tier: &str, ranking: i64, elo: i64) -> MmrDatum {
    MmrDatum {
        current_tier: 17,
        current_tier_patched: tier.to_string(),
        images: Images {
            small: "s".to_string(),
            large: "l".to_string(),
            triangle_down: "d".to_string(),
            triangle_up: "u".to_string(),
        },
        ranking_in_tier: ranking,
        mmr_change_to_last_game: 0,
        elo,
        date: "today".to_string(),
        date_raw: 0,
    }
}

fn roster(names: &[&str]) -> Vec<PlayerData> {
    names.iter().map(|n| PlayerData::new(n.to_string(), "NA".to_string())).collect()
}

#[test]
fn leaderboard_line_format() {
    let line = mmr_line(&"Ari".to_string(), &"Diamond 2".to_string(), 55);
    assert_eq!(line, "Ari: Diamond 2 @ 55 MMR");
}

#[test]
fn first_results_render_the_board() {
    let mut board = RosterMmrBoard::new(roster(&["Ari"]));
    let content = board
        .board_tick(&vec![Some(record("Diamond 2", 55, 2100))])
        .expect("first stored value is a change");
    assert_eq!(content, "Ari: Diamond 2 @ 55 MMR");
}

#[test]
fn board_renders_sorted_by_elo_descending() {
    let mut board = RosterMmrBoard::new(roster(&["Low", "High", "Mid"]));
    let content = board
        .board_tick(&vec![
            Some(record("Silver 1", 10, 1200)),
            Some(record("Immortal 1", 70, 2800)),
            Some(record("Gold 3", 40, 1700)),
        ])
        .expect("changed");
    assert_eq!(
        content,
        "High: Immortal 1 @ 70 MMR\nMid: Gold 3 @ 40 MMR\nLow: Silver 1 @ 10 MMR"
    );
}

#[test]
fn equal_elo_keeps_roster_order() {
    let mut board = RosterMmrBoard::new(roster(&["First", "Second"]));
    let content = board
        .board_tick(&vec![Some(record("Gold 1", 5, 1500)), Some(record("Gold 1", 7, 1500))])
        .expect("changed");
    assert_eq!(content, "First: Gold 1 @ 5 MMR\nSecond: Gold 1 @ 7 MMR");
}

#[test]
fn no_elo_change_means_no_edit() {
    let mut board = RosterMmrBoard::new(roster(&["Ari", "Bo"]));
    let first = board.board_tick(&vec![
        Some(record("Diamond 2", 55, 2100)),
        Some(record("Gold 1", 10, 1500)),
    ]);
    assert!(first.is_some());
    // Same elo values again: the tick performs zero edits.
    let second = board.board_tick(&vec![
        Some(record("Diamond 2", 56, 2100)),
        Some(record("Gold 1", 11, 1500)),
    ]);
    assert!(second.is_none());
}

#[test]
fn failed_fetches_keep_last_known_values_and_do_not_edit() {
    let mut board = RosterMmrBoard::new(roster(&["Ari", "Bo"]));
    board
        .board_tick(&vec![Some(record("Diamond 2", 55, 2100)), Some(record("Gold 1", 10, 1500))])
        .expect("changed");
    // Every fetch fails: zero edits, stored values stay.
    assert!(board.board_tick(&vec![None, None]).is_none());
    assert!(board.entries[0].1.is_some());
    assert!(board.entries[1].1.is_some());
}

#[test]
fn one_failed_fetch_still_renders_the_others() {
    let mut board = RosterMmrBoard::new(roster(&["Ari", "Bo"]));
    let content = board
        .board_tick(&vec![None, Some(record("Gold 1", 10, 1500))])
        .expect("the successful fetch is a change");
    // The never-fetched identity is omitted from the render.
    assert_eq!(content, "Bo: Gold 1 @ 10 MMR");
}

#[test]
fn render_is_idempotent_without_changes() {
    let mut board = RosterMmrBoard::new(roster(&["Ari", "Bo"]));
    board
        .board_tick(&vec![Some(record("Diamond 2", 55, 2100)), Some(record("Gold 1", 10, 1500))])
        .expect("changed");
    let a = board.render();
    let b = board.render();
    assert_eq!(a, b);
}
