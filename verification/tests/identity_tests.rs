use valo_tracker::PlayerData;
use valo_tracker::game_tracker::LastData;

#[test]
fn new_identity_has_no_user_reference_or_cached_name() {
    let p = PlayerData::new("Bob".to_string(), "NA1".to_string());
    assert_eq!(p.name, "Bob");
    assert_eq!(p.tag, "NA1");
    assert!(p.user_ref.is_none());
    assert!(p.cached_display_name.is_none());
}

#[test]
fn username_falls_back_to_raw_name() {
    let mut p = PlayerData::new("Bob".to_string(), "NA1".to_string());
    assert_eq!(p.username().as_str(), "Bob");
    p.cached_display_name = Some("Bobby".to_string());
    assert_eq!(p.username().as_str(), "Bobby");
}

#[test]
fn id_string_joins_name_and_tag() {
    let p = PlayerData::new("Bob".to_string(), "NA1".to_string());
    assert_eq!(p.id_string(), "Bob#NA1");
}

#[test]
fn identities_are_equal_exactly_on_name_and_tag() {
    let a = PlayerData::new("Bob".to_string(), "NA1".to_string());
    let mut b = PlayerData::new("Bob".to_string(), "NA1".to_string());
    b.user_ref = Some(42);
    b.cached_display_name = Some("Bobby".to_string());
    assert!(a == b);
    let c = PlayerData::new("Bob".to_string(), "EU1".to_string());
    assert!(a != c);
    let d = PlayerData::new("bob".to_string(), "NA1".to_string());
    assert!(a != d);
}

#[test]
fn fresh_tracking_state_has_no_baseline() {
    let st = LastData::new();
    assert!(st.last_game_id.is_none());
    assert!(st.last_mmr_change_timestamp.is_none());
}
