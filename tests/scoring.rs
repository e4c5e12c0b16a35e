use specialscout_db::game::{climb_bonus, sim_score, Team};

#[test]
fn score_taxi_auto_upper_mid_climb() {
    assert_eq!(sim_score(true, 1, 0, 0, 0, 2), 16);
}

#[test]
fn score_full_match() {
    assert_eq!(sim_score(true, 2, 1, 3, 0, 3), 33);
}

#[test]
fn score_unknown_climb_gives_no_bonus() {
    assert_eq!(climb_bonus(99), 0);
    assert_eq!(sim_score(true, 2, 1, 3, 4, 99), 2 + 8 + 2 + 6 + 4);
    assert_eq!(sim_score(false, 0, 0, 0, 0, -128), 0);
}

#[test]
fn climb_bonus_table() {
    assert_eq!(climb_bonus(-1), 0);
    assert_eq!(climb_bonus(0), 4);
    assert_eq!(climb_bonus(1), 6);
    assert_eq!(climb_bonus(2), 10);
    assert_eq!(climb_bonus(3), 15);
    assert_eq!(climb_bonus(4), 0);
}

#[test]
fn score_negative_counters_flow_through() {
    assert_eq!(sim_score(false, -1, -2, 0, -3, -1), -4 - 4 - 3);
}

#[test]
fn score_extreme_counters_do_not_overflow() {
    let hi = i16::MAX as i64;
    assert_eq!(sim_score(true, i16::MAX, i16::MAX, i16::MAX, i16::MAX, 3), 2 + 9 * hi + 15);
    let lo = i16::MIN as i64;
    assert_eq!(sim_score(false, i16::MIN, i16::MIN, i16::MIN, i16::MIN, -1), 9 * lo);
}

#[test]
fn team_from_number() {
    let t = Team::from(118u16);
    assert_eq!(t.number(), 118);
    assert_eq!(t, Team::from(118u16));
    assert_ne!(t, Team::from(119u16));
}
