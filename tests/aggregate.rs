use specialscout_db::aggregate::{next_aggregate, TeamAggregate};
use specialscout_db::engine::{plan_unit, replay_team, MassDump, RawTable};
use specialscout_db::error::IngestError;
use specialscout_db::game::{FormIngest, MatchRecord, PitRecord};

fn match_rec(
    team: u32,
    taxi: bool,
    auto_upper: i16,
    auto_lower: i16,
    teleop_upper: i16,
    teleop_lower: i16,
    climb: i8,
) -> MatchRecord {
    MatchRecord {
        timestamp: 1650000000,
        event: "district".to_string(),
        match_number: 12,
        team_number: team,
        did_preload: false,
        did_taxi: taxi,
        got_field_cargo: false,
        did_hp_shot: false,
        did_hp_sink: false,
        auto_scored_lower: auto_lower,
        auto_scored_upper: auto_upper,
        auto_shots: 0,
        teleop_scored_lower: teleop_lower,
        teleop_scored_upper: teleop_upper,
        teleop_shots: 0,
        pins: 0,
        times_pinned: 0,
        penalties: 0,
        climb,
        performance: 3,
        comments: String::new(),
        red_score: 40,
        blue_score: 38,
    }
}

fn pit_rec(team: i32, cap_upper: bool, cap_lower: bool, climb: i8) -> PitRecord {
    PitRecord {
        time_stamp: 1650000000,
        team_name: "Robonauts".to_string(),
        team_number: team,
        drivetrain: "swerve".to_string(),
        weight: 120,
        can_shoot_auto_upper: cap_upper,
        can_shoot_auto_lower: cap_lower,
        can_shoot_teleop_upper: true,
        can_shoot_teleop_lower: false,
        climb,
        comment: String::new(),
        build_quality: 4,
        driver_team: 5,
        confidence: 3,
        picture: "img-202.png".to_string(),
    }
}

fn m(r: MatchRecord) -> FormIngest {
    FormIngest::Match(r)
}

#[test]
fn fresh_team_first_match() {
    let rec = m(match_rec(118, true, 2, 1, 3, 0, 3));
    let a = next_aggregate(None, &rec).unwrap().unwrap();
    assert_eq!(a.team, 118);
    assert_eq!(a.matches, 1);
    assert_eq!(a.score_accum, 33);
    assert_eq!(a.climb, 3);
    assert_eq!(a.stated_climb, 3);
    assert!(a.taxi_true);
    assert!(a.taxi);
    assert_eq!(a.auto_upper_accum, 2);
    assert_eq!(a.auto_lower_accum, 1);
    assert_eq!(a.shots_upper_accum, 3);
}

#[test]
fn second_match_keeps_max_climb_and_sticky_taxi() {
    let first = m(match_rec(118, true, 2, 1, 3, 0, 3));
    let second = m(match_rec(118, false, 0, 0, 0, 0, 1));
    let a = next_aggregate(None, &first).unwrap().unwrap();
    let b = next_aggregate(Some(a), &second).unwrap().unwrap();
    assert_eq!(b.matches, 2);
    assert_eq!(b.score_accum, 39);
    assert_eq!(b.climb, 3);
    assert!(b.taxi_true);
}

#[test]
fn pit_first_creates_aggregate() {
    let rec = FormIngest::Pit(pit_rec(202, true, false, 2));
    let a = next_aggregate(None, &rec).unwrap().unwrap();
    assert_eq!(a.team, 202);
    assert_eq!(a.matches, 0);
    assert!(a.auto_shoot);
    assert!(a.auto_shoot_true);
    assert_eq!(a.score_accum, 0);
    assert_eq!(a.climb, 0);
    assert_eq!(a.stated_climb, 0);
}

#[test]
fn pit_for_known_team_leaves_row() {
    let first = m(match_rec(202, false, 1, 0, 0, 0, 0));
    let a = next_aggregate(None, &first).unwrap().unwrap();
    let pit = FormIngest::Pit(pit_rec(202, true, true, 3));
    assert!(next_aggregate(Some(a), &pit).unwrap().is_none());
}

#[test]
fn matches_count_only_match_reports() {
    let recs = vec![
        FormIngest::Pit(pit_rec(7, false, false, 1)),
        m(match_rec(7, false, 1, 0, 0, 0, 0)),
        m(match_rec(9, true, 5, 5, 5, 5, 3)),
        FormIngest::Pit(pit_rec(7, true, false, 1)),
        m(match_rec(7, true, 0, 2, 0, 0, -1)),
        m(match_rec(7, false, 0, 0, 1, 1, 1)),
    ];
    let a = replay_team(&recs, 7).unwrap().unwrap();
    assert_eq!(a.matches, 3);
    assert_eq!(a.score_accum, (4 + 4) + (2 + 4 + 0) + (2 + 1 + 6));
    assert!(!a.auto_shoot);
    assert_eq!(replay_team(&recs, 9).unwrap().unwrap().matches, 1);
    assert!(replay_team(&recs, 10).unwrap().is_none());
}

#[test]
fn climb_is_running_maximum() {
    let recs = vec![
        m(match_rec(5, false, 0, 0, 0, 0, 1)),
        m(match_rec(5, false, 0, 0, 0, 0, 3)),
        m(match_rec(5, false, 0, 0, 0, 0, 99)),
        m(match_rec(5, false, 0, 0, 0, 0, 2)),
    ];
    let a = replay_team(&recs, 5).unwrap().unwrap();
    assert_eq!(a.climb, 99);
    assert_eq!(a.stated_climb, 1);
    let pit_first = vec![
        FormIngest::Pit(pit_rec(6, false, false, 3)),
        m(match_rec(6, false, 0, 0, 0, 0, -1)),
    ];
    let b = replay_team(&pit_first, 6).unwrap().unwrap();
    assert_eq!(b.climb, 0);
}

#[test]
fn sticky_flags_never_clear() {
    let mut shooter = match_rec(3, true, 0, 0, 0, 0, 0);
    shooter.did_preload = true;
    shooter.auto_shots = 2;
    let quiet = match_rec(3, false, 0, 0, 0, 0, 0);
    let recs = vec![m(shooter), m(quiet.clone()), m(quiet)];
    let a = replay_team(&recs, 3).unwrap().unwrap();
    assert!(a.taxi_true);
    assert!(a.preload);
    assert!(a.auto_shoot_true);
    assert!(a.auto_shoot);
}

#[test]
fn identical_submission_counts_twice() {
    let mut r = match_rec(11, true, 2, 1, 3, 0, 3);
    r.auto_shots = 4;
    r.teleop_shots = 6;
    let once = next_aggregate(None, &m(r.clone())).unwrap().unwrap();
    let twice = next_aggregate(Some(once), &m(r)).unwrap().unwrap();
    assert_eq!(twice.matches, 2);
    assert_eq!(twice.score_accum, 66);
    assert_eq!(twice.auto_upper_accum, 4);
    assert_eq!(twice.auto_lower_accum, 2);
    assert_eq!(twice.shots_accum, 12);
    assert_eq!(twice.shots_upper_accum, 6);
    assert_eq!(twice.shots_lower_accum, 0);
}

#[test]
fn order_of_match_reports_does_not_matter() {
    let a = match_rec(8, true, 1, 0, 0, 0, 2);
    let b = match_rec(8, false, 0, 3, 1, 0, 0);
    let c = match_rec(8, true, 2, 2, 2, 2, 3);
    let fwd = vec![m(a.clone()), m(b.clone()), m(c.clone())];
    let rev = vec![m(c), m(a), m(b)];
    let x = replay_team(&fwd, 8).unwrap().unwrap();
    let y = replay_team(&rev, 8).unwrap().unwrap();
    assert_eq!(x.matches, 3);
    assert_eq!(y.matches, 3);
    assert_eq!(x.score_accum, 16 + 12 + 35);
    assert_eq!(y.score_accum, x.score_accum);
    assert_eq!(x.climb, y.climb);
}

#[test]
fn overflowing_aggregate_is_a_persistence_failure() {
    let mut a = TeamAggregate::from_match(&match_rec(4, false, 0, 0, 0, 0, 0));
    a.score_accum = i64::MAX - 10;
    let rec = m(match_rec(4, true, 2, 1, 3, 0, 3));
    let err = next_aggregate(Some(a), &rec).unwrap_err();
    assert!(matches!(err, IngestError::PersistenceFailure(_)));
    assert_eq!(err.status_code(), 500);
    let small = m(match_rec(4, false, 0, 0, 0, 0, -1));
    assert_eq!(next_aggregate(Some(a), &small).unwrap().unwrap().score_accum, i64::MAX - 10);
}

#[test]
fn error_status_codes() {
    let e = IngestError::MalformedIngestionPayload("missing field".to_string());
    assert_eq!(e.status_code(), 400);
    assert_eq!(e.detail(), "missing field");
    let t = IngestError::ConnectionAcquisitionTimeout("pool".to_string());
    assert_eq!(t.status_code(), 408);
    assert_eq!(t.detail(), "pool");
}

#[test]
fn plan_for_pit_writes_image() {
    let pit = FormIngest::Pit(pit_rec(202, true, false, 1));
    let plan = plan_unit(&pit, None).unwrap();
    assert_eq!(plan.raw_table, RawTable::PitResponses);
    assert_eq!(plan.team, 202);
    assert_eq!(plan.image.as_deref(), Some("img-202.png"));
    assert_eq!(plan.aggregate.unwrap().matches, 0);
    let known = TeamAggregate::from_match(&match_rec(202, false, 0, 0, 0, 0, 0));
    let plan2 = plan_unit(&pit, Some(known)).unwrap();
    assert!(plan2.aggregate.is_none());
    assert!(plan2.image.is_some());
}

#[test]
fn plan_for_match_writes_aggregate_only() {
    let rec = m(match_rec(118, true, 2, 1, 3, 0, 3));
    let plan = plan_unit(&rec, None).unwrap();
    assert_eq!(plan.raw_table, RawTable::MatchResponses);
    assert_eq!(plan.team, 118);
    assert!(plan.image.is_none());
    assert_eq!(plan.aggregate.unwrap().score_accum, 33);
}

#[test]
fn mass_dump_stops_at_first_failure() {
    let mut d = MassDump::new(3);
    assert_eq!(d.next_index(), Some(0));
    d.report(Ok(()));
    assert_eq!(d.next_index(), Some(1));
    d.report(Err(IngestError::PersistenceFailure("locked".to_string())));
    assert_eq!(d.next_index(), None);
    assert_eq!(d.committed, 1);
    assert_eq!(d.failure.as_ref().unwrap().0, 1);
    assert_eq!(d.status_code(), 500);
}

#[test]
fn mass_dump_all_applied() {
    let mut d = MassDump::new(2);
    d.report(Ok(()));
    d.report(Ok(()));
    assert_eq!(d.next_index(), None);
    assert_eq!(d.status_code(), 204);
    let empty = MassDump::new(0);
    assert_eq!(empty.next_index(), None);
    assert_eq!(empty.status_code(), 204);
}

#[test]
fn pit_seeds_both_auto_flags_from_capabilities() {
    let lower_only = FormIngest::Pit(pit_rec(301, false, true, 0));
    let a = next_aggregate(None, &lower_only).unwrap().unwrap();
    assert!(a.auto_shoot);
    assert!(a.auto_shoot_true);
    let neither = FormIngest::Pit(pit_rec(302, false, false, 0));
    let b = next_aggregate(None, &neither).unwrap().unwrap();
    assert!(!b.auto_shoot);
    assert!(!b.auto_shoot_true);
}
