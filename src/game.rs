use vstd::prelude::*;

verus! {

/// Bonus points for a climb code; unknown codes earn nothing.
pub open spec fn climb_bonus_spec(climb: int) -> int {
    if climb == 0 {
        4
    } else if climb == 1 {
        6
    } else if climb == 2 {
        10
    } else if climb == 3 {
        15
    } else {
        0
    }
}

/// Estimated points for one match performance.
pub open spec fn score_spec(
    did_taxi: bool,
    auto_scored_upper: int,
    auto_scored_lower: int,
    teleop_scored_upper: int,
    teleop_scored_lower: int,
    climb: int,
) -> int {
    (if did_taxi { 2int } else { 0int }) + 4 * auto_scored_upper + 2 * auto_scored_lower + 2
        * teleop_scored_upper + teleop_scored_lower + climb_bonus_spec(climb)
}

/// Bonus points for a climb code: -1 and unknown codes give 0.
pub fn climb_bonus(climb: i8) -> (r: i64)
    ensures
        r as int == climb_bonus_spec(climb as int),
{
    match climb {
        0 => 4,
        1 => 6,
        2 => 10,
        3 => 15,
        _ => 0,
    }
}

/// Point estimate of one match; total on every input.
pub fn sim_score(
    did_taxi: bool,
    auto_scored_upper: i16,
    auto_scored_lower: i16,
    teleop_scored_upper: i16,
    teleop_scored_lower: i16,
    climb: i8,
) -> (r: i64)
    ensures
        r as int == score_spec(
            did_taxi,
            auto_scored_upper as int,
            auto_scored_lower as int,
            teleop_scored_upper as int,
            teleop_scored_lower as int,
            climb as int,
        ),
{
    let mut accum: i64 = 0;
    if did_taxi {
        accum = accum + 2;
    }
    accum = accum + (auto_scored_upper as i64) * 4;
    accum = accum + (auto_scored_lower as i64) * 2;
    accum = accum + (teleop_scored_upper as i64) * 2;
    accum = accum + (teleop_scored_lower as i64);
    accum = accum + climb_bonus(climb);
    accum
}

/// A team, identified by its number.
#[derive(Debug, Clone, Copy, Hash, PartialEq, Eq, Structural)]
pub struct Team {
    number: u16,
}

impl Team {
    pub closed spec fn number_spec(&self) -> u16 {
        self.number
    }

    /// The team's number.
    pub fn number(&self) -> (r: u16)
        ensures
            r == self.number_spec(),
    {
        self.number
    }
}

impl From<u16> for Team {
    fn from(x: u16) -> (r: Team) {
        Team { number: x }
    }
}

/// A team made from a number holds that number.
pub proof fn lemma_team_from_number(x: u16)
    ensures
        <Team as vstd::std_specs::convert::FromSpec<u16>>::from_spec(x).number_spec() == x,
{
}

impl vstd::std_specs::convert::FromSpecImpl<u16> for Team {
    open spec fn obeys_from_spec() -> bool {
        true
    }

    closed spec fn from_spec(x: u16) -> Team {
        Team { number: x }
    }
}

/// One team's performance in one match.
#[derive(Debug, Clone)]
pub struct MatchRecord {
    pub timestamp: i32,
    pub event: String,
    pub match_number: i16,
    pub team_number: u32,
    pub did_preload: bool,
    pub did_taxi: bool,
    pub got_field_cargo: bool,
    pub did_hp_shot: bool,
    pub did_hp_sink: bool,
    pub auto_scored_lower: i16,
    pub auto_scored_upper: i16,
    pub auto_shots: i16,
    pub teleop_scored_lower: i16,
    pub teleop_scored_upper: i16,
    pub teleop_shots: i16,
    pub pins: i16,
    pub times_pinned: i16,
    pub penalties: i16,
    pub climb: i8,
    pub performance: i16,
    pub comments: String,
    pub red_score: i32,
    pub blue_score: i32,
}

/// One team's static capability profile. The robot's physical dimensions
/// are carried by the transport layer alongside it and never read here.
#[derive(Debug, Clone)]
pub struct PitRecord {
    pub time_stamp: i32,
    pub team_name: String,
    pub team_number: i32,
    pub drivetrain: String,
    pub weight: u16,
    pub can_shoot_auto_upper: bool,
    pub can_shoot_auto_lower: bool,
    pub can_shoot_teleop_upper: bool,
    pub can_shoot_teleop_lower: bool,
    pub climb: i8,
    pub comment: String,
    pub build_quality: i16,
    pub driver_team: i16,
    pub confidence: i16,
    pub picture: String,
}

/// A submission: a match report or a pit report.
#[derive(Debug, Clone)]
pub enum FormIngest {
    Match(MatchRecord),
    Pit(PitRecord),
}

impl MatchRecord {
    /// The estimator's output for this record.
    pub open spec fn score(&self) -> int {
        score_spec(
            self.did_taxi,
            self.auto_scored_upper as int,
            self.auto_scored_lower as int,
            self.teleop_scored_upper as int,
            self.teleop_scored_lower as int,
            self.climb as int,
        )
    }

    /// Runs the score estimator on this record.
    pub fn sim_score(&self) -> (r: i64)
        ensures
            r as int == self.score(),
    {
        sim_score(
            self.did_taxi,
            self.auto_scored_upper,
            self.auto_scored_lower,
            self.teleop_scored_upper,
            self.teleop_scored_lower,
            self.climb,
        )
    }
}

impl FormIngest {
    /// The team the submission is about.
    pub open spec fn team_spec(&self) -> int {
        match self {
            FormIngest::Match(m) => m.team_number as int,
            FormIngest::Pit(p) => p.team_number as int,
        }
    }

    /// The team the submission is about.
    pub fn team(&self) -> (r: i64)
        ensures
            r as int == self.team_spec(),
    {
        match self {
            FormIngest::Match(m) => m.team_number as i64,
            FormIngest::Pit(p) => p.team_number as i64,
        }
    }
}

} // verus!
