use vstd::prelude::*;
use crate::error::IngestError;
use crate::game::{FormIngest, MatchRecord, PitRecord};

verus! {

/// A team's running statistics, as mathematical values.
pub ghost struct AggregateModel {
    pub team: int,
    pub matches: int,
    pub taxi: bool,
    pub taxi_true: bool,
    pub preload: bool,
    pub auto_shoot: bool,
    pub auto_shoot_true: bool,
    pub auto_upper_accum: int,
    pub auto_lower_accum: int,
    pub shots_accum: int,
    pub shots_upper_accum: int,
    pub shots_lower_accum: int,
    pub climb: int,
    pub stated_climb: int,
    pub score_accum: int,
}

/// The stored aggregate row of one team.
#[derive(Debug, Clone, Copy, PartialEq, Eq, Structural)]
pub struct TeamAggregate {
    pub team: i64,
    pub matches: i64,
    pub taxi: bool,
    pub taxi_true: bool,
    pub preload: bool,
    pub auto_shoot: bool,
    pub auto_shoot_true: bool,
    pub auto_upper_accum: i64,
    pub auto_lower_accum: i64,
    pub shots_accum: i64,
    pub shots_upper_accum: i64,
    pub shots_lower_accum: i64,
    pub climb: i64,
    pub stated_climb: i64,
    pub score_accum: i64,
}

/// Whether `x` fits a signed 64-bit column.
pub open spec fn fits_i64(x: int) -> bool {
    i64::MIN <= x <= i64::MAX
}

/// Every counter of the model fits a 64-bit column.
pub open spec fn in_range(a: AggregateModel) -> bool {
    &&& fits_i64(a.team)
    &&& fits_i64(a.matches)
    &&& fits_i64(a.auto_upper_accum)
    &&& fits_i64(a.auto_lower_accum)
    &&& fits_i64(a.shots_accum)
    &&& fits_i64(a.shots_upper_accum)
    &&& fits_i64(a.shots_lower_accum)
    &&& fits_i64(a.climb)
    &&& fits_i64(a.stated_climb)
    &&& fits_i64(a.score_accum)
}

/// The aggregate a team gets from its first submission, a match report.
pub open spec fn created_from_match(r: MatchRecord) -> AggregateModel {
    AggregateModel {
        team: r.team_number as int,
        matches: 1,
        taxi: r.did_taxi,
        taxi_true: r.did_taxi,
        preload: r.did_preload,
        auto_shoot: r.auto_shots > 0,
        auto_shoot_true: r.auto_shots > 0,
        auto_upper_accum: r.auto_scored_upper as int,
        auto_lower_accum: r.auto_scored_lower as int,
        shots_accum: r.teleop_shots as int,
        shots_upper_accum: r.teleop_scored_upper as int,
        shots_lower_accum: r.teleop_scored_lower as int,
        climb: r.climb as int,
        stated_climb: r.climb as int,
        score_accum: r.score(),
    }
}

/// The aggregate a team gets from its first submission, a pit report: no
/// match has been counted, and the climb is seeded to zero whatever the
/// report's own climb code. Both auto-shooting flags start from the two
/// auto-period capabilities.
pub open spec fn created_from_pit(r: PitRecord) -> AggregateModel {
    AggregateModel {
        team: r.team_number as int,
        matches: 0,
        taxi: false,
        taxi_true: false,
        preload: false,
        auto_shoot: r.can_shoot_auto_upper || r.can_shoot_auto_lower,
        auto_shoot_true: r.can_shoot_auto_upper || r.can_shoot_auto_lower,
        auto_upper_accum: 0,
        auto_lower_accum: 0,
        shots_accum: 0,
        shots_upper_accum: 0,
        shots_lower_accum: 0,
        climb: 0,
        stated_climb: 0,
        score_accum: 0,
    }
}

/// A match report folded into an existing aggregate: counters add, flags
/// stick once set, the climb keeps its maximum, the rest stays. Only
/// `taxi_true` follows later taxis: `taxi` keeps the value it was created with.
pub open spec fn merged_match(a: AggregateModel, r: MatchRecord) -> AggregateModel {
    AggregateModel {
        matches: a.matches + 1,
        taxi_true: a.taxi_true || r.did_taxi,
        preload: a.preload || r.did_preload,
        auto_shoot: a.auto_shoot || r.auto_shots > 0,
        auto_shoot_true: a.auto_shoot_true || r.auto_shots > 0,
        auto_upper_accum: a.auto_upper_accum + r.auto_scored_upper,
        auto_lower_accum: a.auto_lower_accum + r.auto_scored_lower,
        shots_accum: a.shots_accum + r.teleop_shots,
        shots_upper_accum: a.shots_upper_accum + r.teleop_scored_upper,
        shots_lower_accum: a.shots_lower_accum + r.teleop_scored_lower,
        climb: if a.climb >= r.climb as int { a.climb } else { r.climb as int },
        score_accum: a.score_accum + r.score(),
        ..a
    }
}

/// The aggregate after one submission, from the aggregate before it (if any).
/// A pit report leaves an existing aggregate as it was.
pub open spec fn step(prev: Option<AggregateModel>, rec: FormIngest) -> AggregateModel {
    match rec {
        FormIngest::Match(r) => match prev {
            Some(a) => merged_match(a, r),
            None => created_from_match(r),
        },
        FormIngest::Pit(p) => match prev {
            Some(a) => a,
            None => created_from_pit(p),
        },
    }
}

/// Whether the aggregate after `rec` still fits its 64-bit columns.
pub open spec fn step_fits(prev: Option<AggregateModel>, rec: FormIngest) -> bool {
    in_range(step(prev, rec))
}

pub open spec fn opt_view(o: Option<TeamAggregate>) -> Option<AggregateModel> {
    match o {
        Some(a) => Some(a@),
        None => None,
    }
}

impl View for TeamAggregate {
    type V = AggregateModel;

    open spec fn view(&self) -> AggregateModel {
        AggregateModel {
            team: self.team as int,
            matches: self.matches as int,
            taxi: self.taxi,
            taxi_true: self.taxi_true,
            preload: self.preload,
            auto_shoot: self.auto_shoot,
            auto_shoot_true: self.auto_shoot_true,
            auto_upper_accum: self.auto_upper_accum as int,
            auto_lower_accum: self.auto_lower_accum as int,
            shots_accum: self.shots_accum as int,
            shots_upper_accum: self.shots_upper_accum as int,
            shots_lower_accum: self.shots_lower_accum as int,
            climb: self.climb as int,
            stated_climb: self.stated_climb as int,
            score_accum: self.score_accum as int,
        }
    }
}

impl TeamAggregate {
    /// Seeds a new aggregate from a team's first match report.
    pub fn from_match(r: &MatchRecord) -> (a: TeamAggregate)
        ensures
            a@ == created_from_match(*r),
    {
        TeamAggregate {
            team: r.team_number as i64,
            matches: 1,
            taxi: r.did_taxi,
            taxi_true: r.did_taxi,
            preload: r.did_preload,
            auto_shoot: r.auto_shots > 0,
            auto_shoot_true: r.auto_shots > 0,
            auto_upper_accum: r.auto_scored_upper as i64,
            auto_lower_accum: r.auto_scored_lower as i64,
            shots_accum: r.teleop_shots as i64,
            shots_upper_accum: r.teleop_scored_upper as i64,
            shots_lower_accum: r.teleop_scored_lower as i64,
            climb: r.climb as i64,
            stated_climb: r.climb as i64,
            score_accum: r.sim_score(),
        }
    }

    /// Seeds a new aggregate from a team's first pit report.
    pub fn from_pit(p: &PitRecord) -> (a: TeamAggregate)
        ensures
            a@ == created_from_pit(*p),
    {
        TeamAggregate {
            team: p.team_number as i64,
            matches: 0,
            taxi: false,
            taxi_true: false,
            preload: false,
            auto_shoot: p.can_shoot_auto_upper || p.can_shoot_auto_lower,
            auto_shoot_true: p.can_shoot_auto_upper || p.can_shoot_auto_lower,
            auto_upper_accum: 0,
            auto_lower_accum: 0,
            shots_accum: 0,
            shots_upper_accum: 0,
            shots_lower_accum: 0,
            climb: 0,
            stated_climb: 0,
            score_accum: 0,
        }
    }

    /// Whether folding `r` into this aggregate keeps every counter in range.
    pub fn can_merge_match(&self, r: &MatchRecord) -> (ok: bool)
        ensures
            ok == in_range(merged_match(self@, *r)),
    {
        sum_fits(self.team, 0)
            && sum_fits(self.matches, 1)
            && sum_fits(self.auto_upper_accum, r.auto_scored_upper as i64)
            && sum_fits(self.auto_lower_accum, r.auto_scored_lower as i64)
            && sum_fits(self.shots_accum, r.teleop_shots as i64)
            && sum_fits(self.shots_upper_accum, r.teleop_scored_upper as i64)
            && sum_fits(self.shots_lower_accum, r.teleop_scored_lower as i64)
            && sum_fits(self.stated_climb, 0)
            && sum_fits(self.score_accum, r.sim_score())
    }

    /// Folds a later match report of the same team into this aggregate.
    pub fn merge_match(&mut self, r: &MatchRecord)
        requires
            in_range(merged_match(old(self)@, *r)),
        ensures
            final(self)@ == merged_match(old(self)@, *r),
    {
        self.matches = self.matches + 1;
        self.taxi_true = self.taxi_true || r.did_taxi;
        self.preload = self.preload || r.did_preload;
        self.auto_shoot = self.auto_shoot || r.auto_shots > 0;
        self.auto_shoot_true = self.auto_shoot_true || r.auto_shots > 0;
        self.auto_upper_accum = self.auto_upper_accum + r.auto_scored_upper as i64;
        self.auto_lower_accum = self.auto_lower_accum + r.auto_scored_lower as i64;
        self.shots_accum = self.shots_accum + r.teleop_shots as i64;
        self.shots_upper_accum = self.shots_upper_accum + r.teleop_scored_upper as i64;
        self.shots_lower_accum = self.shots_lower_accum + r.teleop_scored_lower as i64;
        if (r.climb as i64) > self.climb {
            self.climb = r.climb as i64;
        }
        self.score_accum = self.score_accum + r.sim_score();
    }
}

/// Whether `a + b` fits in 64 bits.
fn sum_fits(a: i64, b: i64) -> (ok: bool)
    ensures
        ok == fits_i64(a + b),
{
    a.checked_add(b).is_some()
}

/// The aggregate to store after `rec`, given the one stored before it:
/// `Ok(None)` where the stored row stays as it is (a pit report for a team
/// already known), `Ok(Some(a))` with the full row to write otherwise, and a
/// persistence failure where a counter would leave its 64-bit column. The
/// stored row, if any, is the one of the submission's team.
pub fn next_aggregate(existing: Option<TeamAggregate>, rec: &FormIngest) -> (res: Result<
    Option<TeamAggregate>,
    IngestError,
>)
    requires
        existing is Some ==> existing->Some_0.team as int == rec.team_spec(),
    ensures
        res matches Ok(Some(a)) ==> a.team as int == rec.team_spec(),
        res is Err <==> !step_fits(opt_view(existing), *rec),
        res is Err ==> res->Err_0 is PersistenceFailure,
        res matches Ok(None) <==> (rec is Pit && existing is Some && step_fits(opt_view(existing), *rec)),
        res matches Ok(Some(a)) ==> a@ == step(opt_view(existing), *rec),
{
    match rec {
        FormIngest::Match(r) => match existing {
            Some(a) => {
                if a.can_merge_match(r) {
                    let mut b = a;
                    b.merge_match(r);
                    Ok(Some(b))
                } else {
                    Err(IngestError::PersistenceFailure("aggregate counter out of range".to_string()))
                }
            },
            None => Ok(Some(TeamAggregate::from_match(r))),
        },
        FormIngest::Pit(p) => match existing {
            Some(_) => Ok(None),
            None => Ok(Some(TeamAggregate::from_pit(p))),
        },
    }
}

} // verus!
