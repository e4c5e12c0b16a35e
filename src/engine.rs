use vstd::prelude::*;
use crate::aggregate::{next_aggregate, opt_view, step, step_fits, TeamAggregate};
use crate::error::IngestError;
use crate::game::FormIngest;
use crate::laws::replay;

verus! {

/// The raw table a submission is inserted into, verbatim.
#[derive(Debug, Clone, Copy, PartialEq, Eq, Structural)]
pub enum RawTable {
    MatchResponses,
    PitResponses,
}

/// The writes of one unit of work, all committed together or not at all.
#[derive(Debug, Clone)]
pub struct UnitPlan {
    /// Where the submission itself is inserted.
    pub raw_table: RawTable,
    /// The team whose aggregate and image rows are written.
    pub team: i64,
    /// The full aggregate row to write, if the row changes.
    pub aggregate: Option<TeamAggregate>,
    /// The image that replaces the team's previous one, if any.
    pub image: Option<String>,
}

/// Decides the writes for one submission, given the team's aggregate as the
/// store holds it within the same unit of work, read by the submission's team.
pub fn plan_unit(rec: &FormIngest, existing: Option<TeamAggregate>) -> (res: Result<
    UnitPlan,
    IngestError,
>)
    requires
        existing is Some ==> existing->Some_0.team as int == rec.team_spec(),
    ensures
        res is Err <==> !step_fits(opt_view(existing), *rec),
        res is Err ==> res->Err_0 is PersistenceFailure,
        res is Ok ==> {
            let u = res->Ok_0;
            &&& u.team as int == rec.team_spec()
            &&& (u.raw_table == RawTable::MatchResponses <==> rec is Match)
            &&& (u.aggregate is None <==> (rec is Pit && existing is Some))
            &&& (u.aggregate is Some ==> u.aggregate->Some_0@ == step(opt_view(existing), *rec))
            &&& (u.aggregate is Some ==> u.aggregate->Some_0.team == u.team)
            &&& (rec is Match ==> u.image is None)
            &&& (rec is Pit ==> u.image is Some && u.image->Some_0@ == rec->Pit_0.picture@)
        },
{
    let team = rec.team();
    let aggregate = match next_aggregate(existing, rec) {
        Ok(a) => a,
        Err(e) => {
            return Err(e);
        },
    };
    match rec {
        FormIngest::Match(_) => Ok(UnitPlan { raw_table: RawTable::MatchResponses, team, aggregate, image: None }),
        FormIngest::Pit(p) => Ok(
            UnitPlan { raw_table: RawTable::PitResponses, team, aggregate, image: Some(p.picture.clone()) },
        ),
    }
}

/// Progress through a batch of submissions that are applied one after the
/// other, each in its own unit of work. The first failure ends the batch;
/// what was committed before it stays committed.
#[derive(Debug, Clone)]
pub struct MassDump {
    pub total: usize,
    pub committed: usize,
    pub failure: Option<(usize, IngestError)>,
}

impl MassDump {
    pub open spec fn wf(&self) -> bool {
        &&& self.committed <= self.total
        &&& self.failure is Some ==> self.failure->Some_0.0 == self.committed
            && self.committed < self.total
    }

    /// The index of the submission to apply next, if the batch goes on.
    pub open spec fn next_spec(&self) -> Option<usize> {
        if self.failure is None && self.committed < self.total {
            Some(self.committed)
        } else {
            None
        }
    }

    /// A batch of `total` submissions, none applied yet.
    pub fn new(total: usize) -> (m: MassDump)
        ensures
            m.wf(),
            m.total == total,
            m.committed == 0,
            m.failure is None,
    {
        MassDump { total, committed: 0, failure: None }
    }

    /// The index of the submission to apply next, if the batch goes on.
    pub fn next_index(&self) -> (r: Option<usize>)
        requires
            self.wf(),
        ensures
            r == self.next_spec(),
    {
        if self.failure.is_none() && self.committed < self.total {
            Some(self.committed)
        } else {
            None
        }
    }

    /// Records how the submission at `next_index` went.
    pub fn report(&mut self, outcome: Result<(), IngestError>)
        requires
            old(self).wf(),
            old(self).next_spec() is Some,
        ensures
            final(self).wf(),
            final(self).total == old(self).total,
            outcome is Ok ==> final(self).committed == old(self).committed + 1
                && final(self).failure is None,
            outcome is Err ==> final(self).committed == old(self).committed
                && final(self).failure == Some((old(self).committed, outcome->Err_0)),
    {
        match outcome {
            Ok(()) => {
                self.committed = self.committed + 1;
            },
            Err(e) => {
                self.failure = Some((self.committed, e));
            },
        }
    }

    /// The HTTP status of a finished batch: 204 when every submission was
    /// applied, 500 when one failed.
    pub fn status_code(&self) -> (r: u16)
        requires
            self.wf(),
            self.next_spec() is None,
        ensures
            self.failure is Some ==> r == 500,
            self.failure is None ==> r == 204 && self.committed == self.total,
    {
        if self.failure.is_some() {
            500
        } else {
            204
        }
    }
}

/// Whether every aggregate that `s` produces for team `t` along the way fits
/// its 64-bit columns.
pub open spec fn replay_fits(s: Seq<FormIngest>, t: int) -> bool
    decreases s.len(),
{
    if s.len() == 0 {
        true
    } else {
        replay_fits(s.drop_last(), t) && (s.last().team_spec() == t ==> step_fits(
            replay(s.drop_last(), t),
            s.last(),
        ))
    }
}

proof fn lemma_fits_prefix(s: Seq<FormIngest>, t: int, k: int)
    requires
        replay_fits(s, t),
        0 <= k <= s.len(),
    ensures
        replay_fits(s.take(k), t),
    decreases s.len() - k,
{
    if k == s.len() {
        assert(s.take(k) =~= s);
    } else {
        lemma_fits_prefix(s, t, k + 1);
        assert(s.take(k + 1).drop_last() =~= s.take(k));
    }
}

/// Applies the submissions in order, one at a time, to team `t`'s aggregate,
/// starting from no aggregate: the serialized application that concurrent
/// submissions for one team must be equivalent to.
pub fn replay_team(recs: &Vec<FormIngest>, t: i64) -> (res: Result<
    Option<TeamAggregate>,
    IngestError,
>)
    ensures
        res is Ok <==> replay_fits(recs@, t as int),
        res is Ok ==> opt_view(res->Ok_0) == replay(recs@, t as int),
        res is Err ==> res->Err_0 is PersistenceFailure,
{
    let mut cur: Option<TeamAggregate> = None;
    let mut i: usize = 0;
    while i < recs.len()
        invariant
            0 <= i <= recs@.len(),
            opt_view(cur) == replay(recs@.take(i as int), t as int),
            cur is Some ==> cur->Some_0.team == t,
            replay_fits(recs@.take(i as int), t as int),
        decreases recs@.len() - i,
    {
        let rec = &recs[i];
        proof {
            assert(recs@.take(i + 1).drop_last() =~= recs@.take(i as int));
            assert(recs@.take(i + 1).last() == recs@[i as int]);
        }
        if rec.team() == t {
            match next_aggregate(cur, rec) {
                Ok(Some(a)) => {
                    cur = Some(a);
                },
                Ok(None) => {},
                Err(e) => {
                    proof {
                        if replay_fits(recs@, t as int) {
                            lemma_fits_prefix(recs@, t as int, i + 1);
                        }
                    }
                    return Err(e);
                },
            }
        }
        i = i + 1;
    }
    proof {
        assert(recs@.take(i as int) =~= recs@);
    }
    Ok(cur)
}

} // verus!
