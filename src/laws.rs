use vstd::prelude::*;
use crate::aggregate::{step, AggregateModel};
use crate::game::{FormIngest, MatchRecord};
use vstd::seq_lib::group_to_multiset_ensures;

verus! {

/// The aggregate of team `t` after the submissions `s`, applied in order;
/// `None` while no submission for `t` has been seen.
pub open spec fn replay(s: Seq<FormIngest>, t: int) -> Option<AggregateModel>
    decreases s.len(),
{
    if s.len() == 0 {
        None
    } else {
        let prev = replay(s.drop_last(), t);
        if s.last().team_spec() == t {
            Some(step(prev, s.last()))
        } else {
            prev
        }
    }
}

/// Whether `rec` is a match report for team `t`.
pub open spec fn is_match_for(rec: FormIngest, t: int) -> bool {
    rec is Match && rec.team_spec() == t
}

/// The sum of `f` over the submissions of `s`.
pub open spec fn tally(s: Seq<FormIngest>, f: spec_fn(FormIngest) -> int) -> int
    decreases s.len(),
{
    if s.len() == 0 {
        0
    } else {
        tally(s.drop_last(), f) + f(s.last())
    }
}

/// The number of submissions for team `t` in `s`.
pub open spec fn record_count(s: Seq<FormIngest>, t: int) -> int {
    tally(s, |r: FormIngest| if r.team_spec() == t { 1int } else { 0int })
}

/// The number of match reports for team `t` in `s`.
pub open spec fn match_count(s: Seq<FormIngest>, t: int) -> int {
    tally(s, |r: FormIngest| if is_match_for(r, t) { 1int } else { 0int })
}

/// The estimator's outputs summed over the match reports for team `t` in `s`.
pub open spec fn score_sum(s: Seq<FormIngest>, t: int) -> int {
    tally(s, |r: FormIngest| if is_match_for(r, t) { r->Match_0.score() } else { 0int })
}

/// Whatever mix of match and pit reports a team receives, its aggregate
/// counts exactly its match reports, and its score total is the sum of the
/// estimator's outputs over them.
pub proof fn lemma_matches_counted(s: Seq<FormIngest>, t: int)
    ensures
        replay(s, t) is None ==> match_count(s, t) == 0 && score_sum(s, t) == 0,
        replay(s, t) is Some ==> replay(s, t)->Some_0.matches == match_count(s, t)
            && replay(s, t)->Some_0.score_accum == score_sum(s, t),
    decreases s.len(),
{
    if s.len() > 0 {
        lemma_matches_counted(s.drop_last(), t);
    }
}

/// The climb code that the first submission for team `t` in `s` seeds the
/// aggregate with: its own code for a match report, zero for a pit report.
pub open spec fn creation_climb(s: Seq<FormIngest>, t: int) -> int
    decreases s.len(),
{
    if s.len() == 0 {
        0
    } else if record_count(s.drop_last(), t) == 0 && s.last().team_spec() == t {
        match s.last() {
            FormIngest::Match(r) => r.climb as int,
            FormIngest::Pit(_) => 0,
        }
    } else {
        creation_climb(s.drop_last(), t)
    }
}

/// A team's recorded climb is the maximum of the climb codes of its match
/// reports and of the creation-time seed, which is kept as `stated_climb`.
pub proof fn lemma_climb_is_max(s: Seq<FormIngest>, t: int)
    requires
        replay(s, t) is Some,
    ensures
        ({
            let a = replay(s, t)->Some_0;
            &&& a.stated_climb == creation_climb(s, t)
            &&& forall|i: int|
                0 <= i < s.len() && #[trigger] is_match_for(s[i], t) ==> s[i]->Match_0.climb
                    <= a.climb
            &&& a.stated_climb <= a.climb
            &&& a.climb == a.stated_climb || exists|i: int|
                0 <= i < s.len() && #[trigger] is_match_for(s[i], t) && s[i]->Match_0.climb
                    == a.climb
        }),
    decreases s.len(),
{
    let p = s.drop_last();
    lemma_exists_iff_seen(p, t);
    if replay(p, t) is Some {
        lemma_climb_is_max(p, t);
        let a = replay(p, t)->Some_0;
        let b = replay(s, t)->Some_0;
        assert forall|i: int| 0 <= i < s.len() && #[trigger] is_match_for(s[i], t) implies s[i]->Match_0.climb <= b.climb by {
            if i < s.len() - 1 {
                assert(s[i] == p[i]);
                assert(is_match_for(p[i], t));
            }
        }
        if b.climb != b.stated_climb {
            if b.climb == a.climb {
                let j = choose|j: int|
                    0 <= j < p.len() && #[trigger] is_match_for(p[j], t) && p[j]->Match_0.climb
                        == a.climb;
                assert(s[j] == p[j]);
                assert(is_match_for(s[j], t));
            } else {
                assert(is_match_for(s[s.len() - 1], t));
            }
        }
    } else {
        assert forall|i: int| 0 <= i < s.len() && #[trigger] is_match_for(s[i], t) implies s[i]->Match_0.climb <= replay(s, t)->Some_0.climb by {
            if i < s.len() - 1 {
                assert(s[i] == p[i]);
                assert(is_match_for(p[i], t));
                lemma_none_has_no_record(p, t, i);
            }
        }
    }
}

/// While a team has no aggregate, no submission for it has been seen.
pub proof fn lemma_none_has_no_record(s: Seq<FormIngest>, t: int, i: int)
    requires
        replay(s, t) is None,
        0 <= i < s.len(),
    ensures
        s[i].team_spec() != t,
    decreases s.len(),
{
    if i < s.len() - 1 {
        assert(s[i] == s.drop_last()[i]);
        lemma_none_has_no_record(s.drop_last(), t, i);
    }
}

/// Once a team has an aggregate, later submissions never clear a sticky flag,
/// never lower the match count or the climb, and never change the climb code
/// stated at creation.
pub proof fn lemma_sticky_monotone(s: Seq<FormIngest>, ext: Seq<FormIngest>, t: int)
    requires
        replay(s, t) is Some,
    ensures
        replay(s + ext, t) is Some,
        ({
            let a = replay(s, t)->Some_0;
            let b = replay(s + ext, t)->Some_0;
            &&& a.taxi_true ==> b.taxi_true
            &&& a.preload ==> b.preload
            &&& a.auto_shoot ==> b.auto_shoot
            &&& a.auto_shoot_true ==> b.auto_shoot_true
            &&& a.matches <= b.matches
            &&& a.climb <= b.climb
            &&& a.stated_climb == b.stated_climb
            &&& a.taxi == b.taxi
        }),
    decreases ext.len(),
{
    if ext.len() == 0 {
        assert(s + ext =~= s);
    } else {
        let e = ext.drop_last();
        lemma_sticky_monotone(s, e, t);
        assert((s + ext).drop_last() =~= s + e);
        assert((s + ext).last() == ext.last());
    }
}

/// Replaying the same match report a second time counts it a second time:
/// every additive field grows by twice the report's contribution.
pub proof fn lemma_replay_double_counts(prev: Option<AggregateModel>, r: MatchRecord)
    ensures
        ({
            let rec = FormIngest::Match(r);
            let twice = step(Some(step(prev, rec)), rec);
            let base = match prev {
                Some(a) => a,
                None => AggregateModel {
                    matches: 0,
                    auto_upper_accum: 0,
                    auto_lower_accum: 0,
                    shots_accum: 0,
                    shots_upper_accum: 0,
                    shots_lower_accum: 0,
                    score_accum: 0,
                    ..step(prev, rec)
                },
            };
            &&& twice.matches == base.matches + 2
            &&& twice.auto_upper_accum == base.auto_upper_accum + 2 * r.auto_scored_upper
            &&& twice.auto_lower_accum == base.auto_lower_accum + 2 * r.auto_scored_lower
            &&& twice.shots_accum == base.shots_accum + 2 * r.teleop_shots
            &&& twice.shots_upper_accum == base.shots_upper_accum + 2 * r.teleop_scored_upper
            &&& twice.shots_lower_accum == base.shots_lower_accum + 2 * r.teleop_scored_lower
            &&& twice.score_accum == base.score_accum + 2 * r.score()
        }),
{
}

/// A team has an aggregate exactly when some submission for it was seen.
pub proof fn lemma_exists_iff_seen(s: Seq<FormIngest>, t: int)
    ensures
        record_count(s, t) >= 0,
        replay(s, t) is Some <==> record_count(s, t) > 0,
    decreases s.len(),
{
    if s.len() > 0 {
        lemma_exists_iff_seen(s.drop_last(), t);
    }
}

proof fn lemma_tally_concat(a: Seq<FormIngest>, b: Seq<FormIngest>, f: spec_fn(FormIngest) -> int)
    ensures
        tally(a + b, f) == tally(a, f) + tally(b, f),
    decreases b.len(),
{
    if b.len() == 0 {
        assert(a + b =~= a);
    } else {
        lemma_tally_concat(a, b.drop_last(), f);
        assert((a + b).drop_last() =~= a + b.drop_last());
    }
}

proof fn lemma_tally_remove(s: Seq<FormIngest>, i: int, f: spec_fn(FormIngest) -> int)
    requires
        0 <= i < s.len(),
    ensures
        tally(s, f) == tally(s.remove(i), f) + f(s[i]),
{
    let l = s.take(i);
    let r = s.skip(i + 1);
    let one = seq![s[i]];
    assert(s =~= l + one + r);
    assert(s.remove(i) =~= l + r);
    lemma_tally_concat(l + one, r, f);
    lemma_tally_concat(l, one, f);
    lemma_tally_concat(l, r, f);
    assert(one.drop_last() =~= Seq::<FormIngest>::empty());
    assert(tally(one.drop_last(), f) == 0);
    assert(tally(one, f) == f(s[i]));
    assert(tally(s, f) == tally(l + one + r, f));
}

/// A tally does not depend on the order of the submissions.
pub proof fn lemma_tally_permutation(
    s1: Seq<FormIngest>,
    s2: Seq<FormIngest>,
    f: spec_fn(FormIngest) -> int,
)
    requires
        s1.to_multiset() == s2.to_multiset(),
    ensures
        tally(s1, f) == tally(s2, f),
    decreases s1.len(),
{
    broadcast use group_to_multiset_ensures;

    if s1.len() == 0 {
        assert(s2.to_multiset().len() == 0);
        assert(s2 =~= Seq::<FormIngest>::empty());
    } else {
        let x = s1.last();
        let p = s1.drop_last();
        assert(s1 =~= p.push(x));
        assert(s1.to_multiset() =~= p.to_multiset().insert(x));
        assert(s2.to_multiset().count(x) > 0);
        assert(s2.contains(x));
        let i = choose|i: int| 0 <= i < s2.len() && s2[i] == x;
        assert(s2.remove(i).to_multiset() =~= s2.to_multiset().remove(x));
        assert(p.to_multiset() =~= p.to_multiset().insert(x).remove(x));
        lemma_tally_permutation(p, s2.remove(i), f);
        lemma_tally_remove(s2, i, f);
    }
}

/// However a batch of match reports for one team is interleaved, applying
/// them one at a time leaves the same aggregate count and score total: the
/// number of reports, and the sum of the estimator's outputs over them.
pub proof fn lemma_serialized_matches(s1: Seq<FormIngest>, s2: Seq<FormIngest>, t: int)
    requires
        s1.len() > 0,
        forall|i: int| 0 <= i < s1.len() ==> #[trigger] is_match_for(s1[i], t),
        s1.to_multiset() == s2.to_multiset(),
    ensures
        replay(s1, t) is Some,
        replay(s2, t) is Some,
        replay(s1, t)->Some_0.matches == s1.len(),
        replay(s2, t)->Some_0.matches == s1.len(),
        replay(s1, t)->Some_0.score_accum == score_sum(s1, t),
        replay(s2, t)->Some_0.score_accum == score_sum(s1, t),
{
    lemma_all_matches_counted(s1, t);
    lemma_tally_permutation(s1, s2, |r: FormIngest| if r.team_spec() == t { 1int } else { 0int });
    lemma_tally_permutation(s1, s2, |r: FormIngest| if is_match_for(r, t) { 1int } else { 0int });
    lemma_tally_permutation(
        s1,
        s2,
        |r: FormIngest| if is_match_for(r, t) { r->Match_0.score() } else { 0int },
    );
    lemma_exists_iff_seen(s1, t);
    lemma_exists_iff_seen(s2, t);
    lemma_matches_counted(s1, t);
    lemma_matches_counted(s2, t);
}

proof fn lemma_all_matches_counted(s: Seq<FormIngest>, t: int)
    requires
        forall|i: int| 0 <= i < s.len() ==> #[trigger] is_match_for(s[i], t),
    ensures
        match_count(s, t) == s.len(),
        record_count(s, t) == s.len(),
    decreases s.len(),
{
    if s.len() > 0 {
        let p = s.drop_last();
        assert forall|i: int| 0 <= i < p.len() implies #[trigger] is_match_for(p[i], t) by {
            assert(p[i] == s[i]);
        }
        assert(is_match_for(s[s.len() - 1], t));
        lemma_all_matches_counted(p, t);
    }
}

} // verus!
