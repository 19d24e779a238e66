//! Facts about the counting and penalty functions of the model, used by the
//! payout loop.
use vstd::prelude::*;
use crate::types::{AddressModel, ContributionModel};
use crate::model::{
    contributed, cycle_pot, missed_count, penalized, score_in, penalty_map, records_unique,
    MISSED_PENALTY,
};

verus! {

/// Extending a prefix of the records by one adds that record's amount to the
/// pot when it belongs to `cycle`.
pub proof fn lemma_pot_step(cs: Seq<ContributionModel>, cycle: u32, i: int)
    requires
        0 <= i < cs.len(),
    ensures
        cycle_pot(cs.take(i + 1), cycle) == cycle_pot(cs.take(i), cycle) + if cs[i].cycle == cycle {
            cs[i].amount as int
        } else {
            0int
        },
{
    assert(cs.take(i + 1).drop_last() =~= cs.take(i));
    assert(cs.take(i + 1).last() == cs[i]);
}

/// Recording a contribution for a member and cycle with none yet keeps one
/// record per member and cycle.
pub proof fn lemma_push_record_unique(cs: Seq<ContributionModel>, rec: ContributionModel)
    requires
        records_unique(cs),
        !contributed(cs, rec.member, rec.cycle),
    ensures
        records_unique(cs.push(rec)),
{
    let cs2 = cs.push(rec);
    assert forall|i: int, j: int|
        0 <= i < cs2.len() && 0 <= j < cs2.len() && i != j implies !(#[trigger] cs2[i].member
        == #[trigger] cs2[j].member && cs2[i].cycle == cs2[j].cycle) by {
        if i < cs.len() && j < cs.len() {
            assert(cs2[i] == cs[i] && cs2[j] == cs[j]);
        } else if i < cs.len() {
            assert(cs2[i] == cs[i]);
            if cs[i].member == rec.member && cs[i].cycle == rec.cycle {
                assert(contributed(cs, rec.member, rec.cycle));
            }
        } else {
            assert(cs2[j] == cs[j]);
            if cs[j].member == rec.member && cs[j].cycle == rec.cycle {
                assert(contributed(cs, rec.member, rec.cycle));
            }
        }
    }
}

/// Extending a prefix of the rotation by one place counts that place as
/// missed for its holder when the holder did not contribute.
pub proof fn lemma_missed_step(
    members: Seq<AddressModel>,
    cs: Seq<ContributionModel>,
    cycle: u32,
    i: int,
    who: AddressModel,
)
    requires
        0 <= i < members.len(),
    ensures
        missed_count(members.take(i + 1), cs, cycle, who) == missed_count(members.take(i), cs, cycle, who)
            + if members[i] == who && !contributed(cs, who, cycle) {
            1nat
        } else {
            0nat
        },
{
    assert(members.take(i + 1).drop_last() =~= members.take(i));
    assert(members.take(i + 1).last() == members[i]);
}

/// One more penalty is one more saturating subtraction.
pub proof fn lemma_penalized_step(score: u32, n: nat)
    ensures
        penalized(score, n + 1) == (if penalized(score, n) >= MISSED_PENALTY {
            (penalized(score, n) - MISSED_PENALTY) as u32
        } else {
            0u32
        }),
{
}

/// The score that a penalty map gives an address.
pub proof fn lemma_penalty_score(
    rep: Map<AddressModel, u32>,
    members: Seq<AddressModel>,
    cs: Seq<ContributionModel>,
    cycle: u32,
    who: AddressModel,
)
    ensures
        score_in(penalty_map(rep, members, cs, cycle), who) == penalized(
            score_in(rep, who),
            missed_count(members, cs, cycle, who),
        ),
{
}

/// Extending the penalised prefix by one place penalises that place's holder
/// once more when the holder did not contribute.
pub proof fn lemma_penalty_step(
    rep: Map<AddressModel, u32>,
    members: Seq<AddressModel>,
    cs: Seq<ContributionModel>,
    cycle: u32,
    i: int,
)
    requires
        0 <= i < members.len(),
    ensures
        penalty_map(rep, members.take(i + 1), cs, cycle) == if contributed(cs, members[i], cycle) {
            penalty_map(rep, members.take(i), cs, cycle)
        } else {
            penalty_map(rep, members.take(i), cs, cycle).insert(
                members[i],
                (if score_in(penalty_map(rep, members.take(i), cs, cycle), members[i]) >= MISSED_PENALTY {
                    (score_in(penalty_map(rep, members.take(i), cs, cycle), members[i]) - MISSED_PENALTY) as u32
                } else {
                    0u32
                }),
            )
        },
{
    let before = penalty_map(rep, members.take(i), cs, cycle);
    let next = penalty_map(rep, members.take(i + 1), cs, cycle);
    let m = members[i];
    assert forall|a: AddressModel| #[trigger] missed_count(members.take(i + 1), cs, cycle, a) == missed_count(
        members.take(i),
        cs,
        cycle,
        a,
    ) + if m == a && !contributed(cs, a, cycle) {
        1nat
    } else {
        0nat
    } by {
        lemma_missed_step(members, cs, cycle, i, a);
    }
    lemma_penalty_score(rep, members.take(i), cs, cycle, m);
    lemma_penalized_step(score_in(rep, m), missed_count(members.take(i), cs, cycle, m));
    if contributed(cs, m, cycle) {
        assert(next =~= before);
    } else {
        let s = score_in(before, m);
        let target = before.insert(m, if s >= MISSED_PENALTY {
            (s - MISSED_PENALTY) as u32
        } else {
            0u32
        });
        assert(next =~= target);
    }
}

} // verus!
