use crate::state::player_profile::PlayerProfile;
use crate::state::player_profile::MAX_AVERAGE_NUM_SPLITS;
use crate::state::player_profile::MIN_GAMES;
use crate::state::player_profile::SCALE;
use vstd::prelude::*;

verus! {

/// The burn rate gate turns at the threshold. Where the games are enough
/// to judge, a player who has burned the threshold or more passes, and one
/// who has burned less does not; where they are too few, every player
/// passes.
pub proof fn lemma_burn_rate_gate(profile: PlayerProfile)
    ensures
        profile.significant() ==> (profile.burn_rate_believable() <==> profile.tokens_burned
            >= profile.burn_threshold()),
        !profile.significant() ==> profile.burn_rate_believable(),
{
}

/// Fewer than ten games are never enough to judge the burn rate: five
/// expected wins and five expected losses take ten games.
pub proof fn lemma_significance_takes_ten_games(profile: PlayerProfile)
    requires
        profile.wf(),
        profile.significant(),
    ensures
        profile.num_games >= 10,
{
    let n = profile.num_games as int;
    let splits = profile.average_num_splits as int;
    let all = MAX_AVERAGE_NUM_SPLITS as int;
    assert(n * splits + n * (all - splits) == n * all) by (nonlinear_arith);
}

/// The threshold is never below nothing and never above what the player is
/// expected to have burned.
pub proof fn lemma_burn_threshold_bounded(profile: PlayerProfile)
    requires
        profile.wf(),
    ensures
        0 <= profile.burn_threshold() <= profile.expected_burn(),
{
    let per_game = (profile.average_stake_amount * profile.loss_rate()) / (SCALE as int);
    assert(0 <= profile.average_stake_amount * profile.loss_rate()) by (nonlinear_arith)
        requires
            0 <= profile.loss_rate(),
    ;
    assert(0 <= profile.num_games * per_game) by (nonlinear_arith)
        requires
            0 <= per_game,
    ;
    assert(0 <= profile.burn_deviation() * 2_330_000_000) by (nonlinear_arith)
        requires
            0 <= profile.burn_deviation(),
    ;
}

/// Nobody is granted a ninety-third split bonus, and nobody a first one
/// within the first ten games.
pub proof fn lemma_split_bonus_capped(profile: PlayerProfile)
    ensures
        profile.num_split_bonuses >= 92 ==> !profile.split_bonus_eligible(),
        profile.num_games < 11 ==> !profile.split_bonus_eligible(),
{
    if 1 <= profile.num_split_bonuses < 92 {
        lemma_min_games_rise(1, profile.num_split_bonuses + 1);
    }
}

/// Each entry of the table is larger than the one before it.
proof fn lemma_min_games_step(rank: int)
    requires
        0 <= rank < 92,
    ensures
        MIN_GAMES@[rank] < MIN_GAMES@[rank + 1],
{
    if rank < 24 {
    } else if rank < 47 {
    } else if rank < 70 {
    } else {
    }
}

/// The table rises: each further bonus takes more games than any before
/// it.
pub proof fn lemma_min_games_rise(lower: int, higher: int)
    requires
        0 <= lower < higher < 93,
    ensures
        MIN_GAMES@[lower] < MIN_GAMES@[higher],
    decreases higher - lower,
{
    if lower + 1 < higher {
        lemma_min_games_rise(lower, higher - 1);
    }
    lemma_min_games_step(higher - 1);
}

/// A player who may be granted one more split bonus still may after any
/// number of further games without one.
pub proof fn lemma_eligibility_lasts(profile: PlayerProfile, later: PlayerProfile)
    requires
        profile.split_bonus_eligible(),
        later.num_split_bonuses == profile.num_split_bonuses,
        later.num_games >= profile.num_games,
    ensures
        later.split_bonus_eligible(),
{
}

/// What is asked of a profile depends on the profile alone: asked again of
/// a profile that has not changed, the answer is the same.
pub proof fn lemma_profile_queries_repeat(first: PlayerProfile, second: PlayerProfile)
    requires
        first == second,
    ensures
        first.split_bonus_eligible() == second.split_bonus_eligible(),
        first.significant() == second.significant(),
        first.burn_threshold() == second.burn_threshold(),
        first.burn_rate_believable() == second.burn_rate_believable(),
{
}

} // verus!
