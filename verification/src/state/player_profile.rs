use crate::numeric::floor_sqrt;
use crate::numeric::integer_sqrt;
use crate::numeric::lemma_floor_sqrt_is;
use vstd::arithmetic::div_mod::lemma_div_is_ordered;
use vstd::arithmetic::div_mod::lemma_div_multiples_vanish;
use vstd::prelude::*;

verus! {

/// The scale of the fixed-point averages: nine decimals.
pub const SCALE: u64 = 1_000_000_000;

/// The largest average number of splits, scaled: every slot a split.
pub const MAX_AVERAGE_NUM_SPLITS: u64 = 1_000_000_000_000;

/// The largest average stake, scaled: a hundred tokens.
pub const MAX_AVERAGE_STAKE_AMOUNT: u64 = 100_000_000_000;

/// Entry `k` is the least number of games after which a `k`-th split bonus
/// is at least 1% likely, a bonus falling in one game of a thousand.
pub const MIN_GAMES: [u32; 93] = [
    0, 11, 154, 457, 871, 1363, 1912, 2505, 3133, 3789, 4469, 5169, 5886, 6618, 7364, 8122, 8890,
    9668, 10455, 11250, 12052, 12861, 13676, 14497, 15323, 16154, 16990, 17831, 18675, 19524,
    20376, 21232, 22091, 22953, 23819, 24687, 25558, 26431, 27307, 28186, 29067, 29950, 30835,
    31722, 32611, 33502, 34395, 35289, 36186, 37084, 37983, 38884, 39787, 40691, 41596, 42503,
    43411, 44320, 45231, 46143, 47056, 47970, 48885, 49802, 50719, 51638, 52557, 53477, 54399,
    55321, 56244, 57169, 58094, 59019, 59946, 60874, 61802, 62731, 63661, 64591, 65523, 66455,
    67388, 68321, 69255, 70190, 71125, 72062, 72998, 73936, 74873, 75812, 76751,
];

/// The mean of `total_observations` values, of which the earlier ones had
/// the mean `old_average` and the last one is `new_observation`, rounded
/// down.
pub open spec fn running_average(
    old_average: int,
    total_observations: int,
    new_observation: int,
) -> int {
    (old_average * (total_observations - 1) + new_observation) / total_observations
}

/// A running average lies between the smaller and the larger of the old
/// average and the new observation.
pub proof fn lemma_running_average_between(
    old_average: int,
    total_observations: int,
    new_observation: int,
    low: int,
    high: int,
)
    requires
        total_observations >= 1,
        low <= old_average <= high,
        low <= new_observation <= high,
    ensures
        low <= running_average(old_average, total_observations, new_observation) <= high,
{
    let n = total_observations;
    let sum = old_average * (n - 1) + new_observation;
    assert(low * n <= sum <= high * n) by (nonlinear_arith)
        requires
            n >= 1,
            low <= old_average <= high,
            low <= new_observation <= high,
            sum == old_average * (n - 1) + new_observation,
    ;
    lemma_div_is_ordered(low * n, sum, n);
    lemma_div_is_ordered(sum, high * n, n);
    lemma_div_multiples_vanish(low, n);
    lemma_div_multiples_vanish(high, n);
    assert(low * n == n * low && high * n == n * high) by (nonlinear_arith);
}

/// What one player has done so far.
#[derive(Clone, Copy, Debug, PartialEq, Eq)]
pub struct PlayerProfile {
    pub is_initialized: bool,
    pub bump: u8,
    pub last_played_slot: u64,
    pub tokens_gained: u64,
    pub tokens_burned: u64,
    pub num_games: u32,
    pub num_split_bonuses: u8,
    /// The mean number of splits in the history over the player's games:
    /// between 0 and 1000, with nine decimals.
    pub average_num_splits: u64,
    /// The mean stake over the player's games: between 0 and 100, with nine
    /// decimals.
    pub average_stake_amount: u64,
}

impl PlayerProfile {
    /// Both averages are within their ranges.
    pub open spec fn wf(&self) -> bool {
        &&& self.average_num_splits <= MAX_AVERAGE_NUM_SPLITS
        &&& self.average_stake_amount <= MAX_AVERAGE_STAKE_AMOUNT
    }

    /// Whether the player may be granted one more split bonus: it would be
    /// the `k`-th, the table has an entry `k`, and the player has played at
    /// least that many games.
    pub open spec fn split_bonus_eligible(&self) -> bool {
        let rank = self.num_split_bonuses + 1;
        rank < 93 && self.num_games >= MIN_GAMES@[rank]
    }

    /// Whether the player's games are enough for a normal approximation:
    /// with `p` the share of splits that the player has met, which is the
    /// average number of splits through a thousand, `games * p` and
    /// `games * (1 - p)` are both at least five. Nothing is rounded: both
    /// sides of each comparison are taken `MAX_AVERAGE_NUM_SPLITS` times.
    pub open spec fn significant(&self) -> bool {
        &&& self.num_games * self.average_num_splits >= 5 * MAX_AVERAGE_NUM_SPLITS
        &&& self.num_games * (MAX_AVERAGE_NUM_SPLITS - self.average_num_splits) >= 5
            * MAX_AVERAGE_NUM_SPLITS
    }

    /// The share of splits that the player has met, scaled and rounded
    /// down: between 0 and `SCALE`.
    pub open spec fn split_rate(&self) -> int {
        self.average_num_splits as int / 1000
    }

    /// The share of steals that the player has met, scaled: the chance of
    /// losing the stake in one game, as the burn threshold takes it.
    pub open spec fn loss_rate(&self) -> int {
        SCALE - self.split_rate()
    }

    /// What the player is expected to have burned, scaled.
    pub open spec fn expected_burn(&self) -> int {
        self.num_games * ((self.average_stake_amount * self.loss_rate()) / (SCALE as int))
    }

    /// The variance of what the player has burned, scaled: the squared
    /// stake weighted by the chance of losing it, once per game.
    pub open spec fn burn_variance(&self) -> int {
        self.num_games * ((((self.average_stake_amount * self.average_stake_amount) / (
        SCALE as int)) * self.loss_rate()) / (SCALE as int))
    }

    /// The standard deviation of what the player has burned, scaled. The
    /// root of a scaled value is scaled by the root of `SCALE`, which is
    /// 31_622 rounded down.
    pub open spec fn burn_deviation(&self) -> int {
        floor_sqrt(self.burn_variance() as nat) * SCALE / 31_622
    }

    /// The least amount that the player has burned with a likelihood of
    /// 99%: the expectation less 2.330 standard deviations, and no less
    /// than nothing.
    pub open spec fn burn_threshold(&self) -> int {
        let margin = self.burn_deviation() * 2_330_000_000 / (SCALE as int);
        if self.expected_burn() >= margin {
            self.expected_burn() - margin
        } else {
            0
        }
    }

    /// Whether the player's burned tokens are believable: the games are too
    /// few to tell, or the tokens reach the threshold.
    pub open spec fn burn_rate_believable(&self) -> bool {
        !(self.significant() && self.tokens_burned < self.burn_threshold())
    }

    /// Whether both averages are within their ranges.
    pub fn is_wf(&self) -> (sound: bool)
        ensures
            sound == self.wf(),
    {
        self.average_num_splits <= MAX_AVERAGE_NUM_SPLITS && self.average_stake_amount
            <= MAX_AVERAGE_STAKE_AMOUNT
    }

    /// Marks the profile as in use.
    pub fn initialize(&mut self, bump: u8)
        ensures
            *final(self) == (PlayerProfile {
                is_initialized: true,
                bump,
                last_played_slot: 0,
                tokens_gained: 0,
                tokens_burned: 0,
                ..*old(self)
            }),
    {
        self.is_initialized = true;
        self.bump = bump;
        self.last_played_slot = 0;
        self.tokens_gained = 0;
        self.tokens_burned = 0;
    }

    /// Whether the player may be granted one more split bonus.
    pub fn can_get_split_bonus(&self) -> (eligible: bool)
        ensures
            eligible == self.split_bonus_eligible(),
    {
        let num_bonuses_idx: usize = self.num_split_bonuses as usize + 1;
        if num_bonuses_idx >= 93 {
            return false;
        }
        self.num_games >= MIN_GAMES[num_bonuses_idx]
    }

    /// Takes the number of splits met in the game just counted into the
    /// average.
    pub fn update_average_num_splits(&mut self, current_num_splits: u16)
        requires
            old(self).num_games >= 1,
        ensures
            *final(self) == (PlayerProfile {
                average_num_splits: running_average(
                    old(self).average_num_splits as int,
                    old(self).num_games as int,
                    current_num_splits * SCALE,
                ) as u64,
                ..*old(self)
            }),
            running_average(
                old(self).average_num_splits as int,
                old(self).num_games as int,
                current_num_splits * SCALE,
            ) <= u64::MAX,
    {
        let scaled_new_value: u64 = current_num_splits as u64 * SCALE;
        let num_games: u32 = self.num_games;
        let average_num_splits: u64 = self.average_num_splits;
        self.average_num_splits = self.update_average(average_num_splits, num_games, scaled_new_value);
    }

    /// Takes the stake of the game just counted into the average.
    pub fn update_average_stake_amount(&mut self, current_stake_amount: u16)
        requires
            old(self).num_games >= 1,
        ensures
            *final(self) == (PlayerProfile {
                average_stake_amount: running_average(
                    old(self).average_stake_amount as int,
                    old(self).num_games as int,
                    current_stake_amount * SCALE,
                ) as u64,
                ..*old(self)
            }),
            running_average(
                old(self).average_stake_amount as int,
                old(self).num_games as int,
                current_stake_amount * SCALE,
            ) <= u64::MAX,
    {
        let scaled_new_value: u64 = current_stake_amount as u64 * SCALE;
        let num_games: u32 = self.num_games;
        let average_stake_amount: u64 = self.average_stake_amount;
        self.average_stake_amount = self.update_average(
            average_stake_amount,
            num_games,
            scaled_new_value,
        );
    }

    /// The mean after one more observation. `total_observations` counts the
    /// new one.
    pub fn update_average(
        &mut self,
        old_average: u64,
        total_observations: u32,
        new_observation: u64,
    ) -> (new_average: u64)
        requires
            total_observations >= 1,
        ensures
            new_average == running_average(
                old_average as int,
                total_observations as int,
                new_observation as int,
            ),
            *final(self) == *old(self),
    {
        let earlier: u128 = total_observations as u128 - 1;
        assert(old_average as u128 * earlier <= u64::MAX * earlier) by (nonlinear_arith)
            requires
                old_average <= u64::MAX,
                0 <= earlier,
        ;
        assert(u64::MAX * earlier <= u64::MAX * u32::MAX) by (nonlinear_arith)
            requires
                earlier <= u32::MAX,
        ;
        let sum: u128 = old_average as u128 * earlier + new_observation as u128;
        let average: u128 = sum / total_observations as u128;
        proof {
            let n = total_observations as int;
            assert(u64::MAX * earlier + u64::MAX == u64::MAX * n) by (nonlinear_arith)
                requires
                    earlier == n - 1,
            ;
            lemma_div_is_ordered(sum as int, u64::MAX * n, n);
            lemma_div_multiples_vanish(u64::MAX as int, n);
            assert(u64::MAX * n == n * u64::MAX) by (nonlinear_arith);
        }
        average as u64
    }

    /// The least amount that the player has burned with a likelihood of 99%.
    pub fn calculate_99_percent_threshold(&self) -> (threshold: u128)
        requires
            self.wf(),
        ensures
            threshold == self.burn_threshold(),
    {
        let n: u128 = self.num_games as u128;
        let avg_stake: u128 = self.average_stake_amount as u128;
        let probability: u128 = (SCALE - self.average_num_splits / 1_000) as u128;
        let scale: u128 = SCALE as u128;

        assert(avg_stake * probability <= 100_000_000_000 * 1_000_000_000) by (nonlinear_arith)
            requires
                avg_stake <= 100_000_000_000,
                probability <= 1_000_000_000,
        ;
        assert(avg_stake * avg_stake <= 100_000_000_000 * 100_000_000_000) by (nonlinear_arith)
            requires
                avg_stake <= 100_000_000_000,
        ;
        // Each product is brought back to the scale before the next one.
        let expected_value: u128 = (avg_stake * probability) / scale;
        let squared_stake: u128 = (avg_stake * avg_stake) / scale;
        assert(squared_stake * probability <= 10_000_000_000_000 * 1_000_000_000)
            by (nonlinear_arith)
            requires
                squared_stake <= 10_000_000_000_000,
                probability <= 1_000_000_000,
        ;
        let variance: u128 = (squared_stake * probability) / scale;
        assert(n * expected_value <= 0xffff_ffff * 100_000_000_000) by (nonlinear_arith)
            requires
                n <= 0xffff_ffff,
                expected_value <= 100_000_000_000,
        ;
        assert(n * variance <= 0xffff_ffff * 10_000_000_000_000) by (nonlinear_arith)
            requires
                n <= 0xffff_ffff,
                variance <= 10_000_000_000_000,
        ;
        let scaled_expected_value: u128 = n * expected_value;
        let std_dev: u128 = integer_sqrt(n * variance);
        proof {
            lemma_floor_sqrt_is((n * variance) as nat, std_dev as nat);
        }
        let scaled_std_dev: u128 = std_dev * scale / 31_622;

        // 2.33 standard deviations leave 1% below them.
        let z_score: u128 = 2_330_000_000;

        let margin: u128 = (scaled_std_dev * z_score) / scale;
        if scaled_expected_value >= margin {
            scaled_expected_value - margin
        } else {
            0
        }
    }

    /// Whether the player's games are enough for the burn rate to be judged.
    pub fn passes_significance_test(&self) -> (significant: bool)
        requires
            self.wf(),
        ensures
            significant == self.significant(),
    {
        let splits: u128 = self.average_num_splits as u128;
        let steals: u128 = (MAX_AVERAGE_NUM_SPLITS - self.average_num_splits) as u128;
        let n: u128 = self.num_games as u128;
        let five: u128 = 5 * MAX_AVERAGE_NUM_SPLITS as u128;
        assert(n * splits <= 0xffff_ffff * 1_000_000_000_000 && n * steals <= 0xffff_ffff
            * 1_000_000_000_000) by (nonlinear_arith)
            requires
                n <= 0xffff_ffff,
                splits <= 1_000_000_000_000,
                steals <= 1_000_000_000_000,
        ;
        n * splits >= five && n * steals >= five
    }

    /// Whether the player's burned tokens are believable.
    pub fn passes_burn_rate_check(&self) -> (passes: bool)
        requires
            self.wf(),
        ensures
            passes == self.burn_rate_believable(),
    {
        if self.passes_significance_test() {
            if (self.tokens_burned as u128) < self.calculate_99_percent_threshold() {
                return false;
            }
        }
        true
    }
}

} // verus!
