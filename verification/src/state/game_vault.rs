use crate::error::SplitOrStealError;
use vstd::arithmetic::div_mod::lemma_div_multiples_vanish_quotient;
use vstd::array::spec_array_update;
use vstd::prelude::*;

verus! {

/// How many past choices the vault remembers.
pub const BUFFER_SIZE: usize = 1000;

/// The smallest units that make up one token (nine decimals).
pub const ONE_TOKEN: u64 = 1_000_000_000;

/// What a player, or a remembered round, chose.
#[derive(Clone, Copy, Debug, PartialEq, Eq, Structural)]
pub enum Choice {
    Split,
    Steal,
}

impl Choice {
    /// The byte under which the history stores this choice.
    pub open spec fn flag(self) -> u8 {
        match self {
            Choice::Split => 0u8,
            Choice::Steal => 1u8,
        }
    }

    /// The byte under which the history stores this choice.
    pub fn to_flag(self) -> (flag: u8)
        ensures
            flag == self.flag(),
    {
        match self {
            Choice::Split => 0,
            Choice::Steal => 1,
        }
    }
}

/// The choice that a stored byte stands for, if it stands for one.
pub open spec fn choice_of_flag(flag: u8) -> Option<Choice> {
    if flag == 0 {
        Some(Choice::Split)
    } else if flag == 1 {
        Some(Choice::Steal)
    } else {
        None
    }
}

/// What reading a stored byte gives: its choice, or the complaint that the
/// history is corrupt.
pub open spec fn read_flag(flag: u8) -> Result<Choice, SplitOrStealError> {
    match choice_of_flag(flag) {
        Some(choice) => Ok(choice),
        None => Err(SplitOrStealError::InvariantViolation),
    }
}

/// How often `flag` occurs in `flags`.
pub open spec fn count_flag(flags: Seq<u8>, flag: u8) -> nat
    decreases flags.len(),
{
    if flags.len() == 0 {
        0
    } else {
        count_flag(flags.drop_last(), flag) + if flags.last() == flag {
            1nat
        } else {
            0nat
        }
    }
}

/// No byte occurs more often than the sequence is long.
pub proof fn lemma_count_flag_bounded(flags: Seq<u8>, flag: u8)
    ensures
        count_flag(flags, flag) <= flags.len(),
    decreases flags.len(),
{
    if flags.len() > 0 {
        lemma_count_flag_bounded(flags.drop_last(), flag);
    }
}

/// A byte that occurs at some index occurs at least once.
pub proof fn lemma_count_flag_positive(flags: Seq<u8>, flag: u8, index: int)
    requires
        0 <= index < flags.len(),
        flags[index] == flag,
    ensures
        count_flag(flags, flag) >= 1,
    decreases flags.len(),
{
    if index < flags.len() - 1 {
        lemma_count_flag_positive(flags.drop_last(), flag, index);
    }
}

/// Where every byte is a zero or a one, the zeros and the ones together are
/// as many as the bytes.
pub proof fn lemma_count_flags_sum(flags: Seq<u8>)
    requires
        forall|i: int| 0 <= i < flags.len() ==> #[trigger] flags[i] <= 1,
    ensures
        count_flag(flags, 0) + count_flag(flags, 1) == flags.len(),
    decreases flags.len(),
{
    if flags.len() > 0 {
        let shorter = flags.drop_last();
        assert forall|i: int| 0 <= i < shorter.len() implies #[trigger] shorter[i] <= 1 by {
            assert(shorter[i] == flags[i]);
        }
        lemma_count_flags_sum(shorter);
        assert(flags.last() == flags[flags.len() - 1]);
    }
}

/// Overwriting one byte takes one from the count of the byte that was there
/// and adds one to the count of the byte that comes.
pub proof fn lemma_count_flag_update(flags: Seq<u8>, index: int, incoming: u8, flag: u8)
    requires
        0 <= index < flags.len(),
    ensures
        count_flag(flags.update(index, incoming), flag) == count_flag(flags, flag) - (if flags[index]
            == flag {
            1int
        } else {
            0int
        }) + (if incoming == flag {
            1int
        } else {
            0int
        }),
    decreases flags.len(),
{
    let updated = flags.update(index, incoming);
    if index == flags.len() - 1 {
        assert(updated.drop_last() =~= flags.drop_last());
    } else {
        assert(updated.drop_last() =~= flags.drop_last().update(index, incoming));
        lemma_count_flag_update(flags.drop_last(), index, incoming, flag);
    }
}

/// A sequence of zeros holds as many zeros as it is long, and nothing else.
pub proof fn lemma_count_flag_zeros(flags: Seq<u8>, flag: u8)
    requires
        forall|i: int| 0 <= i < flags.len() ==> #[trigger] flags[i] == 0,
    ensures
        count_flag(flags, flag) == if flag == 0 {
            flags.len()
        } else {
            0
        },
    decreases flags.len(),
{
    if flags.len() > 0 {
        let shorter = flags.drop_last();
        assert forall|i: int| 0 <= i < shorter.len() implies #[trigger] shorter[i] == 0 by {
            assert(shorter[i] == flags[i]);
        }
        lemma_count_flag_zeros(shorter, flag);
        assert(flags.last() == flags[flags.len() - 1]);
    }
}

/// The shared pool: what is left to pay out, what was burned, and the last
/// thousand choices with their running counts.
#[derive(Clone, Copy, Debug, PartialEq, Eq)]
pub struct GameVault {
    pub creator: [u8; 32],
    pub bump: u8,
    pub token_bump: u8,
    pub initial_tokens: u64,
    pub mint_remaining: u64,
    pub burned_amount: u64,
    /// One byte per remembered choice: 0 for a split, 1 for a steal.
    pub participation_flags: [u8; BUFFER_SIZE],
    /// The slot that the next choice overwrites.
    pub current_index: u16,
    pub num_zero_stakes: u32,
    pub num_hundred_stakes: u32,
    pub num_splits: u16,
    pub num_steals: u16,
}

/// The split value in exact arithmetic, rounded down:
/// `(stake + one token + (1 - p) * stake) / (2 * p)` with `p` the share
/// `num_splits / 1000`, both sides of the fraction taken a thousandfold.
pub open spec fn split_value_exact(num_splits: int, stake: int) -> int {
    (1000 * stake + 1000 * ONE_TOKEN + (1000 - num_splits) * stake) / (2 * num_splits)
}

/// What a steal is expected to bring against the history, weighted by the
/// counts.
pub open spec fn expected_steal_payoff(
    num_splits: int,
    num_steals: int,
    stake: int,
    split_value: int,
) -> int {
    num_splits * (2 * split_value) - num_steals * stake
}

/// What a split is expected to bring against the history, weighted by the
/// counts.
pub open spec fn expected_split_payoff(
    num_splits: int,
    num_steals: int,
    stake: int,
    split_value: int,
) -> int {
    num_splits * split_value - num_steals * stake
}

/// An amount as a `u64`, or the complaint that it does not fit.
pub open spec fn amount_in_u64(amount: int) -> Result<u64, SplitOrStealError> {
    if 0 <= amount <= u64::MAX {
        Ok(amount as u64)
    } else {
        Err(SplitOrStealError::ArithmeticOverflow)
    }
}

impl GameVault {
    /// The scale of the fixed-point values.
    pub const SCALING_FACTOR: u128 = 1_000_000_000;

    /// The history is sound: the cursor points into it, every slot holds a
    /// choice, and the counts are those of the slots.
    pub open spec fn wf(&self) -> bool {
        &&& self.current_index < BUFFER_SIZE
        &&& forall|i: int| 0 <= i < BUFFER_SIZE ==> #[trigger] self.participation_flags@[i] <= 1
        &&& self.num_splits == count_flag(self.participation_flags@, 0)
        &&& self.num_steals == count_flag(self.participation_flags@, 1)
    }

    /// The vault as it is opened: everything to pay out, nothing burned, a
    /// history of splits only.
    pub open spec fn opened(creator: [u8; 32], initial_tokens: u64, bump: u8, token_bump: u8) -> (vault: GameVault) {
        GameVault {
            creator,
            bump,
            token_bump,
            initial_tokens,
            mint_remaining: initial_tokens,
            burned_amount: 0,
            participation_flags: [0u8; BUFFER_SIZE],
            current_index: 0,
            num_zero_stakes: 0,
            num_hundred_stakes: 0,
            num_splits: 1000,
            num_steals: 0,
        }
    }

    /// The vault after `entry` is recorded: the slot under the cursor holds
    /// it, the count of the choice that was there is one less, the count of
    /// `entry` one more, and the cursor has moved on, from the last slot to
    /// the first.
    pub open spec fn after_entry(self, entry: Choice) -> GameVault {
        let occupant = self.participation_flags@[self.current_index as int];
        GameVault {
            participation_flags: spec_array_update(
                self.participation_flags,
                self.current_index as int,
                entry.flag(),
            ),
            current_index: ((self.current_index + 1) % 1000) as u16,
            num_splits: (self.num_splits - (if occupant == 0 {
                1int
            } else {
                0int
            }) + (if entry == Choice::Split {
                1int
            } else {
                0int
            })) as u16,
            num_steals: (self.num_steals - (if occupant == 1 {
                1int
            } else {
                0int
            }) + (if entry == Choice::Steal {
                1int
            } else {
                0int
            })) as u16,
            ..self
        }
    }

    /// The vault after the choices of `entries` are recorded one after the
    /// other, the first one first.
    pub open spec fn after_entries(self, entries: Seq<Choice>) -> GameVault
        decreases entries.len(),
    {
        if entries.len() == 0 {
            self
        } else {
            self.after_entries(entries.drop_last()).after_entry(entries.last())
        }
    }

    /// What `calculate_split_value` returns.
    pub open spec fn split_value(&self, stake_amount: u64) -> Result<u64, SplitOrStealError> {
        if self.num_splits == 0 {
            Ok(0)
        } else if self.num_splits + self.num_steals != BUFFER_SIZE {
            Err(SplitOrStealError::InvariantViolation)
        } else {
            amount_in_u64(split_value_exact(self.num_splits as int, stake_amount as int))
        }
    }

    /// What `calculate_steal_value` returns: twice the split value.
    pub open spec fn steal_value(&self, stake_amount: u64) -> Result<u64, SplitOrStealError> {
        match self.split_value(stake_amount) {
            Ok(split_value) => amount_in_u64(2 * split_value),
            Err(error) => Err(error),
        }
    }

    /// What `calculate_split_bonus` returns: what a steal is expected to bring
    /// beyond a split.
    pub open spec fn split_bonus(&self, stake_amount: u64, split_value: u64) -> Result<
        u64,
        SplitOrStealError,
    > {
        if self.num_splits == 0 {
            Ok(0)
        } else if self.num_splits + self.num_steals != BUFFER_SIZE {
            Err(SplitOrStealError::InvariantViolation)
        } else {
            amount_in_u64(
                expected_steal_payoff(
                    self.num_splits as int,
                    self.num_steals as int,
                    stake_amount as int,
                    split_value as int,
                ) - expected_split_payoff(
                    self.num_splits as int,
                    self.num_steals as int,
                    stake_amount as int,
                    split_value as int,
                ),
            )
        }
    }

    /// Opens the vault.
    pub fn initialize(&mut self, creator: [u8; 32], initial_tokens: u64, bump: u8, token_bump: u8)
        ensures
            *final(self) == GameVault::opened(creator, initial_tokens, bump, token_bump),
            final(self).wf(),
    {
        *self = GameVault {
            creator,
            bump,
            token_bump,
            initial_tokens,
            mint_remaining: initial_tokens,
            burned_amount: 0,
            participation_flags: [0u8; BUFFER_SIZE],
            current_index: 0,
            num_zero_stakes: 0,
            num_hundred_stakes: 0,
            num_splits: 1000,
            num_steals: 0,
        };
        proof {
            lemma_count_flag_zeros(self.participation_flags@, 0);
            lemma_count_flag_zeros(self.participation_flags@, 1);
        }
    }

    /// Records `entry` in the slot under the cursor.
    pub fn add_entry(&mut self, entry: Choice)
        requires
            old(self).wf(),
        ensures
            *final(self) == old(self).after_entry(entry),
            final(self).wf(),
    {
        let index: usize = self.current_index as usize;
        let occupant: u8 = self.participation_flags[index];
        proof {
            let flags = self.participation_flags@;
            lemma_count_flag_positive(flags, occupant, index as int);
            lemma_count_flag_bounded(flags, 0);
            lemma_count_flag_bounded(flags, 1);
            lemma_count_flags_sum(flags);
            lemma_count_flag_update(flags, index as int, entry.flag(), 0);
            lemma_count_flag_update(flags, index as int, entry.flag(), 1);
        }
        if occupant == 0 {
            self.num_splits = self.num_splits - 1;
        } else {
            self.num_steals = self.num_steals - 1;
        }
        match entry {
            Choice::Split => {
                self.num_splits = self.num_splits + 1;
            },
            Choice::Steal => {
                self.num_steals = self.num_steals + 1;
            },
        }
        self.participation_flags[index] = entry.to_flag();
        self.current_index = (self.current_index + 1) % 1000;
        proof {
            assert(self.participation_flags =~= old(self).after_entry(entry).participation_flags);
        }
    }

    /// The choice in the slot under the cursor.
    pub fn get_current_entry(&self) -> (entry: Result<Choice, SplitOrStealError>)
        requires
            self.current_index < BUFFER_SIZE,
        ensures
            entry == read_flag(self.participation_flags@[self.current_index as int]),
    {
        self.get_entry_at(self.current_index)
    }

    /// The choice in slot `index`.
    pub fn get_entry_at(&self, index: u16) -> (entry: Result<Choice, SplitOrStealError>)
        requires
            index < BUFFER_SIZE,
        ensures
            entry == read_flag(self.participation_flags@[index as int]),
    {
        let flag: u8 = self.participation_flags[index as usize];
        if flag == 0 {
            Ok(Choice::Split)
        } else if flag == 1 {
            Ok(Choice::Steal)
        } else {
            Err(SplitOrStealError::InvariantViolation)
        }
    }

    /// Whether the history is sound.
    pub fn is_wf(&self) -> (sound: bool)
        ensures
            sound == self.wf(),
    {
        if self.current_index >= 1000 {
            return false;
        }
        let mut splits: u16 = 0;
        let mut steals: u16 = 0;
        let mut i: usize = 0;
        while i < BUFFER_SIZE
            invariant
                i <= BUFFER_SIZE,
                splits == count_flag(self.participation_flags@.take(i as int), 0),
                steals == count_flag(self.participation_flags@.take(i as int), 1),
                splits <= i,
                steals <= i,
                forall|j: int| 0 <= j < i ==> #[trigger] self.participation_flags@[j] <= 1,
            decreases BUFFER_SIZE - i,
        {
            let flag: u8 = self.participation_flags[i];
            proof {
                let longer = self.participation_flags@.take(i + 1);
                assert(longer.drop_last() =~= self.participation_flags@.take(i as int));
                assert(longer.last() == flag);
            }
            if flag == 0 {
                splits = splits + 1;
            } else if flag == 1 {
                steals = steals + 1;
            } else {
                return false;
            }
            i = i + 1;
        }
        proof {
            assert(self.participation_flags@.take(BUFFER_SIZE as int) =~= self.participation_flags@);
        }
        splits == self.num_splits && steals == self.num_steals
    }

    /// The two running counts: splits first, steals second.
    pub fn counts(&self) -> (counts: (u16, u16))
        ensures
            counts == (self.num_splits, self.num_steals),
    {
        (self.num_splits, self.num_steals)
    }

    /// The fair payout of a split against the history.
    pub fn calculate_split_value(&self, stake_amount: u64) -> (value: Result<
        u64,
        SplitOrStealError,
    >)
        ensures
            value == self.split_value(stake_amount),
    {
        if self.num_splits == 0 {
            return Ok(0);
        } else if self.num_splits as u32 + self.num_steals as u32 != 1000 {
            return Err(SplitOrStealError::InvariantViolation);
        }
        let stake_amount_u128: u128 = stake_amount as u128;

        let prob_split_scaled: u128 = (self.num_splits as u128 * Self::SCALING_FACTOR) / 1000;
        let one_minus_prob_split_scaled: u128 = Self::SCALING_FACTOR - prob_split_scaled;

        let stake_amount_scaled: u128 = stake_amount_u128 * Self::SCALING_FACTOR;
        let scaled_one: u128 = ONE_TOKEN as u128 * Self::SCALING_FACTOR;
        assert(one_minus_prob_split_scaled * stake_amount_u128 == 1_000_000 * ((1000
            - self.num_splits) * stake_amount)) by (nonlinear_arith)
            requires
                one_minus_prob_split_scaled == 1_000_000 * (1000 - self.num_splits),
                stake_amount_u128 == stake_amount,
        ;
        assert((1000 - self.num_splits) * stake_amount <= 1000 * u64::MAX) by (nonlinear_arith)
            requires
                0 < self.num_splits <= 1000,
                stake_amount <= u64::MAX,
        ;
        let one_minus_prob_split_times_stake: u128 = one_minus_prob_split_scaled
            * stake_amount_u128;

        let numerator: u128 = stake_amount_scaled + scaled_one + one_minus_prob_split_times_stake;
        let denominator: u128 = prob_split_scaled * 2;
        let quotient: u128 = numerator / denominator;
        proof {
            let exact_numerator: int = 1000 * stake_amount + 1000 * ONE_TOKEN + (1000
                - self.num_splits) * stake_amount;
            assert(numerator == 1_000_000 * exact_numerator);
            assert(denominator == 1_000_000 * (2 * self.num_splits));
            lemma_div_multiples_vanish_quotient(1_000_000, exact_numerator, 2 * self.num_splits);
            assert(quotient == split_value_exact(self.num_splits as int, stake_amount as int));
        }
        if quotient > u64::MAX as u128 {
            Err(SplitOrStealError::ArithmeticOverflow)
        } else {
            Ok(quotient as u64)
        }
    }

    /// The fair payout of a steal against the history.
    pub fn calculate_steal_value(&self, stake_amount: u64) -> (value: Result<
        u64,
        SplitOrStealError,
    >)
        ensures
            value == self.steal_value(stake_amount),
    {
        match self.calculate_split_value(stake_amount) {
            Ok(split_value) => {
                if split_value > u64::MAX / 2 {
                    Err(SplitOrStealError::ArithmeticOverflow)
                } else {
                    Ok(2 * split_value)
                }
            },
            Err(error) => Err(error),
        }
    }

    /// The bonus that a split may bring on top of `split_value`.
    pub fn calculate_split_bonus(&self, stake_amount: u64, split_value: u64) -> (bonus: Result<
        u64,
        SplitOrStealError,
    >)
        ensures
            bonus == self.split_bonus(stake_amount, split_value),
    {
        if self.num_splits == 0 {
            return Ok(0);
        } else if self.num_splits as u32 + self.num_steals as u32 != 1000 {
            return Err(SplitOrStealError::InvariantViolation);
        }
        let stake_amount_i128: i128 = stake_amount as i128;
        let split_value_i128: i128 = split_value as i128;

        let num_splits: i128 = self.num_splits as i128;
        let num_steals: i128 = self.num_steals as i128;

        assert(0 <= num_splits * (2 * split_value_i128) <= 1000 * (2 * u64::MAX)
            && 0 <= num_splits * split_value_i128 <= 1000 * u64::MAX
            && 0 <= num_steals * stake_amount_i128 <= 1000 * u64::MAX) by (nonlinear_arith)
            requires
                0 <= num_splits <= 1000,
                0 <= num_steals <= 1000,
                0 <= split_value_i128 <= u64::MAX,
                0 <= stake_amount_i128 <= u64::MAX,
        ;
        let expected_steal_payoff: i128 = num_splits * (2 * split_value_i128) - num_steals
            * stake_amount_i128;
        let expected_split_payoff: i128 = num_splits * split_value_i128 - num_steals
            * stake_amount_i128;

        let split_bonus: i128 = expected_steal_payoff - expected_split_payoff;
        if split_bonus < 0 || split_bonus > u64::MAX as i128 {
            Err(SplitOrStealError::ArithmeticOverflow)
        } else {
            Ok(split_bonus as u64)
        }
    }
}

} // verus!
