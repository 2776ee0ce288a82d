use crate::entropy::chacha8_draw;
use crate::entropy::derive_seed;
use crate::entropy::draw_below;
use crate::entropy::round_seed;
use crate::entropy::seeded_rng;
use crate::error::SplitOrStealError;
use crate::state::game_vault::choice_of_flag;
use crate::state::game_vault::lemma_count_flag_bounded;
use crate::state::game_vault::lemma_count_flag_positive;
use crate::state::game_vault::Choice;
use crate::state::game_vault::GameVault;
use crate::state::game_vault::BUFFER_SIZE;
use crate::state::game_vault::ONE_TOKEN;
use crate::state::player_profile::lemma_running_average_between;
use crate::state::player_profile::running_average;
use crate::state::player_profile::PlayerProfile;
use crate::state::player_profile::MAX_AVERAGE_NUM_SPLITS;
use crate::state::player_profile::MAX_AVERAGE_STAKE_AMOUNT;
use crate::state::player_profile::SCALE;
use crate::state::vault_laws::lemma_counts_fill_history;
use crate::state::vault_laws::lemma_payoffs_exist;
use vstd::prelude::*;

verus! {

/// The slots that have to lie between two rounds of one player.
pub const NUM_SLOTS_COOLDOWN: u64 = 3;

/// What the creator is paid, in lamports, when a profile is created.
pub const PROFILE_FEE: u64 = 6_000_000;

/// The largest stake, in whole tokens.
pub const MAX_STAKE: u16 = 100;

/// Where the hash of the latest slot starts among the slot hashes.
pub const SLOT_HASH_START: usize = 16;

/// Where the hash of the latest slot ends among the slot hashes.
pub const SLOT_HASH_END: usize = 48;

/// The key of the compute budget program, the only program whose
/// instructions may stand ahead of a round.
pub const COMPUTE_BUDGET_PROGRAM_ID: [u8; 32] = [
    3, 6, 70, 111, 229, 33, 23, 50, 255, 236, 173, 186, 114, 195, 155, 231, 188, 140, 229, 187, 197,
    247, 18, 107, 44, 67, 155, 58, 64, 0, 0, 0,
];

/// What a round finds outside the vault and the player's profile.
#[derive(Debug, PartialEq, Eq)]
pub struct PlayGame {
    /// The player's key.
    pub player: [u8; 32],
    /// The tokens that the player holds.
    pub player_token_amount: u64,
    /// The bump of the player's profile, kept when the profile is created.
    pub profile_bump: u8,
    /// The key of this program.
    pub program_id: [u8; 32],
    /// The program of each top-level instruction of the transaction, in
    /// their order.
    pub instruction_program_ids: Vec<[u8; 32]>,
    /// Which of them is running.
    pub current_instruction_index: u16,
    pub current_slot: u64,
    pub unix_timestamp: i64,
    /// The leading bytes of the account that lists the recent slot hashes,
    /// which the player cannot know when staking: a count of eight bytes,
    /// then for each slot, the latest first, its number in eight bytes and
    /// its hash in thirty-two.
    pub slot_hashes_data: Vec<u8>,
}

/// How a round ended, and what is owed to the ledger for it.
#[derive(Clone, Copy, Debug, PartialEq, Eq)]
pub struct RoundOutcome {
    /// The stake in the smallest unit.
    pub stake: u64,
    /// The slot of the history that was drawn as the opponent.
    pub opponent_index: u16,
    pub opponent_choice: Choice,
    pub passed_burn_rate_check: bool,
    /// Whether the player won: the opponent split and the burn rate check
    /// passed.
    pub won: bool,
    pub got_split_bonus: bool,
    /// What is to be burned from the player's tokens.
    pub burned: u64,
    /// What is to be moved from the vault's tokens to the player's.
    pub paid: u64,
    /// Whether the profile was created in this round, for which the
    /// creator is owed `PROFILE_FEE`.
    pub profile_created: bool,
}

/// Why the instructions of a transaction do not allow a round, if they do
/// not: the running one is not this program's, one ahead of it is not the
/// compute budget program's, or one follows it.
pub open spec fn top_level_refusal(
    program_ids: Seq<[u8; 32]>,
    current_index: int,
    program_id: [u8; 32],
) -> Option<SplitOrStealError> {
    if current_index >= program_ids.len() || program_ids[current_index]@ != program_id@ {
        Some(SplitOrStealError::InvalidActiveProgram)
    } else if exists|i: int|
        0 <= i < current_index && (#[trigger] program_ids[i])@ != COMPUTE_BUDGET_PROGRAM_ID@ {
        Some(SplitOrStealError::InvalidComputeBudgetProgramId)
    } else if program_ids.len() > current_index + 1 {
        Some(SplitOrStealError::UnexpectedInstruction)
    } else {
        None
    }
}

/// One more, but no more than a `u32` holds.
pub open spec fn saturating_next(count: u32) -> u32 {
    if count == u32::MAX {
        count
    } else {
        (count + 1) as u32
    }
}

/// The profile after a game against a history with `num_splits` splits:
/// one game more, the averages taken over that many games, and the totals
/// raised by what was gained and burned.
pub open spec fn played(
    profile: PlayerProfile,
    slot: u64,
    num_splits: u16,
    stake_amount: u16,
    gained: u64,
    burned: u64,
    bonus: bool,
) -> PlayerProfile {
    PlayerProfile {
        last_played_slot: slot,
        num_games: (profile.num_games + 1) as u32,
        tokens_gained: (profile.tokens_gained + gained) as u64,
        tokens_burned: (profile.tokens_burned + burned) as u64,
        num_split_bonuses: if bonus {
            (profile.num_split_bonuses + 1) as u8
        } else {
            profile.num_split_bonuses
        },
        average_num_splits: running_average(
            profile.average_num_splits as int,
            profile.num_games + 1,
            num_splits * SCALE,
        ) as u64,
        average_stake_amount: running_average(
            profile.average_stake_amount as int,
            profile.num_games + 1,
            stake_amount * SCALE,
        ) as u64,
        ..profile
    }
}

/// Whether two keys are the same.
pub fn keys_equal(first: &[u8; 32], second: &[u8; 32]) -> (equal: bool)
    ensures
        equal == (first@ == second@),
{
    let mut i: usize = 0;
    while i < 32
        invariant
            i <= 32,
            forall|j: int| 0 <= j < i ==> first@[j] == second@[j],
        decreases 32 - i,
    {
        if first[i] != second[i] {
            return false;
        }
        i = i + 1;
    }
    assert(first@ =~= second@);
    true
}

impl PlayGame {
    /// The slot of the player's last round. A profile that is not in use
    /// has none, and counts as played in slot 0.
    pub open spec fn last_played(profile: PlayerProfile) -> u64 {
        if profile.is_initialized {
            profile.last_played_slot
        } else {
            0
        }
    }

    /// The hash that goes into the seed: that of the latest slot.
    pub open spec fn slot_hash(&self) -> Seq<u8> {
        self.slot_hashes_data@.subrange(SLOT_HASH_START as int, SLOT_HASH_END as int)
    }

    /// The seed of the round against `vault`: drawn from the time, the slot
    /// hash, the player's key and what the vault has left.
    pub open spec fn seed(&self, vault: GameVault) -> u64 {
        round_seed(self.unix_timestamp, self.slot_hash(), self.player@, vault.mint_remaining)
    }

    /// Why the round is refused, if it is: the first of the vault being
    /// empty, the instructions not allowing it, the stake being above a
    /// hundred, the player holding less than the stake, the last round
    /// being less than the cooldown ago, and the slot hashes being too
    /// short to hold a hash.
    pub open spec fn refusal(
        &self,
        vault: GameVault,
        profile: PlayerProfile,
        stake_amount: u16,
    ) -> Option<SplitOrStealError> {
        if vault.mint_remaining == 0 {
            Some(SplitOrStealError::MintOver)
        } else if top_level_refusal(
            self.instruction_program_ids@,
            self.current_instruction_index as int,
            self.program_id,
        ) is Some {
            top_level_refusal(
                self.instruction_program_ids@,
                self.current_instruction_index as int,
                self.program_id,
            )
        } else if stake_amount > MAX_STAKE {
            Some(SplitOrStealError::StakeAmountTooHigh)
        } else if self.player_token_amount < stake_amount * ONE_TOKEN {
            Some(SplitOrStealError::InsufficientTokens)
        } else if self.current_slot < Self::last_played(profile) + NUM_SLOTS_COOLDOWN {
            Some(SplitOrStealError::PlayedAgainTooSoon)
        } else if self.slot_hashes_data@.len() < SLOT_HASH_END {
            Some(SplitOrStealError::SlotHashNotFound)
        } else {
            None
        }
    }

    /// The profile with which the player enters the round: the one that is
    /// in use, or a fresh one.
    pub open spec fn entering(&self, profile: PlayerProfile) -> PlayerProfile {
        if profile.is_initialized {
            profile
        } else {
            PlayerProfile {
                is_initialized: true,
                bump: self.profile_bump,
                last_played_slot: 0,
                tokens_gained: 0,
                tokens_burned: 0,
                ..profile
            }
        }
    }

    /// Whether the player loses the stake: the opponent drawn from the
    /// history stole, or the player's burn rate is not believable.
    pub open spec fn loses(&self, vault: GameVault, profile: PlayerProfile, random_index: u16) -> bool {
        ||| choice_of_flag(vault.participation_flags@[random_index as int]) != Some(Choice::Split)
        ||| !self.entering(profile).burn_rate_believable()
    }

    /// Whether a second number is drawn, which decides on the split bonus:
    /// the player split and won, and may be granted one more bonus.
    pub open spec fn bonus_draw_due(
        &self,
        vault: GameVault,
        profile: PlayerProfile,
        choice: Choice,
        random_index: u16,
    ) -> bool {
        &&& !self.loses(vault, profile, random_index)
        &&& choice == Choice::Split
        &&& self.entering(profile).split_bonus_eligible()
    }

    /// Whether the split bonus is granted: the second number was due and
    /// came out as 0.
    pub open spec fn bonus_granted(
        &self,
        vault: GameVault,
        profile: PlayerProfile,
        choice: Choice,
        random_index: u16,
        bonus_draw: Option<u16>,
    ) -> bool {
        self.bonus_draw_due(vault, profile, choice, random_index) && bonus_draw == Some(0u16)
    }

    /// What the winner's choice is worth: the split value, with its bonus
    /// if that is granted, or the steal value.
    pub open spec fn prize(vault: GameVault, choice: Choice, stake: u64, bonus: bool) -> int {
        match choice {
            Choice::Split => {
                let split_value = vault.split_value(stake)->Ok_0;
                if bonus {
                    split_value + vault.split_bonus(stake, split_value)->Ok_0
                } else {
                    split_value as int
                }
            },
            Choice::Steal => vault.steal_value(stake)->Ok_0 as int,
        }
    }

    /// What the player is paid: nothing after a loss, else the prize, and
    /// no more than the vault has left.
    pub open spec fn paid(
        &self,
        vault: GameVault,
        profile: PlayerProfile,
        choice: Choice,
        stake_amount: u16,
        random_index: u16,
        bonus_draw: Option<u16>,
    ) -> int {
        if self.loses(vault, profile, random_index) {
            0
        } else {
            let prize = Self::prize(
                vault,
                choice,
                (stake_amount * ONE_TOKEN) as u64,
                self.bonus_granted(vault, profile, choice, random_index, bonus_draw),
            );
            if prize < vault.mint_remaining {
                prize
            } else {
                vault.mint_remaining as int
            }
        }
    }

    /// What the player burns: the stake after a loss, else nothing.
    pub open spec fn burned(
        &self,
        vault: GameVault,
        profile: PlayerProfile,
        stake_amount: u16,
        random_index: u16,
    ) -> int {
        if self.loses(vault, profile, random_index) {
            stake_amount * ONE_TOKEN
        } else {
            0
        }
    }

    /// The round settled with `random_index` as the first number drawn and
    /// `bonus_draw` as the second, where one was drawn: what is returned,
    /// and the vault and the profile after it. A refused round, and one
    /// whose totals would not fit their integers, leave both as they were.
    /// Else the profile is brought up to date first, against the history
    /// as the round found it, and the player's choice is recorded last.
    pub open spec fn settlement(
        &self,
        vault: GameVault,
        profile: PlayerProfile,
        choice: Choice,
        stake_amount: u16,
        random_index: u16,
        bonus_draw: Option<u16>,
    ) -> (Result<RoundOutcome, SplitOrStealError>, GameVault, PlayerProfile) {
        let entering = self.entering(profile);
        let paid = self.paid(vault, profile, choice, stake_amount, random_index, bonus_draw);
        let burned = self.burned(vault, profile, stake_amount, random_index);
        let bonus = self.bonus_granted(vault, profile, choice, random_index, bonus_draw);
        if self.refusal(vault, profile, stake_amount) is Some {
            (Err(self.refusal(vault, profile, stake_amount)->Some_0), vault, profile)
        } else if vault.burned_amount + burned > u64::MAX || entering.tokens_burned + burned
            > u64::MAX || entering.tokens_gained + paid > u64::MAX || entering.num_games
            == u32::MAX {
            (Err(SplitOrStealError::ArithmeticOverflow), vault, profile)
        } else {
            (
                Ok(
                    RoundOutcome {
                        stake: (stake_amount * ONE_TOKEN) as u64,
                        opponent_index: random_index,
                        opponent_choice: choice_of_flag(
                            vault.participation_flags@[random_index as int],
                        )->Some_0,
                        passed_burn_rate_check: entering.burn_rate_believable(),
                        won: !self.loses(vault, profile, random_index),
                        got_split_bonus: bonus,
                        burned: burned as u64,
                        paid: paid as u64,
                        profile_created: !profile.is_initialized,
                    },
                ),
                (GameVault {
                    mint_remaining: (vault.mint_remaining - paid) as u64,
                    burned_amount: (vault.burned_amount + burned) as u64,
                    num_zero_stakes: if stake_amount == 0 {
                        saturating_next(vault.num_zero_stakes)
                    } else {
                        vault.num_zero_stakes
                    },
                    num_hundred_stakes: if stake_amount == 100 {
                        saturating_next(vault.num_hundred_stakes)
                    } else {
                        vault.num_hundred_stakes
                    },
                    ..vault
                }).after_entry(choice),
                played(
                    entering,
                    self.current_slot,
                    vault.num_splits,
                    stake_amount,
                    paid as u64,
                    burned as u64,
                    bonus,
                ),
            )
        }
    }

    /// The slot of the history that the round draws as the opponent: the
    /// first number, below the number of slots, of the generator made with
    /// the round's seed.
    pub open spec fn drawn_index(&self, vault: GameVault) -> u16 {
        chacha8_draw(self.seed(vault), Seq::<u16>::empty(), BUFFER_SIZE as u16)
    }

    /// The number that the round draws for the split bonus, where one is
    /// due: the generator's second number, below the number of splits.
    pub open spec fn drawn_bonus(
        &self,
        vault: GameVault,
        profile: PlayerProfile,
        choice: Choice,
    ) -> Option<u16> {
        if self.bonus_draw_due(vault, profile, choice, self.drawn_index(vault)) {
            Some(chacha8_draw(self.seed(vault), seq![BUFFER_SIZE as u16], vault.num_splits))
        } else {
            None
        }
    }

    /// The round as it is played: settled with the numbers that the
    /// generator made with its seed hands out.
    pub open spec fn round(
        &self,
        vault: GameVault,
        profile: PlayerProfile,
        choice: Choice,
        stake_amount: u16,
    ) -> (Result<RoundOutcome, SplitOrStealError>, GameVault, PlayerProfile) {
        self.settlement(
            vault,
            profile,
            choice,
            stake_amount,
            self.drawn_index(vault),
            self.drawn_bonus(vault, profile, choice),
        )
    }

    /// Checks that the round is the transaction's last instruction and that
    /// nothing but the compute budget program stands ahead of it.
    pub fn check_top_level_instruction(&self) -> (checked: Result<(), SplitOrStealError>)
        ensures
            match top_level_refusal(
                self.instruction_program_ids@,
                self.current_instruction_index as int,
                self.program_id,
            ) {
                Some(error) => checked == Err::<(), SplitOrStealError>(error),
                None => checked is Ok,
            },
    {
        let current_index: usize = self.current_instruction_index as usize;
        if current_index >= self.instruction_program_ids.len() {
            return Err(SplitOrStealError::InvalidActiveProgram);
        }
        if !keys_equal(&self.instruction_program_ids[current_index], &self.program_id) {
            return Err(SplitOrStealError::InvalidActiveProgram);
        }
        let mut i: usize = 0;
        while i < current_index
            invariant
                i <= current_index < self.instruction_program_ids.len(),
                current_index == self.current_instruction_index,
                self.instruction_program_ids@[current_index as int]@ == self.program_id@,
                forall|j: int|
                    0 <= j < i ==> (#[trigger] self.instruction_program_ids@[j])@
                        == COMPUTE_BUDGET_PROGRAM_ID@,
            decreases current_index - i,
        {
            if !keys_equal(&self.instruction_program_ids[i], &COMPUTE_BUDGET_PROGRAM_ID) {
                assert(self.instruction_program_ids@[i as int]@ != COMPUTE_BUDGET_PROGRAM_ID@);
                return Err(SplitOrStealError::InvalidComputeBudgetProgramId);
            }
            i = i + 1;
        }
        if self.instruction_program_ids.len() > current_index + 1 {
            return Err(SplitOrStealError::UnexpectedInstruction);
        }
        Ok(())
    }

    /// Checks everything that can refuse the round, and gives the stake in
    /// the smallest unit.
    pub fn validate(&self, vault: &GameVault, profile: &PlayerProfile, stake_amount: u16) -> (stake:
        Result<u64, SplitOrStealError>)
        ensures
            match self.refusal(*vault, *profile, stake_amount) {
                Some(error) => stake == Err::<u64, SplitOrStealError>(error),
                None => stake == Ok::<u64, SplitOrStealError>((stake_amount * ONE_TOKEN) as u64),
            },
            stake is Ok ==> stake_amount <= MAX_STAKE,
    {
        if vault.mint_remaining == 0 {
            return Err(SplitOrStealError::MintOver);
        }
        match self.check_top_level_instruction() {
            Ok(_) => {},
            Err(error) => {
                return Err(error);
            },
        }
        if stake_amount > MAX_STAKE {
            return Err(SplitOrStealError::StakeAmountTooHigh);
        }
        let converted_stake_amount: u64 = stake_amount as u64 * ONE_TOKEN;
        if self.player_token_amount < converted_stake_amount {
            return Err(SplitOrStealError::InsufficientTokens);
        }
        let last_played_slot: u64 = if profile.is_initialized {
            profile.last_played_slot
        } else {
            0
        };
        if self.current_slot < NUM_SLOTS_COOLDOWN || self.current_slot - NUM_SLOTS_COOLDOWN
            < last_played_slot {
            return Err(SplitOrStealError::PlayedAgainTooSoon);
        }
        if self.slot_hashes_data.len() < SLOT_HASH_END {
            return Err(SplitOrStealError::SlotHashNotFound);
        }
        Ok(converted_stake_amount)
    }

    /// The hash of the latest slot, if the slot hashes are long enough to
    /// hold one.
    pub fn latest_slot_hash(&self) -> (hash: Result<[u8; 32], SplitOrStealError>)
        ensures
            self.slot_hashes_data@.len() < SLOT_HASH_END ==> hash == Err::<
                [u8; 32],
                SplitOrStealError,
            >(SplitOrStealError::SlotHashNotFound),
            self.slot_hashes_data@.len() >= SLOT_HASH_END ==> hash is Ok && hash->Ok_0@
                == self.slot_hash(),
    {
        if self.slot_hashes_data.len() < SLOT_HASH_END {
            return Err(SplitOrStealError::SlotHashNotFound);
        }
        let mut hash: [u8; 32] = [0u8; 32];
        let mut i: usize = 0;
        while i < 32
            invariant
                i <= 32,
                self.slot_hashes_data@.len() >= SLOT_HASH_END,
                forall|j: int| 0 <= j < i ==> hash@[j] == self.slot_hashes_data@[SLOT_HASH_START + j],
            decreases 32 - i,
        {
            hash[i] = self.slot_hashes_data[SLOT_HASH_START + i];
            i = i + 1;
        }
        assert(hash@ =~= self.slot_hash());
        Ok(hash)
    }

    /// The seed of the round against `vault`, if the slot hashes are long
    /// enough to hold a hash.
    pub fn round_seed(&self, vault: &GameVault) -> (seed: Result<u64, SplitOrStealError>)
        ensures
            self.slot_hashes_data@.len() < SLOT_HASH_END ==> seed == Err::<u64, SplitOrStealError>(
                SplitOrStealError::SlotHashNotFound,
            ),
            self.slot_hashes_data@.len() >= SLOT_HASH_END ==> seed == Ok::<u64, SplitOrStealError>(
                self.seed(*vault),
            ),
    {
        match self.latest_slot_hash() {
            Ok(previous_slot_hash) => Ok(
                derive_seed(
                    self.unix_timestamp,
                    &previous_slot_hash,
                    &self.player,
                    vault.mint_remaining,
                ),
            ),
            Err(error) => Err(error),
        }
    }

    /// Whether the round needs a second number, for the split bonus.
    pub fn is_bonus_draw_due(
        &self,
        vault: &GameVault,
        profile: &PlayerProfile,
        choice: Choice,
        random_index: u16,
    ) -> (due: bool)
        requires
            vault.wf(),
            profile.wf(),
            random_index < BUFFER_SIZE,
        ensures
            due == self.bonus_draw_due(*vault, *profile, choice, random_index),
            due ==> vault.num_splits > 0,
    {
        let mut player: PlayerProfile = *profile;
        if !player.is_initialized {
            player.initialize(self.profile_bump);
        }
        let opponent_splits: bool = vault.participation_flags[random_index as usize] == 0;
        proof {
            if opponent_splits {
                lemma_count_flag_positive(vault.participation_flags@, 0, random_index as int);
            }
        }
        opponent_splits && player.passes_burn_rate_check() && choice == Choice::Split
            && player.can_get_split_bonus()
    }

    /// Settles the round with the numbers that were drawn for it.
    pub fn settle(
        &self,
        vault: &mut GameVault,
        profile: &mut PlayerProfile,
        choice: Choice,
        stake_amount: u16,
        random_index: u16,
        bonus_draw: Option<u16>,
    ) -> (result: Result<RoundOutcome, SplitOrStealError>)
        requires
            old(vault).wf(),
            old(profile).wf(),
            random_index < BUFFER_SIZE,
        ensures
            (result, *final(vault), *final(profile)) == self.settlement(
                *old(vault),
                *old(profile),
                choice,
                stake_amount,
                random_index,
                bonus_draw,
            ),
            final(vault).wf(),
            final(profile).wf(),
    {
        let converted_stake_amount: u64 = match self.validate(vault, profile, stake_amount) {
            Ok(stake) => stake,
            Err(error) => {
                return Err(error);
            },
        };
        let mut player: PlayerProfile = *profile;
        let profile_created: bool = !player.is_initialized;
        if profile_created {
            player.initialize(self.profile_bump);
        }
        proof {
            lemma_counts_fill_history(*vault);
            lemma_count_flag_bounded(vault.participation_flags@, 0);
        }
        let opponent_choice: Choice = if vault.participation_flags[random_index as usize] == 0 {
            Choice::Split
        } else {
            Choice::Steal
        };
        let passes_burn_rate_check: bool = player.passes_burn_rate_check();
        let won: bool = opponent_choice == Choice::Split && passes_burn_rate_check;

        let mut got_split_bonus: bool = false;
        let mut burned: u64 = 0;
        let mut paid: u64 = 0;
        if !won {
            burned = converted_stake_amount;
        } else {
            proof {
                lemma_count_flag_positive(vault.participation_flags@, 0, random_index as int);
                lemma_payoffs_exist(*vault, converted_stake_amount);
            }
            let prize: u64 = match choice {
                Choice::Split => {
                    let split_value: u64 = match vault.calculate_split_value(
                        converted_stake_amount,
                    ) {
                        Ok(value) => value,
                        Err(error) => {
                            return Err(error);
                        },
                    };
                    let drew_zero: bool = match bonus_draw {
                        Some(drawn) => drawn == 0,
                        None => false,
                    };
                    if player.can_get_split_bonus() && drew_zero {
                        let split_bonus: u64 = match vault.calculate_split_bonus(
                            converted_stake_amount,
                            split_value,
                        ) {
                            Ok(bonus) => bonus,
                            Err(error) => {
                                return Err(error);
                            },
                        };
                        got_split_bonus = true;
                        split_value + split_bonus
                    } else {
                        split_value
                    }
                },
                Choice::Steal => {
                    match vault.calculate_steal_value(converted_stake_amount) {
                        Ok(value) => value,
                        Err(error) => {
                            return Err(error);
                        },
                    }
                },
            };
            paid = if prize < vault.mint_remaining {
                prize
            } else {
                vault.mint_remaining
            };
        }
        if vault.burned_amount > u64::MAX - burned || player.tokens_burned > u64::MAX - burned
            || player.tokens_gained > u64::MAX - paid || player.num_games == u32::MAX {
            return Err(SplitOrStealError::ArithmeticOverflow);
        }
        let num_splits: u16 = vault.num_splits;

        if stake_amount == 0 {
            if vault.num_zero_stakes < u32::MAX {
                vault.num_zero_stakes = vault.num_zero_stakes + 1;
            }
        } else if stake_amount == 100 {
            if vault.num_hundred_stakes < u32::MAX {
                vault.num_hundred_stakes = vault.num_hundred_stakes + 1;
            }
        }
        vault.burned_amount = vault.burned_amount + burned;
        vault.mint_remaining = vault.mint_remaining - paid;

        player.last_played_slot = self.current_slot;
        player.num_games = player.num_games + 1;
        player.tokens_gained = player.tokens_gained + paid;
        player.tokens_burned = player.tokens_burned + burned;
        if got_split_bonus {
            player.num_split_bonuses = player.num_split_bonuses + 1;
        }
        proof {
            lemma_running_average_between(
                player.average_num_splits as int,
                player.num_games as int,
                num_splits * SCALE,
                0,
                MAX_AVERAGE_NUM_SPLITS as int,
            );
            lemma_running_average_between(
                player.average_stake_amount as int,
                player.num_games as int,
                stake_amount * SCALE,
                0,
                MAX_AVERAGE_STAKE_AMOUNT as int,
            );
        }
        player.update_average_num_splits(num_splits);
        player.update_average_stake_amount(stake_amount);

        // The choice goes into the history last, so that it bears neither
        // on its own payoff nor on the player's averages.
        vault.add_entry(choice);
        *profile = player;

        Ok(
            RoundOutcome {
                stake: converted_stake_amount,
                opponent_index: random_index,
                opponent_choice,
                passed_burn_rate_check: passes_burn_rate_check,
                won,
                got_split_bonus,
                burned,
                paid,
                profile_created,
            },
        )
    }

    /// Plays one round: checks that it may be played, derives the seed,
    /// draws the opponent from the history and, where it is due, the number
    /// for the split bonus, and settles the round with them.
    pub fn handle(
        &self,
        vault: &mut GameVault,
        profile: &mut PlayerProfile,
        choice: Choice,
        stake_amount: u16,
    ) -> (result: Result<RoundOutcome, SplitOrStealError>)
        requires
            old(vault).wf(),
            old(profile).wf(),
        ensures
            (result, *final(vault), *final(profile)) == self.round(
                *old(vault),
                *old(profile),
                choice,
                stake_amount,
            ),
            self.refusal(*old(vault), *old(profile), stake_amount) matches Some(error) ==> result
                == Err::<RoundOutcome, SplitOrStealError>(error) && *final(vault) == *old(vault)
                && *final(profile) == *old(profile),
            final(vault).wf(),
            final(profile).wf(),
    {
        match self.validate(vault, profile, stake_amount) {
            Ok(_) => {},
            Err(error) => {
                return Err(error);
            },
        }
        let seed: u64 = match self.round_seed(vault) {
            Ok(seed) => seed,
            Err(error) => {
                return Err(error);
            },
        };
        let mut rng = seeded_rng(seed);
        let random_index: u16 = draw_below(&mut rng, 1000);
        let bonus_draw: Option<u16> = if self.is_bonus_draw_due(
            vault,
            profile,
            choice,
            random_index,
        ) {
            Some(draw_below(&mut rng, vault.num_splits))
        } else {
            None
        };
        self.settle(vault, profile, choice, stake_amount, random_index, bonus_draw)
    }
}

} // verus!
