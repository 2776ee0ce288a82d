use split_or_steal::state::game_vault::{BUFFER_SIZE, ONE_TOKEN};
use split_or_steal::{Choice, GameVault, SplitOrStealError};

const BUFFER_SIZE_U16: u16 = 1_000;
const DEFAULT_DECIMALS: u8 = 9;

#[test]
fn test_ring_buffer() {
    let mut vault = GameVault {
        creator: [0u8; 32],
        bump: 0,
        token_bump: 0,
        mint_remaining: 1_000_000_000,
        participation_flags: [Choice::Split as u8; 1000],
        current_index: 0,
        num_splits: 1_000,
        num_steals: 0,
        initial_tokens: 0,
        num_zero_stakes: 0,
        num_hundred_stakes: 0,
        burned_amount: 0,
    };

    vault.add_entry(Choice::Steal); // Add steal
    assert_eq!(vault.get_current_entry().unwrap(), Choice::Split); // Current entry is still split because index has moved
    assert_eq!(vault.get_entry_at(0).unwrap(), Choice::Steal); // First entry is steal
    assert_eq!(vault.current_index, 1);

    for i in 1..1000 {
        vault.add_entry(Choice::Steal); // Add steal to fill the buffer
        assert_eq!(vault.get_entry_at(i).unwrap(), Choice::Steal);
    }

    // Adding one more should wrap around to the start
    vault.add_entry(Choice::Split); // Add split
    assert_eq!(vault.get_entry_at(0).unwrap(), Choice::Split);
    assert_eq!(vault.current_index, 1);
}

fn calculate_split_value_float(num_splits: u16, stake_amount: u64) -> f64 {
    let prob_split = num_splits as f64 / 1000.0;
    let cost_to_play = stake_amount as f64 / 1_000_000_000.0;
    let one_minus_prob_split = 1.0 - prob_split;
    let one_minus_prob_split_times_cost = one_minus_prob_split * cost_to_play;
    let numerator = cost_to_play + 1.0 + one_minus_prob_split_times_cost;
    let denominator = prob_split * 2.0;
    numerator / denominator
}

fn calculate_steal_value_float(num_splits: u16, stake_amount: u64) -> f64 {
    2.0 * calculate_split_value_float(num_splits, stake_amount)
}

#[test]
fn test_split_value_comparison() {
    const TOLERANCE: u64 = 1; // Define the acceptable difference

    for num_splits in 1..=1000 {
        for stake_amount_base in 1..=100 {
            let game_vault = GameVault {
                creator: [0u8; 32],
                bump: 0,
                token_bump: 0,
                mint_remaining: 0,
                participation_flags: [0; 1000],
                current_index: 0,
                num_splits,
                num_steals: BUFFER_SIZE_U16 - num_splits,
                initial_tokens: 0,
                num_zero_stakes: 0,
                num_hundred_stakes: 0,
                burned_amount: 0,
            };

            let stake_amount: u64 = stake_amount_base * u64::pow(10, DEFAULT_DECIMALS.into()); // 1 to 100 tokens with 9 decimal places

            // Calculate using integer method
            let split_value_int = game_vault.calculate_split_value(stake_amount).unwrap();

            // Calculate using float method
            let split_value_float = calculate_split_value_float(game_vault.num_splits, stake_amount);
            let split_value_float_scaled = (split_value_float * 1_000_000_000.0).round() as u64;

            // Assert that the values are close enough
            assert!(
                (split_value_int as i64 - split_value_float_scaled as i64).abs() <= TOLERANCE as i64,
                "Values do not match for num_splits = {} and stake_amount = {}: int = {}, float_scaled = {}",
                num_splits,
                stake_amount,
                split_value_int,
                split_value_float_scaled
            );
        }
    }
}

#[test]
fn test_steal_value_comparison() {
    const TOLERANCE: u64 = 2; // Define the acceptable difference

    for num_splits in 1..=1000 {
        for stake_amount_base in 1..=100 {
            let game_vault = GameVault {
                creator: [0u8; 32],
                bump: 0,
                token_bump: 0,
                mint_remaining: 0,
                participation_flags: [0; 1000],
                current_index: 0,
                num_splits,
                num_steals: BUFFER_SIZE_U16 - num_splits,
                num_zero_stakes: 0,
                num_hundred_stakes: 0,
                initial_tokens: 0,
                burned_amount: 0,
            };

            let stake_amount: u64 = stake_amount_base * 1_000_000_000; // 1 to 100 tokens with 9 decimal places

            // Calculate using integer method
            let steal_value_int = game_vault.calculate_steal_value(stake_amount).unwrap();

            // Calculate using float method
            let steal_value_float = calculate_steal_value_float(game_vault.num_splits, stake_amount);
            let steal_value_float_scaled = (steal_value_float * 1_000_000_000.0).round() as u64;

            // Assert that the values are close enough
            assert!(
                (steal_value_int as i64 - steal_value_float_scaled as i64).abs() <= TOLERANCE as i64,
                "Values do not match for num_splits = {} and stake_amount = {}: int = {}, float_scaled = {}",
                num_splits,
                stake_amount,
                steal_value_int,
                steal_value_float_scaled
            );
        }
    }
}

fn calculate_split_bonus_float(
    num_splits: u16,
    stake_amount: u64,
    split_value: u64,
    const_split_bonus_prob: f64,
) -> f64 {
    let prob_split = num_splits as f64 / 1000.0;
    let split_bonus_prob = const_split_bonus_prob / prob_split;
    let cost_to_play = stake_amount as f64 / 1_000_000_000.0;
    let split_value_float = split_value as f64 / 1_000_000_000.0;

    let payoff_steal_split = 2.0 * split_value_float;
    let payoff_steal_steal = -cost_to_play;
    let payoff_split_split = split_value_float;
    let payoff_split_steal = -cost_to_play;

    ((prob_split * payoff_steal_split + (1.0 - prob_split) * payoff_steal_steal)
        - (prob_split * payoff_split_split + (1.0 - prob_split) * payoff_split_steal))
        / (split_bonus_prob * prob_split)
}

#[test]
fn test_split_bonus_comparison() {
    const TOLERANCE: u64 = 1; // Define the acceptable difference
    let const_split_bonus_prob: f64 = 0.001; // Example split bonus probability

    for num_splits in 1..=1000 {
        for stake_amount_base in 1..=100 {
            let game_vault = GameVault {
                creator: [0u8; 32],
                bump: 0,
                token_bump: 0,
                mint_remaining: 0,
                participation_flags: [0; 1000],
                current_index: 0,
                num_splits,
                num_steals: 1000 - num_splits,
                num_zero_stakes: 0,
                num_hundred_stakes: 0,
                initial_tokens: 0,
                burned_amount: 0,
            };

            let stake_amount: u64 = stake_amount_base * 1_000_000_000; // 1 to 100 tokens with 9 decimal places

            // Calculate split value using integer method
            let split_value_int = game_vault.calculate_split_value(stake_amount).unwrap();

            // Calculate split bonus using integer method
            let split_bonus_int = game_vault
                .calculate_split_bonus(stake_amount, split_value_int)
                .unwrap();

            // Calculate split bonus using float method
            let split_bonus_float = calculate_split_bonus_float(
                num_splits,
                stake_amount,
                split_value_int,
                const_split_bonus_prob,
            );
            let split_bonus_float_scaled = (split_bonus_float * 1_000_000_000.0).round() as u64;

            // Assert that the values are close enough
            assert!(
                (split_bonus_int as i64 - split_bonus_float_scaled as i64).abs() <= TOLERANCE as i64,
                "Values do not match for num_splits = {} and stake_amount = {}: int = {}, float_scaled = {}",
                num_splits,
                stake_amount,
                split_bonus_int,
                split_bonus_float_scaled
            );
        }
    }
}

fn opened_vault(initial_tokens: u64) -> GameVault {
    let mut vault = GameVault {
        creator: [9u8; 32],
        bump: 0,
        token_bump: 0,
        mint_remaining: 5,
        participation_flags: [1; 1000],
        current_index: 77,
        num_splits: 3,
        num_steals: 4,
        initial_tokens: 1,
        num_zero_stakes: 8,
        num_hundred_stakes: 9,
        burned_amount: 10,
    };
    vault.initialize([1u8; 32], initial_tokens, 254, 253);
    vault
}

fn vault_with_counts(num_splits: u16, num_steals: u16) -> GameVault {
    let mut vault = opened_vault(0);
    vault.num_splits = num_splits;
    vault.num_steals = num_steals;
    vault
}

#[test]
fn initialize_opens_an_all_split_vault() {
    let vault = opened_vault(1_000_000_000_000_000_000);
    assert_eq!(
        vault,
        GameVault {
            creator: [1u8; 32],
            bump: 254,
            token_bump: 253,
            initial_tokens: 1_000_000_000_000_000_000,
            mint_remaining: 1_000_000_000_000_000_000,
            burned_amount: 0,
            participation_flags: [0; 1000],
            current_index: 0,
            num_zero_stakes: 0,
            num_hundred_stakes: 0,
            num_splits: 1000,
            num_steals: 0,
        }
    );
    assert!(vault.is_wf());
    assert_eq!(vault.counts(), (1000, 0));
}

#[test]
fn counts_always_fill_the_history() {
    let mut vault = opened_vault(10);
    let mut state: u32 = 12345;
    for round in 0..2500u32 {
        state = state.wrapping_mul(1_103_515_245).wrapping_add(12_345);
        let entry = if (state >> 16) % 3 == 0 { Choice::Steal } else { Choice::Split };
        vault.add_entry(entry);
        let (num_splits, num_steals) = vault.counts();
        assert_eq!(num_splits as usize + num_steals as usize, BUFFER_SIZE);
        assert_eq!(vault.current_index as u32, (round + 1) % 1000);
    }
    assert!(vault.is_wf());
    let steals = vault.participation_flags.iter().filter(|flag| **flag == 1).count();
    assert_eq!(vault.num_steals as usize, steals);
    assert_eq!(vault.mint_remaining, 10);
}

#[test]
fn add_entry_moves_one_count_to_the_other() {
    let mut vault = opened_vault(10);
    vault.add_entry(Choice::Steal);
    assert_eq!(vault.counts(), (999, 1));
    assert_eq!(vault.participation_flags[0], 1);
    assert_eq!(vault.participation_flags[1], 0);
    vault.add_entry(Choice::Split);
    assert_eq!(vault.counts(), (999, 1));
    assert_eq!(vault.current_index, 2);
}

#[test]
fn the_cursor_wraps_from_the_last_slot_to_the_first() {
    let mut vault = opened_vault(10);
    vault.current_index = 999;
    vault.add_entry(Choice::Steal);
    assert_eq!(vault.current_index, 0);
    assert_eq!(vault.get_entry_at(999), Ok(Choice::Steal));
    assert_eq!(vault.get_current_entry(), Ok(Choice::Split));
}

#[test]
fn a_corrupt_slot_is_an_invariant_violation() {
    let mut vault = opened_vault(10);
    vault.participation_flags[5] = 2;
    vault.current_index = 5;
    assert_eq!(vault.get_entry_at(5), Err(SplitOrStealError::InvariantViolation));
    assert_eq!(vault.get_current_entry(), Err(SplitOrStealError::InvariantViolation));
    assert_eq!(vault.get_entry_at(4), Ok(Choice::Split));
    assert!(!vault.is_wf());
}

#[test]
fn is_wf_tells_counts_that_do_not_match_the_slots() {
    let mut vault = opened_vault(10);
    vault.num_splits = 999;
    vault.num_steals = 1;
    assert!(!vault.is_wf());
    vault.participation_flags[123] = 1;
    assert!(vault.is_wf());
    vault.current_index = 1000;
    assert!(!vault.is_wf());
}

#[test]
fn split_value_exact_values() {
    // (stake + 1 + (1 - p) * stake) / (2 * p)
    assert_eq!(vault_with_counts(1000, 0).calculate_split_value(ONE_TOKEN), Ok(1_000_000_000));
    assert_eq!(
        vault_with_counts(1, 999).calculate_split_value(100 * ONE_TOKEN),
        Ok(100_450_000_000_000)
    );
    assert_eq!(vault_with_counts(500, 500).calculate_split_value(0), Ok(1_000_000_000));
    assert_eq!(
        vault_with_counts(500, 500).calculate_split_value(2 * ONE_TOKEN),
        Ok(4_000_000_000)
    );
    // (1000 * 1 + 1000 * 1e9 + 997 * 1) / 6 rounds down
    assert_eq!(vault_with_counts(3, 997).calculate_split_value(1), Ok(166_666_666_999));
}

#[test]
fn steal_value_is_twice_the_split_value() {
    for num_splits in [1u16, 3, 250, 999, 1000] {
        let vault = vault_with_counts(num_splits, 1000 - num_splits);
        for stake in [0u64, 1, 999_999_999, 37 * ONE_TOKEN, 100 * ONE_TOKEN] {
            let split_value = vault.calculate_split_value(stake).unwrap();
            assert_eq!(vault.calculate_steal_value(stake), Ok(2 * split_value));
        }
    }
}

#[test]
fn split_bonus_is_the_split_value_times_the_splits() {
    let vault = vault_with_counts(250, 750);
    assert_eq!(vault.calculate_split_bonus(ONE_TOKEN, 5_500_000_000), Ok(1_375_000_000_000));
    // Also where the steals would cost more than the splits bring.
    assert_eq!(vault.calculate_split_bonus(100 * ONE_TOKEN, 7), Ok(1_750));
    assert_eq!(vault.calculate_split_bonus(0, 0), Ok(0));
}

#[test]
fn payoffs_are_nothing_without_a_split() {
    let vault = vault_with_counts(0, 1000);
    assert_eq!(vault.calculate_split_value(ONE_TOKEN), Ok(0));
    assert_eq!(vault.calculate_steal_value(ONE_TOKEN), Ok(0));
    assert_eq!(vault.calculate_split_bonus(ONE_TOKEN, 5), Ok(0));
    // The check of the counts comes second.
    let vault = vault_with_counts(0, 17);
    assert_eq!(vault.calculate_split_value(ONE_TOKEN), Ok(0));
    assert_eq!(vault.calculate_split_bonus(ONE_TOKEN, 5), Ok(0));
}

#[test]
fn payoffs_refuse_counts_that_do_not_fill_the_history() {
    for (num_splits, num_steals) in [(500u16, 400u16), (1, 1000), (1000, 1), (40_000, 40_000)] {
        let vault = vault_with_counts(num_splits, num_steals);
        assert_eq!(
            vault.calculate_split_value(ONE_TOKEN),
            Err(SplitOrStealError::InvariantViolation)
        );
        assert_eq!(
            vault.calculate_steal_value(ONE_TOKEN),
            Err(SplitOrStealError::InvariantViolation)
        );
        assert_eq!(
            vault.calculate_split_bonus(ONE_TOKEN, 1),
            Err(SplitOrStealError::InvariantViolation)
        );
    }
}

#[test]
fn payoffs_that_do_not_fit_are_an_overflow() {
    let vault = vault_with_counts(1, 999);
    assert_eq!(
        vault.calculate_split_value(u64::MAX),
        Err(SplitOrStealError::ArithmeticOverflow)
    );
    assert_eq!(
        vault.calculate_steal_value(u64::MAX),
        Err(SplitOrStealError::ArithmeticOverflow)
    );
    let vault = vault_with_counts(1000, 0);
    // 2 * u64::MAX / 2 fits, twice as much does not.
    assert_eq!(vault.calculate_split_value(u64::MAX - 1), Ok(u64::MAX / 2 + 500_000_000));
    assert_eq!(
        vault.calculate_steal_value(u64::MAX - 1),
        Err(SplitOrStealError::ArithmeticOverflow)
    );
    assert_eq!(
        vault.calculate_split_bonus(0, u64::MAX),
        Err(SplitOrStealError::ArithmeticOverflow)
    );
    assert_eq!(
        vault_with_counts(1, 999).calculate_split_bonus(u64::MAX, u64::MAX),
        Ok(u64::MAX)
    );
}

#[test]
fn reading_twice_gives_the_same() {
    let mut vault = opened_vault(10);
    vault.add_entry(Choice::Steal);
    for index in [0u16, 1, 999] {
        assert_eq!(vault.get_entry_at(index), vault.get_entry_at(index));
    }
    assert_eq!(vault.get_current_entry(), vault.get_current_entry());
    assert_eq!(vault.counts(), vault.counts());
    assert_eq!(vault.calculate_split_value(ONE_TOKEN), vault.calculate_split_value(ONE_TOKEN));
}

#[test]
fn choices_are_stored_as_zero_and_one() {
    assert_eq!(Choice::Split.to_flag(), 0);
    assert_eq!(Choice::Steal.to_flag(), 1);
}
