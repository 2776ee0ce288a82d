use crate::instructions::play_game::PlayGame;
use crate::state::game_vault::choice_of_flag;
use crate::state::game_vault::count_flag;
use crate::state::game_vault::lemma_count_flag_bounded;
use crate::state::game_vault::lemma_count_flag_positive;
use crate::state::game_vault::Choice;
use crate::state::game_vault::GameVault;
use crate::state::game_vault::BUFFER_SIZE;
use crate::state::game_vault::ONE_TOKEN;
use crate::state::player_profile::PlayerProfile;
use crate::state::vault_laws::lemma_counts_fill_history;
use crate::state::vault_laws::lemma_entry_keeps_sound;
use crate::state::vault_laws::lemma_payoffs_exist;
use vstd::prelude::*;

verus! {

/// A byte that fills a sequence stands at each of its indices.
pub proof fn lemma_count_flag_full(flags: Seq<u8>, flag: u8, index: int)
    requires
        count_flag(flags, flag) == flags.len(),
        0 <= index < flags.len(),
    ensures
        flags[index] == flag,
    decreases flags.len(),
{
    lemma_count_flag_bounded(flags.drop_last(), flag);
    if index < flags.len() - 1 {
        lemma_count_flag_full(flags.drop_last(), flag, index);
    }
}

/// A round that is settled moves tokens one way only. The winner is paid
/// out of what the vault has left, and no more than that; the loser burns
/// the stake and is paid nothing. The history stays sound, one record
/// further on, and a vault that never held more than it was opened with
/// still does not.
pub proof fn lemma_round_moves_tokens_one_way(
    round: PlayGame,
    vault: GameVault,
    profile: PlayerProfile,
    choice: Choice,
    stake_amount: u16,
    random_index: u16,
    bonus_draw: Option<u16>,
)
    requires
        vault.wf(),
        profile.wf(),
        random_index < BUFFER_SIZE,
        round.settlement(vault, profile, choice, stake_amount, random_index, bonus_draw).0 is Ok,
    ensures
        ({
            let settled = round.settlement(
                vault,
                profile,
                choice,
                stake_amount,
                random_index,
                bonus_draw,
            );
            let outcome = settled.0->Ok_0;
            let after = settled.1;
            &&& outcome.stake == stake_amount * ONE_TOKEN
            &&& outcome.won ==> outcome.burned == 0 && outcome.paid <= vault.mint_remaining
            &&& !outcome.won ==> outcome.paid == 0 && outcome.burned == outcome.stake
            &&& after.mint_remaining == vault.mint_remaining - outcome.paid
            &&& after.burned_amount == vault.burned_amount + outcome.burned
            &&& vault.mint_remaining <= vault.initial_tokens ==> after.mint_remaining
                <= after.initial_tokens
            &&& after.wf()
            &&& after.num_splits + after.num_steals == BUFFER_SIZE
            &&& after.current_index == (vault.current_index + 1) % 1000
            &&& choice_of_flag(after.participation_flags@[vault.current_index as int]) == Some(
                choice,
            )
        }),
{
    let settled = round.settlement(vault, profile, choice, stake_amount, random_index, bonus_draw);
    let outcome = settled.0->Ok_0;
    lemma_counts_fill_history(vault);
    if outcome.won {
        lemma_count_flag_positive(vault.participation_flags@, 0, random_index as int);
        lemma_payoffs_exist(vault, outcome.stake);
    }
    let counted = GameVault {
        mint_remaining: (vault.mint_remaining - outcome.paid) as u64,
        burned_amount: (vault.burned_amount + outcome.burned) as u64,
        num_zero_stakes: settled.1.num_zero_stakes,
        num_hundred_stakes: settled.1.num_hundred_stakes,
        ..vault
    };
    assert(counted.wf());
    assert(settled.1 == counted.after_entry(choice));
    lemma_entry_keeps_sound(counted, choice);
    lemma_counts_fill_history(settled.1);
}

/// Against a history of splits only, the opponent splits whatever is drawn.
/// A player whose burn rate is believable and who steals is then paid the
/// steal value of the stake, or what the vault has left if that is less,
/// and the history holds one split less and one steal more.
pub proof fn lemma_steal_against_splits_only(
    round: PlayGame,
    vault: GameVault,
    profile: PlayerProfile,
    stake_amount: u16,
    random_index: u16,
    bonus_draw: Option<u16>,
)
    requires
        vault.wf(),
        profile.wf(),
        vault.num_splits == BUFFER_SIZE,
        random_index < BUFFER_SIZE,
        round.entering(profile).burn_rate_believable(),
        round.settlement(vault, profile, Choice::Steal, stake_amount, random_index, bonus_draw).0
            is Ok,
    ensures
        ({
            let settled = round.settlement(
                vault,
                profile,
                Choice::Steal,
                stake_amount,
                random_index,
                bonus_draw,
            );
            let outcome = settled.0->Ok_0;
            let after = settled.1;
            let steal_value = vault.steal_value((stake_amount * ONE_TOKEN) as u64);
            &&& outcome.opponent_choice == Choice::Split
            &&& outcome.won
            &&& !outcome.got_split_bonus
            &&& steal_value is Ok
            &&& outcome.paid == if steal_value->Ok_0 < vault.mint_remaining {
                steal_value->Ok_0
            } else {
                vault.mint_remaining
            }
            &&& after.num_splits == vault.num_splits - 1
            &&& after.num_steals == vault.num_steals + 1
        }),
{
    lemma_count_flag_full(vault.participation_flags@, 0, random_index as int);
    lemma_count_flag_full(vault.participation_flags@, 0, vault.current_index as int);
    lemma_counts_fill_history(vault);
    lemma_payoffs_exist(vault, (stake_amount * ONE_TOKEN) as u64);
}

/// A round that is refused, or whose totals would not fit, changes neither
/// the vault nor the profile.
pub proof fn lemma_failed_round_changes_nothing(
    round: PlayGame,
    vault: GameVault,
    profile: PlayerProfile,
    choice: Choice,
    stake_amount: u16,
    random_index: u16,
    bonus_draw: Option<u16>,
)
    requires
        round.settlement(vault, profile, choice, stake_amount, random_index, bonus_draw).0 is Err,
    ensures
        round.settlement(vault, profile, choice, stake_amount, random_index, bonus_draw).1 == vault,
        round.settlement(vault, profile, choice, stake_amount, random_index, bonus_draw).2
            == profile,
{
}

} // verus!
