use crate::state::game_vault::amount_in_u64;
use crate::state::game_vault::read_flag;
use crate::state::game_vault::split_value_exact;
use crate::state::game_vault::Choice;
use crate::state::game_vault::GameVault;
use crate::state::game_vault::lemma_count_flag_bounded;
use crate::state::game_vault::lemma_count_flag_positive;
use crate::state::game_vault::lemma_count_flag_update;
use crate::state::game_vault::lemma_count_flag_zeros;
use crate::state::game_vault::lemma_count_flags_sum;
use crate::state::game_vault::BUFFER_SIZE;
use crate::state::game_vault::ONE_TOKEN;
use vstd::arithmetic::div_mod::lemma_fundamental_div_mod;
use vstd::arithmetic::div_mod::lemma_mod_bound;
use vstd::prelude::*;

verus! {

/// In a sound history the two counts add up to the number of slots.
pub proof fn lemma_counts_fill_history(vault: GameVault)
    requires
        vault.wf(),
    ensures
        vault.num_splits + vault.num_steals == BUFFER_SIZE,
{
    lemma_count_flags_sum(vault.participation_flags@);
}

/// A vault is sound as it is opened.
pub proof fn lemma_opened_is_sound(creator: [u8; 32], initial_tokens: u64, bump: u8, token_bump: u8)
    ensures
        GameVault::opened(creator, initial_tokens, bump, token_bump).wf(),
{
    let vault = GameVault::opened(creator, initial_tokens, bump, token_bump);
    lemma_count_flag_zeros(vault.participation_flags@, 0);
    lemma_count_flag_zeros(vault.participation_flags@, 1);
}

/// Recording a choice keeps a sound history sound. It writes the slot under
/// the cursor and no other, and moves the cursor on by one, from the last
/// slot to the first.
pub proof fn lemma_entry_keeps_sound(vault: GameVault, entry: Choice)
    requires
        vault.wf(),
    ensures
        vault.after_entry(entry).wf(),
        vault.after_entry(entry).participation_flags@ == vault.participation_flags@.update(
            vault.current_index as int,
            entry.flag(),
        ),
        vault.after_entry(entry).current_index == (vault.current_index + 1) % 1000,
{
    let flags = vault.participation_flags@;
    let index = vault.current_index as int;
    lemma_count_flag_positive(flags, flags[index], index);
    lemma_count_flag_bounded(flags, 0);
    lemma_count_flag_bounded(flags, 1);
    lemma_count_flags_sum(flags);
    lemma_count_flag_update(flags, index, entry.flag(), 0);
    lemma_count_flag_update(flags, index, entry.flag(), 1);
}

/// Whatever is recorded after a vault is opened, and however much of it,
/// the two counts add up to the number of slots.
pub proof fn lemma_counts_fill_history_always(
    creator: [u8; 32],
    initial_tokens: u64,
    bump: u8,
    token_bump: u8,
    entries: Seq<Choice>,
)
    ensures
        ({
            let vault = GameVault::opened(creator, initial_tokens, bump, token_bump).after_entries(
                entries,
            );
            vault.wf() && vault.num_splits + vault.num_steals == BUFFER_SIZE
        }),
{
    let opened = GameVault::opened(creator, initial_tokens, bump, token_bump);
    lemma_opened_is_sound(creator, initial_tokens, bump, token_bump);
    lemma_ring(opened, entries);
    lemma_counts_fill_history(opened.after_entries(entries));
}

/// Walking a ring of a thousand slots: one step after `steps - 1` steps is
/// `steps` steps; two walks of different lengths that differ by less than a
/// full turn end in different slots; and a slot that lies `steps` or more
/// ahead of the start is not reached by the last of `steps` steps.
proof fn lemma_ring_walk(start: int, steps: int, other: int, slot: int)
    requires
        0 <= start < 1000,
        1 <= steps,
    ensures
        ((start + steps - 1) % 1000 + 1) % 1000 == (start + steps) % 1000,
        0 <= (start + steps - 1) % 1000 < 1000,
        steps - 1000 <= other < steps - 1 ==> (start + other) % 1000 != (start + steps - 1) % 1000,
        0 <= slot < 1000 && (slot - start) % 1000 >= steps ==> slot != (start + steps - 1) % 1000,
        0 <= slot < 1000 ==> (start + (slot - start) % 1000) % 1000 == slot,
        0 <= slot < 1000 ==> 0 <= (slot - start) % 1000 < 1000,
{
}

/// The history is a ring. After any number of records the cursor stands that
/// many slots further on, counted round the ring; each of the last thousand
/// records is found in the slot that the cursor pointed to when it was made;
/// a slot that the cursor has not passed holds what it held; and nothing
/// but the history has changed.
pub proof fn lemma_ring(vault: GameVault, entries: Seq<Choice>)
    requires
        vault.wf(),
    ensures
        vault.after_entries(entries).wf(),
        vault.after_entries(entries).current_index == (vault.current_index + entries.len()) % 1000,
        forall|j: int|
            0 <= j < entries.len() && entries.len() - 1000 <= j ==> vault.after_entries(
                entries,
            ).participation_flags@[(vault.current_index + j) % 1000] == (#[trigger] entries[j]).flag(),
        forall|slot: int|
            0 <= slot < 1000 && (slot - vault.current_index) % 1000 >= entries.len()
                ==> #[trigger] vault.after_entries(entries).participation_flags@[slot]
                == vault.participation_flags@[slot],
        vault.after_entries(entries).mint_remaining == vault.mint_remaining,
        vault.after_entries(entries).burned_amount == vault.burned_amount,
        vault.after_entries(entries).initial_tokens == vault.initial_tokens,
        vault.after_entries(entries).creator == vault.creator,
        vault.after_entries(entries).bump == vault.bump,
        vault.after_entries(entries).token_bump == vault.token_bump,
        vault.after_entries(entries).num_zero_stakes == vault.num_zero_stakes,
        vault.after_entries(entries).num_hundred_stakes == vault.num_hundred_stakes,
    decreases entries.len(),
{
    if entries.len() > 0 {
        let earlier = entries.drop_last();
        let before = vault.after_entries(earlier);
        let after = vault.after_entries(entries);
        let start = vault.current_index as int;
        let steps = entries.len() as int;
        lemma_ring(vault, earlier);
        lemma_entry_keeps_sound(before, entries.last());
        assert(after == before.after_entry(entries.last()));
        let written = before.current_index as int;
        assert(written == (start + steps - 1) % 1000);
        assert(after.current_index == (start + steps) % 1000) by {
            lemma_ring_walk(start, steps, 0, 0);
        }
        assert(after.participation_flags@ == before.participation_flags@.update(
            written,
            entries.last().flag(),
        ));
        assert forall|j: int| 0 <= j < steps && steps - 1000 <= j implies
            after.participation_flags@[(start + j) % 1000] == (#[trigger] entries[j]).flag() by {
            lemma_ring_walk(start, steps, j, 0);
            if j < steps - 1 {
                assert(earlier[j] == entries[j]);
                assert(before.participation_flags@[(start + j) % 1000] == earlier[j].flag());
            }
        }
        assert forall|slot: int|
            0 <= slot < 1000 && (slot - start) % 1000
                >= steps implies #[trigger] after.participation_flags@[slot]
            == vault.participation_flags@[slot] by {
            lemma_ring_walk(start, steps, 0, slot);
            assert(before.participation_flags@[slot] == vault.participation_flags@[slot]);
        }
    }
}

/// After exactly a thousand records the cursor is back where it was, so the
/// record after them overwrites the slot that the first of them wrote.
pub proof fn lemma_full_turn(vault: GameVault, entries: Seq<Choice>)
    requires
        vault.wf(),
        entries.len() == BUFFER_SIZE,
    ensures
        vault.after_entries(entries).current_index == vault.current_index,
        forall|slot: int|
            0 <= slot < 1000 ==> #[trigger] vault.after_entries(entries).participation_flags@[slot]
                == entries[(slot - vault.current_index) % 1000].flag(),
{
    let after = vault.after_entries(entries);
    let start = vault.current_index as int;
    assert(after.current_index == start) by {
        lemma_ring(vault, entries);
    }
    assert forall|slot: int| 0 <= slot < 1000 implies #[trigger] after.participation_flags@[slot]
        == entries[(slot - start) % 1000].flag() by {
        let j = (slot - start) % 1000;
        assert(0 <= j < 1000 && (start + j) % 1000 == slot) by {
            lemma_ring_walk(start, 1, 0, slot);
        }
        assert(after.participation_flags@[(start + j) % 1000] == entries[j].flag()) by {
            lemma_ring(vault, entries);
        }
    }
}

/// What is asked of a vault depends on the vault alone: asked again of a
/// vault that has not changed, a slot reads the same, the counts are the
/// same, and so are the payoffs.
pub proof fn lemma_vault_queries_repeat(
    first: GameVault,
    second: GameVault,
    index: u16,
    stake_amount: u64,
    split_value: u64,
)
    requires
        first == second,
    ensures
        read_flag(first.participation_flags@[index as int]) == read_flag(
            second.participation_flags@[index as int],
        ),
        (first.num_splits, first.num_steals) == (second.num_splits, second.num_steals),
        first.split_value(stake_amount) == second.split_value(stake_amount),
        first.steal_value(stake_amount) == second.steal_value(stake_amount),
        first.split_bonus(stake_amount, split_value) == second.split_bonus(
            stake_amount,
            split_value,
        ),
{
}

/// The split value is the real-valued formula rounded down to a whole unit:
/// it never exceeds the formula and falls short of it by less than one unit.
pub proof fn lemma_split_value_rounds_down(num_splits: int, stake: int)
    requires
        1 <= num_splits <= 1000,
        0 <= stake,
    ensures
        ({
            let value = split_value_exact(num_splits, stake);
            let numerator = 1000 * stake + 1000 * ONE_TOKEN + (1000 - num_splits) * stake;
            &&& 0 <= value
            &&& (2 * num_splits) * value <= numerator
            &&& numerator < (2 * num_splits) * (value + 1)
        }),
{
    let numerator = 1000 * stake + 1000 * ONE_TOKEN + (1000 - num_splits) * stake;
    let denominator = 2 * num_splits;
    let value = numerator / denominator;
    assert(0 <= (1000 - num_splits) * stake) by (nonlinear_arith)
        requires
            0 <= 1000 - num_splits,
            0 <= stake,
    ;
    lemma_fundamental_div_mod(numerator, denominator);
    lemma_mod_bound(numerator, denominator);
    assert(denominator * (value + 1) == denominator * value + denominator) by (nonlinear_arith);
    assert(0 <= value) by (nonlinear_arith)
        requires
            denominator > 0,
            denominator * value + numerator % denominator == numerator,
            numerator % denominator < denominator,
            numerator >= 0,
    ;
}

/// With a stake of at most a hundred tokens the split value is at most
/// 100_500 tokens, whatever the history holds.
pub proof fn lemma_split_value_bounded(num_splits: int, stake: int)
    requires
        1 <= num_splits <= 1000,
        0 <= stake <= 100 * ONE_TOKEN,
    ensures
        0 <= split_value_exact(num_splits, stake) <= 100_500 * ONE_TOKEN,
{
    lemma_split_value_rounds_down(num_splits, stake);
    let value = split_value_exact(num_splits, stake);
    let numerator = 1000 * stake + 1000 * ONE_TOKEN + (1000 - num_splits) * stake;
    assert((1000 - num_splits) * stake <= 999 * (100 * ONE_TOKEN)) by (nonlinear_arith)
        requires
            0 <= 1000 - num_splits <= 999,
            0 <= stake <= 100 * ONE_TOKEN,
    ;
    assert(value <= numerator) by (nonlinear_arith)
        requires
            (2 * num_splits) * value <= numerator,
            num_splits >= 1,
            value >= 0,
    ;
    assert(2 * value <= numerator) by (nonlinear_arith)
        requires
            (2 * num_splits) * value <= numerator,
            num_splits >= 1,
            value >= 0,
    ;
}

/// The steal value is twice the split value, to the unit.
pub proof fn lemma_steal_is_twice_split(vault: GameVault, stake_amount: u64)
    requires
        vault.split_value(stake_amount) is Ok,
    ensures
        vault.steal_value(stake_amount) == amount_in_u64(
            2 * vault.split_value(stake_amount)->Ok_0,
        ),
{
}

/// The split bonus is the split value weighted by the number of splits:
/// what the history's steals cost is the same for both choices and drops
/// out of the difference.
pub proof fn lemma_split_bonus_is_weighted_value(
    vault: GameVault,
    stake_amount: u64,
    split_value: u64,
)
    requires
        vault.num_splits > 0,
        vault.num_splits + vault.num_steals == BUFFER_SIZE,
    ensures
        vault.split_bonus(stake_amount, split_value) == amount_in_u64(
            vault.num_splits * split_value,
        ),
{
    assert(vault.num_splits * (2 * split_value) == 2 * (vault.num_splits * split_value))
        by (nonlinear_arith);
}

/// On a sound history in which a split is left, every stake of at most a
/// hundred tokens has a split value, a steal value and a split bonus, and
/// the split value and its bonus together stay below 101 million tokens.
pub proof fn lemma_payoffs_exist(vault: GameVault, stake_amount: u64)
    requires
        vault.num_splits > 0,
        vault.num_splits + vault.num_steals == BUFFER_SIZE,
        stake_amount <= 100 * ONE_TOKEN,
    ensures
        vault.split_value(stake_amount) is Ok,
        vault.steal_value(stake_amount) is Ok,
        vault.split_value(stake_amount)->Ok_0 <= 100_500 * ONE_TOKEN,
        vault.steal_value(stake_amount)->Ok_0 == 2 * vault.split_value(stake_amount)->Ok_0,
        vault.split_bonus(stake_amount, vault.split_value(stake_amount)->Ok_0) is Ok,
        vault.split_bonus(stake_amount, vault.split_value(stake_amount)->Ok_0)->Ok_0
            == vault.num_splits * vault.split_value(stake_amount)->Ok_0,
        vault.split_value(stake_amount)->Ok_0 + vault.split_bonus(
            stake_amount,
            vault.split_value(stake_amount)->Ok_0,
        )->Ok_0 <= 101_000_000 * ONE_TOKEN,
{
    lemma_split_value_bounded(vault.num_splits as int, stake_amount as int);
    let value = vault.split_value(stake_amount)->Ok_0;
    lemma_split_bonus_is_weighted_value(vault, stake_amount, value);
    assert(vault.num_splits * value <= 1000 * (100_500 * ONE_TOKEN)) by (nonlinear_arith)
        requires
            0 < vault.num_splits <= 1000,
            0 <= value <= 100_500 * ONE_TOKEN,
    ;
}

} // verus!
