use split_or_steal::instructions::initialize_vault::DEFAULT_DECIMALS;
use split_or_steal::{GameVault, InitializeVault, SplitOrStealError};

const SUPPLY: u64 = 1_000_000_000_000_000_000;

fn blank_vault() -> GameVault {
    GameVault {
        creator: [0u8; 32],
        bump: 0,
        token_bump: 0,
        initial_tokens: 0,
        mint_remaining: 0,
        burned_amount: 0,
        participation_flags: [0; 1000],
        current_index: 0,
        num_zero_stakes: 0,
        num_hundred_stakes: 0,
        num_splits: 0,
        num_steals: 0,
    }
}

fn opening() -> InitializeVault {
    InitializeVault {
        creator: [4u8; 32],
        creator_token_amount: SUPPLY,
        mint_decimals: 9,
        mint_supply: SUPPLY,
        mint_authority: None,
        freeze_authority: None,
        vault_bump: 251,
        vault_token_bump: 252,
    }
}

#[test]
fn opening_the_vault_hands_over_the_whole_supply() {
    let mut vault = blank_vault();
    assert_eq!(DEFAULT_DECIMALS, 9);
    assert_eq!(opening().handle(&mut vault, SUPPLY), Ok(SUPPLY));
    assert_eq!(
        vault,
        GameVault {
            creator: [4u8; 32],
            bump: 251,
            token_bump: 252,
            initial_tokens: SUPPLY,
            mint_remaining: SUPPLY,
            burned_amount: 0,
            participation_flags: [0; 1000],
            current_index: 0,
            num_zero_stakes: 0,
            num_hundred_stakes: 0,
            num_splits: 1000,
            num_steals: 0,
        }
    );
    assert!(vault.is_wf());
}

fn assert_not_opened(opening: InitializeVault, token_amount: u64, error: SplitOrStealError) {
    let mut vault = blank_vault();
    assert_eq!(opening.handle(&mut vault, token_amount), Err(error));
    assert_eq!(vault, blank_vault());
}

#[test]
fn opening_checks_the_mint_in_order() {
    let mut wrong = InitializeVault {
        creator: [4u8; 32],
        creator_token_amount: 5,
        mint_decimals: 6,
        mint_supply: 7,
        mint_authority: Some([1u8; 32]),
        freeze_authority: Some([2u8; 32]),
        vault_bump: 0,
        vault_token_bump: 0,
    };
    assert_not_opened(wrong, SUPPLY, SplitOrStealError::InvalidMintDecimals);
    wrong.mint_decimals = 9;
    assert_not_opened(wrong, SUPPLY, SplitOrStealError::InvalidMintSupply);
    wrong.mint_supply = SUPPLY;
    assert_not_opened(wrong, SUPPLY, SplitOrStealError::MintAuthorityNotRevoked);
    wrong.mint_authority = None;
    assert_not_opened(wrong, SUPPLY, SplitOrStealError::FreezeAuthorityNotRevoked);
    wrong.freeze_authority = None;
    assert_not_opened(wrong, SUPPLY, SplitOrStealError::InvalidInitialTokens);
    wrong.creator_token_amount = SUPPLY;
    let mut vault = blank_vault();
    assert_eq!(wrong.handle(&mut vault, SUPPLY), Ok(SUPPLY));
}

#[test]
fn opening_takes_any_amount_that_the_mint_and_the_creator_agree_on() {
    let mut small = opening();
    small.mint_supply = 12;
    small.creator_token_amount = 12;
    let mut vault = blank_vault();
    assert_eq!(small.handle(&mut vault, 12), Ok(12));
    assert_eq!(vault.mint_remaining, 12);
    assert_not_opened(small, 13, SplitOrStealError::InvalidMintSupply);
}
