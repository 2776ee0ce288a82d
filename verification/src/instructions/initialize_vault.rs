use crate::error::SplitOrStealError;
use crate::state::game_vault::GameVault;
use vstd::prelude::*;

verus! {

/// The decimals that the token's mint has to use.
pub const DEFAULT_DECIMALS: u8 = 9;

/// What the opening of the vault finds: the creator, the creator's tokens,
/// the mint, and the bumps of the two accounts that are created.
#[derive(Clone, Copy, Debug, PartialEq, Eq)]
pub struct InitializeVault {
    /// The creator's key.
    pub creator: [u8; 32],
    /// The tokens that the creator holds.
    pub creator_token_amount: u64,
    pub mint_decimals: u8,
    pub mint_supply: u64,
    /// Who may mint, if anybody still may.
    pub mint_authority: Option<[u8; 32]>,
    /// Who may freeze accounts, if anybody still may.
    pub freeze_authority: Option<[u8; 32]>,
    pub vault_bump: u8,
    pub vault_token_bump: u8,
}

impl InitializeVault {
    /// Why the vault is not opened with `token_amount` tokens, if it is
    /// not: the first of the mint's decimals not being nine, its supply not
    /// being the amount, somebody still being able to mint or to freeze,
    /// and the creator not holding exactly the amount.
    pub open spec fn refusal(&self, token_amount: u64) -> Option<SplitOrStealError> {
        if self.mint_decimals != DEFAULT_DECIMALS {
            Some(SplitOrStealError::InvalidMintDecimals)
        } else if self.mint_supply != token_amount {
            Some(SplitOrStealError::InvalidMintSupply)
        } else if self.mint_authority is Some {
            Some(SplitOrStealError::MintAuthorityNotRevoked)
        } else if self.freeze_authority is Some {
            Some(SplitOrStealError::FreezeAuthorityNotRevoked)
        } else if self.creator_token_amount != token_amount {
            Some(SplitOrStealError::InvalidInitialTokens)
        } else {
            None
        }
    }

    /// Opens the vault with `token_amount` tokens, and gives the amount
    /// that is to be moved from the creator's tokens to the vault's. A
    /// refusal leaves the vault as it was.
    pub fn handle(&self, game_vault: &mut GameVault, token_amount: u64) -> (moved: Result<
        u64,
        SplitOrStealError,
    >)
        ensures
            match self.refusal(token_amount) {
                Some(error) => moved == Err::<u64, SplitOrStealError>(error) && *final(game_vault)
                    == *old(game_vault),
                None => moved == Ok::<u64, SplitOrStealError>(token_amount) && *final(game_vault)
                    == GameVault::opened(
                    self.creator,
                    token_amount,
                    self.vault_bump,
                    self.vault_token_bump,
                ) && final(game_vault).wf(),
            },
    {
        if self.mint_decimals != DEFAULT_DECIMALS {
            return Err(SplitOrStealError::InvalidMintDecimals);
        }
        if self.mint_supply != token_amount {
            return Err(SplitOrStealError::InvalidMintSupply);
        }
        if self.mint_authority.is_some() {
            return Err(SplitOrStealError::MintAuthorityNotRevoked);
        }
        if self.freeze_authority.is_some() {
            return Err(SplitOrStealError::FreezeAuthorityNotRevoked);
        }
        if self.creator_token_amount != token_amount {
            return Err(SplitOrStealError::InvalidInitialTokens);
        }
        game_vault.initialize(self.creator, token_amount, self.vault_bump, self.vault_token_bump);

        Ok(self.creator_token_amount)
    }
}

} // verus!
