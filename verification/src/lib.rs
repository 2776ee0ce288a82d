//! A single-round "split or steal" wager settled against a finite token
//! pool: the rolling history of choices, the fixed-point payoffs derived
//! from it, the per-player statistics that catch improbable luck, and the
//! protocol of one round.

pub mod entropy;
pub mod error;
pub mod instructions;
pub mod numeric;
pub mod state;

pub use crate::error::SplitOrStealError;
pub use crate::state::game_vault::{Choice, GameVault};
pub use crate::state::player_profile::PlayerProfile;
pub use crate::instructions::play_game::{PlayGame, RoundOutcome};
pub use crate::instructions::initialize_vault::InitializeVault;
