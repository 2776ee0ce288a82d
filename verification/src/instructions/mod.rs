pub mod initialize_vault;
pub mod play_game;
pub mod round_laws;
