pub mod game_vault;
pub mod vault_laws;
pub mod player_profile;
pub mod profile_laws;
