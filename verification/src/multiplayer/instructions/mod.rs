pub mod create_game;
pub mod gamba_state_config;
pub mod join_game;
pub mod leave_game;
pub mod settle_game;
