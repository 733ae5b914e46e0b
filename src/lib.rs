pub mod card;
pub mod card_pile;
pub mod chain;
pub mod commands;
pub mod conservation;
pub mod game_state;
pub mod phases;
pub mod player;
pub mod state_machine;
pub mod text;
