//! Turn-based combat and branching dialog rules for a small tactical game:
//! initiative rolls, zone membership, turn order, and a dialog state machine.

pub mod action_menu;
pub mod characters;
pub mod combat;
pub mod combat_map;
pub mod dice;
pub mod error;
pub mod initiative;
pub mod interactive_fiction;
pub mod roster;
pub mod seqs;
pub mod states;
pub mod text;
pub mod turns;
