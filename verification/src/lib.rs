pub mod classes;
pub mod game_runner;
pub mod helper;
pub mod input;
pub mod turns_helper;
