//! The verified core of a terminal falling-tetromino game: everything the
//! frontend decides or computes, apart from talking to the terminal, the
//! keyboard, the clock and the file system.
pub mod about;
pub mod application;
pub mod base_screen;
pub mod builder;
pub mod button;
pub mod color;
pub mod engine;
pub mod frames;
pub mod game;
pub mod game_ended;
pub mod hud;
pub mod input_history;
pub mod keys;
pub mod lingering;
pub mod live;
pub mod menu;
pub mod paint;
pub mod play_game;
pub mod readiness;
pub mod renderer;
pub mod restoration;
pub mod scores;
pub mod screen;
pub mod settings;
pub mod spans;
pub mod start_game;
pub mod text;
pub mod time;
