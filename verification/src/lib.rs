//! A verified Minesweeper engine: the rules of the game, the wire shapes the
//! frontend renders from, the terminal front end's logic, and an AI
//! advisor's board renderings, Session bookkeeping and stream framing.

pub mod domain;
mod text;
pub mod geometry;
pub mod board;
pub mod sampling;
pub mod clock;
pub mod game;
pub mod classic;
pub mod wire;
pub mod server;
pub mod classic_server;
pub mod board_text;
pub mod protocol;
pub mod agent;
pub mod advisor;
pub mod calendar;
pub mod analysis;
pub mod ai_replies;
pub mod terminal_ui;
pub mod deepseek;
pub mod providers;
pub mod json_value;
