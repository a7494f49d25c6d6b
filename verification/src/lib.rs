//! Monitor-boundary glow: the decisions behind a tray application that
//! flashes a coloured band where the mouse crosses from one monitor to
//! another.
//!
//! - `geometry`: rectangles, points, and where the crossed boundary lies;
//! - `monitor_cache`: the known monitors and their rectangles;
//! - `app_state`: what each cursor poll and each tray command does;
//! - `settings`: the user's settings and the file that keeps them;
//! - `overlay`: the glow's style and the overlay's bookkeeping;
//! - `tray`: the tray menu's commands, contents and strings;
//! - `text`: characters, numbers and UTF-16 as the other modules need them.
pub mod app_state;
pub mod geometry;
pub mod monitor_cache;
pub mod overlay;
pub mod settings;
pub mod text;
pub mod tray;
