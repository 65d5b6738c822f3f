//! The logic behind a one-button, touchless security-key panel: the pages it
//! shows, the menu a lone key browses, the gestures of that key, and the
//! settings record behind them.
//!
//! Everything here works on plain values. Reading the applets, the flash and
//! the clock, and painting the panel, is left to the board.

// Text and rows.
pub mod text;
pub mod row;

// Page layouts, as lists of paint operations.
pub mod render;

// The menu's content and pages.
pub mod applets;
pub mod menu;
pub mod capture;
pub mod detail;
pub mod pages;
pub mod laws;

// Settings and their record.
pub mod menu_conf;
pub mod settings;

// The single key: gestures, when the menu opens, and the browse they drive.
pub mod gesture;
pub mod entry;
pub mod browse;
pub mod browse_laws;

// The ambient status page and the answers to presence requests.
pub mod status;

// The default PIV capability container.
pub mod ccc;
