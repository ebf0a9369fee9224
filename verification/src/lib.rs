//! Keyboard and mouse macro recording and playback: the event model, its
//! filtering and ordering, storage naming, and the dashboard's state machine.

pub mod event;
pub mod text;
pub mod order;
pub mod keys;
pub mod playback;
pub mod record;
pub mod storage;
pub mod analysis;
pub mod tui;
pub mod ui;
