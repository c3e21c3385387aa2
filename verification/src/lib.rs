//! Terminal-emulator core: screen grid, escape-sequence handling, selection,
//! Hangul input composition and the small state machines of the app.
pub mod types;
pub mod text;
pub mod selection;
pub mod hangul;
pub mod jamo_compose;
pub mod event_action;
pub mod terminal_controls;
pub mod split_reads;
pub mod tab;
pub mod grid;
pub mod clock;
pub mod pomodoro;
pub mod response_timer;
pub mod keycode;
pub mod keys;
pub mod copy_mode;
pub mod ink_workaround;
pub mod vt_handler;
pub mod kitty_keyboard;
pub mod grid_dump;
pub mod dump_reader;
pub mod commands;
pub mod render;
pub mod key_event;
pub mod settings;
pub mod shell_plan;
pub mod frame;
pub mod tab_commands;
pub mod process_tree;
