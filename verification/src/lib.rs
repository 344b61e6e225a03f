//! A desktop sticky-note and alarm-clock library.
//!
//! The crate holds the data model of the notes and alarms together with the
//! rules that the desktop shell applies to them: editing the collections,
//! parsing the alarm input, deciding which alarms ring in a given minute,
//! bookkeeping of the alert popups, the geometry of the main window and the
//! decoding of tray messages.

pub mod text;
pub mod clock;
pub mod ids;
pub mod storage;
pub mod handlers;
pub mod timers;
pub mod window;
pub mod alarm_alert;
pub mod ui_sync;
pub mod tray;
