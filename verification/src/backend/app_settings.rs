//! Defaults of the persisted application settings.

use vstd::prelude::*;
use crate::types::{SendMode, TimestampFormat};

verus! {

/// The baud rate offered when none was saved: 115200, the most common rate
/// of current serial devices.
pub fn default_baud() -> (s: String)
    ensures
        s@ == "115200"@,
{
    "115200".to_string()
}

/// The saved settings that are plain values (the pixel sizes stay with the
/// window): whether the log goes to a chosen directory, the Enter mode, the
/// time-stamp format, and the last port and baud rate used.
pub struct Preferences {
    pub log_dir_custom: bool,
    pub send_mode: SendMode,
    pub timestamp_format: TimestampFormat,
    pub last_port: Option<String>,
    pub last_baud: String,
}

impl Preferences {
    /// Restores the defaults: logs beside the program, Enter sends, time
    /// stamps as `HH:MM:SS`; the last port and baud rate are kept.
    pub fn reset_to_defaults(&mut self)
        ensures
            !final(self).log_dir_custom,
            final(self).send_mode == SendMode::EnterSend,
            final(self).timestamp_format == TimestampFormat::TimeOnly,
            final(self).last_port == old(self).last_port,
            final(self).last_baud == old(self).last_baud,
    {
        self.log_dir_custom = false;
        self.send_mode = SendMode::default();
        self.timestamp_format = TimestampFormat::default();
    }
}

} // verus!
