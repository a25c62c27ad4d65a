//! Application settings.

use vstd::prelude::*;

verus! {

/// Application settings.
#[derive(Debug)]
pub struct Settings {
    /// Whether expressions are evaluated in safe mode.
    pub safe_mode: bool,
    /// Whether the history is saved without being asked.
    pub auto_save_history: bool,
    /// How many decimal places results are shown with.
    pub decimal_places: usize,
}

impl Settings {
    /// The default settings: safe mode, history saved, ten decimal places.
    pub fn new() -> (r: Self)
        ensures
            r.safe_mode,
            r.auto_save_history,
            r.decimal_places == 10,
    {
        Settings { safe_mode: true, auto_save_history: true, decimal_places: 10 }
    }
}

impl Default for Settings {
    fn default() -> (r: Self)
        ensures
            r.safe_mode,
            r.auto_save_history,
            r.decimal_places == 10,
    {
        Self::new()
    }
}

} // verus!
