//! Defaults of the per-display settings the core reads, and the
//! minimum-brightness floor.

use vstd::prelude::*;

use crate::manager::{handle_in, lists};
use crate::protocols::default_gamma_tenths;
use crate::text::str_eq;

verus! {

/// Settings of one display.
#[derive(Debug, Clone, Copy, PartialEq, Eq, Structural)]
pub struct MonitorConfig {
    /// Gamma exponent in tenths (18 stands for 1.8).
    pub gamma_tenths: u16,
    /// Whether the brightness keys drive this display.
    pub sync_with_brightness_keys: bool,
    /// Lowest brightness ever sent to this display, in percent.
    pub min_brightness: u16,
}

impl MonitorConfig {
    /// Settings with a linear curve, keys enabled and no floor.
    pub fn new() -> (r: Self)
        ensures
            r.gamma_tenths == 10 && r.sync_with_brightness_keys && r.min_brightness == 0,
    {
        MonitorConfig { gamma_tenths: 10, sync_with_brightness_keys: true, min_brightness: 0 }
    }

    /// Default settings with the given gamma.
    pub fn with_default_gamma(gamma_tenths: u16) -> (r: Self)
        ensures
            r.gamma_tenths == gamma_tenths && r.sync_with_brightness_keys && r.min_brightness == 0,
    {
        MonitorConfig { gamma_tenths, sync_with_brightness_keys: true, min_brightness: 0 }
    }
}

/// Per-display settings, by identity (the first entry for an identity counts).
pub struct Config {
    pub monitors: Vec<(String, MonitorConfig)>,
}

impl Config {
    /// The settings stored for `id`, if any.
    pub fn monitor(&self, id: &str) -> (r: Option<MonitorConfig>)
        ensures
            r == if lists(self.monitors@, id@) {
                Some(handle_in(self.monitors@, id@))
            } else {
                None
            },
    {
        let mut i: usize = 0;
        assert(self.monitors@.skip(0) =~= self.monitors@);
        while i < self.monitors.len()
            invariant
                i <= self.monitors@.len(),
                forall|j: int| 0 <= j < i ==> (#[trigger] self.monitors@[j]).0@ != id@,
                handle_in(self.monitors@, id@) == handle_in(self.monitors@.skip(i as int), id@),
            decreases self.monitors.len() - i,
        {
            proof {
                assert(self.monitors@.skip(i as int).drop_first() =~= self.monitors@.skip(i as int + 1));
                assert(self.monitors@.skip(i as int)[0] == self.monitors@[i as int]);
            }
            if str_eq(self.monitors[i].0.as_str(), id) {
                return Some(self.monitors[i].1);
            }
            i = i + 1;
        }
        None
    }

    /// Whether the brightness keys drive `id` (yes unless its settings say no).
    pub fn is_sync_enabled(&self, id: &str) -> (r: bool)
        ensures
            r == if lists(self.monitors@, id@) {
                handle_in(self.monitors@, id@).sync_with_brightness_keys
            } else {
                true
            },
    {
        match self.monitor(id) {
            Some(m) => m.sync_with_brightness_keys,
            None => default_sync_enabled(),
        }
    }

    /// The brightness floor of `id` (0 unless its settings set one).
    pub fn get_min_brightness(&self, id: &str) -> (r: u16)
        ensures
            r == if lists(self.monitors@, id@) {
                handle_in(self.monitors@, id@).min_brightness
            } else {
                0
            },
    {
        match self.monitor(id) {
            Some(m) => m.min_brightness,
            None => default_min_brightness(),
        }
    }

    /// The gamma of `id`, in tenths: its setting, else 18 for an Apple HID
    /// display and 10 for any other.
    pub fn get_gamma_tenths(&self, id: &str) -> (r: u16)
        ensures
            lists(self.monitors@, id@) ==> r == handle_in(self.monitors@, id@).gamma_tenths,
            !lists(self.monitors@, id@) ==> r == (if "apple-hid-"@.len() <= id@.len() && id@.subrange(
                0,
                "apple-hid-"@.len() as int,
            ) == "apple-hid-"@ {
                18u16
            } else {
                10u16
            }),
    {
        match self.monitor(id) {
            Some(m) => m.gamma_tenths,
            None => default_gamma_tenths(id),
        }
    }
}

/// Brightness keys drive a display unless its settings say otherwise.
pub fn default_sync_enabled() -> (r: bool)
    ensures
        r,
{
    true
}

/// No minimum brightness unless its settings set one.
pub fn default_min_brightness() -> (r: u16)
    ensures
        r == 0,
{
    0
}

/// Raises a brightness to the display's minimum.
pub fn apply_min_brightness(value: u16, min_brightness: u16) -> (r: u16)
    ensures
        r == if value < min_brightness {
            min_brightness
        } else {
            value
        },
{
    if value < min_brightness {
        min_brightness
    } else {
        value
    }
}

} // verus!
