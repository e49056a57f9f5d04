//! The settings of the application: one flag, whether transactions that
//! are not recognised may be signed blindly.

use vstd::prelude::*;

verus! {

/// The number of bytes that the settings are stored in.
pub const SETTINGS_SIZE: usize = 10;

/// The index of the byte that holds the blind-signing flag.
pub const BLINDSIGN_IX: usize = 0;

/// The settings, as the bytes that are stored for them.
#[derive(Clone, Copy, Debug, PartialEq, Eq)]
pub struct Settings {
    values: [u8; SETTINGS_SIZE],
}

impl Settings {
    /// The stored bytes.
    pub closed spec fn values(&self) -> Seq<u8> {
        self.values@
    }

    /// Whether blind signing is switched on: the flag byte is 1.
    pub open spec fn blind_sign(&self) -> bool {
        self.values()[BLINDSIGN_IX as int] == 1
    }

    /// The settings that these stored bytes stand for.
    pub fn new(values: [u8; SETTINGS_SIZE]) -> (settings: Self)
        ensures
            settings.values() == values@,
    {
        Settings { values }
    }

    /// The bytes to store.
    pub fn get(&self) -> (values: [u8; SETTINGS_SIZE])
        ensures
            values@ == self.values(),
    {
        self.values
    }

    /// Whether blind signing is switched on.
    pub fn get_blind_sign(&self) -> (enabled: bool)
        ensures
            enabled == self.blind_sign(),
    {
        self.values[BLINDSIGN_IX] == 1
    }

    /// Switches blind signing on or off. The other bytes stay as they are.
    pub fn set_blind_sign(&mut self, enabled: bool)
        ensures
            final(self).blind_sign() == enabled,
            final(self).values() == old(self).values().update(
                BLINDSIGN_IX as int,
                if enabled {
                    1u8
                } else {
                    0u8
                },
            ),
    {
        let mut switch_values = self.values;
        if enabled {
            switch_values[BLINDSIGN_IX] = 1;
        } else {
            switch_values[BLINDSIGN_IX] = 0;
        }
        assert(switch_values@ =~= self.values@.update(
            BLINDSIGN_IX as int,
            if enabled {
                1u8
            } else {
                0u8
            },
        ));
        self.values = switch_values;
    }
}

impl Default for Settings {
    /// The settings of a fresh device: every byte is zero, blind signing
    /// is off.
    fn default() -> (settings: Self)
        ensures
            settings.values() == Seq::new(SETTINGS_SIZE as nat, |i: int| 0u8),
            !settings.blind_sign(),
    {
        let settings = Settings { values: [0u8; SETTINGS_SIZE] };
        assert(settings.values@ =~= Seq::new(SETTINGS_SIZE as nat, |i: int| 0u8));
        settings
    }
}

} // verus!
