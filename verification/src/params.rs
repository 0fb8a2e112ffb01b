//! The two user-facing parameters: the brake switch and the decay rate.

use crate::binary32::{is_nan, is_not_a_number, less_than, lt, HALF, ONE, ZERO};
use vstd::prelude::*;

verus! {

/// Pattern of `0.9999`, the decay rate of a fresh store.
pub const DEFAULT_DECAY_RATE: u32 = 0x3F7F_F972;

/// Index of the brake switch among the parameters.
pub const BRAKE: i32 = 0;

/// Index of the decay rate among the parameters.
pub const BRAKE_RATE: i32 = 1;

/// The number of parameters.
pub const PARAMETERS: i32 = 2;

/// A control value as the switch stores it: one above a half, zero otherwise.
pub open spec fn binarized(value: u32) -> u32 {
    if lt(HALF, value) {
        ONE
    } else {
        ZERO
    }
}

/// Whether the pattern is a number from zero to one, both included.
pub open spec fn in_unit_interval(value: u32) -> bool {
    !is_nan(value) && !lt(value, ZERO) && !lt(ONE, value)
}

/// A control value as the decay rate stores it: itself within the unit
/// interval, one above one, and zero below zero or where it is no number.
pub open spec fn clamped(value: u32) -> u32 {
    if in_unit_interval(value) {
        value
    } else if lt(ONE, value) {
        ONE
    } else {
        ZERO
    }
}

/// Reduces a control value to the two states of the switch.
pub fn binarize(value: u32) -> (stored: u32)
    ensures
        stored == binarized(value),
{
    if less_than(HALF, value) {
        ONE
    } else {
        ZERO
    }
}

/// Brings a control value into the unit interval.
pub fn clamp_unit(value: u32) -> (stored: u32)
    ensures
        stored == clamped(value),
        in_unit_interval(stored),
{
    if less_than(ONE, value) {
        ONE
    } else if less_than(value, ZERO) || is_not_a_number(value) {
        ZERO
    } else {
        value
    }
}

/// Whether a stored switch value means that the brake is on.
pub fn switch_on(stored: u32) -> (on: bool)
    ensures
        on == lt(HALF, stored),
{
    less_than(HALF, stored)
}

/// The switch and the decay rate, each read and written on its own.
pub struct ParameterStore {
    brake: u32,
    decay_rate: u32,
}

impl ParameterStore {
    /// What every store holds: a switch that is zero or one, and a decay
    /// rate within the unit interval.
    #[verifier::type_invariant]
    spec fn valid(&self) -> bool {
        &&& self.brake == ZERO || self.brake == ONE
        &&& in_unit_interval(self.decay_rate)
    }

    /// The stored switch value.
    pub closed spec fn brake(&self) -> u32 {
        self.brake
    }

    /// The stored decay rate.
    pub closed spec fn decay_rate(&self) -> u32 {
        self.decay_rate
    }

    /// Whether the brake is on.
    pub open spec fn enabled(&self) -> bool {
        lt(HALF, self.brake())
    }

    /// The value that a parameter index reads: zero for an unknown index.
    pub open spec fn parameter(&self, index: i32) -> u32 {
        if index == BRAKE {
            self.brake()
        } else if index == BRAKE_RATE {
            self.decay_rate()
        } else {
            ZERO
        }
    }

    /// A store with the brake off and the default decay rate.
    pub fn new() -> (store: ParameterStore)
        ensures
            store.brake() == ZERO,
            store.decay_rate() == DEFAULT_DECAY_RATE,
            !store.enabled(),
    {
        ParameterStore { brake: ZERO, decay_rate: DEFAULT_DECAY_RATE }
    }

    /// Switches the brake on for a value above a half and off otherwise.
    pub fn set_enabled(&mut self, value: u32)
        ensures
            final(self).brake() == binarized(value),
            final(self).decay_rate() == old(self).decay_rate(),
            final(self).enabled() == lt(HALF, value),
    {
        proof {
            use_type_invariant(&*self);
        }
        self.brake = binarize(value);
    }

    /// Whether the brake is on.
    pub fn get_enabled(&self) -> (on: bool)
        ensures
            on == self.enabled(),
    {
        switch_on(self.brake)
    }

    /// Stores the decay rate, clamped to the unit interval.
    pub fn set_decay_rate(&mut self, value: u32)
        ensures
            final(self).decay_rate() == clamped(value),
            in_unit_interval(final(self).decay_rate()),
            final(self).brake() == old(self).brake(),
    {
        proof {
            use_type_invariant(&*self);
        }
        self.decay_rate = clamp_unit(value);
    }

    /// The stored decay rate.
    pub fn get_decay_rate(&self) -> (rate: u32)
        ensures
            rate == self.decay_rate(),
            in_unit_interval(rate),
    {
        proof {
            use_type_invariant(self);
        }
        self.decay_rate
    }

    /// Reads a parameter by its index.
    pub fn get_parameter(&self, index: i32) -> (value: u32)
        ensures
            value == self.parameter(index),
    {
        if index == BRAKE {
            self.brake
        } else if index == BRAKE_RATE {
            self.decay_rate
        } else {
            ZERO
        }
    }

    /// Writes a parameter by its index; an unknown index changes nothing.
    pub fn set_parameter(&mut self, index: i32, value: u32)
        ensures
            final(self).brake() == (if index == BRAKE {
                binarized(value)
            } else {
                old(self).brake()
            }),
            final(self).decay_rate() == (if index == BRAKE_RATE {
                clamped(value)
            } else {
                old(self).decay_rate()
            }),
    {
        if index == BRAKE {
            self.set_enabled(value);
        } else if index == BRAKE_RATE {
            self.set_decay_rate(value);
        }
    }

    /// The name of a parameter; empty for an unknown index.
    pub fn get_parameter_name(&self, index: i32) -> (name: &'static str)
        ensures
            name@ == (if index == BRAKE {
                "brake"@
            } else if index == BRAKE_RATE {
                "brake rate"@
            } else {
                ""@
            }),
    {
        if index == BRAKE {
            "brake"
        } else if index == BRAKE_RATE {
            "brake rate"
        } else {
            ""
        }
    }

    /// The text that shows a parameter: the switch in words, the decay rate
    /// as the caller has written it out to two decimals, nothing for an
    /// unknown index.
    pub fn get_parameter_text<'a>(&self, index: i32, rate_text: &'a str) -> (text: &'a str)
        ensures
            text@ == (if index == BRAKE {
                if self.enabled() {
                    "enabled"@
                } else {
                    "disabled"@
                }
            } else if index == BRAKE_RATE {
                rate_text@
            } else {
                ""@
            }),
    {
        if index == BRAKE {
            self.enabled_text()
        } else if index == BRAKE_RATE {
            rate_text
        } else {
            ""
        }
    }

    /// The switch in words.
    pub fn enabled_text(&self) -> (text: &'static str)
        ensures
            text@ == (if self.enabled() {
                "enabled"@
            } else {
                "disabled"@
            }),
    {
        if self.get_enabled() {
            "enabled"
        } else {
            "disabled"
        }
    }
}

impl Default for ParameterStore {
    /// The same store as `new` gives.
    fn default() -> (store: ParameterStore)
        ensures
            store.brake() == ZERO,
            store.decay_rate() == DEFAULT_DECAY_RATE,
    {
        ParameterStore::new()
    }
}

/// Whatever is written, what the decay rate stores lies in the unit interval:
/// a number within it is kept, and clamping twice changes nothing more.
pub proof fn lemma_clamped_in_unit_interval(value: u32)
    ensures
        in_unit_interval(clamped(value)),
        in_unit_interval(value) ==> clamped(value) == value,
        lt(value, ZERO) ==> clamped(value) == ZERO,
        lt(ONE, value) ==> clamped(value) == ONE,
        is_nan(value) ==> clamped(value) == ZERO,
        clamped(clamped(value)) == clamped(value),
{
}

/// Binarizing keeps the side of a half that the value is on, and a binarized
/// value is binarized to itself.
pub proof fn lemma_binarized_keeps_side(value: u32)
    ensures
        lt(HALF, binarized(value)) == lt(HALF, value),
        binarized(binarized(value)) == binarized(value),
{
}

} // verus!
