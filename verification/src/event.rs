//! A single trust event: one ship's signal about another.

use vstd::prelude::*;
use vstd::string::*;

use crate::signal::{
    abs_bits, clamp_to_unit, clamp_unit, is_below_zero, less, less_than, magnitude_bits,
    DECAY_FLOOR_BITS,
};

verus! {

/// Strength of a `success` signal: 0.8.
pub const SUCCESS_STRENGTH: u32 = 0x3F4C_CCCD;

/// Strength of a `failure` signal: -0.9.
pub const FAILURE_STRENGTH: u32 = 0xBF66_6666;

/// Strength of a `timeout` signal: -0.5.
pub const TIMEOUT_STRENGTH: u32 = 0xBF00_0000;

/// Strength of a `corruption` signal: -0.95.
pub const CORRUPTION_STRENGTH: u32 = 0xBF73_3333;

/// Strength of a `resurrect` signal: 0.6.
pub const RESURRECT_STRENGTH: u32 = 0x3F19_999A;

/// A signal about a ship's reliability.
///
/// `strength` is the binary32 encoding of a value in [-1, 1]: positive
/// signals speak for the target, negative ones against it.
#[derive(Debug)]
pub struct TrustEvent {
    /// "success", "failure", "timeout", "corruption", "resurrect", ...
    pub event_type: String,
    /// Who sent the signal.
    pub emitter: String,
    /// Who the signal is about.
    pub target: String,
    /// How strong the signal is (binary32 encoding).
    pub strength: u32,
    /// When the event was made, in nanoseconds since the Unix epoch.
    pub timestamp: u64,
    /// How many times the event has decayed.
    pub generation: u32,
    /// Whether the signal has decayed below the floor.
    pub decayed: bool,
}

/// The system clock's time (`std::time::SystemTime`), opaque here.
#[verifier::external_type_specification]
#[verifier::external_body]
pub struct ExSystemTime(std::time::SystemTime);

/// Reads the clock: `SystemTime::now()`. Nothing is promised of the
/// result, which depends on the time of the call.
#[verifier::external_body]
fn system_time_now() -> std::time::SystemTime {
    std::time::SystemTime::now()
}

/// `t.duration_since(UNIX_EPOCH)`, `None` where `t` lies before the epoch.
/// Nothing is promised of the duration, which Verus sees as opaque.
#[verifier::external_body]
fn since_unix_epoch(t: &std::time::SystemTime) -> Option<std::time::Duration> {
    t.duration_since(std::time::UNIX_EPOCH).ok()
}

/// `d.as_nanos()`: the whole duration in nanoseconds. Nothing is promised
/// of it, the duration being opaque to Verus.
#[verifier::external_body]
fn duration_nanos(d: &std::time::Duration) -> u128 {
    d.as_nanos()
}

/// The current time in nanoseconds since the Unix epoch (truncated to 64
/// bits), 0 when the clock stands before the epoch.
fn nanos_now() -> u64 {
    let now = system_time_now();
    match since_unix_epoch(&now) {
        Some(d) => duration_nanos(&d) as u64,
        None => 0,
    }
}

impl Clone for TrustEvent {
    fn clone(&self) -> (r: Self)
        ensures
            r == *self,
    {
        TrustEvent {
            event_type: self.event_type.clone(),
            emitter: self.emitter.clone(),
            target: self.target.clone(),
            strength: self.strength,
            timestamp: self.timestamp,
            generation: self.generation,
            decayed: self.decayed,
        }
    }
}

impl TrustEvent {
    /// A fresh event, generation 0 and not decayed, stamped with the
    /// current time; the strength is clamped to [-1, 1].
    pub fn new(emitter: &str, target: &str, event_type: &str, strength: u32) -> (r: Self)
        ensures
            r.emitter@ == emitter@,
            r.target@ == target@,
            r.event_type@ == event_type@,
            r.strength == clamp_unit(strength),
            r.generation == 0,
            !r.decayed,
    {
        Self::new_at(emitter, target, event_type, strength, nanos_now())
    }

    /// A fresh event, generation 0 and not decayed, stamped with
    /// `timestamp` (nanoseconds since the Unix epoch); the strength is
    /// clamped to [-1, 1].
    pub fn new_at(emitter: &str, target: &str, event_type: &str, strength: u32, timestamp: u64) -> (r:
        Self)
        ensures
            r.emitter@ == emitter@,
            r.target@ == target@,
            r.event_type@ == event_type@,
            r.strength == clamp_unit(strength),
            r.timestamp == timestamp,
            r.generation == 0,
            !r.decayed,
    {
        TrustEvent {
            event_type: String::from_str(event_type),
            emitter: String::from_str(emitter),
            target: String::from_str(target),
            strength: clamp_to_unit(strength),
            timestamp,
            generation: 0,
            decayed: false,
        }
    }

    /// A `success` signal (strength 0.8).
    pub fn success(emitter: &str, target: &str) -> (r: Self)
        ensures
            r.emitter@ == emitter@,
            r.target@ == target@,
            r.event_type@ == "success"@,
            r.strength == SUCCESS_STRENGTH,
            r.generation == 0,
            !r.decayed,
    {
        Self::new(emitter, target, "success", SUCCESS_STRENGTH)
    }

    /// A `failure` signal (strength -0.9).
    pub fn failure(emitter: &str, target: &str) -> (r: Self)
        ensures
            r.emitter@ == emitter@,
            r.target@ == target@,
            r.event_type@ == "failure"@,
            r.strength == FAILURE_STRENGTH,
            r.generation == 0,
            !r.decayed,
    {
        Self::new(emitter, target, "failure", FAILURE_STRENGTH)
    }

    /// A `timeout` signal (strength -0.5).
    pub fn timeout(emitter: &str, target: &str) -> (r: Self)
        ensures
            r.emitter@ == emitter@,
            r.target@ == target@,
            r.event_type@ == "timeout"@,
            r.strength == TIMEOUT_STRENGTH,
            r.generation == 0,
            !r.decayed,
    {
        Self::new(emitter, target, "timeout", TIMEOUT_STRENGTH)
    }

    /// A `corruption` signal (strength -0.95).
    pub fn corruption(emitter: &str, target: &str) -> (r: Self)
        ensures
            r.emitter@ == emitter@,
            r.target@ == target@,
            r.event_type@ == "corruption"@,
            r.strength == CORRUPTION_STRENGTH,
            r.generation == 0,
            !r.decayed,
    {
        Self::new(emitter, target, "corruption", CORRUPTION_STRENGTH)
    }

    /// A `resurrect` signal (strength 0.6).
    pub fn resurrect(emitter: &str, target: &str) -> (r: Self)
        ensures
            r.emitter@ == emitter@,
            r.target@ == target@,
            r.event_type@ == "resurrect"@,
            r.strength == RESURRECT_STRENGTH,
            r.generation == 0,
            !r.decayed,
    {
        Self::new(emitter, target, "resurrect", RESURRECT_STRENGTH)
    }

    /// One generation of decay. `scaled` is the strength multiplied by the
    /// decay factor (binary32 encoding); the event takes it as its new
    /// strength and is marked decayed once its magnitude falls below 0.05.
    /// A decayed event stays decayed.
    pub fn decay(&mut self, scaled: u32)
        requires
            old(self).generation < u32::MAX,
        ensures
            final(self).generation == old(self).generation + 1,
            final(self).strength == scaled,
            final(self).decayed == (old(self).decayed || decays_below_floor(scaled)),
            final(self).event_type == old(self).event_type,
            final(self).emitter == old(self).emitter,
            final(self).target == old(self).target,
            final(self).timestamp == old(self).timestamp,
    {
        self.generation = self.generation + 1;
        self.strength = scaled;
        if less_than(magnitude_bits(scaled), DECAY_FLOOR_BITS) {
            self.decayed = true;
        }
    }

    /// The strength's magnitude regardless of sign (binary32 encoding).
    pub fn magnitude(&self) -> (r: u32)
        ensures
            r == abs_bits(self.strength),
    {
        magnitude_bits(self.strength)
    }

    /// Whether the signal speaks against its target (strength below 0).
    pub fn is_negative(&self) -> (r: bool)
        ensures
            r == less(self.strength, 0),
    {
        is_below_zero(self.strength)
    }
}

/// A strength whose magnitude lies below the decay floor of 0.05.
pub open spec fn decays_below_floor(strength: u32) -> bool {
    less(abs_bits(strength), DECAY_FLOOR_BITS)
}

} // verus!
