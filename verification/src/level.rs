//! Trust levels of the flux-trust table.

use vstd::prelude::*;

use crate::signal::{is_nan64, less64, less_than64, order_key64};

verus! {

/// Trust levels, from least to most trusted.
#[derive(Debug, Clone, Copy, PartialEq, Eq, Structural)]
pub enum FluxTrustLevel {
    Unknown,
    Suspicious,
    Neutral,
    Trusted,
    Verified,
}

/// The lower-case name of a trust level.
pub open spec fn level_name(level: FluxTrustLevel) -> Seq<char> {
    match level {
        FluxTrustLevel::Unknown => "unknown"@,
        FluxTrustLevel::Suspicious => "suspicious"@,
        FluxTrustLevel::Neutral => "neutral"@,
        FluxTrustLevel::Trusted => "trusted"@,
        FluxTrustLevel::Verified => "verified"@,
    }
}

/// Encoding of 0.2 (binary64): scores below it are `Unknown`.
pub const SUSPICIOUS_FROM: u64 = 0x3FC9_9999_9999_999A;

/// Encoding of 0.4 (binary64): scores below it are at most `Suspicious`.
pub const NEUTRAL_FROM: u64 = 0x3FD9_9999_9999_999A;

/// Encoding of 0.6 (binary64): scores below it are at most `Neutral`.
pub const TRUSTED_FROM: u64 = 0x3FE3_3333_3333_3333;

/// Encoding of 0.8 (binary64): scores from it on are `Verified`.
pub const VERIFIED_FROM: u64 = 0x3FE9_9999_9999_999A;

/// The level of a score (a binary64 encoding): the first band whose upper
/// bound lies above the score; a NaN, below no bound, is `Verified`.
pub open spec fn level_of_score(score: u64) -> FluxTrustLevel {
    if less64(score, SUSPICIOUS_FROM) {
        FluxTrustLevel::Unknown
    } else if less64(score, NEUTRAL_FROM) {
        FluxTrustLevel::Suspicious
    } else if less64(score, TRUSTED_FROM) {
        FluxTrustLevel::Neutral
    } else if less64(score, VERIFIED_FROM) {
        FluxTrustLevel::Trusted
    } else {
        FluxTrustLevel::Verified
    }
}

/// Position of a level in the order `Unknown` < ... < `Verified`.
pub open spec fn rank(level: FluxTrustLevel) -> int {
    match level {
        FluxTrustLevel::Unknown => 0,
        FluxTrustLevel::Suspicious => 1,
        FluxTrustLevel::Neutral => 2,
        FluxTrustLevel::Trusted => 3,
        FluxTrustLevel::Verified => 4,
    }
}

impl FluxTrustLevel {
    /// The level of a score given by its binary64 encoding.
    pub fn from_score(score: u64) -> (r: FluxTrustLevel)
        ensures
            r == level_of_score(score),
            !is_nan64(score) ==> ((r == FluxTrustLevel::Unknown) <==> order_key64(score)
                < order_key64(SUSPICIOUS_FROM)),
            !is_nan64(score) ==> ((r == FluxTrustLevel::Suspicious) <==> order_key64(
                SUSPICIOUS_FROM,
            ) <= order_key64(score) < order_key64(NEUTRAL_FROM)),
            !is_nan64(score) ==> ((r == FluxTrustLevel::Neutral) <==> order_key64(NEUTRAL_FROM)
                <= order_key64(score) < order_key64(TRUSTED_FROM)),
            !is_nan64(score) ==> ((r == FluxTrustLevel::Trusted) <==> order_key64(TRUSTED_FROM)
                <= order_key64(score) < order_key64(VERIFIED_FROM)),
            !is_nan64(score) ==> ((r == FluxTrustLevel::Verified) <==> order_key64(
                VERIFIED_FROM,
            ) <= order_key64(score)),
    {
        if less_than64(score, SUSPICIOUS_FROM) {
            FluxTrustLevel::Unknown
        } else if less_than64(score, NEUTRAL_FROM) {
            FluxTrustLevel::Suspicious
        } else if less_than64(score, TRUSTED_FROM) {
            FluxTrustLevel::Neutral
        } else if less_than64(score, VERIFIED_FROM) {
            FluxTrustLevel::Trusted
        } else {
            FluxTrustLevel::Verified
        }
    }

    /// The lower-case name of this level.
    pub fn name(&self) -> (r: &'static str)
        ensures
            r@ == level_name(*self),
    {
        match self {
            FluxTrustLevel::Unknown => "unknown",
            FluxTrustLevel::Suspicious => "suspicious",
            FluxTrustLevel::Neutral => "neutral",
            FluxTrustLevel::Trusted => "trusted",
            FluxTrustLevel::Verified => "verified",
        }
    }
}

/// Each level is the band between its named bounds: a score (not NaN) is
/// `Unknown` below 0.2, `Suspicious` in [0.2, 0.4), `Neutral` in [0.4, 0.6),
/// `Trusted` in [0.6, 0.8) and `Verified` from 0.8 on.
pub proof fn lemma_level_bands(score: u64)
    requires
        !is_nan64(score),
    ensures
        (level_of_score(score) == FluxTrustLevel::Unknown) <==> order_key64(score) < order_key64(
            SUSPICIOUS_FROM,
        ),
        (level_of_score(score) == FluxTrustLevel::Suspicious) <==> order_key64(SUSPICIOUS_FROM)
            <= order_key64(score) < order_key64(NEUTRAL_FROM),
        (level_of_score(score) == FluxTrustLevel::Neutral) <==> order_key64(NEUTRAL_FROM)
            <= order_key64(score) < order_key64(TRUSTED_FROM),
        (level_of_score(score) == FluxTrustLevel::Trusted) <==> order_key64(TRUSTED_FROM)
            <= order_key64(score) < order_key64(VERIFIED_FROM),
        (level_of_score(score) == FluxTrustLevel::Verified) <==> order_key64(VERIFIED_FROM)
            <= order_key64(score),
{
}

/// A higher score never gives a lower level: for two scores that are not
/// NaN, the level of the smaller one ranks at most as high.
pub proof fn lemma_level_monotone(a: u64, b: u64)
    requires
        !crate::signal::is_nan64(a),
        !crate::signal::is_nan64(b),
        crate::signal::order_key64(a) <= crate::signal::order_key64(b),
    ensures
        rank(level_of_score(a)) <= rank(level_of_score(b)),
{
}

/// Different levels have different names.
pub proof fn lemma_names_distinct(a: FluxTrustLevel, b: FluxTrustLevel)
    requires
        a != b,
    ensures
        level_name(a) != level_name(b),
{
    reveal_strlit("unknown");
    reveal_strlit("suspicious");
    reveal_strlit("neutral");
    reveal_strlit("trusted");
    reveal_strlit("verified");
    assert(level_name(a).len() != level_name(b).len() || level_name(a)[0] != level_name(b)[0]);
}

} // verus!
