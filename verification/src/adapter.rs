//! Adapter that turns flux-trust table operations into beacon events.
//!
//! Agents are numbered; the events about agent `n` target `agent-n`.

use vstd::prelude::*;
use vstd::string::*;

use crate::beacon::{decayed_all, emitted, TrustBeacon};
use crate::signal::{less64, less_than64, signed, with_sign, MINUS_ONE_BITS};

verus! {

/// Encoding of 0.5 (binary64): evidence above it counts as a success.
pub const EVIDENCE_SUCCESS_ABOVE: u64 = 0x3FE0_0000_0000_0000;

/// The character of a decimal digit.
pub open spec fn digit_char(d: nat) -> char {
    ('0' as nat + d) as char
}

/// The decimal representation of `n`, without leading zeros.
pub open spec fn decimal(n: nat) -> Seq<char>
    decreases n,
{
    if n < 10 {
        seq![digit_char(n)]
    } else {
        decimal(n / 10).push(digit_char(n % 10))
    }
}

/// The beacon target that stands for agent `agent`: `agent-` and the
/// agent's number in decimal.
pub open spec fn agent_target_spec(agent: u32) -> Seq<char> {
    "agent-"@ + decimal(agent as nat)
}

/// The one-character string of a digit.
fn digit_str(d: u32) -> (r: &'static str)
    requires
        d < 10,
    ensures
        r@ == seq![digit_char(d as nat)],
{
    proof {
        reveal_strlit("0");
        reveal_strlit("1");
        reveal_strlit("2");
        reveal_strlit("3");
        reveal_strlit("4");
        reveal_strlit("5");
        reveal_strlit("6");
        reveal_strlit("7");
        reveal_strlit("8");
        reveal_strlit("9");
    }
    match d {
        0 => "0",
        1 => "1",
        2 => "2",
        3 => "3",
        4 => "4",
        5 => "5",
        6 => "6",
        7 => "7",
        8 => "8",
        _ => "9",
    }
}

/// Appends the decimal representation of `n`.
fn push_decimal(s: &mut String, n: u32)
    ensures
        final(s)@ == old(s)@ + decimal(n as nat),
    decreases n,
{
    if n >= 10 {
        push_decimal(s, n / 10);
    }
    s.append(digit_str(n % 10));
    assert(final(s)@ =~= old(s)@ + decimal(n as nat));
}

/// The beacon target of agent `agent`, `agent-<n>`.
pub fn agent_target(agent: u32) -> (r: String)
    ensures
        r@ == agent_target_spec(agent),
{
    let mut s = String::from_str("agent-");
    push_decimal(&mut s, agent);
    s
}

/// The event type of an `update` with the given evidence (binary64
/// encoding): `success` above 0.5, `failure` otherwise (NaN included).
pub open spec fn update_type(evidence: u64) -> Seq<char> {
    if less64(EVIDENCE_SUCCESS_ABOVE, evidence) {
        "success"@
    } else {
        "failure"@
    }
}

/// The event type of a `set` that moves an agent's trust by `delta`
/// (binary64 encoding): `boost` when the delta is above 0, `reduce`
/// otherwise (zero and NaN included).
pub open spec fn delta_type(delta: u64) -> Seq<char> {
    if less64(0, delta) {
        "boost"@
    } else {
        "reduce"@
    }
}

/// A flux-trust table view of a beacon: operations on numbered agents
/// become events emitted under `identity`.
pub struct FluxTrustAdapter<'a> {
    pub beacon: &'a mut TrustBeacon,
    pub identity: String,
}

impl<'a> FluxTrustAdapter<'a> {
    /// Wraps a beacon; events will be emitted as `identity`.
    pub fn wrap(beacon: &'a mut TrustBeacon, identity: &str) -> (r: Self)
        ensures
            r.identity@ == identity@,
            *r.beacon == *old(beacon),
            *final(beacon) == *final(r.beacon),
    {
        FluxTrustAdapter { beacon, identity: String::from_str(identity) }
    }

    /// Revokes an agent: emits a `corruption` event of full negative
    /// strength, -1.0, about it.
    pub fn revoke(&mut self, agent: u32)
        requires
            old(self).beacon@.events.len() < old(self).beacon@.max_events
                ==> old(self).beacon@.total_emitted < u64::MAX,
        ensures
            final(self).identity == old(self).identity,
            emitted(
                old(self).beacon@,
                final(self).beacon@,
                old(self).identity@,
                agent_target_spec(agent),
                "corruption"@,
                MINUS_ONE_BITS,
            ),
    {
        let target = agent_target(agent);
        self.beacon.emit(self.identity.as_str(), target.as_str(), "corruption", MINUS_ONE_BITS);
    }

    /// Records evidence about an agent: a `success` event when the evidence
    /// (binary64 encoding) is above 0.5, a `failure` event otherwise. The
    /// event's strength is the weight's magnitude (binary32 encoding),
    /// negated for a failure: a failure speaks against the agent.
    pub fn update(&mut self, agent: u32, evidence: u64, weight: u32)
        requires
            old(self).beacon@.events.len() < old(self).beacon@.max_events
                ==> old(self).beacon@.total_emitted < u64::MAX,
        ensures
            final(self).identity == old(self).identity,
            emitted(
                old(self).beacon@,
                final(self).beacon@,
                old(self).identity@,
                agent_target_spec(agent),
                update_type(evidence),
                signed(!less64(EVIDENCE_SUCCESS_ABOVE, evidence), weight),
            ),
    {
        let target = agent_target(agent);
        proof {
            reveal_strlit("success");
            reveal_strlit("failure");
        }
        let success = less_than64(EVIDENCE_SUCCESS_ABOVE, evidence);
        let event_type = if success {
            "success"
        } else {
            "failure"
        };
        let strength = with_sign(!success, weight);
        self.beacon.emit(self.identity.as_str(), target.as_str(), event_type, strength);
    }

    /// Records a move of an agent's trust by `delta` (binary64 encoding),
    /// the step of flux-trust's `set`: a `boost` event when the delta is
    /// above 0, a `reduce` event otherwise. The event's strength is the
    /// magnitude of `magnitude` (the delta's size as a binary32 encoding),
    /// negated for a reduce: a lower score speaks against the agent.
    pub fn record_delta(&mut self, agent: u32, delta: u64, magnitude: u32)
        requires
            old(self).beacon@.events.len() < old(self).beacon@.max_events
                ==> old(self).beacon@.total_emitted < u64::MAX,
        ensures
            final(self).identity == old(self).identity,
            emitted(
                old(self).beacon@,
                final(self).beacon@,
                old(self).identity@,
                agent_target_spec(agent),
                delta_type(delta),
                signed(!less64(0, delta), magnitude),
            ),
    {
        let target = agent_target(agent);
        proof {
            reveal_strlit("boost");
            reveal_strlit("reduce");
        }
        let raise = less_than64(0, delta);
        let event_type = if raise {
            "boost"
        } else {
            "reduce"
        };
        let strength = with_sign(!raise, magnitude);
        self.beacon.emit(self.identity.as_str(), target.as_str(), event_type, strength);
    }

    /// Decays the whole beacon by one generation, as
    /// `TrustBeacon::decay_all` does.
    pub fn decay_all(&mut self, scaled: &Vec<u32>)
        requires
            scaled.len() == old(self).beacon@.events.len(),
            forall|i: int|
                0 <= i < old(self).beacon@.events.len()
                    ==> #[trigger] old(self).beacon@.events[i].generation < u32::MAX,
        ensures
            final(self).identity == old(self).identity,
            exists|removed: int|
                decayed_all(old(self).beacon@, final(self).beacon@, scaled@, removed),
    {
        let removed = self.beacon.decay_all(scaled);
        assert(decayed_all(old(self).beacon@, self.beacon@, scaled@, removed as int));
    }
}

/// The decimal representation is never empty.
proof fn lemma_decimal_nonempty(n: nat)
    ensures
        decimal(n).len() >= 1,
    decreases n,
{
    if n >= 10 {
        lemma_decimal_nonempty(n / 10);
    }
}

/// Different numbers have different decimal representations.
proof fn lemma_decimal_injective(a: nat, b: nat)
    requires
        decimal(a) == decimal(b),
    ensures
        a == b,
    decreases a,
{
    if a >= 10 {
        lemma_decimal_nonempty(a / 10);
    }
    if b >= 10 {
        lemma_decimal_nonempty(b / 10);
    }
    let da = decimal(a);
    assert(da.last() == digit_char(a % 10));
    assert(decimal(b).last() == digit_char(b % 10));
    assert(a % 10 == b % 10);
    if a >= 10 && b >= 10 {
        assert(decimal(a / 10) =~= da.drop_last());
        assert(decimal(b / 10) =~= decimal(b).drop_last());
        lemma_decimal_injective(a / 10, b / 10);
    }
}

/// Distinct agents are tracked under distinct targets: their events never
/// mix.
pub proof fn lemma_agent_targets_distinct(a: u32, b: u32)
    requires
        a != b,
    ensures
        agent_target_spec(a) != agent_target_spec(b),
{
    if agent_target_spec(a) == agent_target_spec(b) {
        let p = "agent-"@;
        assert(decimal(a as nat) =~= agent_target_spec(a).subrange(p.len() as int, agent_target_spec(a).len() as int));
        assert(decimal(b as nat) =~= agent_target_spec(b).subrange(p.len() as int, agent_target_spec(b).len() as int));
        lemma_decimal_injective(a as nat, b as nat);
    }
}

} // verus!
