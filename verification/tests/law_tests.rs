use std::collections::HashSet;

use plato_trust_beacon::adapter::agent_target;
use plato_trust_beacon::signal::{MINUS_ONE_BITS, ONE_BITS};
use plato_trust_beacon::{BeaconStats, FluxTrustAdapter, FluxTrustLevel, TrustBeacon, TrustEvent};

fn bits(x: f32) -> u32 {
    x.to_bits()
}

fn stats_tuple(s: BeaconStats) -> (usize, u64, u64, usize) {
    (s.total_events, s.total_emitted, s.total_decayed, s.known_targets)
}

#[test]
fn emitted_event_is_observed_last() {
    let mut beacon = TrustBeacon::new();
    beacon.emit("a", "ship", "success", bits(0.8));
    beacon.emit("b", "other", "failure", bits(-0.9));
    let before_other = beacon.observe("other").len();
    assert!(beacon.emit("c", "ship", "timeout", bits(-0.5)));
    let seen = beacon.observe("ship");
    assert_eq!(seen.len(), 2);
    assert_eq!(seen[1].emitter, "c");
    assert_eq!(seen[1].event_type, "timeout");
    assert_eq!(seen[1].strength, bits(-0.5));
    assert_eq!(seen[1].generation, 0);
    assert!(!seen[1].decayed);
    assert_eq!(beacon.event_count("ship"), 2);
    assert_eq!(beacon.observe("other").len(), before_other);
    assert_eq!(beacon.total_emitted(), 3);
}

#[test]
fn emit_clamps_strength() {
    let mut beacon = TrustBeacon::new();
    beacon.emit("a", "t", "boost", bits(7.5));
    beacon.emit("a", "t", "odd", f32::NAN.to_bits());
    beacon.emit("a", "t", "reduce", bits(-3.0));
    assert_eq!(beacon.events()[0].strength, ONE_BITS);
    assert_eq!(beacon.events()[1].strength, MINUS_ONE_BITS);
    assert_eq!(beacon.events()[2].strength, MINUS_ONE_BITS);
}

#[test]
fn full_beacon_refuses_and_stays() {
    let mut beacon = TrustBeacon::new().with_max_events(1);
    assert!(beacon.emit("a", "x", "success", bits(0.8)));
    let before = stats_tuple(beacon.stats());
    assert!(!beacon.emit("a", "y", "success", bits(0.8)));
    assert_eq!(stats_tuple(beacon.stats()), before);
    assert_eq!(beacon.event_count("y"), 0);
}

#[test]
fn prune_clears_only_its_target() {
    let mut beacon = TrustBeacon::new();
    beacon.emit("a", "x", "success", bits(0.8));
    beacon.emit("a", "y", "success", bits(0.8));
    beacon.emit("b", "x", "failure", bits(-0.9));
    beacon.emit("b", "z", "failure", bits(-0.9));
    assert_eq!(beacon.prune_target("x"), 2);
    assert_eq!(beacon.event_count("x"), 0);
    assert_eq!(beacon.event_count("y"), 1);
    assert_eq!(beacon.event_count("z"), 1);
    assert_eq!(beacon.events()[0].target, "y");
    assert_eq!(beacon.events()[1].target, "z");
    assert_eq!(beacon.prune_target("nobody"), 0);
    assert_eq!(beacon.total_emitted(), 4);
}

#[test]
fn decay_all_keeps_no_decayed_event() {
    let mut beacon = TrustBeacon::new();
    beacon.emit("a", "x", "success", bits(0.8));
    let mut stale = TrustEvent::resurrect("a", "y");
    stale.decayed = true;
    beacon.emit_batch(vec![stale]);
    beacon.emit("a", "z", "success", bits(0.04));
    let scaled = vec![bits(0.72), bits(0.54), bits(0.036)];
    let removed = beacon.decay_all(&scaled);
    assert_eq!(removed, 2);
    assert_eq!(beacon.total_decayed(), 2);
    assert_eq!(beacon.events().len(), 1);
    assert_eq!(beacon.events()[0].target, "x");
    assert_eq!(beacon.events()[0].generation, 1);
    assert_eq!(beacon.events()[0].strength, bits(0.72));
    assert!(beacon.events().iter().all(|e| !e.decayed));
}

#[test]
fn decayed_flag_is_sticky() {
    let mut e = TrustEvent::success("a", "b");
    e.decay(bits(0.01));
    assert!(e.decayed);
    e.decay(bits(0.9));
    assert!(e.decayed);
    assert_eq!(e.generation, 2);
    let mut n = TrustEvent::failure("a", "b");
    n.decay(bits(-0.05));
    assert!(!n.decayed);
    n.decay(bits(-0.049));
    assert!(n.decayed);
}

#[test]
fn batch_stops_at_capacity() {
    let mut beacon = TrustBeacon::new().with_max_events(3);
    beacon.emit("a", "x", "success", bits(0.8));
    let batch = vec![
        TrustEvent::success("b", "p"),
        TrustEvent::failure("b", "q"),
        TrustEvent::timeout("b", "r"),
        TrustEvent::corruption("b", "s"),
    ];
    assert_eq!(beacon.emit_batch(batch), 2);
    assert_eq!(beacon.events().len(), 3);
    assert_eq!(beacon.events()[1].target, "p");
    assert_eq!(beacon.events()[2].target, "q");
    assert_eq!(beacon.total_emitted(), 3);
    assert_eq!(beacon.emit_batch(vec![TrustEvent::success("c", "t")]), 0);
}

#[test]
fn propagate_copies_in_order() {
    let mut a = TrustBeacon::new();
    a.emit("s1", "x", "success", bits(0.8));
    a.emit("s1", "y", "failure", bits(-0.9));
    let mut b = TrustBeacon::new().with_max_events(1);
    assert_eq!(b.propagate_from(&a), 1);
    assert_eq!(b.events()[0].target, "x");
    assert_eq!(b.events()[0].timestamp, a.events()[0].timestamp);
    assert_eq!(a.events().len(), 2);
}

#[test]
fn observed_excludes_decayed() {
    let mut beacon = TrustBeacon::new().with_consensus_threshold(2);
    beacon.emit("a", "x", "success", bits(0.8));
    let mut old = TrustEvent::success("b", "x");
    old.decayed = true;
    beacon.emit_batch(vec![old]);
    assert_eq!(beacon.observe("x").len(), 1);
    assert_eq!(beacon.event_count("x"), 2);
    assert!(beacon.consensus_strengths("x").is_none());
    beacon.emit("c", "x", "failure", bits(-0.9));
    assert_eq!(beacon.consensus_strengths("x"), Some(vec![bits(0.8), bits(-0.9)]));
}

#[test]
fn known_targets_once_each_in_first_order() {
    let mut beacon = TrustBeacon::new();
    for t in ["b", "a", "b", "c", "a"] {
        beacon.emit("e", t, "success", bits(0.8));
    }
    assert_eq!(beacon.known_targets(), vec!["b".to_string(), "a".to_string(), "c".to_string()]);
    let set: HashSet<String> = beacon.known_targets().into_iter().collect();
    assert_eq!(set.len(), beacon.stats().known_targets);
}

#[test]
fn stats_after_decay_and_prune() {
    let mut beacon = TrustBeacon::new();
    beacon.emit("a", "x", "success", bits(0.8));
    beacon.emit("a", "y", "success", bits(0.01));
    beacon.decay_all(&vec![bits(0.4), bits(0.005)]);
    beacon.prune_target("x");
    assert_eq!(stats_tuple(beacon.stats()), (0, 2, 1, 0));
}

#[test]
fn default_is_new() {
    let d = TrustBeacon::default();
    let n = TrustBeacon::new();
    assert_eq!(d.max_events(), 10_000);
    assert_eq!(d.max_events(), n.max_events());
    assert_eq!(d.decay_factor(), n.decay_factor());
    assert_eq!(d.consensus_threshold(), 3);
    assert_eq!(stats_tuple(d.stats()), (0, 0, 0, 0));
}

#[test]
fn clone_keeps_every_field() {
    let e = TrustEvent::corruption("a", "b");
    let c = e.clone();
    assert_eq!(c.event_type, e.event_type);
    assert_eq!(c.emitter, e.emitter);
    assert_eq!(c.target, e.target);
    assert_eq!(c.strength, e.strength);
    assert_eq!(c.timestamp, e.timestamp);
    assert_eq!(c.generation, e.generation);
    assert_eq!(c.decayed, e.decayed);
}

#[test]
fn new_event_is_stamped_and_fresh() {
    let e = TrustEvent::new("me", "you", "ping", bits(0.3));
    assert_eq!(e.emitter, "me");
    assert_eq!(e.target, "you");
    assert_eq!(e.event_type, "ping");
    assert_eq!(e.strength, bits(0.3));
    assert_eq!(e.generation, 0);
    assert!(!e.decayed);
    assert!(e.timestamp > 0);
}

#[test]
fn level_boundaries_and_names() {
    assert_eq!(FluxTrustLevel::from_score(0.2f64.to_bits()), FluxTrustLevel::Suspicious);
    assert_eq!(FluxTrustLevel::from_score(0.8f64.to_bits()), FluxTrustLevel::Verified);
    assert_eq!(FluxTrustLevel::from_score((-3.0f64).to_bits()), FluxTrustLevel::Unknown);
    assert_eq!(FluxTrustLevel::from_score(f64::NAN.to_bits()), FluxTrustLevel::Verified);
    assert_eq!(FluxTrustLevel::from_score(f64::INFINITY.to_bits()), FluxTrustLevel::Verified);
    assert_eq!(FluxTrustLevel::from_score(0.0f64.to_bits()), FluxTrustLevel::Unknown);
    assert_eq!(FluxTrustLevel::Unknown.name(), "unknown");
    assert_eq!(FluxTrustLevel::Suspicious.name(), "suspicious");
    assert_eq!(FluxTrustLevel::Neutral.name(), "neutral");
    assert_eq!(FluxTrustLevel::Trusted.name(), "trusted");
    assert_eq!(FluxTrustLevel::Verified.name(), "verified");
}

#[test]
fn levels_rise_with_score() {
    let rank = |l: FluxTrustLevel| match l {
        FluxTrustLevel::Unknown => 0,
        FluxTrustLevel::Suspicious => 1,
        FluxTrustLevel::Neutral => 2,
        FluxTrustLevel::Trusted => 3,
        FluxTrustLevel::Verified => 4,
    };
    let mut last = 0;
    for i in -10..=20 {
        let score = i as f64 * 0.05;
        let r = rank(FluxTrustLevel::from_score(score.to_bits()));
        assert!(r >= last);
        last = r;
    }
}

#[test]
fn agent_targets_are_decimal_and_distinct() {
    assert_eq!(agent_target(0), "agent-0");
    assert_eq!(agent_target(7), "agent-7");
    assert_eq!(agent_target(42), "agent-42");
    assert_eq!(agent_target(100), "agent-100");
    assert_eq!(agent_target(u32::MAX), "agent-4294967295");
    let set: HashSet<String> = (0..1000).map(agent_target).collect();
    assert_eq!(set.len(), 1000);
}

#[test]
fn adapter_update_picks_event_type() {
    let mut beacon = TrustBeacon::new();
    let mut adapter = FluxTrustAdapter::wrap(&mut beacon, "me");
    adapter.update(3, 0.5f64.to_bits(), 0.4f32.to_bits());
    adapter.update(3, 0.51f64.to_bits(), 0.7f32.to_bits());
    adapter.update(4, f64::NAN.to_bits(), 2.0f32.to_bits());
    assert_eq!(adapter.identity, "me");
    let events = &adapter.beacon.events();
    assert_eq!(events[0].event_type, "failure");
    assert_eq!(events[0].target, "agent-3");
    assert_eq!(events[0].emitter, "me");
    assert_eq!(events[0].strength, (-0.4f32).to_bits());
    assert_eq!(events[1].event_type, "success");
    assert_eq!(events[1].strength, 0.7f32.to_bits());
    assert_eq!(events[2].event_type, "failure");
    assert_eq!(events[2].target, "agent-4");
    assert_eq!(events[2].strength, MINUS_ONE_BITS);
}

#[test]
fn adapter_revoke_emits_negative_corruption() {
    let mut beacon = TrustBeacon::new();
    {
        let mut adapter = FluxTrustAdapter::wrap(&mut beacon, "judge");
        adapter.revoke(99);
    }
    assert_eq!(beacon.events().len(), 1);
    assert_eq!(beacon.events()[0].event_type, "corruption");
    assert_eq!(beacon.events()[0].target, "agent-99");
    assert_eq!(beacon.events()[0].emitter, "judge");
    assert_eq!(beacon.events()[0].strength, MINUS_ONE_BITS);
    assert!(beacon.events()[0].is_negative());
}

#[test]
fn adapter_decay_all_decays_beacon() {
    let mut beacon = TrustBeacon::new();
    {
        let mut adapter = FluxTrustAdapter::wrap(&mut beacon, "me");
        adapter.revoke(1);
        adapter.revoke(2);
        adapter.decay_all(&vec![0.5f32.to_bits(), 0.01f32.to_bits()]);
    }
    assert_eq!(beacon.events().len(), 1);
    assert_eq!(beacon.events()[0].target, "agent-1");
    assert_eq!(beacon.total_decayed(), 1);
}

#[test]
fn new_at_keeps_given_timestamp() {
    let e = TrustEvent::new_at("me", "you", "ping", bits(5.0), 1234);
    assert_eq!(e.timestamp, 1234);
    assert_eq!(e.strength, ONE_BITS);
    assert_eq!(e.generation, 0);
    assert!(!e.decayed);
    assert_eq!(e.emitter, "me");
}

#[test]
fn fleet_event_is_emitted_as_fleet() {
    let mut beacon = TrustBeacon::new().with_max_events(1);
    assert!(beacon.emit_fleet_event("success", "target", bits(0.8)));
    assert!(!beacon.emit_fleet_event("success", "target", bits(0.8)));
    assert_eq!(beacon.events().len(), 1);
    assert_eq!(beacon.events()[0].emitter, "fleet");
    assert_eq!(beacon.events()[0].event_type, "success");
    assert_eq!(beacon.events()[0].target, "target");
}

#[test]
fn record_delta_picks_boost_or_reduce() {
    let mut beacon = TrustBeacon::new();
    let mut adapter = FluxTrustAdapter::wrap(&mut beacon, "me");
    adapter.record_delta(5, 0.4f64.to_bits(), 0.4f32.to_bits());
    adapter.record_delta(5, (-0.3f64).to_bits(), 0.3f32.to_bits());
    adapter.record_delta(5, 0.0f64.to_bits(), 0.0f32.to_bits());
    adapter.record_delta(5, f64::NAN.to_bits(), f32::NAN.to_bits());
    let events = &adapter.beacon.events();
    assert_eq!(events[0].event_type, "boost");
    assert_eq!(events[0].target, "agent-5");
    assert_eq!(events[0].strength, 0.4f32.to_bits());
    assert_eq!(events[1].event_type, "reduce");
    assert_eq!(events[1].strength, (-0.3f32).to_bits());
    assert_eq!(events[2].event_type, "reduce");
    assert_eq!(events[2].strength, (-0.0f32).to_bits());
    assert!(!events[2].is_negative());
    assert_eq!(events[3].event_type, "reduce");
    assert_eq!(events[3].strength, MINUS_ONE_BITS);
}

#[test]
fn counters_account_for_events() {
    let mut beacon = TrustBeacon::new().with_max_events(4);
    beacon.emit("a", "x", "success", bits(0.8));
    beacon.emit("a", "y", "success", bits(0.01));
    beacon.emit_batch(vec![TrustEvent::failure("b", "x"), TrustEvent::timeout("b", "z"), TrustEvent::success("b", "w")]);
    let scaled: Vec<u32> = beacon.events().iter().map(|e| (f32::from_bits(e.strength) * 0.9).to_bits()).collect();
    beacon.decay_all(&scaled);
    beacon.prune_target("x");
    let s = beacon.stats();
    assert_eq!((s.total_events, s.total_emitted, s.total_decayed, s.known_targets), (1, 4, 1, 1));
    assert!(s.total_events as u64 + s.total_decayed <= s.total_emitted);
    assert!(s.known_targets <= s.total_events);
}

#[test]
fn consensus_ignores_other_targets() {
    let mut beacon = TrustBeacon::new().with_consensus_threshold(1);
    beacon.emit("a", "t", "success", bits(0.8));
    let before = beacon.consensus_strengths("t");
    beacon.emit("a", "u", "failure", bits(-0.9));
    assert_eq!(beacon.consensus_strengths("t"), before);
    beacon.prune_target("u");
    assert_eq!(beacon.consensus_strengths("t"), before);
}

#[test]
fn propagate_matches_batch_of_copies() {
    let mut src = TrustBeacon::new();
    src.emit("s", "x", "success", bits(0.8));
    src.emit("s", "y", "failure", bits(-0.9));
    let mut a = TrustBeacon::new().with_max_events(1);
    let mut b = a.clone();
    let ra = a.propagate_from(&src);
    let rb = b.emit_batch(src.events().clone());
    assert_eq!(ra, rb);
    assert_eq!(a.events().len(), b.events().len());
    assert_eq!(a.events()[0].timestamp, b.events()[0].timestamp);
    assert_eq!(a.total_emitted(), b.total_emitted());
    assert_eq!(format!("{:?}", a), format!("{:?}", b));
}

/// The consensus value: 0.5 without consensus, else the mean strength
/// mapped from [-1, 1] to [0, 1].
fn consensus_of(beacon: &TrustBeacon, target: &str) -> f32 {
    match beacon.consensus_strengths(target) {
        None => 0.5,
        Some(v) => {
            let sum: f32 = v.iter().map(|b| f32::from_bits(*b)).sum();
            (sum / v.len() as f32 + 1.0) / 2.0
        }
    }
}

#[test]
fn no_observation_means_no_consensus() {
    let mut beacon = TrustBeacon::new().with_consensus_threshold(0);
    assert!(beacon.consensus_strengths("t").is_none());
    assert_eq!(consensus_of(&beacon, "t"), 0.5);
    beacon.emit("a", "t", "success", bits(0.8));
    assert_eq!(beacon.consensus_strengths("t"), Some(vec![bits(0.8)]));
}

#[test]
fn revoked_agent_loses_trust() {
    let mut beacon = TrustBeacon::new().with_consensus_threshold(1);
    {
        let mut adapter = FluxTrustAdapter::wrap(&mut beacon, "id");
        adapter.revoke(9);
    }
    assert!(consensus_of(&beacon, "agent-9") < 0.5);
}

#[test]
fn failure_evidence_lowers_trust() {
    let mut beacon = TrustBeacon::new().with_consensus_threshold(1);
    {
        let mut adapter = FluxTrustAdapter::wrap(&mut beacon, "id");
        adapter.update(1, 0.0f64.to_bits(), 0.8f32.to_bits());
    }
    assert!(consensus_of(&beacon, "agent-1") < 0.5);
}

#[test]
fn lower_score_does_not_raise_trust() {
    let mut beacon = TrustBeacon::new().with_consensus_threshold(1);
    {
        let mut adapter = FluxTrustAdapter::wrap(&mut beacon, "id");
        // set(7, 0.1) from the neutral 0.5: delta -0.4
        let delta: f64 = 0.1 - 0.5;
        adapter.record_delta(7, delta.to_bits(), (delta.abs() as f32).to_bits());
    }
    assert!(consensus_of(&beacon, "agent-7") <= 0.5);
    assert_eq!(beacon.event_count("agent-8"), 0);
}

#[test]
fn observed_events_are_copies_of_observed() {
    let mut beacon = TrustBeacon::new();
    beacon.emit("a", "t", "success", bits(0.8));
    beacon.emit("b", "u", "failure", bits(-0.9));
    beacon.emit("c", "t", "timeout", bits(-0.5));
    let copies = beacon.observed_events("t");
    assert_eq!(copies.len(), 2);
    assert_eq!(copies[0].emitter, "a");
    assert_eq!(copies[1].emitter, "c");
    assert_eq!(copies[1].timestamp, beacon.events()[2].timestamp);
}

#[test]
fn counters_hold_for_any_beacon() {
    let mut beacon = TrustBeacon::new().with_max_events(3);
    beacon.emit_batch(vec![TrustEvent::success("a", "x"), TrustEvent::success("a", "y")]);
    beacon.decay_all(&vec![bits(0.01), bits(0.5)]);
    let (held, emitted, decayed) = beacon.counters();
    assert_eq!((held, emitted, decayed), (1, 2, 1));
    assert!(held as u64 + decayed <= emitted);
}
