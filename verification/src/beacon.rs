//! The trust beacon: emits and observes trust events across the fleet and
//! decides when enough observations exist for a consensus.

use vstd::prelude::*;
use vstd::string::*;

use crate::event::{decays_below_floor, TrustEvent};
use crate::signal::clamp_unit;

verus! {

/// Capacity of a new beacon.
pub const DEFAULT_MAX_EVENTS: usize = 10_000;

/// Decay factor of a new beacon: 0.9 (binary32 encoding), a 10% reduction
/// per generation.
pub const DEFAULT_DECAY_FACTOR: u32 = 0x3F66_6666;

/// Observations a new beacon needs before it forms a consensus.
pub const DEFAULT_CONSENSUS_THRESHOLD: usize = 3;

/// Emits and observes trust events; builds consensus from them.
///
/// Its counters account for its events: every event held or decayed away
/// was emitted (see `counters_consistent`).
#[derive(Debug)]
pub struct TrustBeacon {
    events: Vec<TrustEvent>,
    max_events: usize,
    decay_factor: u32,
    consensus_threshold: usize,
    total_emitted: u64,
    total_decayed: u64,
}

/// What a beacon holds, as mathematical values.
pub struct BeaconView {
    /// The events held, oldest first.
    pub events: Seq<TrustEvent>,
    /// How many events `emit` and `emit_batch` let the beacon hold.
    pub max_events: usize,
    /// Factor applied to every strength at each decay (binary32 encoding).
    pub decay_factor: u32,
    /// Minimum number of observations for a consensus.
    pub consensus_threshold: usize,
    /// Events taken in by `emit`, `emit_batch` and `propagate_from`.
    pub total_emitted: u64,
    /// Events removed by `decay_all`.
    pub total_decayed: u64,
}

impl View for TrustBeacon {
    type V = BeaconView;

    closed spec fn view(&self) -> BeaconView {
        BeaconView {
            events: self.events@,
            max_events: self.max_events,
            decay_factor: self.decay_factor,
            consensus_threshold: self.consensus_threshold,
            total_emitted: self.total_emitted,
            total_decayed: self.total_decayed,
        }
    }
}

impl TrustBeacon {
    #[verifier::type_invariant]
    closed spec fn counters_hold(self) -> bool {
        counters_consistent(self@)
    }
}

/// Counters describing a beacon.
#[derive(Debug, Clone, Copy)]
pub struct BeaconStats {
    pub total_events: usize,
    pub total_emitted: u64,
    pub total_decayed: u64,
    pub known_targets: usize,
}

/// An event about `target` that has not decayed.
pub open spec fn observed_by(target: Seq<char>) -> spec_fn(TrustEvent) -> bool {
    |e: TrustEvent| e.target@ == target && !e.decayed
}

/// An event about `target`.
pub open spec fn is_about(target: Seq<char>) -> spec_fn(TrustEvent) -> bool {
    |e: TrustEvent| e.target@ == target
}

/// An event about anyone but `target`.
pub open spec fn not_about(target: Seq<char>) -> spec_fn(TrustEvent) -> bool {
    |e: TrustEvent| e.target@ != target
}

/// An event that has not decayed.
pub open spec fn alive() -> spec_fn(TrustEvent) -> bool {
    |e: TrustEvent| !e.decayed
}

/// The events that an observer sees about `target`, in order.
pub open spec fn observed(events: Seq<TrustEvent>, target: Seq<char>) -> Seq<TrustEvent> {
    events.filter(observed_by(target))
}

/// The events about `target`, decayed or not, in order.
pub open spec fn events_about(events: Seq<TrustEvent>, target: Seq<char>) -> Seq<TrustEvent> {
    events.filter(is_about(target))
}

/// The strengths of a sequence of events.
pub open spec fn strengths(events: Seq<TrustEvent>) -> Seq<u32> {
    events.map_values(|e: TrustEvent| e.strength)
}

/// The targets of a sequence of events.
pub open spec fn targets(events: Seq<TrustEvent>) -> Seq<Seq<char>> {
    events.map_values(|e: TrustEvent| e.target@)
}

/// The contents of a sequence of strings.
pub open spec fn views(strings: Seq<String>) -> Seq<Seq<char>> {
    strings.map_values(|s: String| s@)
}

/// An event after one generation of decay to the strength `scaled`.
pub open spec fn decayed_once(e: TrustEvent, scaled: u32) -> TrustEvent {
    TrustEvent {
        event_type: e.event_type,
        emitter: e.emitter,
        target: e.target,
        strength: scaled,
        timestamp: e.timestamp,
        generation: (e.generation + 1) as u32,
        decayed: e.decayed || decays_below_floor(scaled),
    }
}

/// Every event decayed once, the i-th to the i-th scaled strength.
pub open spec fn decay_step(events: Seq<TrustEvent>, scaled: Seq<u32>) -> Seq<TrustEvent> {
    Seq::new(events.len(), |i: int| decayed_once(events[i], scaled[i]))
}

/// How many of `offered` events a beacon holding `held` events, with
/// capacity `capacity`, takes in.
pub open spec fn accepted(held: int, capacity: int, offered: int) -> int {
    if held >= capacity {
        0
    } else if offered < capacity - held {
        offered
    } else {
        capacity - held
    }
}

/// `post` is `pre` after an emit of the given event: unchanged when `pre`
/// is full, otherwise with the event (strength clamped, generation 0, not
/// decayed) appended and one more emitted.
pub open spec fn emitted(
    pre: BeaconView,
    post: BeaconView,
    emitter: Seq<char>,
    target: Seq<char>,
    event_type: Seq<char>,
    strength: u32,
) -> bool {
    if pre.events.len() < pre.max_events {
        &&& post.events.len() == pre.events.len() + 1
        &&& post.events.drop_last() == pre.events
        &&& post.events.last().emitter@ == emitter
        &&& post.events.last().target@ == target
        &&& post.events.last().event_type@ == event_type
        &&& post.events.last().strength == clamp_unit(strength)
        &&& post.events.last().generation == 0
        &&& !post.events.last().decayed
        &&& post.total_emitted == pre.total_emitted + 1
        &&& post.total_decayed == pre.total_decayed
        &&& post.max_events == pre.max_events
        &&& post.decay_factor == pre.decay_factor
        &&& post.consensus_threshold == pre.consensus_threshold
    } else {
        post == pre
    }
}

/// `post` is `pre` after `decay_all` with the scaled strengths `scaled`,
/// which removed `removed` events.
pub open spec fn decayed_all(pre: BeaconView, post: BeaconView, scaled: Seq<u32>, removed: int) -> bool {
    &&& post.events == decay_step(pre.events, scaled).filter(alive())
    &&& removed == pre.events.len() - post.events.len()
    &&& post.total_decayed == pre.total_decayed + removed
    &&& post.max_events == pre.max_events
    &&& post.decay_factor == pre.decay_factor
    &&& post.consensus_threshold == pre.consensus_threshold
    &&& post.total_emitted == pre.total_emitted
}

/// `post` is `pre` after taking in, as a batch, events from `offered`:
/// the first `taken` of them, as many as fit under `max_events`.
pub open spec fn batch_taken(pre: BeaconView, post: BeaconView, offered: Seq<TrustEvent>, taken: int) -> bool {
    &&& taken == accepted(pre.events.len() as int, pre.max_events as int, offered.len() as int)
    &&& post.events == pre.events + offered.take(taken)
    &&& post.total_emitted == pre.total_emitted + taken
    &&& post.max_events == pre.max_events
    &&& post.decay_factor == pre.decay_factor
    &&& post.consensus_threshold == pre.consensus_threshold
    &&& post.total_decayed == pre.total_decayed
}

/// `post` is `pre` after pruning `target`.
pub open spec fn pruned(pre: BeaconView, post: BeaconView, target: Seq<char>) -> bool {
    &&& post.events == pre.events.filter(not_about(target))
    &&& post.max_events == pre.max_events
    &&& post.decay_factor == pre.decay_factor
    &&& post.consensus_threshold == pre.consensus_threshold
    &&& post.total_emitted == pre.total_emitted
    &&& post.total_decayed == pre.total_decayed
}

/// The counters account for the events: every event held or decayed away
/// was emitted. (Pruned events leave the first side without a trace.)
pub open spec fn counters_consistent(b: BeaconView) -> bool {
    b.events.len() + b.total_decayed <= b.total_emitted
}

/// The consensus inputs about `target`: `None` (no consensus) when nothing
/// is observed or fewer than the threshold, else the observed strengths
/// in order.
pub open spec fn consensus_of(b: BeaconView, target: Seq<char>) -> Option<Seq<u32>> {
    let seen = observed(b.events, target);
    if seen.len() == 0 || seen.len() < b.consensus_threshold {
        None
    } else {
        Some(strengths(seen))
    }
}

/// One more element of `s` filtered by `p`.
proof fn lemma_filter_take_step<A>(s: Seq<A>, p: spec_fn(A) -> bool, i: int)
    requires
        0 <= i < s.len(),
    ensures
        s.take(i + 1).filter(p) == (if p(s[i]) {
            s.take(i).filter(p).push(s[i])
        } else {
            s.take(i).filter(p)
        }),
{
    reveal(Seq::filter);
    assert(s.take(i + 1).drop_last() =~= s.take(i));
}

proof fn lemma_filter_len<A>(s: Seq<A>, p: spec_fn(A) -> bool)
    ensures
        s.filter(p).len() <= s.len(),
{
    broadcast use Seq::lemma_filter_len;
}

/// Copies of the events, equal to them.
fn copy_events(events: &Vec<TrustEvent>) -> (r: Vec<TrustEvent>)
    ensures
        r@ == events@,
{
    let mut out: Vec<TrustEvent> = Vec::new();
    let mut i: usize = 0;
    while i < events.len()
        invariant
            i <= events.len(),
            out@ == events@.take(i as int),
        decreases events.len() - i,
    {
        out.push(events[i].clone());
        assert(events@.take(i + 1) =~= events@.take(i as int).push(events@[i as int]));
        i = i + 1;
    }
    assert(events@.take(events.len() as int) =~= events@);
    out
}

/// Whether one of the strings has the contents of `s`.
fn has_string(strings: &Vec<String>, s: &String) -> (r: bool)
    ensures
        r == views(strings@).contains(s@),
{
    let mut i: usize = 0;
    while i < strings.len()
        invariant
            i <= strings.len(),
            forall|j: int| 0 <= j < i ==> strings@[j]@ != s@,
        decreases strings.len() - i,
    {
        if strings[i] == *s {
            assert(views(strings@)[i as int] == s@);
            return true;
        }
        i = i + 1;
    }
    proof {
        if views(strings@).contains(s@) {
            let k = choose|k: int| 0 <= k < views(strings@).len() && views(strings@)[k] == s@;
            assert(strings@[k]@ == s@);
        }
    }
    false
}

impl TrustBeacon {
    /// An empty beacon: capacity 10 000, decay factor 0.9, consensus after
    /// 3 observations.
    pub fn new() -> (r: Self)
        ensures
            r@.events == Seq::<TrustEvent>::empty(),
            r@.max_events == DEFAULT_MAX_EVENTS,
            r@.decay_factor == DEFAULT_DECAY_FACTOR,
            r@.consensus_threshold == DEFAULT_CONSENSUS_THRESHOLD,
            r@.total_emitted == 0,
            r@.total_decayed == 0,
    {
        TrustBeacon {
            events: Vec::new(),
            max_events: DEFAULT_MAX_EVENTS,
            decay_factor: DEFAULT_DECAY_FACTOR,
            consensus_threshold: DEFAULT_CONSENSUS_THRESHOLD,
            total_emitted: 0,
            total_decayed: 0,
        }
    }

    /// The counters of every beacon account for its events.
    pub fn counters(&self) -> (r: (usize, u64, u64))
        ensures
            r == (self@.events.len() as usize, self@.total_emitted, self@.total_decayed),
            counters_consistent(self@),
    {
        proof {
            use_type_invariant(self);
        }
        (self.events.len(), self.total_emitted, self.total_decayed)
    }

    /// The events held, oldest first.
    pub fn events(&self) -> (r: &Vec<TrustEvent>)
        ensures
            r@ == self@.events,
    {
        &self.events
    }

    /// How many events `emit` and `emit_batch` let the beacon hold.
    pub fn max_events(&self) -> (r: usize)
        ensures
            r == self@.max_events,
    {
        self.max_events
    }

    /// The decay factor (binary32 encoding).
    pub fn decay_factor(&self) -> (r: u32)
        ensures
            r == self@.decay_factor,
    {
        self.decay_factor
    }

    /// Minimum number of observations for a consensus.
    pub fn consensus_threshold(&self) -> (r: usize)
        ensures
            r == self@.consensus_threshold,
    {
        self.consensus_threshold
    }

    /// Events taken in so far.
    pub fn total_emitted(&self) -> (r: u64)
        ensures
            r == self@.total_emitted,
    {
        self.total_emitted
    }

    /// Events removed by decay so far.
    pub fn total_decayed(&self) -> (r: u64)
        ensures
            r == self@.total_decayed,
    {
        self.total_decayed
    }

    /// The same beacon with another decay factor (binary32 encoding).
    pub fn with_decay_factor(self, f: u32) -> (r: Self)
        ensures
            r@ == (BeaconView { decay_factor: f, ..self@ }),
    {
        let mut b = self;
        proof {
            use_type_invariant(&b);
        }
        b.decay_factor = f;
        b
    }

    /// The same beacon with another consensus threshold.
    pub fn with_consensus_threshold(self, t: usize) -> (r: Self)
        ensures
            r@ == (BeaconView { consensus_threshold: t, ..self@ }),
    {
        let mut b = self;
        proof {
            use_type_invariant(&b);
        }
        b.consensus_threshold = t;
        b
    }

    /// The same beacon with another capacity.
    pub fn with_max_events(self, n: usize) -> (r: Self)
        ensures
            r@ == (BeaconView { max_events: n, ..self@ }),
    {
        let mut b = self;
        proof {
            use_type_invariant(&b);
        }
        b.max_events = n;
        b
    }

    /// Emits an event with an explicit strength (binary32 encoding, clamped
    /// to [-1, 1]). A full beacon (holding `max_events` or more) refuses it
    /// and stays as it was; otherwise the event goes to the end and the
    /// emitted counter grows by one.
    pub fn emit(&mut self, emitter: &str, target: &str, event_type: &str, strength: u32) -> (r:
        bool)
        requires
            old(self)@.events.len() < old(self)@.max_events ==> old(self)@.total_emitted
                < u64::MAX,
        ensures
            r == (old(self)@.events.len() < old(self)@.max_events),
            emitted(old(self)@, final(self)@, emitter@, target@, event_type@, strength),
    {
        proof {
            use_type_invariant(&*self);
        }
        if self.events.len() >= self.max_events {
            return false;
        }
        let event = TrustEvent::new(emitter, target, event_type, strength);
        self.total_emitted = self.total_emitted + 1;
        let mut held: Vec<TrustEvent> = Vec::new();
        std::mem::swap(&mut held, &mut self.events);
        held.push(event);
        self.events = held;
        assert(self.events@.drop_last() =~= old(self).events@);
        true
    }

    /// Emits an event on behalf of the fleet: `emit` with the emitter
    /// `fleet` (the beacon layer's `emit_event`).
    pub fn emit_fleet_event(&mut self, event: &str, target: &str, strength: u32) -> (r: bool)
        requires
            old(self)@.events.len() < old(self)@.max_events ==> old(self)@.total_emitted
                < u64::MAX,
        ensures
            r == (old(self)@.events.len() < old(self)@.max_events),
            emitted(old(self)@, final(self)@, "fleet"@, target@, event@, strength),
    {
        self.emit("fleet", target, event, strength)
    }

    /// The events about `target` that have not decayed, oldest first.
    pub fn observe(&self, target: &str) -> (r: Vec<&TrustEvent>)
        ensures
            r@.map_values(|e: &TrustEvent| *e) == observed(self@.events, target@),
    {
        let t = String::from_str(target);
        let mut out: Vec<&TrustEvent> = Vec::new();
        let mut i: usize = 0;
        while i < self.events.len()
            invariant
                i <= self.events.len(),
                t@ == target@,
                out@.map_values(|e: &TrustEvent| *e) == self.events@.take(i as int).filter(
                    observed_by(target@),
                ),
            decreases self.events.len() - i,
        {
            let e = &self.events[i];
            proof {
                lemma_filter_take_step(self.events@, observed_by(target@), i as int);
            }
            if e.target == t && !e.decayed {
                out.push(e);
                assert(out@.map_values(|e: &TrustEvent| *e) =~= self.events@.take(
                    i as int,
                ).filter(observed_by(target@)).push(*e));
            }
            i = i + 1;
        }
        assert(self.events@.take(self.events.len() as int) =~= self.events@);
        out
    }

    /// Number of events about `target`, decayed or not.
    pub fn event_count(&self, target: &str) -> (r: usize)
        ensures
            r == events_about(self@.events, target@).len(),
    {
        let t = String::from_str(target);
        let mut count: usize = 0;
        let mut i: usize = 0;
        while i < self.events.len()
            invariant
                i <= self.events.len(),
                t@ == target@,
                count == self.events@.take(i as int).filter(is_about(target@)).len(),
            decreases self.events.len() - i,
        {
            proof {
                lemma_filter_take_step(self.events@, is_about(target@), i as int);
                lemma_filter_len(self.events@.take(i as int), is_about(target@));
            }
            if self.events[i].target == t {
                count = count + 1;
            }
            i = i + 1;
        }
        assert(self.events@.take(self.events.len() as int) =~= self.events@);
        count
    }

    /// Copies of the events about `target` that have not decayed, oldest
    /// first (the beacon layer's `observe_events`).
    pub fn observed_events(&self, target: &str) -> (r: Vec<TrustEvent>)
        ensures
            r@ == observed(self@.events, target@),
    {
        let seen = self.observe(target);
        let mut out: Vec<TrustEvent> = Vec::new();
        let mut i: usize = 0;
        while i < seen.len()
            invariant
                i <= seen.len(),
                seen@.map_values(|e: &TrustEvent| *e) == observed(self@.events, target@),
                out@ == observed(self@.events, target@).take(i as int),
            decreases seen.len() - i,
        {
            let e = seen[i];
            assert(seen@.map_values(|e: &TrustEvent| *e)[i as int] == *e);
            out.push(e.clone());
            assert(out@ =~= observed(self@.events, target@).take(i + 1));
            i = i + 1;
        }
        assert(out@ =~= observed(self@.events, target@));
        out
    }

    /// Removes every event about `target`; returns how many went. The
    /// others keep their order.
    pub fn prune_target(&mut self, target: &str) -> (r: usize)
        ensures
            pruned(old(self)@, final(self)@, target@),
            r == old(self)@.events.len() - final(self)@.events.len(),
    {
        proof {
            use_type_invariant(&*self);
        }
        let t = String::from_str(target);
        let mut kept: Vec<TrustEvent> = Vec::new();
        let n = self.events.len();
        let mut i: usize = 0;
        while i < n
            invariant
                n == self.events.len(),
                i <= n,
                t@ == target@,
                kept@ == self.events@.take(i as int).filter(not_about(target@)),
            decreases n - i,
        {
            proof {
                lemma_filter_take_step(self.events@, not_about(target@), i as int);
            }
            if self.events[i].target != t {
                kept.push(self.events[i].clone());
            }
            i = i + 1;
        }
        assert(self.events@.take(n as int) =~= self.events@);
        proof {
            lemma_filter_len(self.events@, not_about(target@));
        }
        let removed = n - kept.len();
        self.events = kept;
        removed
    }

    /// The strengths observed about `target`, oldest first, when events are
    /// observed and at least `consensus_threshold` of them; `None` (no
    /// consensus, a neutral trust of 0.5) otherwise. The consensus itself is
    /// the mean of these strengths mapped from [-1, 1] to [0, 1].
    pub fn consensus_strengths(&self, target: &str) -> (r: Option<Vec<u32>>)
        ensures
            r is None <==> (observed(self@.events, target@).len() == 0 || observed(
                self@.events,
                target@,
            ).len() < self@.consensus_threshold),
            r matches Some(v) ==> v@ == strengths(observed(self@.events, target@)),
            r matches Some(v) ==> v@.len() == observed(self@.events, target@).len(),
            r matches Some(v) ==> forall|i: int|
                0 <= i < v@.len() ==> v@[i] == #[trigger] observed(self@.events, target@)[i].strength,
            r matches Some(v) ==> consensus_of(self@, target@) == Some(v@),
            r is None ==> consensus_of(self@, target@) is None,
    {
        let seen = self.observe(target);
        assert(seen@.len() == observed(self@.events, target@).len());
        if seen.len() == 0 || seen.len() < self.consensus_threshold {
            return None;
        }
        let mut out: Vec<u32> = Vec::new();
        let mut i: usize = 0;
        while i < seen.len()
            invariant
                i <= seen.len(),
                seen@.map_values(|e: &TrustEvent| *e) == observed(self@.events, target@),
                out@ == strengths(observed(self@.events, target@)).take(i as int),
            decreases seen.len() - i,
        {
            let e = seen[i];
            assert(seen@.map_values(|e: &TrustEvent| *e)[i as int] == *e);
            out.push(e.strength);
            assert(out@ =~= strengths(observed(self@.events, target@)).take(i + 1));
            i = i + 1;
        }
        assert(out@ =~= strengths(observed(self@.events, target@)));
        Some(out)
    }

    /// Decays every event by one generation and drops those that have
    /// decayed; returns how many were dropped and adds that to the decayed
    /// counter. `scaled[i]` is the strength of the i-th event multiplied by
    /// `decay_factor` (binary32 encoding).
    pub fn decay_all(&mut self, scaled: &Vec<u32>) -> (r: usize)
        requires
            scaled.len() == old(self)@.events.len(),
            forall|i: int|
                0 <= i < old(self)@.events.len() ==> #[trigger] old(self)@.events[i].generation
                    < u32::MAX,
        ensures
            decayed_all(old(self)@, final(self)@, scaled@, r as int),
    {
        proof {
            use_type_invariant(&*self);
        }
        let ghost stepped = decay_step(self.events@, scaled@);
        let n = self.events.len();
        let mut kept: Vec<TrustEvent> = Vec::new();
        let mut i: usize = 0;
        while i < n
            invariant
                n == self.events.len(),
                n == scaled.len(),
                i <= n,
                stepped == decay_step(self.events@, scaled@),
                forall|j: int|
                    0 <= j < self.events.len() ==> #[trigger] self.events@[j].generation
                        < u32::MAX,
                kept@ == stepped.take(i as int).filter(alive()),
            decreases n - i,
        {
            let mut e = self.events[i].clone();
            assert(e.generation < u32::MAX);
            e.decay(scaled[i]);
            assert(e == stepped[i as int]);
            proof {
                lemma_filter_take_step(stepped, alive(), i as int);
            }
            if !e.decayed {
                kept.push(e);
            }
            i = i + 1;
        }
        assert(stepped.take(n as int) =~= stepped);
        proof {
            lemma_filter_len(stepped, alive());
        }
        let removed = n - kept.len();
        self.events = kept;
        self.total_decayed = self.total_decayed + removed as u64;
        removed
    }

    /// The distinct targets of the events held, each once.
    pub fn known_targets(&self) -> (r: Vec<String>)
        ensures
            views(r@).no_duplicates(),
            forall|t: Seq<char>| views(r@).contains(t) <==> targets(self@.events).contains(t),
    {
        let mut out: Vec<String> = Vec::new();
        let mut i: usize = 0;
        while i < self.events.len()
            invariant
                i <= self.events.len(),
                views(out@).no_duplicates(),
                forall|t: Seq<char>|
                    views(out@).contains(t) <==> targets(self.events@.take(i as int)).contains(t),
            decreases self.events.len() - i,
        {
            let ghost before = views(out@);
            let ghost tgts = targets(self.events@.take(i as int));
            let ghost next = targets(self.events@.take(i + 1));
            assert(next =~= tgts.push(self.events@[i as int].target@));
            let present = has_string(&out, &self.events[i].target);
            if !present {
                out.push(self.events[i].target.clone());
                assert(views(out@) =~= before.push(self.events@[i as int].target@));
                assert forall|t: Seq<char>| views(out@).contains(t) <==> next.contains(t) by {
                    let now = views(out@);
                    assert(before.contains(t) <==> tgts.contains(t));
                    if now.contains(t) {
                        let k = choose|k: int| 0 <= k < now.len() && now[k] == t;
                        if k < now.len() - 1 {
                            assert(before[k] == t);
                            assert(before.contains(t));
                            let k2 = choose|k2: int| 0 <= k2 < tgts.len() && tgts[k2] == t;
                            assert(next[k2] == t);
                        } else {
                            assert(next[next.len() - 1] == t);
                        }
                    }
                    if next.contains(t) {
                        let k = choose|k: int| 0 <= k < next.len() && next[k] == t;
                        if k < next.len() - 1 {
                            assert(tgts[k] == t);
                            assert(tgts.contains(t));
                            let k2 = choose|k2: int| 0 <= k2 < before.len() && before[k2] == t;
                            assert(now[k2] == t);
                        } else {
                            assert(now[now.len() - 1] == t);
                        }
                    }
                }
            } else {
                assert(views(out@).contains(self.events@[i as int].target@));
                assert forall|t: Seq<char>| views(out@).contains(t) <==> next.contains(t) by {
                    assert(views(out@).contains(t) <==> tgts.contains(t));
                    if tgts.contains(t) {
                        let k = choose|k: int| 0 <= k < tgts.len() && tgts[k] == t;
                        assert(next[k] == t);
                        assert(next.contains(t));
                    }
                    if next.contains(t) {
                        let k = choose|k: int| 0 <= k < next.len() && next[k] == t;
                        if k < next.len() - 1 {
                            assert(tgts[k] == t);
                            assert(tgts.contains(t));
                        } else {
                            assert(t == self.events@[i as int].target@);
                        }
                    }
                }
            }
            i = i + 1;
        }
        assert(self.events@.take(self.events.len() as int) =~= self.events@);
        out
    }

    /// The beacon's counters; `known_targets` is the number of distinct
    /// targets. Every event held or decayed away was emitted.
    pub fn stats(&self) -> (r: BeaconStats)
        ensures
            r.total_events == self@.events.len(),
            r.total_emitted == self@.total_emitted,
            r.total_decayed == self@.total_decayed,
            r.known_targets == targets(self@.events).to_set().len(),
            r.known_targets <= r.total_events,
            r.total_events + r.total_decayed <= r.total_emitted,
    {
        proof {
            use_type_invariant(self);
        }
        let known = self.known_targets();
        proof {
            targets(self.events@).lemma_cardinality_of_set();
            views(known@).unique_seq_to_set();
            assert(views(known@).to_set() =~= targets(self.events@).to_set());
        }
        BeaconStats {
            total_events: self.events.len(),
            total_emitted: self.total_emitted,
            total_decayed: self.total_decayed,
            known_targets: known.len(),
        }
    }

    /// Takes in the given events, in order, while the beacon holds fewer
    /// than `max_events`; the rest are dropped. Returns how many were taken.
    pub fn emit_batch(&mut self, events: Vec<TrustEvent>) -> (r: usize)
        requires
            old(self)@.total_emitted + accepted(
                old(self)@.events.len() as int,
                old(self)@.max_events as int,
                events.len() as int,
            ) <= u64::MAX,
        ensures
            batch_taken(old(self)@, final(self)@, events@, r as int),
            old(self)@.events.len() + events.len() <= old(self)@.max_events ==> r == events.len(),
            old(self)@.events.len() < old(self)@.max_events ==> (r == events.len()
                || final(self)@.events.len() == old(self)@.max_events),
    {
        proof {
            use_type_invariant(&*self);
        }
        let ghost held_before = self.events@;
        let ghost emitted_before = self.total_emitted;
        let mut held: Vec<TrustEvent> = Vec::new();
        std::mem::swap(&mut held, &mut self.events);
        let mut count: usize = 0;
        let mut i: usize = 0;
        while i < events.len()
            invariant
                i <= events.len(),
                count == accepted(held_before.len() as int, self.max_events as int, i as int),
                held@ == held_before + events@.take(count as int),
                self.events@.len() == 0,
                self.total_emitted == emitted_before + count,
                emitted_before + accepted(
                    held_before.len() as int,
                    self.max_events as int,
                    events.len() as int,
                ) <= u64::MAX,
                held_before.len() + self.total_decayed <= emitted_before,
                self.max_events == old(self).max_events,
                self.decay_factor == old(self).decay_factor,
                self.consensus_threshold == old(self).consensus_threshold,
                self.total_decayed == old(self).total_decayed,
                held_before == old(self).events@,
                emitted_before == old(self).total_emitted,
            decreases events.len() - i,
        {
            if held.len() < self.max_events {
                assert(count == i);
                held.push(events[i].clone());
                self.total_emitted = self.total_emitted + 1;
                count = count + 1;
                assert(events@.take(count as int) =~= events@.take(i as int).push(events@[i as int]));
            }
            i = i + 1;
        }
        self.events = held;
        count
    }

    /// Takes in copies of another beacon's events, as `emit_batch` does.
    pub fn propagate_from(&mut self, other: &TrustBeacon) -> (r: usize)
        requires
            old(self)@.total_emitted + accepted(
                old(self)@.events.len() as int,
                old(self)@.max_events as int,
                other@.events.len() as int,
            ) <= u64::MAX,
        ensures
            batch_taken(old(self)@, final(self)@, other@.events, r as int),
            old(self)@.events.len() + other@.events.len() <= old(self)@.max_events ==> r
                == other@.events.len(),
    {
        let events = copy_events(&other.events);
        self.emit_batch(events)
    }
}

impl Clone for TrustBeacon {
    fn clone(&self) -> (r: Self)
        ensures
            r@ == self@,
    {
        proof {
            use_type_invariant(self);
        }
        TrustBeacon {
            events: copy_events(&self.events),
            max_events: self.max_events,
            decay_factor: self.decay_factor,
            consensus_threshold: self.consensus_threshold,
            total_emitted: self.total_emitted,
            total_decayed: self.total_decayed,
        }
    }
}

impl Default for TrustBeacon {
    fn default() -> (r: Self)
        ensures
            r@.events == Seq::<TrustEvent>::empty(),
            r@.max_events == DEFAULT_MAX_EVENTS,
            r@.decay_factor == DEFAULT_DECAY_FACTOR,
            r@.consensus_threshold == DEFAULT_CONSENSUS_THRESHOLD,
            r@.total_emitted == 0,
            r@.total_decayed == 0,
    {
        Self::new()
    }
}

} // verus!
