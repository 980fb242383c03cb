//! Properties of the beacon that relate several of its operations.

use vstd::prelude::*;

use crate::adapter::{agent_target_spec, lemma_agent_targets_distinct};
use crate::beacon::{
    accepted, alive, batch_taken, consensus_of, decay_step, decayed_all, emitted, events_about,
    is_about, not_about, observed, observed_by, pruned, strengths, BeaconView,
};
use crate::event::TrustEvent;
use crate::signal::{abs_bits, clamp_unit, is_nan, less, signed, MINUS_ONE_BITS, ONE_BITS};

verus! {

/// What an emit writes, an observer reads back: after a successful emit
/// of an event about `target`, the events observed about `target` are the
/// earlier ones followed by the new event, and one more event is counted
/// about `target`; what is observed or counted about any other target is
/// unchanged.
pub proof fn lemma_emit_then_observe(
    pre: BeaconView,
    post: BeaconView,
    emitter: Seq<char>,
    target: Seq<char>,
    event_type: Seq<char>,
    strength: u32,
    other: Seq<char>,
)
    requires
        emitted(pre, post, emitter, target, event_type, strength),
        pre.events.len() < pre.max_events,
        other != target,
    ensures
        observed(post.events, target) == observed(pre.events, target).push(post.events.last()),
        events_about(post.events, target).len() == events_about(pre.events, target).len() + 1,
        observed(post.events, other) == observed(pre.events, other),
        events_about(post.events, other) == events_about(pre.events, other),
{
    let e = post.events.last();
    assert(post.events =~= pre.events.push(e));
    pre.events.lemma_filter_push(e, observed_by(target));
    pre.events.lemma_filter_push(e, is_about(target));
    pre.events.lemma_filter_push(e, observed_by(other));
    pre.events.lemma_filter_push(e, is_about(other));
}

/// A refused emit changes nothing: a full beacon stays exactly as it was.
pub proof fn lemma_full_beacon_refuses(
    pre: BeaconView,
    post: BeaconView,
    emitter: Seq<char>,
    target: Seq<char>,
    event_type: Seq<char>,
    strength: u32,
)
    requires
        emitted(pre, post, emitter, target, event_type, strength),
        pre.events.len() >= pre.max_events,
    ensures
        post == pre,
{
}

proof fn lemma_prune_filters(events: Seq<TrustEvent>, target: Seq<char>, other: Seq<char>)
    requires
        other != target,
    ensures
        events.filter(not_about(target)).filter(is_about(target)).len() == 0,
        events.filter(not_about(target)).filter(is_about(other)) == events.filter(is_about(other)),
    decreases events.len(),
{
    if events.len() > 0 {
        let rest = events.drop_last();
        let x = events.last();
        assert(events =~= rest.push(x));
        lemma_prune_filters(rest, target, other);
        rest.lemma_filter_push(x, not_about(target));
        rest.filter(not_about(target)).lemma_filter_push(x, is_about(target));
        rest.filter(not_about(target)).lemma_filter_push(x, is_about(other));
        rest.lemma_filter_push(x, is_about(other));
    } else {
        reveal(Seq::filter);
    }
}

/// After pruning a target, no event about it is left, and the events about
/// every other target are exactly those there were.
pub proof fn lemma_prune_clears_target(
    events: Seq<TrustEvent>,
    target: Seq<char>,
    other: Seq<char>,
)
    requires
        other != target,
    ensures
        events_about(events.filter(not_about(target)), target).len() == 0,
        events_about(events.filter(not_about(target)), other) == events_about(events, other),
{
    lemma_prune_filters(events, target, other);
}

/// After `decay_all` no event held is decayed: decayed events are dropped
/// in the same pass that marks them.
pub proof fn lemma_decay_leaves_no_decayed(
    pre: BeaconView,
    post: BeaconView,
    scaled: Seq<u32>,
    removed: int,
)
    requires
        decayed_all(pre, post, scaled, removed),
    ensures
        forall|i: int| 0 <= i < post.events.len() ==> !(#[trigger] post.events[i]).decayed,
{
    broadcast use Seq::lemma_filter_pred;

    assert forall|i: int| 0 <= i < post.events.len() implies !(#[trigger] post.events[i]).decayed by {
        let s = decay_step(pre.events, scaled);
        assert(alive()(s.filter(alive())[i]));
    }
}

/// An emit never grows a beacon past its capacity, and leaves the capacity
/// as it was.
pub proof fn lemma_emit_within_capacity(
    pre: BeaconView,
    post: BeaconView,
    emitter: Seq<char>,
    target: Seq<char>,
    event_type: Seq<char>,
    strength: u32,
)
    requires
        emitted(pre, post, emitter, target, event_type, strength),
        pre.events.len() <= pre.max_events,
    ensures
        post.events.len() <= post.max_events,
        post.max_events == pre.max_events,
{
}

/// A batch (or a propagation) never grows a beacon past its capacity.
pub proof fn lemma_batch_keeps_capacity(
    pre: BeaconView,
    post: BeaconView,
    offered: Seq<TrustEvent>,
    taken: int,
)
    requires
        batch_taken(pre, post, offered, taken),
        pre.events.len() <= pre.max_events,
    ensures
        post.events.len() <= post.max_events,
{
    assert(post.events.len() == pre.events.len() + taken);
}

/// Taking in a batch is determined by the beacon and the events offered:
/// `propagate_from(other)` and `emit_batch` on a copy of `other`'s events
/// take the same number and leave the beacon with the same events and
/// counters.
pub proof fn lemma_batch_deterministic(
    pre: BeaconView,
    a: BeaconView,
    b: BeaconView,
    offered: Seq<TrustEvent>,
    taken_a: int,
    taken_b: int,
)
    requires
        batch_taken(pre, a, offered, taken_a),
        batch_taken(pre, b, offered, taken_b),
    ensures
        taken_a == taken_b,
        a.events == b.events,
        a.max_events == b.max_events,
        a.decay_factor == b.decay_factor,
        a.consensus_threshold == b.consensus_threshold,
        a.total_emitted == b.total_emitted,
        a.total_decayed == b.total_decayed,
{
}

/// Emitting about another target leaves the consensus about `target`
/// unchanged: only live events about `target` itself count.
pub proof fn lemma_consensus_ignores_emit_elsewhere(
    pre: BeaconView,
    post: BeaconView,
    emitter: Seq<char>,
    other: Seq<char>,
    event_type: Seq<char>,
    strength: u32,
    target: Seq<char>,
)
    requires
        emitted(pre, post, emitter, other, event_type, strength),
        other != target,
    ensures
        consensus_of(post, target) == consensus_of(pre, target),
{
    if pre.events.len() < pre.max_events {
        lemma_emit_then_observe(pre, post, emitter, other, event_type, strength, target);
    }
}

proof fn lemma_prune_keeps_observed(events: Seq<TrustEvent>, gone: Seq<char>, target: Seq<char>)
    requires
        gone != target,
    ensures
        observed(events.filter(not_about(gone)), target) == observed(events, target),
    decreases events.len(),
{
    if events.len() > 0 {
        let rest = events.drop_last();
        let x = events.last();
        assert(events =~= rest.push(x));
        lemma_prune_keeps_observed(rest, gone, target);
        rest.lemma_filter_push(x, not_about(gone));
        rest.filter(not_about(gone)).lemma_filter_push(x, observed_by(target));
        rest.lemma_filter_push(x, observed_by(target));
    } else {
        reveal(Seq::filter);
    }
}

/// Pruning another target leaves the consensus about `target` unchanged.
pub proof fn lemma_consensus_ignores_prune_elsewhere(
    pre: BeaconView,
    post: BeaconView,
    pruned_target: Seq<char>,
    target: Seq<char>,
)
    requires
        pruned(pre, post, pruned_target),
        pruned_target != target,
    ensures
        consensus_of(post, target) == consensus_of(pre, target),
{
    lemma_prune_keeps_observed(pre.events, pruned_target, target);
}

/// A step of the adapter about one agent (an emit about its target) leaves
/// every other agent alone: the consensus and the events about another
/// agent are unchanged.
pub proof fn lemma_agent_step_leaves_others(
    pre: BeaconView,
    post: BeaconView,
    identity: Seq<char>,
    agent: u32,
    event_type: Seq<char>,
    strength: u32,
    other: u32,
)
    requires
        emitted(pre, post, identity, agent_target_spec(agent), event_type, strength),
        agent != other,
    ensures
        consensus_of(post, agent_target_spec(other)) == consensus_of(pre, agent_target_spec(other)),
        events_about(post.events, agent_target_spec(other)) == events_about(
            pre.events,
            agent_target_spec(other),
        ),
{
    lemma_agent_targets_distinct(agent, other);
    if pre.events.len() < pre.max_events {
        lemma_emit_then_observe(
            pre,
            post,
            identity,
            agent_target_spec(agent),
            event_type,
            strength,
            agent_target_spec(other),
        );
    }
    lemma_consensus_ignores_emit_elsewhere(
        pre,
        post,
        identity,
        agent_target_spec(agent),
        event_type,
        strength,
        agent_target_spec(other),
    );
}

/// A failure (or a reduce) never speaks for its agent: its stored strength
/// is never above zero, and lies below zero unless the weight is zero.
pub proof fn lemma_negated_speaks_against(weight: u32)
    ensures
        !less(0, clamp_unit(signed(true, weight))),
        abs_bits(weight) != 0 ==> less(clamp_unit(signed(true, weight)), 0),
{
}

/// A success (or a boost) with a numeric weight never speaks against its
/// agent: its stored strength is never below zero.
pub proof fn lemma_positive_speaks_for(weight: u32)
    requires
        !is_nan(weight),
    ensures
        !less(clamp_unit(signed(false, weight)), 0),
{
}

/// A revocation speaks against its agent with full strength.
pub proof fn lemma_revoke_speaks_against()
    ensures
        clamp_unit(MINUS_ONE_BITS) == MINUS_ONE_BITS,
        less(MINUS_ONE_BITS, 0),
{
}

/// An observer sees exactly the live events about a target: every held
/// event about `target` that has not decayed is observed, whatever its
/// strength or generation, and everything observed is such an event.
pub proof fn lemma_observed_exactly_live_about(events: Seq<TrustEvent>, target: Seq<char>)
    ensures
        forall|i: int|
            0 <= i < events.len() && events[i].target@ == target && !events[i].decayed
                ==> observed(events, target).contains(#[trigger] events[i]),
        forall|j: int|
            0 <= j < observed(events, target).len() ==> (#[trigger] observed(events, target)[j]).target@
                == target && !observed(events, target)[j].decayed,
        forall|j: int|
            0 <= j < observed(events, target).len() ==> events.contains(
                #[trigger] observed(events, target)[j],
            ),
{
    broadcast use Seq::lemma_filter_contains, Seq::lemma_filter_pred, Seq::lemma_filter_contains_rev;

    assert forall|i: int|
        0 <= i < events.len() && events[i].target@ == target && !events[i].decayed implies observed(
            events,
            target,
        ).contains(#[trigger] events[i]) by {
        assert(observed_by(target)(events[i]));
    }
    assert forall|j: int| 0 <= j < observed(events, target).len() implies (#[trigger] observed(
        events,
        target,
    )[j]).target@ == target && !observed(events, target)[j].decayed by {
        assert(observed_by(target)(events.filter(observed_by(target))[j]));
    }
    assert forall|j: int| 0 <= j < observed(events, target).len() implies events.contains(
        #[trigger] observed(events, target)[j],
    ) by {
        assert(events.filter(observed_by(target)).contains(observed(events, target)[j]));
    }
}

/// After `decay_all`, every event still held is observed about its own
/// target: decay never hides a surviving signal.
pub proof fn lemma_decay_survivors_observed(
    pre: BeaconView,
    post: BeaconView,
    scaled: Seq<u32>,
    removed: int,
)
    requires
        decayed_all(pre, post, scaled, removed),
    ensures
        forall|i: int|
            0 <= i < post.events.len() ==> observed(post.events, post.events[i].target@).contains(
                #[trigger] post.events[i],
            ),
{
    lemma_decay_leaves_no_decayed(pre, post, scaled, removed);
    assert forall|i: int| 0 <= i < post.events.len() implies observed(
        post.events,
        post.events[i].target@,
    ).contains(#[trigger] post.events[i]) by {
        lemma_observed_exactly_live_about(post.events, post.events[i].target@);
    }
}

/// The consensus inputs are the strengths of all the events given, one per
/// event, in order.
pub proof fn lemma_strengths_pointwise(events: Seq<TrustEvent>)
    ensures
        strengths(events).len() == events.len(),
        forall|i: int| 0 <= i < events.len() ==> #[trigger] strengths(events)[i] == events[i].strength,
{
}

/// A batch is limited by capacity only: a full beacon takes nothing, one
/// with room takes the whole batch when it fits and otherwise fills up
/// exactly to `capacity`.
pub proof fn lemma_batch_limited_by_capacity_only(held: int, capacity: int, offered: int)
    requires
        0 <= held,
        0 <= offered,
    ensures
        held >= capacity ==> accepted(held, capacity, offered) == 0,
        held + offered <= capacity ==> accepted(held, capacity, offered) == offered,
        held < capacity && held + offered > capacity ==> held + accepted(held, capacity, offered)
            == capacity,
{
}

/// A batch never fills a beacon past its capacity: starting at or below
/// `max_events`, the beacon ends at or below it, and no more events are
/// taken than offered.
pub proof fn lemma_batch_within_capacity(held: int, capacity: int, offered: int)
    requires
        0 <= held <= capacity,
        0 <= offered,
    ensures
        held + accepted(held, capacity, offered) <= capacity,
        0 <= accepted(held, capacity, offered) <= offered,
{
}

/// What an observer sees about a target is never more than the events held
/// about it.
pub proof fn lemma_observed_within_about(events: Seq<TrustEvent>, target: Seq<char>)
    ensures
        observed(events, target).len() <= events_about(events, target).len(),
    decreases events.len(),
{
    if events.len() > 0 {
        let rest = events.drop_last();
        let x = events.last();
        assert(events =~= rest.push(x));
        lemma_observed_within_about(rest, target);
        rest.lemma_filter_push(x, observed_by(target));
        rest.lemma_filter_push(x, is_about(target));
    } else {
        reveal(Seq::filter);
    }
}

/// A clamped strength lies within [-1, 1] and is a number.
pub proof fn lemma_clamp_in_unit(b: u32)
    ensures
        !is_nan(clamp_unit(b)),
        !less(clamp_unit(b), MINUS_ONE_BITS),
        !less(ONE_BITS, clamp_unit(b)),
{
}

} // verus!
