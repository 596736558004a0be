//! Properties of hotspot detection over whole sequences of calls, stated on the
//! models that the registry's contracts use.

use crate::admission::Admission;
use crate::registry::{after_detect, after_reap, detect_outcome, window_of, Outcome, RegistryView};
use crate::window::{observed, unexpired};
use vstd::prelude::*;

verus! {

/// One call on a registry: an event handed to `detect_at`, or a reap of every
/// window.
pub enum Event {
    Detect { namespace: Seq<char>, key: Seq<char>, admission: Admission, now: int },
    Reap { now: int },
}

/// The registry after one call; `window` is the registry's window length.
pub open spec fn step(v: RegistryView, e: Event, window: int) -> RegistryView {
    match e {
        Event::Detect { namespace, key, admission, now } => after_detect(
            v,
            namespace,
            key,
            admission,
            now,
            window,
        ),
        Event::Reap { now } => after_reap(v, now, window),
    }
}

/// The registry after a sequence of calls, in order.
pub open spec fn run(v: RegistryView, events: Seq<Event>, window: int) -> RegistryView
    decreases events.len(),
{
    if events.len() == 0 {
        v
    } else {
        step(run(v, events.drop_last(), window), events.last(), window)
    }
}

/// What the `i`-th call reports when it is an event (a reap reports nothing and
/// is given `Ignored` here).
pub open spec fn outcome_at(v: RegistryView, events: Seq<Event>, window: int, i: int) -> Outcome {
    match events[i] {
        Event::Detect { namespace, key, admission, now } => detect_outcome(
            run(v, events.take(i), window),
            namespace,
            key,
            admission,
            now,
            window,
        ),
        Event::Reap { now } => Outcome::Ignored,
    }
}

/// Whether the call is an event on `key` in `namespace` that the limiter rejected.
pub open spec fn is_candidate(e: Event, namespace: Seq<char>, key: Seq<char>) -> bool {
    match e {
        Event::Detect { namespace: n, key: k, admission, now } => n == namespace && k == key
            && admission == Admission::Rejected,
        Event::Reap { now } => false,
    }
}

/// Whether the call can change the window of `namespace`: an event in it, or a reap.
pub open spec fn touches(e: Event, namespace: Seq<char>) -> bool {
    match e {
        Event::Detect { namespace: n, key, admission, now } => n == namespace,
        Event::Reap { now } => true,
    }
}

/// The calls that `touches` keeps for `namespace`.
pub open spec fn touching(namespace: Seq<char>) -> spec_fn(Event) -> bool {
    |e: Event| touches(e, namespace)
}

/// The time at which a call is made.
pub open spec fn time_of(e: Event) -> int {
    match e {
        Event::Detect { namespace, key, admission, now } => now,
        Event::Reap { now } => now,
    }
}

proof fn lemma_run_take(v: RegistryView, events: Seq<Event>, window: int, k: int)
    requires
        0 <= k < events.len(),
    ensures
        run(v, events.take(k + 1), window) == step(run(v, events.take(k), window), events[k], window),
{
    assert(events.take(k + 1).drop_last() =~= events.take(k));
}

proof fn lemma_reap_window(v: RegistryView, now: int, window: int, namespace: Seq<char>)
    ensures
        window_of(after_reap(v, now, window), namespace) == unexpired(window_of(v, namespace), now, window),
{
    assert(window_of(after_reap(v, now, window), namespace) =~= unexpired(
        window_of(v, namespace),
        now,
        window,
    ));
}

/// A record survives any call made less than a window after it.
proof fn lemma_record_kept(p: RegistryView, e: Event, window: int, namespace: Seq<char>, key: Seq<char>, t: int)
    requires
        window_of(p, namespace).contains_key(key),
        window_of(p, namespace)[key] == t,
        time_of(e) < t + window,
    ensures
        window_of(step(p, e, window), namespace).contains_key(key),
        window_of(step(p, e, window), namespace)[key] == t,
{
    match e {
        Event::Detect { namespace: n, key: k, admission, now } => {},
        Event::Reap { now } => {
            lemma_reap_window(p, now, window, namespace);
        },
    }
}

proof fn lemma_known_until(
    v: RegistryView,
    events: Seq<Event>,
    window: int,
    namespace: Seq<char>,
    key: Seq<char>,
    t: int,
    i: int,
    k: int,
)
    requires
        0 <= i < k <= events.len(),
        window_of(run(v, events.take(i + 1), window), namespace).contains_key(key),
        window_of(run(v, events.take(i + 1), window), namespace)[key] == t,
        forall|m: int| i < m < k ==> time_of(#[trigger] events[m]) < t + window,
    ensures
        window_of(run(v, events.take(k), window), namespace).contains_key(key),
        window_of(run(v, events.take(k), window), namespace)[key] == t,
    decreases k - i,
{
    if k > i + 1 {
        lemma_known_until(v, events, window, namespace, key, t, i, k - 1);
        lemma_run_take(v, events, window, k - 1);
        lemma_record_kept(run(v, events.take(k - 1), window), events[k - 1], window, namespace, key, t);
    }
}

/// Once a key is let through as a new hotspot, every later candidate event on it
/// in the same namespace reports `AlreadyKnown`, as long as it and every call in
/// between come less than a window after that emission.
pub proof fn at_most_once_emission(
    v: RegistryView,
    events: Seq<Event>,
    window: int,
    namespace: Seq<char>,
    key: Seq<char>,
    i: int,
    j: int,
)
    requires
        0 <= i < j < events.len(),
        is_candidate(events[i], namespace, key),
        is_candidate(events[j], namespace, key),
        outcome_at(v, events, window, i) == Outcome::NewHotspot,
        forall|m: int| i < m <= j ==> time_of(#[trigger] events[m]) < time_of(events[i]) + window,
    ensures
        outcome_at(v, events, window, j) == Outcome::AlreadyKnown,
{
    let t = time_of(events[i]);
    lemma_run_take(v, events, window, i);
    lemma_known_until(v, events, window, namespace, key, t, i, j);
    assert(time_of(events[j]) < t + window);
}

proof fn lemma_stays_unknown(v: RegistryView, events: Seq<Event>, window: int, namespace: Seq<char>, key: Seq<char>, k: int)
    requires
        0 <= k <= events.len(),
        !window_of(v, namespace).contains_key(key),
        forall|m: int| 0 <= m < k ==> !is_candidate(#[trigger] events[m], namespace, key),
    ensures
        !window_of(run(v, events.take(k), window), namespace).contains_key(key),
    decreases k,
{
    if k == 0 {
        assert(events.take(0) =~= Seq::<Event>::empty());
    } else {
        lemma_stays_unknown(v, events, window, namespace, key, k - 1);
        lemma_run_take(v, events, window, k - 1);
        let p = run(v, events.take(k - 1), window);
        match events[k - 1] {
            Event::Detect { namespace: n, key: kk, admission, now } => {},
            Event::Reap { now } => {
                lemma_reap_window(p, now, window, namespace);
            },
        }
    }
}

/// The first candidate event on a key that its namespace's window does not hold
/// reports `NewHotspot`: the one emission is never lost.
pub proof fn first_candidate_is_new(
    v: RegistryView,
    events: Seq<Event>,
    window: int,
    namespace: Seq<char>,
    key: Seq<char>,
    i: int,
)
    requires
        0 <= i < events.len(),
        is_candidate(events[i], namespace, key),
        !window_of(v, namespace).contains_key(key),
        forall|m: int| 0 <= m < i ==> !is_candidate(#[trigger] events[m], namespace, key),
    ensures
        outcome_at(v, events, window, i) == Outcome::NewHotspot,
{
    lemma_stays_unknown(v, events, window, namespace, key, i);
}

/// An event that the limiter did not admit always reaches its namespace's window:
/// it is reported as `AlreadyKnown` or `NewHotspot`, and its key is then a member.
pub proof fn fail_open(
    v: RegistryView,
    namespace: Seq<char>,
    key: Seq<char>,
    admission: Admission,
    now: int,
    window: int,
)
    requires
        admission != Admission::Admitted,
    ensures
        detect_outcome(v, namespace, key, admission, now, window) != Outcome::Ignored,
        window_of(after_detect(v, namespace, key, admission, now, window), namespace).contains_key(key),
{
}

proof fn lemma_isolated_window(v: RegistryView, events: Seq<Event>, window: int, namespace: Seq<char>)
    ensures
        window_of(run(v, events, window), namespace) == window_of(
            run(v, events.filter(touching(namespace)), window),
            namespace,
        ),
    decreases events.len(),
{
    let pred = touching(namespace);
    if events.len() > 0 {
        let rest = events.drop_last();
        let e = events.last();
        lemma_isolated_window(v, rest, window, namespace);
        let p = run(v, rest, window);
        let q = run(v, rest.filter(pred), window);
        reveal(Seq::filter);
        assert(events.filter(pred) == if pred(e) {
            rest.filter(pred).push(e)
        } else {
            rest.filter(pred)
        });
        if pred(e) {
            assert(rest.filter(pred).push(e).drop_last() =~= rest.filter(pred));
            match e {
                Event::Detect { namespace: n, key, admission, now } => {},
                Event::Reap { now } => {
                    lemma_reap_window(p, now, window, namespace);
                    lemma_reap_window(q, now, window, namespace);
                },
            }
        }
    }
}

/// Events in other namespaces never change what an event in `namespace`
/// reports: it reports the same after any sequence of calls as after the same
/// sequence with every event of another namespace left out.
pub proof fn window_isolation(
    v: RegistryView,
    events: Seq<Event>,
    window: int,
    namespace: Seq<char>,
    key: Seq<char>,
    admission: Admission,
    now: int,
)
    ensures
        detect_outcome(run(v, events, window), namespace, key, admission, now, window) == detect_outcome(
            run(v, events.filter(touching(namespace)), window),
            namespace,
            key,
            admission,
            now,
            window,
        ),
{
    lemma_isolated_window(v, events, window, namespace);
}

/// A key recorded at time `t` is let through again by a candidate event at
/// `now` exactly when `now` is at least `t` plus the window length, whether or
/// not a reap ran in between; it is then recorded at `now`. Before that the
/// event reports `AlreadyKnown` and leaves the record as it was.
pub proof fn expiry_correctness(v: RegistryView, namespace: Seq<char>, key: Seq<char>, now: int, window: int)
    requires
        window_of(v, namespace).contains_key(key),
    ensures
        detect_outcome(v, namespace, key, Admission::Rejected, now, window) == if now >= window_of(
            v,
            namespace,
        )[key] + window {
            Outcome::NewHotspot
        } else {
            Outcome::AlreadyKnown
        },
        window_of(after_detect(v, namespace, key, Admission::Rejected, now, window), namespace)[key]
            == if now >= window_of(v, namespace)[key] + window {
            now
        } else {
            window_of(v, namespace)[key]
        },
{
}

/// A reap between two calls never changes what a candidate event after it
/// reports, as long as the reap is no later than the event.
pub proof fn reap_is_transparent(
    v: RegistryView,
    namespace: Seq<char>,
    key: Seq<char>,
    reaped_at: int,
    now: int,
    window: int,
)
    requires
        reaped_at <= now,
    ensures
        detect_outcome(after_reap(v, reaped_at, window), namespace, key, Admission::Rejected, now, window)
            == detect_outcome(v, namespace, key, Admission::Rejected, now, window),
{
    lemma_reap_window(v, reaped_at, window, namespace);
}

} // verus!
