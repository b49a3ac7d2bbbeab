use vstd::prelude::*;
use crate::reading::{decode, reply_code, LocalTime, Reading};

verus! {

/// Where the acquisition loop stands.
#[derive(Clone, Copy, Debug, PartialEq, Eq, Structural)]
pub enum Phase {
    /// Not started: the power line is low.
    Idle,
    /// Between cycles: racing the cadence timer against the shutdown signal.
    Waiting,
    /// An exchange on the bus is in flight.
    Exchanging,
    /// A reading has been handed to the sink, whose answer is awaited.
    Storing,
    /// Ended, after the power line was driven low; `fault` tells whether a
    /// transport fault ended it.
    Stopped { fault: bool },
}

/// What the driver of the loop reports back.
#[derive(Clone, Copy, Debug, PartialEq, Eq)]
pub enum Event {
    /// The driver is ready to run the loop.
    Start,
    /// The cadence timer won the race.
    TimerElapsed,
    /// The shutdown signal won the race.
    ShutdownFired,
    /// The exchange completed with `reply` at `taken_at`.
    Replied { reply: [u8; 3], taken_at: LocalTime },
    /// The exchange failed.
    TransportFault,
    /// The sink answered; `ok` is false where it could not record the reading.
    Stored { ok: bool },
}

/// What the driver of the loop is to do next.
#[derive(Clone, Copy, Debug, PartialEq, Eq)]
pub enum Action {
    /// Drive the power line high, then race the timer against the shutdown signal.
    Energize,
    /// Perform one exchange of the command frame on the bus.
    Exchange,
    /// Hand the reading to the sink.
    Append { reading: Reading },
    /// Race the timer against the shutdown signal.
    Await,
    /// Drive the power line low and end the loop.
    Deenergize { fault: bool },
    /// Nothing: the event does not apply in this phase.
    Ignore,
}

/// The state of the acquisition loop: its phase and the number of completed
/// cycles.
#[derive(Clone, Copy, Debug, PartialEq, Eq, Structural)]
pub struct Acquisition {
    pub phase: Phase,
    pub ticks: u64,
}

/// The state before the loop starts.
pub open spec fn initial_state() -> Acquisition {
    Acquisition { phase: Phase::Idle, ticks: 0 }
}

/// Whether the loop is between its start and its end, with the power line high.
pub open spec fn is_active(p: Phase) -> bool {
    p is Waiting || p is Exchanging || p is Storing
}

/// The reading that the reply event `e` carries.
pub open spec fn reading_of(e: Event) -> Reading
    recommends
        e is Replied,
{
    Reading { code: reply_code(e->reply@) as u16, taken_at: e->taken_at }
}

/// One transition: the next state and the action for the driver.
pub open spec fn next(s: Acquisition, e: Event) -> (Acquisition, Action) {
    match (s.phase, e) {
        (Phase::Idle, Event::Start) => (
            Acquisition { phase: Phase::Waiting, ..s },
            Action::Energize,
        ),
        (Phase::Waiting, Event::TimerElapsed) => (
            Acquisition { phase: Phase::Exchanging, ..s },
            Action::Exchange,
        ),
        (Phase::Waiting, Event::ShutdownFired) => (
            Acquisition { phase: Phase::Stopped { fault: false }, ..s },
            Action::Deenergize { fault: false },
        ),
        (Phase::Exchanging, Event::Replied { .. }) => (
            Acquisition { phase: Phase::Storing, ..s },
            Action::Append { reading: reading_of(e) },
        ),
        (Phase::Exchanging, Event::TransportFault) => (
            Acquisition { phase: Phase::Stopped { fault: true }, ..s },
            Action::Deenergize { fault: true },
        ),
        (Phase::Storing, Event::Stored { ok }) => (
            Acquisition {
                phase: Phase::Waiting,
                ticks: if s.ticks < u64::MAX { (s.ticks + 1) as u64 } else { s.ticks },
            },
            Action::Await,
        ),
        _ => (s, Action::Ignore),
    }
}

/// The final state and the actions produced by feeding `events` in order.
pub open spec fn run(s: Acquisition, events: Seq<Event>) -> (Acquisition, Seq<Action>)
    decreases events.len(),
{
    if events.len() == 0 {
        (s, Seq::empty())
    } else {
        let (s1, a) = next(s, events[0]);
        let (s2, rest) = run(s1, events.drop_first());
        (s2, seq![a] + rest)
    }
}

/// How many actions drive the power line high.
pub open spec fn energize_count(acts: Seq<Action>) -> nat
    decreases acts.len(),
{
    if acts.len() == 0 {
        0
    } else {
        (if acts[0] is Energize { 1nat } else { 0nat }) + energize_count(acts.drop_first())
    }
}

/// How many actions drive the power line low.
pub open spec fn deenergize_count(acts: Seq<Action>) -> nat
    decreases acts.len(),
{
    if acts.len() == 0 {
        0
    } else {
        (if acts[0] is Deenergize { 1nat } else { 0nat }) + deenergize_count(acts.drop_first())
    }
}

/// Every action after one that drives the power line low is `Ignore`.
pub open spec fn quiet_after_deenergize(acts: Seq<Action>) -> bool {
    forall|i: int, j: int|
        0 <= i < j < acts.len() && (#[trigger] acts[i]) is Deenergize ==> (#[trigger] acts[j]) is Ignore
}

/// Every action before one that drives the power line high is `Ignore`.
pub open spec fn quiet_before_energize(acts: Seq<Action>) -> bool {
    forall|i: int, j: int|
        0 <= i < j < acts.len() && (#[trigger] acts[j]) is Energize ==> (#[trigger] acts[i]) is Ignore
}

proof fn lemma_counts_cons(a: Action, rest: Seq<Action>)
    ensures
        energize_count(seq![a] + rest) == (if a is Energize { 1nat } else { 0nat }) + energize_count(rest),
        deenergize_count(seq![a] + rest) == (if a is Deenergize { 1nat } else { 0nat }) + deenergize_count(rest),
{
    let acts = seq![a] + rest;
    assert(acts.drop_first() =~= rest);
    assert(acts[0] == a);
}

proof fn lemma_run_shape(s: Acquisition, events: Seq<Event>)
    ensures
        run(s, events).1.len() == events.len(),
        s.phase is Stopped ==> run(s, events).0 == s && forall|k: int|
            0 <= k < events.len() ==> (#[trigger] run(s, events).1[k]) is Ignore,
        s.phase is Stopped ==> energize_count(run(s, events).1) == 0 && deenergize_count(run(s, events).1) == 0,
        !(run(s, events).0.phase is Stopped) ==> deenergize_count(run(s, events).1) == 0,
        is_active(s.phase) ==> energize_count(run(s, events).1) == 0,
        run(s, events).0.phase is Stopped && is_active(s.phase) ==> deenergize_count(run(s, events).1) == 1,
        run(s, events).0.phase is Stopped && s.phase is Idle ==> energize_count(run(s, events).1) == 1
            && deenergize_count(run(s, events).1) == 1,
        quiet_after_deenergize(run(s, events).1),
        s.phase is Idle ==> quiet_before_energize(run(s, events).1),
        is_active(s.phase) ==> forall|k: int|
            0 <= k < events.len() ==> !((#[trigger] run(s, events).1[k]) is Energize),
    decreases events.len(),
{
    if events.len() > 0 {
        let (s1, a) = next(s, events[0]);
        let rest_events = events.drop_first();
        lemma_run_shape(s1, rest_events);
        let rest = run(s1, rest_events).1;
        let acts = seq![a] + rest;
        assert(run(s, events).1 == acts);
        lemma_counts_cons(a, rest);
        assert forall|k: int| 0 < k < acts.len() implies acts[k] == rest[k - 1] by {}
        if s.phase is Stopped {
            assert forall|k: int| 0 <= k < events.len() implies (#[trigger] acts[k]) is Ignore by {
                if k > 0 {
                    assert(acts[k] == rest[k - 1]);
                }
            }
        }
        assert forall|i: int, j: int|
            0 <= i < j < acts.len() && (#[trigger] acts[i]) is Deenergize implies (#[trigger] acts[j]) is Ignore by {
            assert(acts[j] == rest[j - 1]);
            if i > 0 {
                assert(acts[i] == rest[i - 1]);
            }
        }
        if s.phase is Idle {
            assert forall|i: int, j: int|
                0 <= i < j < acts.len() && (#[trigger] acts[j]) is Energize implies (#[trigger] acts[i]) is Ignore by {
                assert(acts[j] == rest[j - 1]);
                if i > 0 {
                    assert(acts[i] == rest[i - 1]);
                }
            }
        }
        if is_active(s.phase) {
            assert forall|k: int| 0 <= k < events.len() implies !((#[trigger] acts[k]) is Energize) by {
                if k > 0 {
                    assert(acts[k] == rest[k - 1]);
                }
            }
        }
    }
}

/// Power control: whatever events drive the loop from its start until it
/// stops, the power line is driven high exactly once and low exactly once;
/// no exchange comes before the line goes high, and none after it goes low.
pub proof fn power_switched_once(events: Seq<Event>)
    requires
        run(initial_state(), events).0.phase is Stopped,
    ensures
        energize_count(run(initial_state(), events).1) == 1,
        deenergize_count(run(initial_state(), events).1) == 1,
        forall|i: int, j: int|
            0 <= i < run(initial_state(), events).1.len() && 0 <= j < run(initial_state(), events).1.len()
                && (#[trigger] run(initial_state(), events).1[i]) is Exchange
                && (#[trigger] run(initial_state(), events).1[j]) is Deenergize ==> i < j,
        forall|i: int, j: int|
            0 <= i < run(initial_state(), events).1.len() && 0 <= j < run(initial_state(), events).1.len()
                && (#[trigger] run(initial_state(), events).1[i]) is Energize
                && (#[trigger] run(initial_state(), events).1[j]) is Exchange ==> i < j,
{
    lemma_run_shape(initial_state(), events);
}

/// A sink that cannot record a reading does not end the loop: the loop goes
/// on to the next cycle exactly as after a recorded one.
pub proof fn sink_fault_continues(s: Acquisition)
    requires
        s.phase is Storing,
    ensures
        next(s, Event::Stored { ok: false }) == next(s, Event::Stored { ok: true }),
        next(s, Event::Stored { ok: false }).0.phase is Waiting,
        next(s, Event::Stored { ok: false }).1 is Await,
{
}

/// A transport fault on any cycle ends the loop, and the power line is
/// driven low before it ends.
pub proof fn transport_fault_deenergizes(s: Acquisition)
    requires
        s.phase is Exchanging,
    ensures
        next(s, Event::TransportFault).0.phase == (Phase::Stopped { fault: true }),
        next(s, Event::TransportFault).1 == (Action::Deenergize { fault: true }),
{
}

proof fn lemma_run_readings(s: Acquisition, events: Seq<Event>)
    ensures
        forall|k: int|
            0 <= k < events.len() && (#[trigger] run(s, events).1[k]) is Append ==> events[k] is Replied
                && run(s, events).1[k]->reading == reading_of(events[k]),
        !(s.phase is Exchanging) ==> forall|j: int|
            0 <= j < events.len() && (#[trigger] run(s, events).1[j]) is Append ==> exists|m: int|
                0 <= m < j && (#[trigger] run(s, events).1[m]) is Exchange,
        forall|i: int, j: int|
            0 <= i < j < events.len() && (#[trigger] run(s, events).1[i]) is Append
                && (#[trigger] run(s, events).1[j]) is Append ==> exists|m: int|
                i < m < j && (#[trigger] run(s, events).1[m]) is Exchange,
    decreases events.len(),
{
    lemma_run_shape(s, events);
    if events.len() > 0 {
        let (s1, a) = next(s, events[0]);
        let rest_events = events.drop_first();
        lemma_run_readings(s1, rest_events);
        lemma_run_shape(s1, rest_events);
        let rest = run(s1, rest_events).1;
        let acts = seq![a] + rest;
        assert(run(s, events).1 == acts);
        assert forall|k: int| 0 < k < acts.len() implies acts[k] == rest[k - 1] && events[k]
            == rest_events[k - 1] by {}
        assert forall|k: int|
            0 <= k < events.len() && (#[trigger] acts[k]) is Append implies events[k] is Replied
                && acts[k]->reading == reading_of(events[k]) by {
            if k > 0 {
                assert(acts[k] == rest[k - 1]);
            }
        }
        if !(s.phase is Exchanging) {
            assert forall|j: int| 0 <= j < events.len() && (#[trigger] acts[j]) is Append implies exists|
                m: int,
            | 0 <= m < j && (#[trigger] acts[m]) is Exchange by {
                assert(j > 0);
                assert(acts[j] == rest[j - 1]);
                if a is Exchange {
                    assert(acts[0] is Exchange);
                } else {
                    assert(!(s1.phase is Exchanging));
                    let m = choose|m: int| 0 <= m < j - 1 && (#[trigger] rest[m]) is Exchange;
                    assert(acts[m + 1] == rest[m]);
                }
            }
        }
        assert forall|i: int, j: int|
            0 <= i < j < events.len() && (#[trigger] acts[i]) is Append && (#[trigger] acts[j]) is Append
                implies exists|m: int| i < m < j && (#[trigger] acts[m]) is Exchange by {
            assert(acts[j] == rest[j - 1]);
            if i == 0 {
                assert(s1.phase is Storing);
                let m = choose|m: int| 0 <= m < j - 1 && (#[trigger] rest[m]) is Exchange;
                assert(acts[m + 1] == rest[m]);
            } else {
                assert(acts[i] == rest[i - 1]);
                let m = choose|m: int| i - 1 < m < j - 1 && (#[trigger] rest[m]) is Exchange;
                assert(acts[m + 1] == rest[m]);
            }
        }
    }
}

/// No reading is fabricated or duplicated: each reading handed to the sink
/// is the one decoded from the reply event fed at the same step, and between
/// any two readings handed to the sink there is an exchange.
pub proof fn readings_match_exchanges(s: Acquisition, events: Seq<Event>)
    ensures
        forall|k: int|
            0 <= k < events.len() && (#[trigger] run(s, events).1[k]) is Append ==> events[k] is Replied
                && run(s, events).1[k]->reading == reading_of(events[k]),
        forall|i: int, j: int|
            0 <= i < j < events.len() && (#[trigger] run(s, events).1[i]) is Append
                && (#[trigger] run(s, events).1[j]) is Append ==> exists|m: int|
                i < m < j && (#[trigger] run(s, events).1[m]) is Exchange,
{
    lemma_run_readings(s, events);
}

impl Acquisition {
    /// A loop that has not started.
    pub fn new() -> (r: Acquisition)
        ensures
            r == initial_state(),
    {
        Acquisition { phase: Phase::Idle, ticks: 0 }
    }

    /// Feeds one event to the loop and returns what the driver is to do.
    pub fn step(&mut self, event: Event) -> (a: Action)
        ensures
            (*final(self), a) == next(*old(self), event),
    {
        match (self.phase, event) {
            (Phase::Idle, Event::Start) => {
                self.phase = Phase::Waiting;
                Action::Energize
            },
            (Phase::Waiting, Event::TimerElapsed) => {
                self.phase = Phase::Exchanging;
                Action::Exchange
            },
            (Phase::Waiting, Event::ShutdownFired) => {
                self.phase = Phase::Stopped { fault: false };
                Action::Deenergize { fault: false }
            },
            (Phase::Exchanging, Event::Replied { reply, taken_at }) => {
                self.phase = Phase::Storing;
                Action::Append { reading: decode(&reply, taken_at) }
            },
            (Phase::Exchanging, Event::TransportFault) => {
                self.phase = Phase::Stopped { fault: true };
                Action::Deenergize { fault: true }
            },
            (Phase::Storing, Event::Stored { ok: _ }) => {
                self.phase = Phase::Waiting;
                self.ticks = self.ticks.saturating_add(1);
                Action::Await
            },
            _ => Action::Ignore,
        }
    }
}

} // verus!
