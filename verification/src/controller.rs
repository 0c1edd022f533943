//! The coordinator's termination policy: how the result-draining path
//! reacts to arriving results and to an external cancellation, under
//! the two search modes.

use vstd::prelude::*;

verus! {

/// The two termination policies of a search.
#[derive(Clone, Copy, PartialEq, Eq, Structural)]
pub enum SearchMode {
    /// Stop as soon as one match has been recorded.
    SingleShot,
    /// Record every match; run until an external cancellation.
    Continuous,
}

/// An event the coordinator's control path reacts to.
#[derive(Clone, Copy, PartialEq, Eq, Structural)]
pub enum ControlEvent {
    /// A worker delivered a match result.
    ResultReceived,
    /// The operator asked the search to stop.
    CancelRequested,
}

/// The coordinator's control state: the chosen policy, how many
/// results were recorded, and whether the stop signal has been raised.
#[derive(Clone, Copy, PartialEq, Eq, Structural)]
pub struct Coordinator {
    /// The termination policy, fixed at startup.
    pub mode: SearchMode,
    /// Results recorded so far.
    pub recorded: u64,
    /// Whether workers have been told to stop (single-shot after the
    /// first record) or a cancellation has been observed.
    pub stop_requested: bool,
}

impl Coordinator {
    /// The transition relation: the state after an event, and whether
    /// the event's result (if any) is to be recorded. A result is
    /// recorded unless a single-shot search has already stopped; the
    /// first single-shot record raises the stop signal. A cancellation
    /// raises the stop signal and records nothing.
    pub open spec fn spec_step(self, event: ControlEvent) -> (Coordinator, bool) {
        match event {
            ControlEvent::ResultReceived => {
                match self.mode {
                    SearchMode::SingleShot => {
                        if self.stop_requested {
                            (self, false)
                        } else {
                            (
                                Coordinator {
                                    recorded: (self.recorded + 1) as u64,
                                    stop_requested: true,
                                    ..self
                                },
                                true,
                            )
                        }
                    },
                    SearchMode::Continuous => {
                        (Coordinator { recorded: (self.recorded + 1) as u64, ..self }, true)
                    },
                }
            },
            ControlEvent::CancelRequested => {
                (Coordinator { stop_requested: true, ..self }, false)
            },
        }
    }

    /// A fresh coordinator: nothing recorded, no stop requested.
    pub fn new(mode: SearchMode) -> (s: Self)
        ensures
            s.mode == mode,
            s.recorded == 0,
            !s.stop_requested,
    {
        Coordinator { mode, recorded: 0, stop_requested: false }
    }

    /// Feeds one event to the coordinator. Returns whether the
    /// event's result is to be persisted.
    pub fn on_event(&mut self, event: ControlEvent) -> (record: bool)
        requires
            old(self).recorded < u64::MAX,
        ensures
            *final(self) == old(self).spec_step(event).0,
            record == old(self).spec_step(event).1,
    {
        match event {
            ControlEvent::ResultReceived => {
                match self.mode {
                    SearchMode::SingleShot => {
                        if self.stop_requested {
                            false
                        } else {
                            self.recorded = self.recorded + 1;
                            self.stop_requested = true;
                            true
                        }
                    },
                    SearchMode::Continuous => {
                        self.recorded = self.recorded + 1;
                        true
                    },
                }
            },
            ControlEvent::CancelRequested => {
                self.stop_requested = true;
                false
            },
        }
    }
}

/// The state after feeding a sequence of events, left to right.
pub open spec fn run(s: Coordinator, events: Seq<ControlEvent>) -> Coordinator
    decreases events.len(),
{
    if events.len() == 0 {
        s
    } else {
        run(s.spec_step(events[0]).0, events.drop_first())
    }
}

/// How many results are recorded while a sequence of events is fed,
/// left to right.
pub open spec fn records_made(s: Coordinator, events: Seq<ControlEvent>) -> nat
    decreases events.len(),
{
    if events.len() == 0 {
        0
    } else {
        (if s.spec_step(events[0]).1 {
            1nat
        } else {
            0nat
        }) + records_made(s.spec_step(events[0]).0, events.drop_first())
    }
}

/// A single-shot coordinator whose stop signal is already raised never
/// records another result, whatever else happens.
pub proof fn lemma_single_shot_stopped_records_nothing(s: Coordinator, events: Seq<ControlEvent>)
    requires
        s.mode is SingleShot,
        s.stop_requested,
    ensures
        records_made(s, events) == 0,
    decreases events.len(),
{
    if events.len() > 0 {
        let (next, record) = s.spec_step(events[0]);
        assert(!record);
        assert(next.mode is SingleShot && next.stop_requested);
        lemma_single_shot_stopped_records_nothing(next, events.drop_first());
    }
}

/// A single-shot search records at most one result over any sequence
/// of events: once a match is recorded, no further result is recorded.
pub proof fn lemma_single_shot_records_at_most_once(s: Coordinator, events: Seq<ControlEvent>)
    requires
        s.mode is SingleShot,
    ensures
        records_made(s, events) <= 1,
    decreases events.len(),
{
    if s.stop_requested {
        lemma_single_shot_stopped_records_nothing(s, events);
    } else if events.len() > 0 {
        let (next, record) = s.spec_step(events[0]);
        if record {
            lemma_single_shot_stopped_records_nothing(next, events.drop_first());
        } else {
            lemma_single_shot_records_at_most_once(next, events.drop_first());
        }
    }
}

/// A continuous search records every arriving result, and results
/// alone never raise the stop signal: after any run of arriving
/// results, the recorded total has grown by exactly their number and
/// the coordinator still runs.
pub proof fn lemma_continuous_records_every_result(s: Coordinator, events: Seq<ControlEvent>)
    requires
        s.mode is Continuous,
        forall|i: int| 0 <= i < events.len() ==> events[i] is ResultReceived,
        s.recorded + events.len() <= u64::MAX,
    ensures
        records_made(s, events) == events.len(),
        run(s, events).recorded == s.recorded + events.len(),
        run(s, events).stop_requested == s.stop_requested,
    decreases events.len(),
{
    if events.len() > 0 {
        let (next, record) = s.spec_step(events[0]);
        assert(record);
        lemma_continuous_records_every_result(next, events.drop_first());
    }
}

} // verus!

