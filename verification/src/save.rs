//! The capture of the configured peripherals, from its start to the stop signal.

use vstd::prelude::*;
use vstd::hash_map::StringHashMap;
use crate::capture::{
    process_event, processed, progress_of, LastSeen, Progress, SeenMessageTypes,
};
use crate::config::CaptureConfig;
use crate::event::{PeripheralId, Record};
use crate::filter::{accepts_event, capture_intervals, intervals_of, is_accepted, Intervals};
use crate::wakeup::Wakeup;

verus! {

/// What is to be done after a capture has handled a wakeup.
#[derive(Debug)]
pub enum Action {
    /// Store these records, in this order, and go on.
    Store(Vec<Record>),
    /// Go on.
    Wait,
    /// End the capture.
    Finish,
}

/// The progress of a capture that has not seen any record.
pub open spec fn started() -> Progress {
    Progress { results: Seq::empty(), seen: Map::empty(), last_seen: Map::empty() }
}

/// The progress after a record has been through the filter and, where it was accepted,
/// has been processed.
pub open spec fn handled(
    progress: Progress,
    configs: Seq<CaptureConfig<PeripheralId>>,
    record: Record,
) -> Progress {
    if is_accepted(configs, record) {
        processed(progress, intervals_of(configs), record)
    } else {
        progress
    }
}

/// The progress after records have been handled one by one, from the first on.
pub open spec fn handled_all(
    progress: Progress,
    configs: Seq<CaptureConfig<PeripheralId>>,
    records: Seq<Record>,
) -> Progress
    decreases records.len(),
{
    if records.len() == 0 {
        progress
    } else {
        handled(handled_all(progress, configs, records.drop_last()), configs, records.last())
    }
}

/// What a capture returns: its results when the stop signal is first set to true, and
/// nothing where that does not happen among these wakeups.
pub open spec fn capture_outcome(
    progress: Progress,
    configs: Seq<CaptureConfig<PeripheralId>>,
    wakeups: Seq<Wakeup>,
) -> Option<Seq<Record>>
    decreases wakeups.len(),
{
    if wakeups.len() == 0 {
        None
    } else {
        match wakeups[0] {
            Wakeup::Tick(records) => capture_outcome(
                handled_all(progress, configs, records@),
                configs,
                wakeups.drop_first(),
            ),
            Wakeup::StopChanged(stop) => if stop {
                Some(progress.results)
            } else {
                capture_outcome(progress, configs, wakeups.drop_first())
            },
        }
    }
}

/// The configured peripherals and their intervals.
struct Settings {
    capture_config: Vec<CaptureConfig<PeripheralId>>,
    interval_sec: Intervals,
}

impl Settings {
    /// The intervals are those of the configurations.
    #[verifier::type_invariant]
    spec fn intervals_match(self) -> bool {
        self.interval_sec@ == intervals_of(self.capture_config@)
    }
}

/// A capture of the configured peripherals.
pub struct CaptureSession {
    settings: Settings,
    results: Vec<Record>,
    seen_message_types: SeenMessageTypes,
    last_seen_timestamp: LastSeen,
}

impl View for CaptureSession {
    type V = Progress;

    closed spec fn view(&self) -> Progress {
        progress_of(self.results, self.seen_message_types, self.last_seen_timestamp)
    }
}

impl CaptureSession {
    /// The configurations that the capture was started with.
    pub closed spec fn configs(self) -> Seq<CaptureConfig<PeripheralId>> {
        self.settings.capture_config@
    }

    /// Starts a capture.
    pub fn new(capture_config: Vec<CaptureConfig<PeripheralId>>) -> (session: CaptureSession)
        ensures
            session.configs() == capture_config@,
            session@ == started(),
    {
        let interval_sec = capture_intervals(&capture_config);
        CaptureSession {
            settings: Settings { capture_config, interval_sec },
            results: Vec::new(),
            seen_message_types: SeenMessageTypes::new(),
            last_seen_timestamp: StringHashMap::new(),
        }
    }

    /// Handles one record; says whether it is to be stored.
    fn handle_event(&mut self, event: &Record) -> (captured: bool)
        ensures
            final(self).configs() == old(self).configs(),
            final(self)@ == handled(old(self)@, old(self).configs(), *event),
            final(self)@.results == (if captured {
                old(self)@.results.push(*event)
            } else {
                old(self)@.results
            }),
    {
        proof {
            use_type_invariant(&self.settings);
        }
        if accepts_event(&self.settings.capture_config, event) {
            process_event(
                event,
                &mut self.results,
                &mut self.seen_message_types,
                &mut self.last_seen_timestamp,
                &self.settings.interval_sec,
            )
        } else {
            false
        }
    }

    /// Handles all the records, from the first on, and takes them out of the queue.
    /// Returns those that are to be stored, in order: the ones that joined the results.
    pub fn drain(&mut self, records: &mut Vec<Record>) -> (stored: Vec<Record>)
        ensures
            final(records)@.len() == 0,
            final(self).configs() == old(self).configs(),
            final(self)@ == handled_all(old(self)@, old(self).configs(), old(records)@),
            final(self)@.results == old(self)@.results + stored@,
    {
        let ghost all = records@;
        let mut stored: Vec<Record> = Vec::new();
        assert(all.take(0) =~= Seq::empty());
        assert(self@.results =~= old(self)@.results + stored@);
        let ghost mut done: int = 0;
        while !records.is_empty()
            invariant
                all == old(records)@,
                0 <= done <= all.len(),
                records@ == all.skip(done),
                self.configs() == old(self).configs(),
                self@ == handled_all(old(self)@, old(self).configs(), all.take(done)),
                self@.results == old(self)@.results + stored@,
            decreases records@.len(),
        {
            let event = records.remove(0);
            let captured = self.handle_event(&event);
            proof {
                assert(all.take(done + 1).drop_last() =~= all.take(done));
                assert(all.skip(done).remove(0) =~= all.skip(done + 1));
                done = done + 1;
            }
            if captured {
                let ghost before = stored@;
                stored.push(event);
                assert(old(self)@.results + stored@ =~= (old(self)@.results + before).push(event));
            }
        }
        assert(all.take(done) =~= all);
        stored
    }

    /// Handles a wakeup and says what is to be done next.
    pub fn step(&mut self, wakeup: Wakeup) -> (action: Action)
        ensures
            final(self).configs() == old(self).configs(),
            match wakeup {
                Wakeup::Tick(records) => {
                    &&& final(self)@ == handled_all(old(self)@, old(self).configs(), records@)
                    &&& action is Store
                    &&& final(self)@.results == old(self)@.results + action->Store_0@
                },
                Wakeup::StopChanged(stop) => {
                    &&& final(self)@ == old(self)@
                    &&& action == (if stop {
                        Action::Finish
                    } else {
                        Action::Wait
                    })
                },
            },
    {
        match wakeup {
            Wakeup::Tick(mut records) => Action::Store(self.drain(&mut records)),
            Wakeup::StopChanged(stop) => if stop {
                Action::Finish
            } else {
                Action::Wait
            },
        }
    }

    /// Ends the capture and hands out its results.
    pub fn into_results(self) -> (results: Vec<Record>)
        ensures
            results@ == self@.results,
    {
        self.results
    }
}

/// Captures the configured peripherals until the stop signal is set. Returns what was
/// captured, or `None` where the wakeups end before the stop signal is set.
pub fn save_events(wakeups: Vec<Wakeup>, capture_config: Vec<CaptureConfig<PeripheralId>>) -> (saved:
    Option<Vec<Record>>)
    ensures
        match capture_outcome(started(), capture_config@, wakeups@) {
            Some(results) => saved is Some && saved->0@ == results,
            None => saved is None,
        },
{
    let mut session = CaptureSession::new(capture_config);
    let mut remaining = wakeups;
    while !remaining.is_empty()
        invariant
            session.configs() == capture_config@,
            capture_outcome(started(), capture_config@, wakeups@) == capture_outcome(
                session@,
                capture_config@,
                remaining@,
            ),
        decreases remaining@.len(),
    {
        let ghost before = remaining@;
        let wakeup = remaining.remove(0);
        assert(before.remove(0) =~= before.drop_first());
        if let Action::Finish = session.step(wakeup) {
            return Some(session.into_results());
        }
    }
    None
}

} // verus!
