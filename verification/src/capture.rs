//! What is captured of each peripheral: in each window of time, one event of each kind.

use vstd::prelude::*;
use vstd::hash_map::StringHashMap;
use crate::event::{
    get_message_type, get_peripheral_id, peripheral_of, type_of, MessageType, Record,
};
use crate::filter::Intervals;
use crate::timestamp::{elapsed_nanos, has_elapsed, Timestamp, NANOS_PER_SEC};

verus! {

/// When the current window of each peripheral began, under the text of its identity.
pub type LastSeen = StringHashMap<Timestamp>;

/// A set of kinds of events.
#[derive(Debug)]
pub struct MessageTypeSet {
    types: Vec<MessageType>,
}

impl View for MessageTypeSet {
    type V = Set<MessageType>;

    closed spec fn view(&self) -> Set<MessageType> {
        self.types@.to_set()
    }
}

impl MessageTypeSet {
    /// No kind is listed twice.
    #[verifier::type_invariant]
    closed spec fn listed_once(self) -> bool {
        self.types@.no_duplicates()
    }

    /// The empty set.
    pub fn new() -> (set: MessageTypeSet)
        ensures
            set@ == Set::<MessageType>::empty(),
    {
        let types: Vec<MessageType> = Vec::new();
        assert(types@.to_set() =~= Set::empty());
        MessageTypeSet { types }
    }

    /// Whether the set holds `message_type`.
    pub fn contains(&self, message_type: MessageType) -> (contained: bool)
        ensures
            contained == self@.contains(message_type),
    {
        for i in 0..self.types.len()
            invariant
                forall|j: int| 0 <= j < i ==> self.types@[j] != message_type,
        {
            if self.types[i] == message_type {
                return true;
            }
        }
        false
    }

    /// The set with `message_type` added to it.
    pub fn with(&self, message_type: MessageType) -> (set: MessageTypeSet)
        ensures
            set@ == self@.insert(message_type),
    {
        proof {
            use_type_invariant(self);
        }
        let mut types: Vec<MessageType> = self.types.clone();
        assert(types@ =~= self.types@);
        if !self.contains(message_type) {
            types.push(message_type);
            assert(types@.to_set() =~= self@.insert(message_type)) by {
                assert forall|t: MessageType| self@.insert(message_type).contains(t) implies
                    types@.contains(t) by {
                    if t == message_type {
                        assert(types@[types@.len() - 1] == t);
                    } else {
                        let i = choose|i: int| 0 <= i < self.types@.len() && self.types@[i] == t;
                        assert(types@[i] == t);
                    }
                }
            }
        } else {
            assert(types@.to_set() =~= self@.insert(message_type));
        }
        MessageTypeSet { types }
    }
}

/// The kinds of events that were captured of each peripheral in its current window.
pub struct SeenMessageTypes {
    map: StringHashMap<MessageTypeSet>,
}

impl View for SeenMessageTypes {
    type V = Map<Seq<char>, Set<MessageType>>;

    closed spec fn view(&self) -> Map<Seq<char>, Set<MessageType>> {
        self.map@.map_values(|set: MessageTypeSet| set@)
    }
}

impl SeenMessageTypes {
    /// Nothing was seen of any peripheral.
    pub fn new() -> (seen: SeenMessageTypes)
        ensures
            seen@ == Map::<Seq<char>, Set<MessageType>>::empty(),
    {
        let seen = SeenMessageTypes { map: StringHashMap::new() };
        assert(seen@ =~= Map::empty());
        seen
    }

    /// Whether there is a window for the peripheral.
    pub fn contains_key(&self, id: &str) -> (contained: bool)
        ensures
            contained == self@.contains_key(id@),
    {
        self.map.contains_key(id)
    }

    /// Whether the window of the peripheral holds an event of this kind.
    pub fn contains(&self, id: &str, message_type: MessageType) -> (contained: bool)
        ensures
            contained == (self@.contains_key(id@) && self@[id@].contains(message_type)),
    {
        match self.map.get(id) {
            Some(set) => set.contains(message_type),
            None => false,
        }
    }

    /// Empties the window of the peripheral.
    pub fn reset(&mut self, id: String)
        ensures
            final(self)@ == old(self)@.insert(id@, Set::empty()),
    {
        self.map.insert(id, MessageTypeSet::new());
        assert(self@ =~= old(self)@.insert(id@, Set::empty()));
    }

    /// Puts a kind of event into the window of the peripheral, which is opened where
    /// there is none.
    pub fn insert(&mut self, id: String, message_type: MessageType)
        ensures
            final(self)@ == old(self)@.insert(
                id@,
                (if old(self)@.contains_key(id@) {
                    old(self)@[id@]
                } else {
                    Set::empty()
                }).insert(message_type),
            ),
    {
        let set = match self.map.get(id.as_str()) {
            Some(set) => set.with(message_type),
            None => MessageTypeSet::new().with(message_type),
        };
        self.map.insert(id, set);
        assert(self@ =~= old(self)@.insert(id@, set@));
    }
}

/// How far a capture has come.
#[verifier::ext_equal]
pub ghost struct Progress {
    /// The captured records, in the order of their capture.
    pub results: Seq<Record>,
    /// The kinds of events in the current window of each peripheral.
    pub seen: Map<Seq<char>, Set<MessageType>>,
    /// When the current window of each peripheral began.
    pub last_seen: Map<Seq<char>, Timestamp>,
}

/// When the current window of a peripheral began: the Unix epoch where nothing is known
/// of the peripheral.
pub open spec fn window_start(last_seen: Map<Seq<char>, Timestamp>, id: Seq<char>) -> (int, int) {
    if last_seen.contains_key(id) {
        last_seen[id]@
    } else {
        (0, 0)
    }
}

/// The interval of a peripheral in seconds, zero where none is set. A window without an
/// interval is over at any time; see `is_expired`.
pub open spec fn interval_of(intervals: Map<Seq<char>, u32>, id: Seq<char>) -> u32 {
    if intervals.contains_key(id) {
        intervals[id]
    } else {
        0
    }
}

/// Whether the window of the peripheral is over when the record arrives: its interval has
/// passed since it began. Where no interval is set, every window is over at once, whatever
/// the time.
pub open spec fn is_expired(
    progress: Progress,
    intervals: Map<Seq<char>, u32>,
    id: Seq<char>,
    record: Record,
) -> bool {
    ||| !intervals.contains_key(id)
    ||| elapsed_nanos(record.0@, window_start(progress.last_seen, id)) >= interval_of(intervals, id)
        * NANOS_PER_SEC
}

/// Whether the window of the peripheral holds an event of the kind of the record.
pub open spec fn is_seen(progress: Progress, id: Seq<char>, record: Record) -> bool {
    progress.seen.contains_key(id) && progress.seen[id].contains(type_of(record.1))
}

/// Whether a record is captured: it comes from a peripheral, and is either the first of
/// its kind in the peripheral's window or arrives when that window is over.
pub open spec fn is_captured(
    progress: Progress,
    intervals: Map<Seq<char>, u32>,
    record: Record,
) -> bool {
    match peripheral_of(record.1) {
        Some(id) => !is_seen(progress, id@, record) || is_expired(
            progress,
            intervals,
            id@,
            record,
        ),
        None => false,
    }
}

/// The progress after a record. A record that is not captured changes nothing. One that
/// is captured joins the results; the first of a peripheral opens its window, and one
/// whose kind the window already holds starts the window anew.
pub open spec fn processed(
    progress: Progress,
    intervals: Map<Seq<char>, u32>,
    record: Record,
) -> Progress {
    if is_captured(progress, intervals, record) {
        let id = peripheral_of(record.1)->0@;
        let kind = type_of(record.1);
        let results = progress.results.push(record);
        if is_seen(progress, id, record) {
            Progress {
                results,
                seen: progress.seen.insert(id, set![kind]),
                last_seen: progress.last_seen.insert(id, record.0),
            }
        } else if progress.seen.contains_key(id) {
            Progress {
                results,
                seen: progress.seen.insert(id, progress.seen[id].insert(kind)),
                last_seen: progress.last_seen,
            }
        } else {
            Progress {
                results,
                seen: progress.seen.insert(id, set![kind]),
                last_seen: if progress.last_seen.contains_key(id) {
                    progress.last_seen
                } else {
                    progress.last_seen.insert(id, record.0)
                },
            }
        }
    } else {
        progress
    }
}

/// The progress that a capture keeps in its three parts.
pub open spec fn progress_of(
    results: Vec<Record>,
    seen_message_types: SeenMessageTypes,
    last_seen_timestamp: LastSeen,
) -> Progress {
    Progress { results: results@, seen: seen_message_types@, last_seen: last_seen_timestamp@ }
}

/// Decides whether a record is captured, and captures it. Says whether it did: a record
/// that was captured is also to be stored.
///
/// A record is captured if it is the first of its peripheral, if its kind was not seen
/// in the peripheral's window, or if the interval of the peripheral has passed since
/// the window began. Of a peripheral without an interval every record is captured. A
/// record that comes from no peripheral is ignored.
pub fn process_event(
    event: &Record,
    results: &mut Vec<Record>,
    seen_message_types: &mut SeenMessageTypes,
    last_seen_timestamp: &mut LastSeen,
    interval_sec: &Intervals,
) -> (captured: bool)
    ensures
        captured == is_captured(
            progress_of(*old(results), *old(seen_message_types), *old(last_seen_timestamp)),
            interval_sec@,
            *event,
        ),
        progress_of(*final(results), *final(seen_message_types), *final(last_seen_timestamp))
            == processed(
            progress_of(*old(results), *old(seen_message_types), *old(last_seen_timestamp)),
            interval_sec@,
            *event,
        ),
        captured ==> final(results)@ == old(results)@.push(*event),
        !captured ==> final(results)@ == old(results)@,
        !captured ==> final(seen_message_types)@ == old(seen_message_types)@,
        !captured ==> final(last_seen_timestamp)@ == old(last_seen_timestamp)@,
{
    let ghost before = progress_of(*results, *seen_message_types, *last_seen_timestamp);
    let peripheral_id = match get_peripheral_id(&event.1) {
        Some(peripheral_id) => peripheral_id,
        None => {
            return false;
        },
    };
    let id = peripheral_id.text.as_str();
    let message_type = get_message_type(&event.1);
    let previous_timestamp = match last_seen_timestamp.get(id) {
        Some(timestamp) => *timestamp,
        None => Timestamp::unix_epoch(),
    };
    let is_over = match interval_sec.get(id) {
        Some(interval) => has_elapsed(&event.0, &previous_timestamp, *interval),
        None => true,
    };
    if !seen_message_types.contains_key(id) {
        if !last_seen_timestamp.contains_key(id) {
            last_seen_timestamp.insert(peripheral_id.text.clone(), event.0);
        }
    } else if !seen_message_types.contains(id, message_type) {
        // The window goes on.
    } else if is_over {
        seen_message_types.reset(peripheral_id.text.clone());
        last_seen_timestamp.insert(peripheral_id.text.clone(), event.0);
    } else {
        return false;
    }
    seen_message_types.insert(peripheral_id.text.clone(), message_type);
    results.push((event.0, event.1.clone()));
    proof {
        let after = processed(before, interval_sec@, *event);
        assert(seen_message_types@ =~~= after.seen);
        assert(last_seen_timestamp@ =~= after.last_seen);
        assert(results@ =~= after.results);
    }
    true
}

} // verus!
