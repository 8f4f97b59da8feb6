//! The report on all peripherals in reach: their events, grouped by peripheral.

use vstd::prelude::*;
use crate::event::{
    get_peripheral_id, is_from, peripheral_of, records_of, CentralEvent, PeripheralId, Record,
};
use crate::wakeup::Wakeup;

verus! {

/// The events of one peripheral.
pub type PeripheralEvents = (PeripheralId, Vec<CentralEvent>);

/// The records that come from a peripheral, in order.
pub open spec fn identified(records: Seq<Record>) -> Seq<Record> {
    records.filter(|record: Record| peripheral_of(record.1) is Some)
}

/// The events of one peripheral among the records, in order.
pub open spec fn events_of(records: Seq<Record>, id: Seq<char>) -> Seq<CentralEvent> {
    records_of(records, id).map_values(|record: Record| record.1)
}

/// The peripherals that the records come from.
pub open spec fn peripherals_in(records: Seq<Record>) -> Set<Seq<char>> {
    Set::new(|id: Seq<char>| exists|i: int| 0 <= i < records.len() && is_from(#[trigger] records[i], id))
}

/// Whether the groups are the records by peripheral: one group for each peripheral that
/// a record comes from, which holds its events in the order of the records.
pub open spec fn is_grouping(groups: Seq<PeripheralEvents>, records: Seq<Record>) -> bool {
    &&& forall|i: int, j: int|
        0 <= i < j < groups.len() ==> (#[trigger] groups[i]).0@ != (#[trigger] groups[j]).0@
    &&& forall|i: int|
        0 <= i < groups.len() ==> peripherals_in(records).contains((#[trigger] groups[i]).0@)
            && groups[i].1@ == events_of(records, groups[i].0@)
    &&& forall|id: Seq<char>| #[trigger]
        peripherals_in(records).contains(id) ==> exists|i: int|
            0 <= i < groups.len() && (#[trigger] groups[i]).0@ == id
}

/// The records after one more tick: those that came from a peripheral are taken from
/// the end of the queue.
pub open spec fn collected(results: Seq<Record>, records: Seq<Record>) -> Seq<Record> {
    results + identified(records.reverse())
}

/// What a report returns: the records that were collected when the stop signal is first
/// set to true, and nothing where that does not happen among these wakeups.
pub open spec fn report_outcome(results: Seq<Record>, wakeups: Seq<Wakeup>) -> Option<Seq<Record>>
    decreases wakeups.len(),
{
    if wakeups.len() == 0 {
        None
    } else {
        match wakeups[0] {
            Wakeup::Tick(records) => report_outcome(
                collected(results, records@),
                wakeups.drop_first(),
            ),
            Wakeup::StopChanged(stop) => if stop {
                Some(results)
            } else {
                report_outcome(results, wakeups.drop_first())
            },
        }
    }
}

/// A record adds to the events of its peripheral and of no other.
proof fn lemma_events_of_push(records: Seq<Record>, record: Record, id: Seq<char>)
    ensures
        events_of(records.push(record), id) == (if is_from(record, id) {
            events_of(records, id).push(record.1)
        } else {
            events_of(records, id)
        }),
{
    reveal(Seq::filter);
    assert(records.push(record).drop_last() =~= records);
    assert(events_of(records.push(record), id) =~= (if is_from(record, id) {
        events_of(records, id).push(record.1)
    } else {
        events_of(records, id)
    }));
}

/// A record adds its peripheral and no other.
proof fn lemma_peripherals_in_push(records: Seq<Record>, record: Record, id: Seq<char>)
    ensures
        peripherals_in(records.push(record)).contains(id) <==> (is_from(record, id)
            || peripherals_in(records).contains(id)),
{
    let more = records.push(record);
    assert(more[records.len() as int] == record);
    assert forall|i: int| 0 <= i < records.len() implies more[i] == records[i] by {}
    if peripherals_in(records).contains(id) {
        let i = choose|i: int| 0 <= i < records.len() && is_from(#[trigger] records[i], id);
        assert(is_from(more[i], id));
    }
}

/// A peripheral that no record comes from has no events.
proof fn lemma_events_of_none(records: Seq<Record>, id: Seq<char>)
    requires
        !peripherals_in(records).contains(id),
    ensures
        events_of(records, id) == Seq::<CentralEvent>::empty(),
    decreases records.len(),
{
    reveal(Seq::filter);
    if records.len() > 0 {
        assert(records.drop_last().push(records.last()) =~= records);
        lemma_peripherals_in_push(records.drop_last(), records.last(), id);
        lemma_events_of_none(records.drop_last(), id);
        lemma_events_of_push(records.drop_last(), records.last(), id);
    }
}

/// The report: the collected records, and their events by peripheral.
#[derive(Debug)]
pub struct Report {
    results: Vec<Record>,
    peripheral_events: Vec<PeripheralEvents>,
}

impl View for Report {
    type V = Seq<Record>;

    closed spec fn view(&self) -> Seq<Record> {
        self.results@
    }
}

impl Report {
    /// The groups are the collected records by peripheral.
    pub closed spec fn wf(self) -> bool {
        is_grouping(self.peripheral_events@, self.results@)
    }

    /// An empty report.
    pub fn new() -> (report: Report)
        ensures
            report.wf(),
            report@ == Seq::<Record>::empty(),
    {
        Report { results: Vec::new(), peripheral_events: Vec::new() }
    }

    /// Where the group of a peripheral stands, or the number of groups where it has none.
    fn position(&self, id: &PeripheralId) -> (position: usize)
        ensures
            position <= self.peripheral_events@.len(),
            position < self.peripheral_events@.len() ==> self.peripheral_events@[position as int].0@
                == id@,
            forall|i: int| 0 <= i < position ==> (#[trigger] self.peripheral_events@[i]).0@ != id@,
    {
        for i in 0..self.peripheral_events.len()
            invariant
                forall|j: int| 0 <= j < i ==> (#[trigger] self.peripheral_events@[j]).0@ != id@,
        {
            if self.peripheral_events[i].0 == *id {
                return i;
            }
        }
        self.peripheral_events.len()
    }

    /// Adds a record to the report, and its event to the group of its peripheral. A
    /// record that comes from no peripheral is dropped.
    fn add_record(&mut self, record: Record)
        requires
            old(self).wf(),
        ensures
            final(self).wf(),
            final(self)@ == (if peripheral_of(record.1) is Some {
                old(self)@.push(record)
            } else {
                old(self)@
            }),
    {
        if let Some(peripheral_id) = get_peripheral_id(&record.1) {
            let ghost id = peripheral_id@;
            let ghost before = self.peripheral_events@;
            let position = self.position(&peripheral_id);
            if position == self.peripheral_events.len() {
                self.peripheral_events.push((peripheral_id, Vec::new()));
                proof {
                    assert(!peripherals_in(self.results@).contains(id));
                    lemma_events_of_none(self.results@, id);
                }
            }
            let ghost opened = self.peripheral_events@;
            self.peripheral_events[position].1.push(record.1.clone());
            self.results.push(record);
            proof {
                let records = old(self).results@;
                let groups = self.peripheral_events@;
                assert(groups.len() == opened.len());
                assert(forall|i: int| 0 <= i < groups.len() ==> (#[trigger] groups[i]).0 == opened[i].0);
                assert(forall|i: int|
                    0 <= i < before.len() ==> (#[trigger] opened[i]) == before[i]);
                assert forall|i: int| 0 <= i < groups.len() implies peripherals_in(
                    self.results@,
                ).contains((#[trigger] groups[i]).0@) && groups[i].1@ == events_of(
                    self.results@,
                    groups[i].0@,
                ) by {
                    lemma_events_of_push(records, record, groups[i].0@);
                    lemma_peripherals_in_push(records, record, groups[i].0@);
                    if i != position {
                        assert(groups[i] == before[i]);
                    }
                }
                assert forall|other: Seq<char>| #[trigger]
                    peripherals_in(self.results@).contains(other) implies exists|i: int|
                    0 <= i < groups.len() && (#[trigger] groups[i]).0@ == other by {
                    lemma_peripherals_in_push(records, record, other);
                    if other == id {
                        assert(groups[position as int].0@ == other);
                    } else {
                        let i = choose|i: int|
                            0 <= i < before.len() && (#[trigger] before[i]).0@ == other;
                        assert(groups[i].0@ == other);
                    }
                }
            }
        }
    }

    /// Takes all the records out of the queue, from the last on, and adds them to the
    /// report.
    pub fn drain(&mut self, records: &mut Vec<Record>)
        requires
            old(self).wf(),
        ensures
            final(self).wf(),
            final(records)@.len() == 0,
            final(self)@ == collected(old(self)@, old(records)@),
    {
        let ghost all = records@;
        assert(all.reverse().take(0) =~= Seq::empty());
        proof {
            reveal(Seq::filter);
        }
        assert(self@ =~= old(self)@ + identified(all.reverse().take(0)));
        let ghost mut done: int = 0;
        loop
            invariant
                all == old(records)@,
                0 <= done <= all.len(),
                records@ == all.take(all.len() - done),
                self.wf(),
                self@ == old(self)@ + identified(all.reverse().take(done)),
            ensures
                records@.len() == 0,
                done == all.len(),
            decreases records@.len(),
        {
            let event = match records.pop() {
                Some(event) => event,
                None => {
                    break;
                },
            };
            self.add_record(event);
            proof {
                let reversed = all.reverse();
                assert(reversed.take(done + 1).drop_last() =~= reversed.take(done));
                assert(reversed.take(done + 1).last() == event);
                reveal(Seq::filter);
                done = done + 1;
            }
            assert(self@ =~= old(self)@ + identified(all.reverse().take(done)));
        }
        assert(all.reverse().take(done) =~= all.reverse());
    }

    /// Handles a wakeup and says whether the report goes on.
    pub fn step(&mut self, wakeup: Wakeup) -> (goes_on: bool)
        requires
            old(self).wf(),
        ensures
            final(self).wf(),
            match wakeup {
                Wakeup::Tick(records) => final(self)@ == collected(old(self)@, records@) && goes_on,
                Wakeup::StopChanged(stop) => final(self)@ == old(self)@ && goes_on == !stop,
            },
    {
        match wakeup {
            Wakeup::Tick(mut records) => {
                self.drain(&mut records);
                true
            },
            Wakeup::StopChanged(stop) => !stop,
        }
    }

    /// How many different peripherals the collected records come from.
    pub fn device_count(&self) -> (count: usize)
        requires
            self.wf(),
        ensures
            peripherals_in(self@).finite(),
            count == peripherals_in(self@).len(),
    {
        proof {
            let ids = self.peripheral_events@.map_values(|group: PeripheralEvents| group.0@);
            assert(ids.to_set() =~= peripherals_in(self@)) by {
                assert forall|id: Seq<char>| #[trigger] peripherals_in(self@).contains(id) implies
                    ids.contains(id) by {
                    let i = choose|i: int|
                        0 <= i < self.peripheral_events@.len()
                            && (#[trigger] self.peripheral_events@[i]).0@ == id;
                    assert(ids[i] == id);
                }
            }
            assert(ids.no_duplicates());
            ids.unique_seq_to_set();
        }
        self.peripheral_events.len()
    }

    /// The events of each peripheral.
    pub fn peripheral_events(&self) -> (groups: &Vec<PeripheralEvents>)
        requires
            self.wf(),
        ensures
            is_grouping(groups@, self@),
    {
        &self.peripheral_events
    }

    /// The collected records, in the order in which they were taken.
    pub fn into_results(self) -> (results: Vec<Record>)
        ensures
            results@ == self@,
    {
        self.results
    }
}

/// Collects the records of all peripherals until the stop signal is set. Returns the
/// report, or `None` where the wakeups end before the stop signal is set.
pub fn report_peripheral(wakeups: Vec<Wakeup>) -> (report: Option<Report>)
    ensures
        match report_outcome(Seq::empty(), wakeups@) {
            Some(results) => report is Some && report->0.wf() && report->0@ == results,
            None => report is None,
        },
{
    let mut report = Report::new();
    let mut remaining = wakeups;
    while !remaining.is_empty()
        invariant
            report.wf(),
            report_outcome(Seq::empty(), wakeups@) == report_outcome(report@, remaining@),
        decreases remaining@.len(),
    {
        let ghost before = remaining@;
        let wakeup = remaining.remove(0);
        assert(before.remove(0) =~= before.drop_first());
        if !report.step(wakeup) {
            return Some(report);
        }
    }
    None
}

} // verus!
