//! What holds of every report, record by record.

use vstd::prelude::*;
use crate::event::{is_from, peripheral_of, CentralEvent, PeripheralId, Record};
use crate::laws::law_report_holds_every_identified_record;
use crate::report::{
    collected, events_of, identified, is_grouping, peripherals_in, report_outcome, PeripheralEvents,
};
use crate::wakeup::{arrivals, is_first_stop, Wakeup};

verus! {

/// The last record of a queue is taken first: it joins the report before the rest of the
/// queue does, unless it is a state update, which is dropped.
pub proof fn law_last_record_is_taken_first(
    results: Seq<Record>,
    records: Seq<Record>,
    record: Record,
)
    ensures
        collected(results, Seq::empty()) == results,
        !(record.1 is StateUpdate) ==> collected(results, records.push(record)) == collected(
            results.push(record),
            records,
        ),
        record.1 is StateUpdate ==> collected(results, records.push(record)) == collected(
            results,
            records,
        ),
{
    reveal(Seq::filter);
    let known = |r: Record| peripheral_of(r.1) is Some;
    let one = seq![record];
    let rest = identified(records.reverse());
    assert(Seq::<Record>::empty().reverse() =~= Seq::empty());
    assert(results + identified(Seq::empty()) =~= results);
    assert(records.push(record).reverse() =~= one + records.reverse());
    Seq::filter_distributes_over_add(one, records.reverse(), known);
    assert(one.drop_last().filter(known) =~= Seq::empty());
    if record.1 is StateUpdate {
        assert(one.filter(known) =~= Seq::empty());
        assert(Seq::<Record>::empty() + rest =~= rest);
    } else {
        assert(one.filter(known) =~= one);
        assert(results + (one + rest) =~= results.push(record) + rest);
    }
}

/// A tick loses nothing and makes nothing up: each record that is not a state update is
/// in the report as often as before and as often again as the tick brought it, and state
/// updates are not added.
pub proof fn law_tick_adds_every_record_of_a_peripheral(
    results: Seq<Record>,
    records: Seq<Record>,
    record: Record,
)
    ensures
        !(record.1 is StateUpdate) ==> collected(results, records).to_multiset().count(record)
            == results.to_multiset().count(record) + records.to_multiset().count(record),
        record.1 is StateUpdate ==> collected(results, records).to_multiset().count(record)
            == results.to_multiset().count(record),
    decreases records.len(),
{
    broadcast use vstd::seq_lib::group_to_multiset_ensures;

    if records.len() == 0 {
        law_last_record_is_taken_first(results, records, record);
        assert(records =~= Seq::empty());
    } else {
        let rest = records.drop_last();
        let last = records.last();
        assert(records =~= rest.push(last));
        law_last_record_is_taken_first(results, rest, last);
        law_tick_adds_every_record_of_a_peripheral(results.push(last), rest, record);
        law_tick_adds_every_record_of_a_peripheral(results, rest, record);
    }
}

/// What was collected stays in the report, in front of what a tick adds.
pub proof fn law_report_only_grows(results: Seq<Record>, records: Seq<Record>)
    ensures
        results.is_prefix_of(collected(results, records)),
{
}

/// The records that come from a peripheral are all but the state updates, in order.
pub proof fn law_identified_records_add_up(records: Seq<Record>, record: Record)
    ensures
        identified(Seq::empty()) == Seq::<Record>::empty(),
        !(record.1 is StateUpdate) ==> identified(records.push(record)) == identified(records).push(
            record,
        ),
        record.1 is StateUpdate ==> identified(records.push(record)) == identified(records),
{
    reveal(Seq::filter);
    assert(records.push(record).drop_last() =~= records);
}

/// A report takes its wakeups one after the other: a tick adds its records, the stop
/// signal ends the report with what it holds, and anything else changes nothing.
pub proof fn law_report_follows_its_wakeups(
    results: Seq<Record>,
    records: Vec<Record>,
    rest: Seq<Wakeup>,
)
    ensures
        report_outcome(results, seq![Wakeup::Tick(records)] + rest) == report_outcome(
            collected(results, records@),
            rest,
        ),
        report_outcome(results, seq![Wakeup::StopChanged(true)] + rest) == Some(results),
        report_outcome(results, seq![Wakeup::StopChanged(false)] + rest) == report_outcome(
            results,
            rest,
        ),
        report_outcome(results, Seq::empty()) is None,
{
    assert((seq![Wakeup::Tick(records)] + rest).drop_first() =~= rest);
    assert((seq![Wakeup::StopChanged(false)] + rest).drop_first() =~= rest);
}

/// When a report is stopped, each record that is not a state update is in it as often as
/// it arrived, and no state update is.
pub proof fn law_stopped_report_holds_what_arrived(
    before: Seq<Wakeup>,
    after: Seq<Wakeup>,
    record: Record,
)
    requires
        forall|i: int|
            0 <= i < before.len() ==> (#[trigger] before[i]) != Wakeup::StopChanged(true),
    ensures
        report_outcome(Seq::empty(), before.push(Wakeup::StopChanged(true)) + after) is Some,
        !(record.1 is StateUpdate) ==> report_outcome(
            Seq::empty(),
            before.push(Wakeup::StopChanged(true)) + after,
        )->0.to_multiset().count(record) == arrivals(before).to_multiset().count(record),
        record.1 is StateUpdate ==> report_outcome(
            Seq::empty(),
            before.push(Wakeup::StopChanged(true)) + after,
        )->0.to_multiset().count(record) == 0,
{
    let wakeups = before.push(Wakeup::StopChanged(true)) + after;
    let stop = before.len() as int;
    assert forall|i: int| 0 <= i < stop implies (#[trigger] wakeups[i]) != Wakeup::StopChanged(
        true,
    ) by {
        assert(wakeups[i] == before[i]);
    }
    assert(is_first_stop(wakeups, stop));
    law_report_holds_every_identified_record(Seq::empty(), wakeups, stop);
    assert(wakeups.take(stop) =~= before);
    assert(Seq::<Record>::empty() + identified(arrivals(before)) =~= identified(arrivals(before)));
    lemma_identified_counts(arrivals(before), record);
}

/// How often a record is among those that come from a peripheral.
proof fn lemma_identified_counts(records: Seq<Record>, record: Record)
    ensures
        identified(records).to_multiset().count(record) == (if record.1 is StateUpdate {
            0
        } else {
            records.to_multiset().count(record)
        }),
    decreases records.len(),
{
    broadcast use vstd::seq_lib::group_to_multiset_ensures;

    if records.len() == 0 {
        law_identified_records_add_up(records, record);
        assert(records =~= Seq::empty());
    } else {
        let rest = records.drop_last();
        assert(records =~= rest.push(records.last()));
        law_identified_records_add_up(rest, records.last());
        lemma_identified_counts(rest, record);
    }
}

/// Each record but a state update makes its peripheral one of those in reach, and no
/// other; without records there are none.
pub proof fn law_peripherals_in_reach_add_up(
    records: Seq<Record>,
    record: Record,
    owner: PeripheralId,
)
    requires
        peripheral_of(record.1) == Some(owner),
    ensures
        peripherals_in(Seq::empty()) == Set::<Seq<char>>::empty(),
        peripherals_in(records.push(record)) == peripherals_in(records).insert(owner.text@),
{
    let more = records.push(record);
    assert(peripherals_in(Seq::empty()) =~= Set::<Seq<char>>::empty());
    assert forall|id: Seq<char>| #[trigger]
        peripherals_in(records).insert(owner.text@).contains(id) implies peripherals_in(
        more,
    ).contains(id) by {
        if id == owner.text@ {
            assert(is_from(more[records.len() as int], id));
        } else {
            let i = choose|i: int| 0 <= i < records.len() && is_from(#[trigger] records[i], id);
            assert(is_from(more[i], id));
        }
    }
    assert(peripherals_in(more) =~= peripherals_in(records).insert(owner.text@));
}

/// A state update makes no peripheral one of those in reach.
pub proof fn law_state_updates_are_no_device(records: Seq<Record>, record: Record)
    requires
        record.1 is StateUpdate,
    ensures
        peripherals_in(records.push(record)) == peripherals_in(records),
{
    let more = records.push(record);
    assert forall|id: Seq<char>| #[trigger] peripherals_in(records).contains(
        id,
    ) implies peripherals_in(more).contains(id) by {
        let i = choose|i: int| 0 <= i < records.len() && is_from(#[trigger] records[i], id);
        assert(is_from(more[i], id));
    }
    assert(peripherals_in(more) =~= peripherals_in(records));
}

/// The events of a peripheral are those of its records, in order, whatever the times.
pub proof fn law_events_of_a_peripheral_add_up(
    records: Seq<Record>,
    record: Record,
    owner: PeripheralId,
    id: Seq<char>,
)
    requires
        peripheral_of(record.1) == Some(owner),
    ensures
        events_of(Seq::empty(), id) == Seq::<CentralEvent>::empty(),
        owner.text@ == id ==> events_of(records.push(record), id) == events_of(records, id).push(
            record.1,
        ),
        owner.text@ != id ==> events_of(records.push(record), id) == events_of(records, id),
{
    reveal(Seq::filter);
    assert(records.push(record).drop_last() =~= records);
    assert(events_of(Seq::empty(), id) =~= Seq::<CentralEvent>::empty());
    if owner.text@ == id {
        assert(events_of(records.push(record), id) =~= events_of(records, id).push(record.1));
    }
}

/// State updates are among the events of no peripheral.
pub proof fn law_state_updates_are_in_no_group(
    records: Seq<Record>,
    record: Record,
    id: Seq<char>,
)
    requires
        record.1 is StateUpdate,
    ensures
        events_of(records.push(record), id) == events_of(records, id),
{
    reveal(Seq::filter);
    assert(records.push(record).drop_last() =~= records);
}

/// Each record of a peripheral has its event in exactly one group: the one group that
/// bears the identity of the peripheral.
pub proof fn law_every_record_is_in_one_group(
    groups: Seq<PeripheralEvents>,
    records: Seq<Record>,
    k: int,
    owner: PeripheralId,
) -> (group: int)
    requires
        is_grouping(groups, records),
        0 <= k < records.len(),
        peripheral_of(records[k].1) == Some(owner),
    ensures
        0 <= group < groups.len(),
        groups[group].0.text@ == owner.text@,
        groups[group].1@.contains(records[k].1),
        groups[group].1@ == events_of(records, owner.text@),
        forall|i: int|
            0 <= i < groups.len() && i != group ==> (#[trigger] groups[i]).0.text@ != owner.text@,
{
    assert(is_from(records[k], owner@));
    assert(peripherals_in(records).contains(owner@));
    let group = choose|i: int| 0 <= i < groups.len() && (#[trigger] groups[i]).0@ == owner@;
    lemma_event_is_listed(records, k, owner);
    assert forall|i: int| 0 <= i < groups.len() && i != group implies (#[trigger] groups[i]).0.text@
        != owner.text@ by {
        if i < group {
            assert(groups[i].0@ != groups[group].0@);
        } else {
            assert(groups[group].0@ != groups[i].0@);
        }
    }
    group
}

/// The event of a record is among the events of its peripheral.
proof fn lemma_event_is_listed(records: Seq<Record>, k: int, owner: PeripheralId)
    requires
        0 <= k < records.len(),
        peripheral_of(records[k].1) == Some(owner),
    ensures
        events_of(records, owner.text@).contains(records[k].1),
    decreases records.len(),
{
    let rest = records.drop_last();
    let last = records.last();
    let id = owner.text@;
    assert(records =~= rest.push(last));
    if last.1 is StateUpdate {
        law_state_updates_are_in_no_group(rest, last, id);
    } else {
        law_events_of_a_peripheral_add_up(rest, last, peripheral_of(last.1)->0, id);
    }
    let events = events_of(records, id);
    if k == records.len() - 1 {
        assert(events[events.len() - 1] == records[k].1);
    } else {
        lemma_event_is_listed(rest, k, owner);
        let j = choose|j: int|
            0 <= j < events_of(rest, id).len() && events_of(rest, id)[j] == records[k].1;
        assert(events[j] == records[k].1);
    }
}

/// No group is made up: each is that of a peripheral that some record came from, and
/// holds all the events of that peripheral and nothing else.
pub proof fn law_no_group_is_made_up(
    groups: Seq<PeripheralEvents>,
    records: Seq<Record>,
    group: int,
) -> (k: int)
    requires
        is_grouping(groups, records),
        0 <= group < groups.len(),
    ensures
        0 <= k < records.len(),
        is_from(records[k], groups[group].0.text@),
        groups[group].1@ == events_of(records, groups[group].0.text@),
{
    let id = groups[group].0@;
    assert(peripherals_in(records).contains(id));
    choose|k: int| 0 <= k < records.len() && is_from(#[trigger] records[k], id)
}

} // verus!
