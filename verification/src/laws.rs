//! What holds of every capture and every report.

use vstd::prelude::*;
use crate::capture::{
    interval_of, is_captured, is_expired, is_seen, processed, progress_of, LastSeen, Progress,
    SeenMessageTypes,
};
use crate::config::{parsed, uuid_of, CaptureConfig, ConfigSource};
use crate::event::{
    is_from, peripheral_of, records_of, type_of, MessageType, PeripheralId, Record,
};
use crate::filter::{intervals_of, is_accepted};
use crate::report::{collected, identified, report_outcome};
use crate::save::{capture_outcome, handled_all, started};
use crate::timestamp::{elapsed_nanos, NANOS_PER_SEC};
use crate::wakeup::{arrivals, is_first_stop, Wakeup};

verus! {

/// Whether the elements of `part` are elements of `whole`, in the order of `whole`.
pub open spec fn is_subsequence(part: Seq<Record>, whole: Seq<Record>) -> bool {
    exists|places: Seq<int>| is_embedding(part, whole, places)
}

/// Whether the elements of `part` stand in `whole` at the given places, which ascend.
pub open spec fn is_embedding(part: Seq<Record>, whole: Seq<Record>, places: Seq<int>) -> bool {
    &&& places.len() == part.len()
    &&& forall|i: int, j: int|
        0 <= i < j < places.len() ==> (#[trigger] places[i]) < (#[trigger] places[j])
    &&& forall|i: int|
        0 <= i < places.len() ==> 0 <= (#[trigger] places[i]) < whole.len() && whole[places[i]]
            == part[i]
}

/// First in, first out: what is captured is a part of the records that arrived, in the
/// order of their arrival.
pub proof fn law_capture_keeps_order(
    configs: Seq<CaptureConfig<PeripheralId>>,
    records: Seq<Record>,
)
    ensures
        is_subsequence(handled_all(started(), configs, records).results, records),
    decreases records.len(),
{
    let results = handled_all(started(), configs, records).results;
    if records.len() == 0 {
        assert(is_embedding(results, records, Seq::empty()));
    } else {
        let before = handled_all(started(), configs, records.drop_last()).results;
        law_capture_keeps_order(configs, records.drop_last());
        let places = choose|places: Seq<int>| is_embedding(before, records.drop_last(), places);
        if results == before {
            assert(is_embedding(results, records, places));
        } else {
            assert(is_embedding(results, records, places.push(records.len() - 1)));
        }
    }
}

/// What was captured stays captured: handling records only adds to the end of the results.
pub proof fn law_results_only_grow(
    progress: Progress,
    configs: Seq<CaptureConfig<PeripheralId>>,
    records: Seq<Record>,
)
    ensures
        progress.results.is_prefix_of(handled_all(progress, configs, records).results),
    decreases records.len(),
{
    if records.len() > 0 {
        law_results_only_grow(progress, configs, records.drop_last());
    }
}

/// Only records of configured peripherals are captured.
pub proof fn law_capture_only_configured(
    configs: Seq<CaptureConfig<PeripheralId>>,
    records: Seq<Record>,
    i: int,
)
    requires
        0 <= i < handled_all(started(), configs, records).results.len(),
    ensures
        is_accepted(configs, handled_all(started(), configs, records).results[i]),
    decreases records.len(),
{
    if records.len() > 0 && i < handled_all(
        started(),
        configs,
        records.drop_last(),
    ).results.len() {
        law_capture_only_configured(configs, records.drop_last(), i);
    }
}

/// Where no peripheral is configured, nothing is captured.
pub proof fn law_no_configuration_captures_nothing(records: Seq<Record>)
    ensures
        handled_all(started(), Seq::empty(), records) == started(),
    decreases records.len(),
{
    if records.len() > 0 {
        law_no_configuration_captures_nothing(records.drop_last());
    }
}

/// A capture goes on with the next records as if they had come with those before: how
/// the records fall into ticks makes no difference.
pub proof fn law_ticks_do_not_matter(
    progress: Progress,
    configs: Seq<CaptureConfig<PeripheralId>>,
    first: Seq<Record>,
    second: Seq<Record>,
)
    ensures
        handled_all(progress, configs, first + second) == handled_all(
            handled_all(progress, configs, first),
            configs,
            second,
        ),
    decreases second.len(),
{
    if second.len() == 0 {
        assert(first + second =~= first);
    } else {
        law_ticks_do_not_matter(progress, configs, first, second.drop_last());
        assert((first + second).drop_last() =~= first + second.drop_last());
    }
}

/// Records of peripherals that are not configured, and records that come from no
/// peripheral, leave no trace.
pub proof fn law_rejected_records_leave_no_trace(
    progress: Progress,
    configs: Seq<CaptureConfig<PeripheralId>>,
    records: Seq<Record>,
)
    ensures
        handled_all(progress, configs, records) == handled_all(
            progress,
            configs,
            records.filter(|record: Record| is_accepted(configs, record)),
        ),
    decreases records.len(),
{
    reveal(Seq::filter);
    if records.len() > 0 {
        let accepted = |record: Record| is_accepted(configs, record);
        law_rejected_records_leave_no_trace(progress, configs, records.drop_last());
        let rest = records.drop_last().filter(accepted);
        assert(rest.push(records.last()).drop_last() =~= rest);
    }
}

/// The interval of a peripheral is that of the last configuration that names it.
pub proof fn law_last_configuration_counts(configs: Seq<CaptureConfig<PeripheralId>>, i: int)
    requires
        0 <= i < configs.len(),
        forall|j: int|
            i < j < configs.len() ==> (#[trigger] configs[j]).peripheral_id@
                != configs[i].peripheral_id@,
    ensures
        intervals_of(configs).contains_key(configs[i].peripheral_id@),
        intervals_of(configs)[configs[i].peripheral_id@] == configs[i].duration_sec,
    decreases configs.len(),
{
    if i < configs.len() - 1 {
        let rest = configs.drop_last();
        assert forall|j: int| i < j < rest.len() implies (#[trigger] rest[j]).peripheral_id@
            != rest[i].peripheral_id@ by {
            assert(rest[j] == configs[j]);
        }
        law_last_configuration_counts(rest, i);
        assert(configs[configs.len() - 1].peripheral_id@ != configs[i].peripheral_id@);
    }
}

/// A peripheral has an interval only if a configuration names it.
pub proof fn law_interval_only_where_configured(
    configs: Seq<CaptureConfig<PeripheralId>>,
    id: Seq<char>,
)
    requires
        intervals_of(configs).contains_key(id),
    ensures
        exists|i: int| 0 <= i < configs.len() && (#[trigger] configs[i]).peripheral_id@ == id,
    decreases configs.len(),
{
    if configs.last().peripheral_id@ == id {
        assert(configs[configs.len() - 1].peripheral_id@ == id);
    } else {
        let rest = configs.drop_last();
        law_interval_only_where_configured(rest, id);
        let i = choose|i: int| 0 <= i < rest.len() && (#[trigger] rest[i]).peripheral_id@ == id;
        assert(configs[i].peripheral_id@ == id);
    }
}

/// A peripheral that a configuration names has an interval.
pub proof fn law_configured_has_interval(configs: Seq<CaptureConfig<PeripheralId>>, i: int)
    requires
        0 <= i < configs.len(),
    ensures
        intervals_of(configs).contains_key(configs[i].peripheral_id@),
    decreases configs.len(),
{
    if i < configs.len() - 1 {
        law_configured_has_interval(configs.drop_last(), i);
    }
}

/// A record that the filter accepts comes from a peripheral with an interval.
proof fn lemma_accepted_has_interval(configs: Seq<CaptureConfig<PeripheralId>>, record: Record)
    requires
        is_accepted(configs, record),
    ensures
        intervals_of(configs).contains_key(peripheral_of(record.1)->0@),
{
    let i = choose|i: int|
        0 <= i < configs.len() && is_from(record, #[trigger] configs[i].peripheral_id@);
    law_configured_has_interval(configs, i);
}

/// Of a peripheral for which no interval is defined every record is captured, whatever
/// was seen of it before and whatever the time of the record.
pub proof fn law_without_interval_everything_is_captured(
    progress: Progress,
    intervals: Map<Seq<char>, u32>,
    record: Record,
)
    requires
        peripheral_of(record.1) is Some,
        !intervals.contains_key(peripheral_of(record.1)->0@),
    ensures
        is_captured(progress, intervals, record),
        processed(progress, intervals, record).results == progress.results.push(record),
{
}

/// Whether a window of the peripheral ended between two results: one that began with the
/// result at `i` or an earlier one was over, after the peripheral's interval, when a later
/// result, the one at `j` at the latest, arrived.
pub open spec fn is_window_over_between(
    results: Seq<Record>,
    intervals: Map<Seq<char>, u32>,
    id: Seq<char>,
    i: int,
    j: int,
) -> bool {
    exists|start: int, end: int|
        {
            &&& 0 <= start <= i < end <= j < results.len()
            &&& is_from(#[trigger] results[start], id)
            &&& is_from(#[trigger] results[end], id)
            &&& elapsed_nanos(results[end].0@, results[start].0@) >= interval_of(intervals, id)
                * NANOS_PER_SEC
        }
}

/// What holds between the results and the current window of a peripheral, which began
/// with the result at `start`: the window holds the kinds of the peripheral's results
/// from there on, each of which came once, and all earlier windows are over.
pub open spec fn is_window(
    progress: Progress,
    intervals: Map<Seq<char>, u32>,
    id: Seq<char>,
    start: int,
) -> bool {
    let results = progress.results;
    &&& 0 <= start < results.len()
    &&& is_from(results[start], id)
    &&& progress.last_seen.contains_key(id)
    &&& progress.last_seen[id] == results[start].0
    &&& forall|k: int|
        start <= k < results.len() && is_from(#[trigger] results[k], id)
            ==> progress.seen[id].contains(type_of(results[k].1))
    &&& forall|i: int, j: int|
        start <= i < j < results.len() && is_from(#[trigger] results[i], id) && is_from(
            #[trigger] results[j],
            id,
        ) ==> type_of(results[i].1) != type_of(results[j].1)
    &&& forall|i: int|
        0 <= i < start && is_from(#[trigger] results[i], id) ==> is_window_over_between(
            results,
            intervals,
            id,
            i,
            start,
        )
}

/// Each peripheral is in one of two states: it has a window, or nothing is known of it.
pub open spec fn is_consistent(
    progress: Progress,
    intervals: Map<Seq<char>, u32>,
    id: Seq<char>,
) -> bool {
    if progress.seen.contains_key(id) {
        exists|start: int| is_window(progress, intervals, id, start)
    } else {
        &&& !progress.last_seen.contains_key(id)
        &&& forall|i: int| 0 <= i < progress.results.len() ==> !is_from(#[trigger] progress.results[i], id)
    }
}

/// A window that is over stays over.
proof fn lemma_window_stays_over(
    results: Seq<Record>,
    record: Record,
    intervals: Map<Seq<char>, u32>,
    id: Seq<char>,
    i: int,
    j: int,
)
    requires
        is_window_over_between(results, intervals, id, i, j),
    ensures
        is_window_over_between(results.push(record), intervals, id, i, j),
{
    let (start, end) = choose|start: int, end: int|
        {
            &&& 0 <= start <= i < end <= j < results.len()
            &&& is_from(#[trigger] results[start], id)
            &&& is_from(#[trigger] results[end], id)
            &&& elapsed_nanos(results[end].0@, results[start].0@) >= interval_of(intervals, id)
                * NANOS_PER_SEC
        };
    let more = results.push(record);
    assert(more[start] == results[start] && more[end] == results[end]);
}

/// Processing a record keeps each peripheral with an interval consistent.
proof fn lemma_processed_is_consistent(
    progress: Progress,
    intervals: Map<Seq<char>, u32>,
    record: Record,
    id: Seq<char>,
)
    requires
        is_from(record, id) ==> intervals.contains_key(id),
        is_consistent(progress, intervals, id),
    ensures
        is_consistent(processed(progress, intervals, record), intervals, id),
{
    if is_captured(progress, intervals, record) {
        let results = progress.results;
        let after = processed(progress, intervals, record);
        let last = results.len() as int;
        assert(after.results == results.push(record));
        assert(forall|k: int| 0 <= k < last ==> (#[trigger] after.results[k]) == results[k]);
        assert(after.results[last] == record);
        if progress.seen.contains_key(id) {
            let start = choose|start: int| is_window(progress, intervals, id, start);
            assert forall|i: int|
                0 <= i < start && is_from(
                    #[trigger] after.results[i],
                    id,
                ) implies is_window_over_between(after.results, intervals, id, i, start) by {
                lemma_window_stays_over(results, record, intervals, id, i, start);
            }
            if is_from(record, id) && is_seen(progress, id, record) {
                assert(is_expired(progress, intervals, id, record));
                assert forall|i: int|
                    0 <= i < last && is_from(
                        #[trigger] after.results[i],
                        id,
                    ) implies is_window_over_between(after.results, intervals, id, i, last) by {
                    if i < start {
                        let (s, e) = choose|s: int, e: int|
                            {
                                &&& 0 <= s <= i < e <= start < after.results.len()
                                &&& is_from(#[trigger] after.results[s], id)
                                &&& is_from(#[trigger] after.results[e], id)
                                &&& elapsed_nanos(after.results[e].0@, after.results[s].0@)
                                    >= interval_of(intervals, id) * NANOS_PER_SEC
                            };
                        assert(is_from(after.results[s], id) && is_from(after.results[e], id));
                    } else {
                        assert(is_from(after.results[start], id) && is_from(
                            after.results[last],
                            id,
                        ));
                    }
                }
                assert(is_window(after, intervals, id, last));
            } else {
                assert(is_window(after, intervals, id, start));
            }
        } else if is_from(record, id) {
            assert(is_window(after, intervals, id, last));
        }
    }
}

/// Handling records keeps each peripheral consistent.
pub proof fn law_windows_are_consistent(
    configs: Seq<CaptureConfig<PeripheralId>>,
    records: Seq<Record>,
    id: Seq<char>,
)
    ensures
        is_consistent(handled_all(started(), configs, records), intervals_of(configs), id),
    decreases records.len(),
{
    if records.len() > 0 {
        law_windows_are_consistent(configs, records.drop_last(), id);
        if is_accepted(configs, records.last()) {
            lemma_accepted_has_interval(configs, records.last());
            lemma_processed_is_consistent(
                handled_all(started(), configs, records.drop_last()),
                intervals_of(configs),
                records.last(),
                id,
            );
        }
    }
}

/// One event of each kind in each window: where two captured records come from one
/// peripheral and are of one kind, a window of the peripheral ended between them, and it
/// had lasted for the peripheral's interval.
pub proof fn law_one_of_each_kind_per_window(
    configs: Seq<CaptureConfig<PeripheralId>>,
    records: Seq<Record>,
    id: Seq<char>,
    i: int,
    j: int,
)
    requires
        0 <= i < j < handled_all(started(), configs, records).results.len(),
        is_from(handled_all(started(), configs, records).results[i], id),
        is_from(handled_all(started(), configs, records).results[j], id),
        type_of(handled_all(started(), configs, records).results[i].1) == type_of(
            handled_all(started(), configs, records).results[j].1,
        ),
    ensures
        is_window_over_between(
            handled_all(started(), configs, records).results,
            intervals_of(configs),
            id,
            i,
            j,
        ),
    decreases records.len(),
{
    let intervals = intervals_of(configs);
    let progress = handled_all(started(), configs, records);
    let before = handled_all(started(), configs, records.drop_last());
    if j < before.results.len() {
        law_one_of_each_kind_per_window(configs, records.drop_last(), id, i, j);
        if progress.results != before.results {
            lemma_window_stays_over(before.results, records.last(), intervals, id, i, j);
        }
    } else {
        law_windows_are_consistent(configs, records, id);
        let start = choose|start: int| is_window(progress, intervals, id, start);
        assert(is_window_over_between(progress.results, intervals, id, i, start));
        let (s, e) = choose|s: int, e: int|
            {
                &&& 0 <= s <= i < e <= start < progress.results.len()
                &&& is_from(#[trigger] progress.results[s], id)
                &&& is_from(#[trigger] progress.results[e], id)
                &&& elapsed_nanos(progress.results[e].0@, progress.results[s].0@) >= interval_of(
                    intervals,
                    id,
                ) * NANOS_PER_SEC
            };
        assert(is_from(progress.results[s], id) && is_from(progress.results[e], id));
    }
}

/// Whether the results hold an event of the given kind of the given peripheral.
pub open spec fn holds_kind(results: Seq<Record>, id: Seq<char>, kind: MessageType) -> bool {
    exists|k: int|
        {
            &&& 0 <= k < results.len()
            &&& is_from(#[trigger] results[k], id)
            &&& type_of(results[k].1) == kind
        }
}

/// A result that is there stays there.
proof fn lemma_holds_kind_push(results: Seq<Record>, record: Record, id: Seq<char>, kind: MessageType)
    requires
        holds_kind(results, id, kind),
    ensures
        holds_kind(results.push(record), id, kind),
{
    let k = choose|k: int|
        {
            &&& 0 <= k < results.len()
            &&& is_from(#[trigger] results[k], id)
            &&& type_of(results[k].1) == kind
        };
    assert(results.push(record)[k] == results[k]);
}

/// A kind of event that a window holds was captured.
proof fn lemma_seen_was_captured(
    configs: Seq<CaptureConfig<PeripheralId>>,
    records: Seq<Record>,
    id: Seq<char>,
    kind: MessageType,
)
    requires
        handled_all(started(), configs, records).seen.contains_key(id),
        handled_all(started(), configs, records).seen[id].contains(kind),
    ensures
        holds_kind(handled_all(started(), configs, records).results, id, kind),
    decreases records.len(),
{
    let before = handled_all(started(), configs, records.drop_last());
    let results = handled_all(started(), configs, records).results;
    if before.seen.contains_key(id) && before.seen[id].contains(kind) {
        lemma_seen_was_captured(configs, records.drop_last(), id, kind);
        lemma_holds_kind_push(before.results, records.last(), id, kind);
    } else {
        assert(is_from(results[results.len() - 1], id));
    }
}

/// At least one event of each kind: whatever kind of event a configured peripheral sent,
/// one of that kind was captured of it.
pub proof fn law_every_kind_is_captured(
    configs: Seq<CaptureConfig<PeripheralId>>,
    records: Seq<Record>,
    i: int,
)
    requires
        0 <= i < records.len(),
        is_accepted(configs, records[i]),
    ensures
        holds_kind(
            handled_all(started(), configs, records).results,
            peripheral_of(records[i].1)->0@,
            type_of(records[i].1),
        ),
    decreases records.len(),
{
    let id = peripheral_of(records[i].1)->0@;
    let kind = type_of(records[i].1);
    let before = handled_all(started(), configs, records.drop_last());
    let results = handled_all(started(), configs, records).results;
    if i < records.len() - 1 {
        law_every_kind_is_captured(configs, records.drop_last(), i);
        lemma_holds_kind_push(before.results, records.last(), id, kind);
    } else if is_captured(before, intervals_of(configs), records.last()) {
        assert(is_from(results[results.len() - 1], id));
    } else {
        lemma_seen_was_captured(configs, records.drop_last(), id, kind);
    }
}

/// Whether no record arrived before one that stands earlier in the sequence.
pub open spec fn is_chronological(records: Seq<Record>) -> bool {
    forall|i: int, j: int|
        0 <= i <= j < records.len() ==> elapsed_nanos(
            (#[trigger] records[j]).0@,
            (#[trigger] records[i]).0@,
        ) >= 0
}

/// Without an interval everything is captured: of a configured peripheral whose interval
/// is zero, every record is captured, as long as its records come in the order of time.
pub proof fn law_zero_interval_captures_everything(
    configs: Seq<CaptureConfig<PeripheralId>>,
    records: Seq<Record>,
    id: Seq<char>,
)
    requires
        exists|i: int| 0 <= i < configs.len() && (#[trigger] configs[i]).peripheral_id@ == id,
        interval_of(intervals_of(configs), id) == 0,
        is_chronological(records_of(records, id)),
    ensures
        records_of(handled_all(started(), configs, records).results, id) == records_of(records, id),
    decreases records.len(),
{
    reveal(Seq::filter);
    if records.len() > 0 {
        let from_id = |record: Record| is_from(record, id);
        let rest = records.drop_last();
        let last = records.last();
        let before = handled_all(started(), configs, rest);
        let all = records_of(records, id);
        let earlier = records_of(rest, id);
        assert(forall|k: int| 0 <= k < earlier.len() ==> (#[trigger] earlier[k]) == all[k]);
        law_zero_interval_captures_everything(configs, rest, id);
        before.results.lemma_filter_push(last, from_id);
        if is_from(last, id) {
            let c = choose|c: int|
                0 <= c < configs.len() && (#[trigger] configs[c]).peripheral_id@ == id;
            assert(is_from(last, configs[c].peripheral_id@));
            if before.seen.contains_key(id) {
                law_windows_are_consistent(configs, rest, id);
                let start = choose|start: int|
                    is_window(before, intervals_of(configs), id, start);
                before.results.lemma_filter_contains(from_id, start);
                let k = choose|k: int| 0 <= k < earlier.len() && earlier[k] == before.results[start];
                assert(all[k] == earlier[k] && all[all.len() - 1] == last);
                assert(is_expired(before, intervals_of(configs), id, last));
            }
        }
    }
}

/// Peripherals do not get in each other's way: what is captured of one is what would be
/// captured if it were alone.
pub proof fn law_peripherals_are_independent(
    configs: Seq<CaptureConfig<PeripheralId>>,
    records: Seq<Record>,
    id: Seq<char>,
)
    ensures
        records_of(handled_all(started(), configs, records).results, id) == handled_all(
            started(),
            configs,
            records_of(records, id),
        ).results,
{
    lemma_peripheral_alone(configs, records, id);
}

/// What a capture knows of a peripheral is what it would know if the peripheral were
/// alone.
proof fn lemma_peripheral_alone(
    configs: Seq<CaptureConfig<PeripheralId>>,
    records: Seq<Record>,
    id: Seq<char>,
)
    ensures
        ({
            let among = handled_all(started(), configs, records);
            let alone = handled_all(started(), configs, records_of(records, id));
            &&& records_of(among.results, id) == alone.results
            &&& among.seen.contains_key(id) == alone.seen.contains_key(id)
            &&& among.seen.contains_key(id) ==> among.seen[id] == alone.seen[id]
            &&& among.last_seen.contains_key(id) == alone.last_seen.contains_key(id)
            &&& among.last_seen.contains_key(id) ==> among.last_seen[id] == alone.last_seen[id]
        }),
    decreases records.len(),
{
    reveal(Seq::filter);
    if records.len() > 0 {
        let rest = records.drop_last();
        let last = records.last();
        let among = handled_all(started(), configs, rest);
        lemma_peripheral_alone(configs, rest, id);
        among.results.lemma_filter_push(last, |record: Record| is_from(record, id));
        let part = records_of(rest, id);
        assert(part.push(last).drop_last() =~= part);
    }
}

/// A capture ends with the stop signal: it returns what was captured of the records that
/// arrived before, and takes no notice of anything after.
pub proof fn law_capture_ends_with_stop(
    progress: Progress,
    configs: Seq<CaptureConfig<PeripheralId>>,
    wakeups: Seq<Wakeup>,
    stop: int,
)
    requires
        is_first_stop(wakeups, stop),
    ensures
        capture_outcome(progress, configs, wakeups) == Some(
            handled_all(progress, configs, arrivals(wakeups.take(stop))).results,
        ),
    decreases wakeups.len(),
{
    let before = wakeups.take(stop);
    if stop > 0 {
        let rest = wakeups.drop_first();
        assert(is_first_stop(rest, stop - 1)) by {
            assert forall|i: int| 0 <= i < stop - 1 implies (#[trigger] rest[i])
                != Wakeup::StopChanged(true) by {
                assert(rest[i] == wakeups[i + 1]);
            }
        }
        assert(rest.take(stop - 1) =~= before.drop_first());
        assert(before[0] == wakeups[0]);
        match wakeups[0] {
            Wakeup::Tick(records) => {
                let next = handled_all(progress, configs, records@);
                law_capture_ends_with_stop(next, configs, rest, stop - 1);
                law_ticks_do_not_matter(
                    progress,
                    configs,
                    records@,
                    arrivals(before.drop_first()),
                );
            },
            Wakeup::StopChanged(_) => {
                law_capture_ends_with_stop(progress, configs, rest, stop - 1);
            },
        }
    }
}

/// Without the stop signal a capture goes on.
pub proof fn law_capture_goes_on_without_stop(
    progress: Progress,
    configs: Seq<CaptureConfig<PeripheralId>>,
    wakeups: Seq<Wakeup>,
)
    requires
        forall|i: int|
            0 <= i < wakeups.len() ==> (#[trigger] wakeups[i]) != Wakeup::StopChanged(true),
    ensures
        capture_outcome(progress, configs, wakeups) is None,
    decreases wakeups.len(),
{
    if wakeups.len() > 0 {
        let rest = wakeups.drop_first();
        assert forall|i: int| 0 <= i < rest.len() implies (#[trigger] rest[i])
            != Wakeup::StopChanged(true) by {
            assert(rest[i] == wakeups[i + 1]);
        }
        match wakeups[0] {
            Wakeup::Tick(records) => {
                law_capture_goes_on_without_stop(
                    handled_all(progress, configs, records@),
                    configs,
                    rest,
                );
            },
            Wakeup::StopChanged(_) => {
                law_capture_goes_on_without_stop(progress, configs, rest);
            },
        }
    }
}

/// What is collected of a tick for a report are its records that come from a peripheral,
/// the latest first.
pub proof fn law_report_takes_latest_first(results: Seq<Record>, records: Seq<Record>)
    ensures
        collected(results, records) == results + identified(records).reverse(),
{
    lemma_identified_reverse(records);
}

/// Reversing records and dropping those that come from no peripheral can be done in
/// either order.
proof fn lemma_identified_reverse(records: Seq<Record>)
    ensures
        identified(records.reverse()) == identified(records).reverse(),
    decreases records.len(),
{
    reveal(Seq::filter);
    let known = |record: Record| peripheral_of(record.1) is Some;
    if records.len() == 0 {
        assert(records.reverse() =~= records);
        assert(identified(records).reverse() =~= Seq::empty());
    } else {
        let rest = records.drop_last();
        let last = seq![records.last()];
        lemma_identified_reverse(rest);
        assert(records.reverse() =~= last + rest.reverse());
        Seq::filter_distributes_over_add(last, rest.reverse(), known);
        assert(last.drop_last().filter(known) =~= Seq::empty());
        if known(records.last()) {
            assert(last.filter(known) =~= last);
            assert(identified(rest).push(records.last()).reverse() =~= last + identified(
                rest,
            ).reverse());
        } else {
            assert(last.filter(known) =~= Seq::empty());
            assert(identified(records.reverse()) =~= identified(rest.reverse()));
        }
    }
}

/// A report loses nothing and makes nothing up: when the stop signal is set, it holds
/// what it held at the start and each record that arrived before the signal and came from
/// a peripheral, as often as it arrived.
pub proof fn law_report_holds_every_identified_record(
    results: Seq<Record>,
    wakeups: Seq<Wakeup>,
    stop: int,
)
    requires
        is_first_stop(wakeups, stop),
    ensures
        report_outcome(results, wakeups) is Some,
        report_outcome(results, wakeups)->0.to_multiset() == (results + identified(
            arrivals(wakeups.take(stop)),
        )).to_multiset(),
    decreases wakeups.len(),
{
    broadcast use vstd::seq_lib::lemma_multiset_commutative;

    let before = wakeups.take(stop);
    if stop == 0 {
        reveal(Seq::filter);
        assert(results + identified(arrivals(before)) =~= results);
    } else {
        let rest = wakeups.drop_first();
        assert(is_first_stop(rest, stop - 1)) by {
            assert forall|i: int| 0 <= i < stop - 1 implies (#[trigger] rest[i])
                != Wakeup::StopChanged(true) by {
                assert(rest[i] == wakeups[i + 1]);
            }
        }
        assert(rest.take(stop - 1) =~= before.drop_first());
        assert(before[0] == wakeups[0]);
        match wakeups[0] {
            Wakeup::Tick(records) => {
                let known = |record: Record| peripheral_of(record.1) is Some;
                let later = arrivals(before.drop_first());
                let next = collected(results, records@);
                law_report_holds_every_identified_record(next, rest, stop - 1);
                lemma_identified_reverse(records@);
                identified(records@).lemma_reverse_to_multiset();
                Seq::filter_distributes_over_add(records@, later, known);
                assert(results + identified(records@ + later) =~= (results + identified(records@))
                    + identified(later));
            },
            Wakeup::StopChanged(_) => {
                law_report_holds_every_identified_record(results, rest, stop - 1);
            },
        }
    }
}

/// Without the stop signal a report goes on.
pub proof fn law_report_goes_on_without_stop(results: Seq<Record>, wakeups: Seq<Wakeup>)
    requires
        forall|i: int|
            0 <= i < wakeups.len() ==> (#[trigger] wakeups[i]) != Wakeup::StopChanged(true),
    ensures
        report_outcome(results, wakeups) is None,
    decreases wakeups.len(),
{
    if wakeups.len() > 0 {
        let rest = wakeups.drop_first();
        assert forall|i: int| 0 <= i < rest.len() implies (#[trigger] rest[i])
            != Wakeup::StopChanged(true) by {
            assert(rest[i] == wakeups[i + 1]);
        }
        match wakeups[0] {
            Wakeup::Tick(records) => {
                law_report_goes_on_without_stop(collected(results, records@), rest);
            },
            Wakeup::StopChanged(_) => {
                law_report_goes_on_without_stop(results, rest);
            },
        }
    }
}

/// A configuration is accepted exactly if it names a peripheral, by a UUID, that the
/// platform can identify, and then it keeps its interval.
pub proof fn law_accepted_configurations(source: ConfigSource)
    ensures
        parsed(source) is Ok <==> {
            &&& source.0.peripheral_id@.len() > 0
            &&& uuid_of(source.0.peripheral_id@) is Ok
            &&& source.1 is Ok
        },
        parsed(source) matches Ok(config) ==> {
            &&& config.duration_sec == source.0.duration_sec
            &&& source.1 == Ok::<PeripheralId, String>(config.peripheral_id)
        },
{
}

/// The filter lets through every record of a configured peripheral, whatever its interval
/// and wherever its configuration stands.
pub proof fn law_filter_lets_configured_peripherals_through(
    configs: Seq<CaptureConfig<PeripheralId>>,
    record: Record,
    owner: PeripheralId,
    c: int,
)
    requires
        peripheral_of(record.1) == Some(owner),
        0 <= c < configs.len(),
        configs[c].peripheral_id.text@ == owner.text@,
    ensures
        is_accepted(configs, record),
{
    assert(is_from(record, configs[c].peripheral_id@));
}

/// The filter lets through no other record.
pub proof fn law_filter_lets_nothing_else_through(
    configs: Seq<CaptureConfig<PeripheralId>>,
    record: Record,
)
    requires
        peripheral_of(record.1) matches Some(owner) ==> forall|c: int|
            0 <= c < configs.len() ==> (#[trigger] configs[c]).peripheral_id.text@ != owner.text@,
    ensures
        !is_accepted(configs, record),
{
}

/// A capture that has handled no record has captured nothing and has no window.
pub proof fn law_capture_starts_empty(configs: Seq<CaptureConfig<PeripheralId>>, id: Seq<char>)
    ensures
        handled_all(started(), configs, Seq::empty()).results.len() == 0,
        !handled_all(started(), configs, Seq::empty()).seen.contains_key(id),
        !handled_all(started(), configs, Seq::empty()).last_seen.contains_key(id),
{
}

/// What a capture makes of one more record depends on how far it has come: a record of a
/// configured peripheral is processed with the intervals of the configurations.
pub proof fn law_configured_records_are_processed(
    progress: Progress,
    configs: Seq<CaptureConfig<PeripheralId>>,
    records: Seq<Record>,
    record: Record,
    owner: PeripheralId,
    c: int,
)
    requires
        peripheral_of(record.1) == Some(owner),
        0 <= c < configs.len(),
        configs[c].peripheral_id.text@ == owner.text@,
    ensures
        handled_all(progress, configs, Seq::empty()) == progress,
        handled_all(progress, configs, records.push(record)) == processed(
            handled_all(progress, configs, records),
            intervals_of(configs),
            record,
        ),
{
    law_filter_lets_configured_peripherals_through(configs, record, owner, c);
    assert(records.push(record).drop_last() =~= records);
}

/// A record of a peripheral that no configuration names, and one of no peripheral, changes
/// nothing.
pub proof fn law_other_records_are_dropped(
    progress: Progress,
    configs: Seq<CaptureConfig<PeripheralId>>,
    records: Seq<Record>,
    record: Record,
)
    requires
        peripheral_of(record.1) matches Some(owner) ==> forall|c: int|
            0 <= c < configs.len() ==> (#[trigger] configs[c]).peripheral_id.text@ != owner.text@,
    ensures
        handled_all(progress, configs, records.push(record)) == handled_all(
            progress,
            configs,
            records,
        ),
{
    law_filter_lets_nothing_else_through(configs, record);
    assert(records.push(record).drop_last() =~= records);
}

/// The progress of a capture is all of its results, all that its windows hold and all of
/// their starts.
pub proof fn law_progress_leaves_nothing_out(
    results: Vec<Record>,
    seen_message_types: SeenMessageTypes,
    last_seen_timestamp: LastSeen,
)
    ensures
        progress_of(results, seen_message_types, last_seen_timestamp).results == results@,
        progress_of(results, seen_message_types, last_seen_timestamp).seen == seen_message_types@,
        progress_of(results, seen_message_types, last_seen_timestamp).last_seen
            == last_seen_timestamp@,
{
}

/// A state update of the adapter is not captured and changes nothing.
pub proof fn law_state_updates_are_ignored(
    progress: Progress,
    intervals: Map<Seq<char>, u32>,
    record: Record,
)
    requires
        record.1 is StateUpdate,
    ensures
        !is_captured(progress, intervals, record),
        processed(progress, intervals, record) == progress,
{
}

/// The first record of a peripheral is captured and opens a window that holds its kind.
/// The windows of other peripherals stay as they are.
pub proof fn law_first_record_opens_the_window(
    progress: Progress,
    intervals: Map<Seq<char>, u32>,
    record: Record,
    owner: PeripheralId,
)
    requires
        peripheral_of(record.1) == Some(owner),
        !progress.seen.contains_key(owner.text@),
    ensures
        is_captured(progress, intervals, record),
        processed(progress, intervals, record).results == progress.results.push(record),
        processed(progress, intervals, record).seen == progress.seen.insert(
            owner.text@,
            Set::empty().insert(type_of(record.1)),
        ),
        !progress.last_seen.contains_key(owner.text@) ==> processed(
            progress,
            intervals,
            record,
        ).last_seen == progress.last_seen.insert(owner.text@, record.0),
        progress.last_seen.contains_key(owner.text@) ==> processed(
            progress,
            intervals,
            record,
        ).last_seen == progress.last_seen,
{
}

/// A record of a kind that the window does not hold is captured and joins the window,
/// which goes on: it began when it began.
pub proof fn law_new_kind_joins_the_window(
    progress: Progress,
    intervals: Map<Seq<char>, u32>,
    record: Record,
    owner: PeripheralId,
)
    requires
        peripheral_of(record.1) == Some(owner),
        progress.seen.contains_key(owner.text@),
        !progress.seen[owner.text@].contains(type_of(record.1)),
    ensures
        is_captured(progress, intervals, record),
        processed(progress, intervals, record).results == progress.results.push(record),
        processed(progress, intervals, record).seen == progress.seen.insert(
            owner.text@,
            progress.seen[owner.text@].insert(type_of(record.1)),
        ),
        processed(progress, intervals, record).last_seen == progress.last_seen,
{
}

/// A record of a kind that the window holds starts the window anew if the interval has
/// passed since the window began, however long the interval is: the record is captured,
/// and the new window begins with it and holds nothing but its kind.
pub proof fn law_window_starts_anew_after_the_interval(
    progress: Progress,
    intervals: Map<Seq<char>, u32>,
    record: Record,
    owner: PeripheralId,
    began: (int, int),
)
    requires
        peripheral_of(record.1) == Some(owner),
        progress.seen.contains_key(owner.text@),
        progress.seen[owner.text@].contains(type_of(record.1)),
        progress.last_seen.contains_key(owner.text@) ==> began
            == progress.last_seen[owner.text@]@,
        !progress.last_seen.contains_key(owner.text@) ==> began == (0int, 0int),
        intervals.contains_key(owner.text@) ==> elapsed_nanos(record.0@, began)
            >= intervals[owner.text@] * 1_000_000_000,
    ensures
        is_captured(progress, intervals, record),
        processed(progress, intervals, record).results == progress.results.push(record),
        processed(progress, intervals, record).seen == progress.seen.insert(
            owner.text@,
            Set::empty().insert(type_of(record.1)),
        ),
        processed(progress, intervals, record).last_seen == progress.last_seen.insert(
            owner.text@,
            record.0,
        ),
{
}

/// A record of a kind that the window holds is ignored, without a trace, as long as the
/// interval has not passed since the window began.
pub proof fn law_repeated_kind_is_ignored_within_the_interval(
    progress: Progress,
    intervals: Map<Seq<char>, u32>,
    record: Record,
    owner: PeripheralId,
    began: (int, int),
)
    requires
        peripheral_of(record.1) == Some(owner),
        progress.seen.contains_key(owner.text@),
        progress.seen[owner.text@].contains(type_of(record.1)),
        progress.last_seen.contains_key(owner.text@) ==> began
            == progress.last_seen[owner.text@]@,
        !progress.last_seen.contains_key(owner.text@) ==> began == (0int, 0int),
        intervals.contains_key(owner.text@),
        elapsed_nanos(record.0@, began) < intervals[owner.text@] * 1_000_000_000,
    ensures
        !is_captured(progress, intervals, record),
        processed(progress, intervals, record) == progress,
{
}

/// A record whose kind a configured peripheral has not sent before is captured, whatever
/// its time and whatever the interval. The first record of the peripheral is one such.
pub proof fn law_first_of_its_kind_is_captured(
    configs: Seq<CaptureConfig<PeripheralId>>,
    records: Seq<Record>,
    record: Record,
    owner: PeripheralId,
    c: int,
)
    requires
        peripheral_of(record.1) == Some(owner),
        0 <= c < configs.len(),
        configs[c].peripheral_id.text@ == owner.text@,
        forall|j: int|
            0 <= j < records.len() && is_from(#[trigger] records[j], owner.text@) ==> type_of(
                records[j].1,
            ) != type_of(record.1),
    ensures
        handled_all(started(), configs, records.push(record)).results == handled_all(
            started(),
            configs,
            records,
        ).results.push(record),
{
    let before = handled_all(started(), configs, records);
    let kind = type_of(record.1);
    law_configured_records_are_processed(started(), configs, records, record, owner, c);
    if before.seen.contains_key(owner@) && before.seen[owner@].contains(kind) {
        lemma_seen_was_captured(configs, records, owner@, kind);
        let k = choose|k: int|
            {
                &&& 0 <= k < before.results.len()
                &&& is_from(#[trigger] before.results[k], owner@)
                &&& type_of(before.results[k].1) == kind
            };
        let j = lemma_result_arrived(configs, records, k);
        assert(is_from(records[j], owner.text@));
    }
}

/// Where a captured record stands among those that arrived.
proof fn lemma_result_arrived(
    configs: Seq<CaptureConfig<PeripheralId>>,
    records: Seq<Record>,
    k: int,
) -> (j: int)
    requires
        0 <= k < handled_all(started(), configs, records).results.len(),
    ensures
        0 <= j < records.len(),
        records[j] == handled_all(started(), configs, records).results[k],
{
    law_capture_keeps_order(configs, records);
    let results = handled_all(started(), configs, records).results;
    let places = choose|places: Seq<int>| is_embedding(results, records, places);
    places[k]
}

/// A window that has lasted for the interval of its peripheral lets the next record
/// through, whatever its kind and however long the interval is.
pub proof fn law_capture_again_when_the_window_is_over(
    configs: Seq<CaptureConfig<PeripheralId>>,
    records: Seq<Record>,
    record: Record,
    owner: PeripheralId,
    c: int,
)
    requires
        peripheral_of(record.1) == Some(owner),
        0 <= c < configs.len(),
        configs[c].peripheral_id.text@ == owner.text@,
        forall|j: int|
            c < j < configs.len() ==> (#[trigger] configs[j]).peripheral_id.text@ != owner.text@,
        handled_all(started(), configs, records).last_seen.contains_key(owner.text@),
        elapsed_nanos(
            record.0@,
            handled_all(started(), configs, records).last_seen[owner.text@]@,
        ) >= configs[c].duration_sec * 1_000_000_000,
    ensures
        handled_all(started(), configs, records.push(record)).results == handled_all(
            started(),
            configs,
            records,
        ).results.push(record),
{
    assert forall|j: int| c < j < configs.len() implies (#[trigger] configs[j]).peripheral_id@
        != configs[c].peripheral_id@ by {
        assert(configs[j].peripheral_id.text@ != owner.text@);
    }
    law_last_configuration_counts(configs, c);
    law_configured_records_are_processed(started(), configs, records, record, owner, c);
}

/// A record of a configured peripheral is captured if the interval lies between it and
/// every earlier record of the peripheral, however long the interval is and whatever
/// else arrived.
pub proof fn law_capture_again_after_the_interval(
    configs: Seq<CaptureConfig<PeripheralId>>,
    records: Seq<Record>,
    record: Record,
    owner: PeripheralId,
    c: int,
)
    requires
        peripheral_of(record.1) == Some(owner),
        0 <= c < configs.len(),
        configs[c].peripheral_id.text@ == owner.text@,
        forall|j: int|
            c < j < configs.len() ==> (#[trigger] configs[j]).peripheral_id.text@ != owner.text@,
        forall|j: int|
            0 <= j < records.len() && is_from(#[trigger] records[j], owner.text@)
                ==> elapsed_nanos(record.0@, records[j].0@) >= configs[c].duration_sec
                * 1_000_000_000,
    ensures
        handled_all(started(), configs, records.push(record)).results == handled_all(
            started(),
            configs,
            records,
        ).results.push(record),
{
    let before = handled_all(started(), configs, records);
    law_windows_are_consistent(configs, records, owner@);
    if before.seen.contains_key(owner@) {
        let start = choose|start: int| is_window(before, intervals_of(configs), owner@, start);
        let j = lemma_result_arrived(configs, records, start);
        assert(is_from(records[j], owner.text@));
        law_capture_again_when_the_window_is_over(configs, records, record, owner, c);
    } else {
        law_configured_records_are_processed(started(), configs, records, record, owner, c);
    }
}

/// What arrives adds up: the arrivals of a stretch of time are those of its parts, and a
/// tick brings all of its records.
pub proof fn law_arrivals_add_up(first: Seq<Wakeup>, second: Seq<Wakeup>, records: Vec<Record>, stop: bool)
    ensures
        arrivals(first + second) == arrivals(first) + arrivals(second),
        arrivals(seq![Wakeup::Tick(records)]) == records@,
        arrivals(seq![Wakeup::StopChanged(stop)]) == Seq::<Record>::empty(),
    decreases first.len(),
{
    let none = Seq::<Wakeup>::empty();
    assert(seq![Wakeup::Tick(records)].drop_first() =~= none);
    assert(seq![Wakeup::StopChanged(stop)].drop_first() =~= none);
    assert(records@ + arrivals(none) =~= records@);
    if first.len() == 0 {
        assert(first + second =~= second);
        assert(arrivals(first) + arrivals(second) =~= arrivals(second));
    } else {
        law_arrivals_add_up(first.drop_first(), second, records, stop);
        assert((first + second).drop_first() =~= first.drop_first() + second);
        assert((first + second)[0] == first[0]);
        assert(arrivals(first + second) =~= arrivals(first) + arrivals(second));
    }
}

/// A capture that is stopped returns all that was captured until then, and what would
/// have come afterwards makes no difference.
pub proof fn law_stopped_capture_returns_its_results(
    progress: Progress,
    configs: Seq<CaptureConfig<PeripheralId>>,
    before: Seq<Wakeup>,
    after: Seq<Wakeup>,
)
    requires
        forall|i: int|
            0 <= i < before.len() ==> (#[trigger] before[i]) != Wakeup::StopChanged(true),
    ensures
        capture_outcome(progress, configs, before.push(Wakeup::StopChanged(true)) + after) == Some(
            handled_all(progress, configs, arrivals(before)).results,
        ),
{
    let wakeups = before.push(Wakeup::StopChanged(true)) + after;
    assert forall|i: int| 0 <= i < before.len() implies (#[trigger] wakeups[i])
        != Wakeup::StopChanged(true) by {
        assert(wakeups[i] == before[i]);
    }
    law_capture_ends_with_stop(progress, configs, wakeups, before.len() as int);
    assert(wakeups.take(before.len() as int) =~= before);
}

} // verus!
