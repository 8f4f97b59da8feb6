//! What holds of every configuration that is parsed.

use vstd::prelude::*;
use crate::config::{
    collects, list_view, outcome_view, parsed, uuid_of, validated, CaptureConfig, ConfigSource,
};
use crate::event::PeripheralId;

verus! {

/// A configuration without a peripheral ID is refused for that, whatever else is wrong
/// with it.
pub proof fn law_missing_id_is_refused(
    config: CaptureConfig<String>,
    uuid: Result<u128, String>,
    platform_id: Result<PeripheralId, String>,
    outcome: Result<CaptureConfig<PeripheralId>, String>,
)
    requires
        config.peripheral_id@.len() == 0,
        outcome_view(outcome) == validated(config, outcome_view(uuid), outcome_view(platform_id)),
    ensures
        outcome is Err,
        outcome->Err_0@ == "Missing peripheral ID"@,
{
}

/// A peripheral ID that is no UUID is refused with the words of the UUID parser, whatever
/// the platform makes of it.
pub proof fn law_invalid_uuid_is_refused(
    config: CaptureConfig<String>,
    message: String,
    platform_id: Result<PeripheralId, String>,
    outcome: Result<CaptureConfig<PeripheralId>, String>,
)
    requires
        config.peripheral_id@.len() > 0,
        outcome_view(outcome) == validated(
            config,
            outcome_view(Err::<u128, String>(message)),
            outcome_view(platform_id),
        ),
    ensures
        outcome is Err,
        outcome->Err_0@ == "Invalid UUID format: "@ + message@,
{
}

/// A UUID that the platform does not know is refused with the words of the platform.
pub proof fn law_unknown_peripheral_is_refused(
    config: CaptureConfig<String>,
    uuid: u128,
    message: String,
    outcome: Result<CaptureConfig<PeripheralId>, String>,
)
    requires
        config.peripheral_id@.len() > 0,
        outcome_view(outcome) == validated(
            config,
            outcome_view(Ok::<u128, String>(uuid)),
            outcome_view(Err::<PeripheralId, String>(message)),
        ),
    ensures
        outcome is Err,
        outcome->Err_0@ == "Invalid peripheral ID: "@ + message@,
{
}

/// Every other configuration is accepted, with the identity that the platform gave and
/// its own interval, however long.
pub proof fn law_valid_configuration_is_accepted(
    config: CaptureConfig<String>,
    uuid: u128,
    peripheral_id: PeripheralId,
    outcome: Result<CaptureConfig<PeripheralId>, String>,
)
    requires
        config.peripheral_id@.len() > 0,
        outcome_view(outcome) == validated(
            config,
            outcome_view(Ok::<u128, String>(uuid)),
            outcome_view(Ok::<PeripheralId, String>(peripheral_id)),
        ),
    ensures
        outcome is Ok,
        outcome->Ok_0.peripheral_id == peripheral_id,
        outcome->Ok_0.duration_sec == config.duration_sec,
{
}

/// What is parsed is validated by what the UUID parser makes of the text of its own
/// peripheral ID.
pub proof fn law_parsing_looks_at_the_own_text(
    source: ConfigSource,
    uuid: Result<u128, String>,
    outcome: Result<CaptureConfig<PeripheralId>, String>,
)
    requires
        outcome_view(uuid) == uuid_of(source.0.peripheral_id@),
        outcome_view(outcome) == parsed(source),
    ensures
        outcome_view(outcome) == validated(source.0, outcome_view(uuid), outcome_view(source.1)),
        source.0.peripheral_id@.len() > 0 && uuid is Err ==> outcome is Err && outcome->Err_0@
            == "Invalid UUID format: "@ + uuid->Err_0@,
        source.0.peripheral_id@.len() > 0 && uuid is Ok && source.1 is Err ==> outcome is Err
            && outcome->Err_0@ == "Invalid peripheral ID: "@ + source.1->Err_0@,
        outcome is Ok <==> source.0.peripheral_id@.len() > 0 && uuid is Ok && source.1 is Ok,
{
}

/// Where every outcome is a configuration, the list holds all of them, in order.
pub proof fn law_all_valid_configurations_are_kept(
    outcomes: Seq<Result<CaptureConfig<PeripheralId>, String>>,
    collected: Result<Vec<CaptureConfig<PeripheralId>>, String>,
)
    requires
        forall|i: int| 0 <= i < outcomes.len() ==> (#[trigger] outcomes[i]) is Ok,
        collects(
            outcomes.map_values(
                |o: Result<CaptureConfig<PeripheralId>, String>| outcome_view(o),
            ),
            list_view(collected),
        ),
    ensures
        collected is Ok,
        collected->Ok_0@.len() == outcomes.len(),
        forall|i: int|
            0 <= i < outcomes.len() ==> (#[trigger] outcomes[i]) == Ok::<
                CaptureConfig<PeripheralId>,
                String,
            >(collected->Ok_0@[i]),
{
    let views = outcomes.map_values(
        |o: Result<CaptureConfig<PeripheralId>, String>| outcome_view(o),
    );
    assert forall|i: int| 0 <= i < outcomes.len() implies (#[trigger] views[i]) is Ok by {
        assert(outcomes[i] is Ok);
    }
    assert forall|i: int| 0 <= i < outcomes.len() implies (#[trigger] outcomes[i]) == Ok::<
        CaptureConfig<PeripheralId>,
        String,
    >(collected->Ok_0@[i]) by {
        assert(views[i] == outcome_view(outcomes[i]));
    }
}

/// Where an outcome is an error, the first one fails the whole list, with its own words.
pub proof fn law_first_error_fails_the_list(
    outcomes: Seq<Result<CaptureConfig<PeripheralId>, String>>,
    first: int,
    collected: Result<Vec<CaptureConfig<PeripheralId>>, String>,
)
    requires
        0 <= first < outcomes.len(),
        outcomes[first] is Err,
        forall|i: int| 0 <= i < first ==> (#[trigger] outcomes[i]) is Ok,
        collects(
            outcomes.map_values(
                |o: Result<CaptureConfig<PeripheralId>, String>| outcome_view(o),
            ),
            list_view(collected),
        ),
    ensures
        collected is Err,
        collected->Err_0@ == "Failed to parse capture config: "@ + outcomes[first]->Err_0@,
{
    let views = outcomes.map_values(
        |o: Result<CaptureConfig<PeripheralId>, String>| outcome_view(o),
    );
    assert(views[first] == Err::<CaptureConfig<PeripheralId>, Seq<char>>(
        outcomes[first]->Err_0@,
    ));
    assert forall|i: int| 0 <= i < first implies (#[trigger] views[i]) is Ok by {
        assert(outcomes[i] is Ok);
    }
}

/// A filter whose entries are all valid is accepted whole: each entry becomes a capture
/// configuration with its own interval and the identity that the platform gave it.
pub proof fn law_valid_filter_is_accepted_whole(
    sources: Seq<ConfigSource>,
    collected: Result<Vec<CaptureConfig<PeripheralId>>, String>,
)
    requires
        forall|i: int|
            0 <= i < sources.len() ==> {
                &&& (#[trigger] sources[i]).0.peripheral_id@.len() > 0
                &&& uuid_of(sources[i].0.peripheral_id@) is Ok
                &&& sources[i].1 is Ok
            },
        collects(sources.map_values(|source: ConfigSource| parsed(source)), list_view(collected)),
    ensures
        collected is Ok,
        collected->Ok_0@.len() == sources.len(),
        forall|i: int|
            0 <= i < sources.len() ==> {
                &&& (#[trigger] collected->Ok_0@[i]).duration_sec == sources[i].0.duration_sec
                &&& sources[i].1 == Ok::<PeripheralId, String>(collected->Ok_0@[i].peripheral_id)
            },
{
    let views = sources.map_values(|source: ConfigSource| parsed(source));
    assert forall|i: int| 0 <= i < sources.len() implies (#[trigger] views[i]) is Ok by {
        assert(sources[i].1 is Ok);
    }
    assert forall|i: int| 0 <= i < sources.len() implies {
        &&& (#[trigger] collected->Ok_0@[i]).duration_sec == sources[i].0.duration_sec
        &&& sources[i].1 == Ok::<PeripheralId, String>(collected->Ok_0@[i].peripheral_id)
    } by {
        assert(views[i] == parsed(sources[i]));
    }
}

/// A filter with an entry that is not valid is refused, with what is wrong with the first
/// such entry.
pub proof fn law_invalid_entry_fails_the_filter(
    sources: Seq<ConfigSource>,
    first: int,
    collected: Result<Vec<CaptureConfig<PeripheralId>>, String>,
)
    requires
        0 <= first < sources.len(),
        forall|i: int|
            0 <= i < first ==> {
                &&& (#[trigger] sources[i]).0.peripheral_id@.len() > 0
                &&& uuid_of(sources[i].0.peripheral_id@) is Ok
                &&& sources[i].1 is Ok
            },
        !(sources[first].0.peripheral_id@.len() > 0 && uuid_of(
            sources[first].0.peripheral_id@,
        ) is Ok && sources[first].1 is Ok),
        collects(sources.map_values(|source: ConfigSource| parsed(source)), list_view(collected)),
    ensures
        collected is Err,
        collected->Err_0@ == "Failed to parse capture config: "@ + (if sources[first].0.peripheral_id@.len()
            == 0 {
            "Missing peripheral ID"@
        } else if uuid_of(sources[first].0.peripheral_id@) is Err {
            "Invalid UUID format: "@ + uuid_of(sources[first].0.peripheral_id@)->Err_0
        } else {
            "Invalid peripheral ID: "@ + sources[first].1->Err_0@
        }),
{
    let views = sources.map_values(|source: ConfigSource| parsed(source));
    assert(views[first] == parsed(sources[first]));
    assert forall|i: int| 0 <= i < first implies (#[trigger] views[i]) is Ok by {
        assert(sources[i].1 is Ok);
    }
}

} // verus!
