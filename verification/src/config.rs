//! Which peripherals are captured: the filter configuration and its validation.

use vstd::prelude::*;
use vstd::string::StringExecFns;
use crate::event::PeripheralId;

verus! {

/// Checks data of one type and turns it into another, or says why it cannot.
pub trait ValidationParser<S, T> {
    fn parse(&self, data: S) -> Result<T, String>;
}

/// A peripheral to capture, and how many seconds one capture window of it lasts.
#[derive(Debug, Clone)]
pub struct CaptureConfig<T> {
    pub peripheral_id: T,
    pub duration_sec: u32,
}

/// The filter configuration: the peripherals to capture.
#[derive(Debug, Clone)]
pub struct FilterConfig {
    pub capture_config: Vec<CaptureConfig<String>>,
}

impl Default for FilterConfig {
    fn default() -> (config: Self)
        ensures
            config.capture_config@.len() == 0,
    {
        FilterConfig { capture_config: Vec::new() }
    }
}

/// What a `Result` with an error text holds, the text taken by its characters.
pub open spec fn outcome_view<T>(outcome: Result<T, String>) -> Result<T, Seq<char>> {
    match outcome {
        Ok(value) => Ok(value),
        Err(message) => Err(message@),
    }
}

/// What `uuid::Uuid::parse_str` makes of a text: the number that the UUID stands for, or
/// the text of the error.
pub uninterp spec fn uuid_of(text: Seq<char>) -> Result<u128, Seq<char>>;

/// The UUID that `text` writes, as a number, or the text of the error.
///
/// Calls `uuid::Uuid::parse_str`, which looks at its argument alone; its outcome goes by
/// the name `uuid_of`, the UUID read with `as_u128` and the error with `to_string`.
#[verifier::external_body]
fn uuid_parse_str(text: &str) -> (outcome: Result<u128, String>)
    ensures
        outcome_view(outcome) == uuid_of(text@),
{
    match uuid::Uuid::parse_str(text) {
        Ok(uuid) => Ok(uuid.as_u128()),
        Err(error) => Err(error.to_string()),
    }
}

/// The UUID that `text` writes, as a number, or the text of the error.
pub fn parse_uuid(text: &str) -> (outcome: Result<u128, String>)
    ensures
        outcome_view(outcome) == uuid_of(text@),
{
    uuid_parse_str(text)
}

/// What becomes of a configuration, given what its peripheral ID is as a UUID and what
/// the platform makes of it: the first of the three objections that applies, or the
/// configuration with the platform's identity.
pub open spec fn validated(
    config: CaptureConfig<String>,
    uuid: Result<u128, Seq<char>>,
    platform_id: Result<PeripheralId, Seq<char>>,
) -> Result<CaptureConfig<PeripheralId>, Seq<char>> {
    if config.peripheral_id@.len() == 0 {
        Err("Missing peripheral ID"@)
    } else {
        match (uuid, platform_id) {
            (Err(message), _) => Err("Invalid UUID format: "@ + message),
            (Ok(_), Err(message)) => Err("Invalid peripheral ID: "@ + message),
            (Ok(_), Ok(peripheral_id)) => Ok(
                CaptureConfig { peripheral_id, duration_sec: config.duration_sec },
            ),
        }
    }
}

/// Validates a configuration, given what its peripheral ID is as a UUID and what the
/// platform makes of it.
pub fn validate_config(
    config: CaptureConfig<String>,
    uuid: Result<u128, String>,
    platform_id: Result<PeripheralId, String>,
) -> (outcome: Result<CaptureConfig<PeripheralId>, String>)
    ensures
        outcome_view(outcome) == validated(config, outcome_view(uuid), outcome_view(platform_id)),
{
    if config.peripheral_id.as_str().is_empty() {
        return Err("Missing peripheral ID".to_string());
    }
    if let Err(message) = uuid {
        return Err("Invalid UUID format: ".to_string().concat(message.as_str()));
    }
    match platform_id {
        Ok(peripheral_id) => Ok(
            CaptureConfig { peripheral_id, duration_sec: config.duration_sec },
        ),
        Err(message) => Err("Invalid peripheral ID: ".to_string().concat(message.as_str())),
    }
}

/// A configuration as it was written, with the identity that the platform makes of its
/// peripheral ID or the text of the platform's error.
pub type ConfigSource = (CaptureConfig<String>, Result<PeripheralId, String>);

/// What becomes of a configuration that was written with its peripheral ID as a text.
pub open spec fn parsed(source: ConfigSource) -> Result<CaptureConfig<PeripheralId>, Seq<char>> {
    validated(source.0, uuid_of(source.0.peripheral_id@), outcome_view(source.1))
}

/// Checks that a configuration names a peripheral by a UUID, and gives it the identity
/// that the platform makes of it.
fn parse_source(source: ConfigSource) -> (outcome: Result<CaptureConfig<PeripheralId>, String>)
    ensures
        outcome_view(outcome) == parsed(source),
{
    let (config, platform_id) = source;
    let uuid = uuid_parse_str(config.peripheral_id.as_str());
    validate_config(config, uuid, platform_id)
}

impl ValidationParser<ConfigSource, CaptureConfig<PeripheralId>> for CaptureConfig<String> {
    /// Checks that a configuration names a peripheral by a UUID, and gives it the
    /// identity that the platform makes of it.
    fn parse(&self, data: ConfigSource) -> (outcome: Result<CaptureConfig<PeripheralId>, String>)
        ensures
            outcome_view(outcome) == parsed(data),
    {
        parse_source(data)
    }
}

/// Whether `collected` is what a list of outcomes comes to: all the configurations, in
/// order, where each outcome is one, and otherwise the first error.
pub open spec fn collects(
    outcomes: Seq<Result<CaptureConfig<PeripheralId>, Seq<char>>>,
    collected: Result<Seq<CaptureConfig<PeripheralId>>, Seq<char>>,
) -> bool {
    match collected {
        Ok(configs) => {
            &&& configs.len() == outcomes.len()
            &&& forall|i: int| 0 <= i < outcomes.len() ==> #[trigger] outcomes[i] == Ok::<
                CaptureConfig<PeripheralId>,
                Seq<char>,
            >(configs[i])
        },
        Err(message) => exists|i: int|
            {
                &&& 0 <= i < outcomes.len()
                &&& (#[trigger] outcomes[i]) is Err
                &&& message == "Failed to parse capture config: "@ + outcomes[i]->Err_0
                &&& forall|j: int| 0 <= j < i ==> outcomes[j] is Ok
            },
    }
}

/// What a `Result` of a list holds, the list and the error text taken by their views.
pub open spec fn list_view<T>(outcome: Result<Vec<T>, String>) -> Result<Seq<T>, Seq<char>> {
    match outcome {
        Ok(values) => Ok(values@),
        Err(message) => Err(message@),
    }
}

/// Collects validated configurations, up to the first that is not valid.
pub fn collect_configs(outcomes: Vec<Result<CaptureConfig<PeripheralId>, String>>) -> (collected:
    Result<Vec<CaptureConfig<PeripheralId>>, String>)
    ensures
        collects(outcomes@.map_values(|o| outcome_view(o)), list_view(collected)),
{
    let ghost views = outcomes@.map_values(
        |o: Result<CaptureConfig<PeripheralId>, String>| outcome_view(o),
    );
    let mut configs: Vec<CaptureConfig<PeripheralId>> = Vec::new();
    for outcome in it: outcomes
        invariant
            it.seq() == outcomes@,
            views == outcomes@.map_values(
                |o: Result<CaptureConfig<PeripheralId>, String>| outcome_view(o),
            ),
            configs@.len() == it.index(),
            forall|i: int| 0 <= i < it.index() ==> #[trigger] views[i] == Ok::<
                CaptureConfig<PeripheralId>,
                Seq<char>,
            >(configs@[i]),
    {
        assert(views[it.index()] == outcome_view(outcome));
        match outcome {
            Ok(config) => configs.push(config),
            Err(message) => {
                return Err(
                    "Failed to parse capture config: ".to_string().concat(message.as_str()),
                );
            },
        }
    }
    Ok(configs)
}

/// Parses the configurations of a filter, up to the first that is not valid.
pub fn parse_capture_configs(sources: Vec<ConfigSource>) -> (collected: Result<
    Vec<CaptureConfig<PeripheralId>>,
    String,
>)
    ensures
        collects(sources@.map_values(|source| parsed(source)), list_view(collected)),
{
    let mut outcomes: Vec<Result<CaptureConfig<PeripheralId>, String>> = Vec::new();
    for source in it: sources
        invariant
            it.seq() == sources@,
            outcomes@.len() == it.index(),
            forall|i: int| 0 <= i < it.index() ==> #[trigger] outcome_view(outcomes@[i]) == parsed(
                sources@[i],
            ),
    {
        outcomes.push(parse_source(source));
    }
    assert(outcomes@.map_values(
        |o: Result<CaptureConfig<PeripheralId>, String>| outcome_view(o),
    ) =~= sources@.map_values(|source: ConfigSource| parsed(source)));
    collect_configs(outcomes)
}

} // verus!
