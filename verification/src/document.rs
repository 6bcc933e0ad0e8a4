//! Reading the fields of a job out of a JSON document.

use vstd::prelude::*;
use crate::pipeline::{
    is_plan_of, plan_fault_of, plan_job, JobPlan, PipelineConfig, PipelineError,
};
use crate::scenario::{
    fault_of, is_scenario_of, normalize, ConfigError, RawScenario, RawView, Scenario,
};

verus! {

#[verifier::external_type_specification]
#[verifier::external_body]
pub struct ExValue(serde_json::Value);

/// The members of a JSON object whose values are strings, by their keys. Of
/// a document that is no object it is empty.
pub uninterp spec fn text_members(doc: serde_json::Value) -> Map<Seq<char>, Seq<char>>;

/// The members of a JSON object whose values are integers that fit in 64
/// bits with a sign, by their keys. Of a document that is no object it is
/// empty.
pub uninterp spec fn integer_members(doc: serde_json::Value) -> Map<Seq<char>, i64>;

/// The text under `key`, if `doc` has a member of that key that is a string.
pub open spec fn text_of(doc: serde_json::Value, key: Seq<char>) -> Option<Seq<char>> {
    if text_members(doc).contains_key(key) {
        Some(text_members(doc)[key])
    } else {
        None
    }
}

/// The integer under `key`, if `doc` has a member of that key that is one.
pub open spec fn integer_of(doc: serde_json::Value, key: Seq<char>) -> Option<i64> {
    if integer_members(doc).contains_key(key) {
        Some(integer_members(doc)[key])
    } else {
        None
    }
}

/// `serde_json::Value::get` with a string key, then
/// `serde_json::Value::as_str` on what it found. Trusted: the result is the
/// string member of `doc` under `key`, and `None` where `doc` is no object,
/// has no such member, or the member is no string.
#[verifier::external_body]
fn text_member(doc: &serde_json::Value, key: &str) -> (text: Option<String>)
    ensures
        text is Some <==> text_members(*doc).contains_key(key@),
        text matches Some(t) ==> t@ == text_members(*doc)[key@],
{
    doc.get(key).and_then(serde_json::Value::as_str).map(str::to_owned)
}

/// `serde_json::Value::get` with a string key, then
/// `serde_json::Value::as_i64` on what it found. Trusted: the result is the
/// integer member of `doc` under `key`, and `None` where `doc` is no object,
/// has no such member, or the member is no integer of 64 bits with a sign.
#[verifier::external_body]
fn integer_member(doc: &serde_json::Value, key: &str) -> (number: Option<i64>)
    ensures
        number is Some <==> integer_members(*doc).contains_key(key@),
        number matches Some(n) ==> n == integer_members(*doc)[key@],
{
    doc.get(key).and_then(serde_json::Value::as_i64)
}

/// The fields of the job that `doc` describes, each as the member of its
/// name.
pub open spec fn raw_of(doc: serde_json::Value) -> RawView {
    RawView {
        oop_range: text_of(doc, "oop_range"@),
        ip_range: text_of(doc, "ip_range"@),
        flop: text_of(doc, "flop"@),
        turn: text_of(doc, "turn"@),
        river: text_of(doc, "river"@),
        starting_pot: integer_of(doc, "starting_pot"@),
        effective_stack: integer_of(doc, "effective_stack"@),
        bet_size: text_of(doc, "bet_size"@),
        raise_size: text_of(doc, "raise_size"@),
    }
}

/// Takes the fields of a job out of a document. A member of another type
/// than its field asks for counts as not there.
pub fn read_scenario(doc: &serde_json::Value) -> (raw: RawScenario)
    ensures
        raw@ == raw_of(*doc),
{
    RawScenario {
        oop_range: text_member(doc, "oop_range"),
        ip_range: text_member(doc, "ip_range"),
        flop: text_member(doc, "flop"),
        turn: text_member(doc, "turn"),
        river: text_member(doc, "river"),
        starting_pot: integer_member(doc, "starting_pot"),
        effective_stack: integer_member(doc, "effective_stack"),
        bet_size: text_member(doc, "bet_size"),
        raise_size: text_member(doc, "raise_size"),
    }
}

/// Turns a document into a scenario, or names the first fault of the job
/// that it describes.
pub fn normalize_document(doc: &serde_json::Value) -> (outcome: Result<Scenario, ConfigError>)
    ensures
        match outcome {
            Ok(scenario) => fault_of(raw_of(*doc)) is None && is_scenario_of(
                scenario,
                raw_of(*doc),
            ) && scenario.cards.river_follows_turn(),
            Err(fault) => fault_of(raw_of(*doc)) == Some(fault),
        },
{
    normalize(read_scenario(doc))
}

/// Plans the job that a document describes; the first fault ends it.
pub fn plan_document(doc: &serde_json::Value, config: PipelineConfig) -> (outcome: Result<
    JobPlan,
    PipelineError,
>)
    ensures
        match outcome {
            Ok(plan) => plan_fault_of(raw_of(*doc)) is None && is_plan_of(
                plan,
                raw_of(*doc),
                config,
            ),
            Err(fault) => plan_fault_of(raw_of(*doc)) == Some(fault),
        },
{
    plan_job(read_scenario(doc), config)
}

} // verus!
