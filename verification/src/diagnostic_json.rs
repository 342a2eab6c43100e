//! The canonical JSON text of a diagnostic, by which a command result puts
//! its diagnostics in order: members in declaration order, an empty context
//! and absent optional values left out, enumerations by their snake-case
//! names.

use vstd::prelude::*;
use crate::configuration::policy::path_json;
use crate::json::{
    decimal_digits, json_bool, json_joined, json_member, json_object, json_string, lemma_member_pushed,
    push_decimal, push_json_bool, push_json_string, push_member_key,
};
use crate::domain::NativePath;
use crate::media_evidence::push_path;
use crate::outcome::{Diagnostic, DiagnosticClassification, DiagnosticCode, DiagnosticContext, DiagnosticImpact, DiagnosticSeverity};
use crate::text::string_of;

verus! {

pub open spec fn code_name(v: DiagnosticCode) -> Seq<char> {
    match v {
        DiagnosticCode::InvalidInvocation => "invalid_invocation"@,
        DiagnosticCode::InvalidCommandInput => "invalid_command_input"@,
        DiagnosticCode::RequiredCapabilityUnavailable => "required_capability_unavailable"@,
        DiagnosticCode::OptionalCapabilityUnavailable => "optional_capability_unavailable"@,
        DiagnosticCode::PartialInventory => "partial_inventory"@,
        DiagnosticCode::SourceRunPartial => "source_run_partial"@,
        DiagnosticCode::SourceRunInterrupted => "source_run_interrupted"@,
        DiagnosticCode::StoredRunNotFound => "stored_run_not_found"@,
        DiagnosticCode::StoredStateIncompatible => "stored_state_incompatible"@,
        DiagnosticCode::StaleEvidencePreventsOperation => "stale_evidence_prevents_operation"@,
        DiagnosticCode::ArtifactValidationFailed => "artifact_validation_failed"@,
        DiagnosticCode::ArtifactCommitFailed => "artifact_commit_failed"@,
        DiagnosticCode::StateTransactionFailed => "state_transaction_failed"@,
        DiagnosticCode::InternalInvariantViolated => "internal_invariant_violated"@,
        DiagnosticCode::OperationInterrupted => "operation_interrupted"@,
        DiagnosticCode::OperationTerminated => "operation_terminated"@,
        DiagnosticCode::StructuredOutputFailed => "structured_output_failed"@,
        DiagnosticCode::OutputDestinationInvalid => "output_destination_invalid"@,
        DiagnosticCode::ResultProducedWithExclusions => "result_produced_with_exclusions"@,
        DiagnosticCode::ConfigurationNotFound => "configuration_not_found"@,
        DiagnosticCode::ConfigurationUnreadable => "configuration_unreadable"@,
        DiagnosticCode::ConfigurationNotRegularFile => "configuration_not_regular_file"@,
        DiagnosticCode::ConfigurationParseFailed => "configuration_parse_failed"@,
        DiagnosticCode::ConfigurationSchemaMissing => "configuration_schema_missing"@,
        DiagnosticCode::ConfigurationSchemaUnsupported => "configuration_schema_unsupported"@,
        DiagnosticCode::ConfigurationUnknownKey => "configuration_unknown_key"@,
        DiagnosticCode::ConfigurationValueInvalid => "configuration_value_invalid"@,
        DiagnosticCode::ConfigurationValueOutOfRange => "configuration_value_out_of_range"@,
        DiagnosticCode::ConfigurationConflict => "configuration_conflict"@,
        DiagnosticCode::ConfigurationSelectorConflict => "configuration_selector_conflict"@,
        DiagnosticCode::ConfigurationEnvironmentInvalid => "configuration_environment_invalid"@,
        DiagnosticCode::ConfigurationPathResolutionFailed => "configuration_path_resolution_failed"@,
        DiagnosticCode::ConfigurationDiscoveryFailed => "configuration_discovery_failed"@,
        DiagnosticCode::ConfigurationSourceReplacedDuringRead => "configuration_source_replaced_during_read"@,
        DiagnosticCode::ConfigurationOverrideShadowed => "configuration_override_shadowed"@,
        DiagnosticCode::ConfigurationDeprecatedKey => "configuration_deprecated_key"@,
        DiagnosticCode::ConfigurationLockedInvariant => "configuration_locked_invariant"@,
        DiagnosticCode::EffectivePolicyInvalid => "effective_policy_invalid"@,
        DiagnosticCode::EffectivePolicySerializationFailed => "effective_policy_serialization_failed"@,
        DiagnosticCode::EffectivePolicyFingerprintMismatch => "effective_policy_fingerprint_mismatch"@,
        DiagnosticCode::HistoricalPolicyUnknown => "historical_policy_unknown"@,
        DiagnosticCode::SourcePolicyDiffers => "source_policy_differs"@,
        DiagnosticCode::ConfigurationSettingUnknown => "configuration_setting_unknown"@,
    }
}

fn push_code_name(out: &mut Vec<char>, v: DiagnosticCode)
    ensures
        final(out)@ == old(out)@ + json_string(code_name(v)),
{
    match v {
        DiagnosticCode::InvalidInvocation => push_json_string(out, "invalid_invocation"),
        DiagnosticCode::InvalidCommandInput => push_json_string(out, "invalid_command_input"),
        DiagnosticCode::RequiredCapabilityUnavailable => push_json_string(out, "required_capability_unavailable"),
        DiagnosticCode::OptionalCapabilityUnavailable => push_json_string(out, "optional_capability_unavailable"),
        DiagnosticCode::PartialInventory => push_json_string(out, "partial_inventory"),
        DiagnosticCode::SourceRunPartial => push_json_string(out, "source_run_partial"),
        DiagnosticCode::SourceRunInterrupted => push_json_string(out, "source_run_interrupted"),
        DiagnosticCode::StoredRunNotFound => push_json_string(out, "stored_run_not_found"),
        DiagnosticCode::StoredStateIncompatible => push_json_string(out, "stored_state_incompatible"),
        DiagnosticCode::StaleEvidencePreventsOperation => push_json_string(out, "stale_evidence_prevents_operation"),
        DiagnosticCode::ArtifactValidationFailed => push_json_string(out, "artifact_validation_failed"),
        DiagnosticCode::ArtifactCommitFailed => push_json_string(out, "artifact_commit_failed"),
        DiagnosticCode::StateTransactionFailed => push_json_string(out, "state_transaction_failed"),
        DiagnosticCode::InternalInvariantViolated => push_json_string(out, "internal_invariant_violated"),
        DiagnosticCode::OperationInterrupted => push_json_string(out, "operation_interrupted"),
        DiagnosticCode::OperationTerminated => push_json_string(out, "operation_terminated"),
        DiagnosticCode::StructuredOutputFailed => push_json_string(out, "structured_output_failed"),
        DiagnosticCode::OutputDestinationInvalid => push_json_string(out, "output_destination_invalid"),
        DiagnosticCode::ResultProducedWithExclusions => push_json_string(out, "result_produced_with_exclusions"),
        DiagnosticCode::ConfigurationNotFound => push_json_string(out, "configuration_not_found"),
        DiagnosticCode::ConfigurationUnreadable => push_json_string(out, "configuration_unreadable"),
        DiagnosticCode::ConfigurationNotRegularFile => push_json_string(out, "configuration_not_regular_file"),
        DiagnosticCode::ConfigurationParseFailed => push_json_string(out, "configuration_parse_failed"),
        DiagnosticCode::ConfigurationSchemaMissing => push_json_string(out, "configuration_schema_missing"),
        DiagnosticCode::ConfigurationSchemaUnsupported => push_json_string(out, "configuration_schema_unsupported"),
        DiagnosticCode::ConfigurationUnknownKey => push_json_string(out, "configuration_unknown_key"),
        DiagnosticCode::ConfigurationValueInvalid => push_json_string(out, "configuration_value_invalid"),
        DiagnosticCode::ConfigurationValueOutOfRange => push_json_string(out, "configuration_value_out_of_range"),
        DiagnosticCode::ConfigurationConflict => push_json_string(out, "configuration_conflict"),
        DiagnosticCode::ConfigurationSelectorConflict => push_json_string(out, "configuration_selector_conflict"),
        DiagnosticCode::ConfigurationEnvironmentInvalid => push_json_string(out, "configuration_environment_invalid"),
        DiagnosticCode::ConfigurationPathResolutionFailed => push_json_string(out, "configuration_path_resolution_failed"),
        DiagnosticCode::ConfigurationDiscoveryFailed => push_json_string(out, "configuration_discovery_failed"),
        DiagnosticCode::ConfigurationSourceReplacedDuringRead => push_json_string(out, "configuration_source_replaced_during_read"),
        DiagnosticCode::ConfigurationOverrideShadowed => push_json_string(out, "configuration_override_shadowed"),
        DiagnosticCode::ConfigurationDeprecatedKey => push_json_string(out, "configuration_deprecated_key"),
        DiagnosticCode::ConfigurationLockedInvariant => push_json_string(out, "configuration_locked_invariant"),
        DiagnosticCode::EffectivePolicyInvalid => push_json_string(out, "effective_policy_invalid"),
        DiagnosticCode::EffectivePolicySerializationFailed => push_json_string(out, "effective_policy_serialization_failed"),
        DiagnosticCode::EffectivePolicyFingerprintMismatch => push_json_string(out, "effective_policy_fingerprint_mismatch"),
        DiagnosticCode::HistoricalPolicyUnknown => push_json_string(out, "historical_policy_unknown"),
        DiagnosticCode::SourcePolicyDiffers => push_json_string(out, "source_policy_differs"),
        DiagnosticCode::ConfigurationSettingUnknown => push_json_string(out, "configuration_setting_unknown"),
    }
}

pub open spec fn severity_name(v: DiagnosticSeverity) -> Seq<char> {
    match v {
        DiagnosticSeverity::Information => "information"@,
        DiagnosticSeverity::Warning => "warning"@,
        DiagnosticSeverity::Error => "error"@,
        DiagnosticSeverity::Fatal => "fatal"@,
    }
}

fn push_severity_name(out: &mut Vec<char>, v: DiagnosticSeverity)
    ensures
        final(out)@ == old(out)@ + json_string(severity_name(v)),
{
    match v {
        DiagnosticSeverity::Information => push_json_string(out, "information"),
        DiagnosticSeverity::Warning => push_json_string(out, "warning"),
        DiagnosticSeverity::Error => push_json_string(out, "error"),
        DiagnosticSeverity::Fatal => push_json_string(out, "fatal"),
    }
}

pub open spec fn classification_name(v: DiagnosticClassification) -> Seq<char> {
    match v {
        DiagnosticClassification::Input => "input"@,
        DiagnosticClassification::Capability => "capability"@,
        DiagnosticClassification::Coverage => "coverage"@,
        DiagnosticClassification::Observation => "observation"@,
        DiagnosticClassification::State => "state"@,
        DiagnosticClassification::Artifact => "artifact"@,
        DiagnosticClassification::Interruption => "interruption"@,
        DiagnosticClassification::Internal => "internal"@,
    }
}

fn push_classification_name(out: &mut Vec<char>, v: DiagnosticClassification)
    ensures
        final(out)@ == old(out)@ + json_string(classification_name(v)),
{
    match v {
        DiagnosticClassification::Input => push_json_string(out, "input"),
        DiagnosticClassification::Capability => push_json_string(out, "capability"),
        DiagnosticClassification::Coverage => push_json_string(out, "coverage"),
        DiagnosticClassification::Observation => push_json_string(out, "observation"),
        DiagnosticClassification::State => push_json_string(out, "state"),
        DiagnosticClassification::Artifact => push_json_string(out, "artifact"),
        DiagnosticClassification::Interruption => push_json_string(out, "interruption"),
        DiagnosticClassification::Internal => push_json_string(out, "internal"),
    }
}

pub open spec fn impact_name(v: DiagnosticImpact) -> Seq<char> {
    match v {
        DiagnosticImpact::NoImpact => "none"@,
        DiagnosticImpact::DegradesCoverage => "degrades_coverage"@,
        DiagnosticImpact::BlocksCommand => "blocks_command"@,
    }
}

fn push_impact_name(out: &mut Vec<char>, v: DiagnosticImpact)
    ensures
        final(out)@ == old(out)@ + json_string(impact_name(v)),
{
    match v {
        DiagnosticImpact::NoImpact => push_json_string(out, "none"),
        DiagnosticImpact::DegradesCoverage => push_json_string(out, "degrades_coverage"),
        DiagnosticImpact::BlocksCommand => push_json_string(out, "blocks_command"),
    }
}

/// A member that is present only when its value is.
pub open spec fn optional_member(key: Seq<char>, value: Option<Seq<char>>) -> Seq<Seq<char>> {
    match value {
        Some(v) => seq![json_member(key, v)],
        None => seq![],
    }
}

/// The members of a context: its present values.
pub open spec fn context_members(c: DiagnosticContext) -> Seq<Seq<char>> {
    optional_member("path"@, path_value(c.path))
        + optional_member("run_id"@, text_value(c.run_id))
        + optional_member("artifact_kind"@, text_value(c.artifact_kind))
        + optional_member("os_error_kind"@, text_value(c.os_error_kind))
        + optional_member("count"@, count_value(c.count))
        + optional_member("setting"@, text_value(c.setting))
        + optional_member("environment_variable"@, text_value(c.environment_variable))
        + optional_member("line"@, count_value(c.line))
        + optional_member("column"@, count_value(c.column))
}

pub open spec fn text_value(o: Option<String>) -> Option<Seq<char>> {
    match o {
        Some(p) => Some(json_string(p@)),
        None => None,
    }
}

pub open spec fn count_value(o: Option<u64>) -> Option<Seq<char>> {
    match o {
        Some(p) => Some(decimal_digits(p as nat)),
        None => None,
    }
}

pub open spec fn path_value(o: Option<NativePath>) -> Option<Seq<char>> {
    match o {
        Some(p) => Some(path_json(p@)),
        None => None,
    }
}

fn push_optional_text(out: &mut Vec<char>, key: &str, value: &Option<String>, first: bool, Ghost(start): Ghost<Seq<char>>, Ghost(done): Ghost<Seq<Seq<char>>>) -> (empty: bool)
    requires
        old(out)@ == start + seq!['{'] + json_joined(done),
        first == (done.len() == 0),
    ensures
        empty == ((done + optional_member(key@, text_value(*value))).len() == 0),
        final(out)@ == start + seq!['{'] + json_joined(done + optional_member(key@, text_value(*value))),
{
    match value {
        Some(p) => {
            push_member_key(out, key, first, Ghost(start), Ghost(done));
            push_json_string(out, p.as_str());
            proof { lemma_member_pushed(start, done, key@, json_string(p@), out@); }
            assert(done.push(json_member(key@, json_string(p@))) =~= done + optional_member(key@, text_value(*value)));
            false
        },
        None => {
            assert(done =~= done + optional_member(key@, text_value(*value)));
            first
        },
    }
}

fn push_optional_count(out: &mut Vec<char>, key: &str, value: Option<u64>, first: bool, Ghost(start): Ghost<Seq<char>>, Ghost(done): Ghost<Seq<Seq<char>>>) -> (empty: bool)
    requires
        old(out)@ == start + seq!['{'] + json_joined(done),
        first == (done.len() == 0),
    ensures
        empty == ((done + optional_member(key@, count_value(value))).len() == 0),
        final(out)@ == start + seq!['{'] + json_joined(done + optional_member(key@, count_value(value))),
{
    match value {
        Some(p) => {
            push_member_key(out, key, first, Ghost(start), Ghost(done));
            push_decimal(out, p);
            proof { lemma_member_pushed(start, done, key@, decimal_digits(p as nat), out@); }
            assert(done.push(json_member(key@, decimal_digits(p as nat))) =~= done + optional_member(key@, count_value(value)));
            false
        },
        None => {
            assert(done =~= done + optional_member(key@, count_value(value)));
            first
        },
    }
}

fn push_optional_path(out: &mut Vec<char>, key: &str, value: &Option<NativePath>, first: bool, Ghost(start): Ghost<Seq<char>>, Ghost(done): Ghost<Seq<Seq<char>>>) -> (empty: bool)
    requires
        old(out)@ == start + seq!['{'] + json_joined(done),
        first == (done.len() == 0),
    ensures
        empty == ((done + optional_member(key@, path_value(*value))).len() == 0),
        final(out)@ == start + seq!['{'] + json_joined(done + optional_member(key@, path_value(*value))),
{
    match value {
        Some(p) => {
            push_member_key(out, key, first, Ghost(start), Ghost(done));
            push_path(out, p);
            proof { lemma_member_pushed(start, done, key@, path_json(p@), out@); }
            assert(done.push(json_member(key@, path_json(p@))) =~= done + optional_member(key@, path_value(*value)));
            false
        },
        None => {
            assert(done =~= done + optional_member(key@, path_value(*value)));
            first
        },
    }
}

fn push_context_json(out: &mut Vec<char>, c: &DiagnosticContext)
    ensures
        final(out)@ == old(out)@ + json_object(context_members(*c)),
{
    let ghost start = out@;
    out.push('{');
    let ghost d0: Seq<Seq<char>> = seq![];
    let mut first = true;
    assert(out@ =~= start + seq!['{'] + json_joined(d0));
    first = push_optional_path(out, "path", &c.path, first, Ghost(start), Ghost(d0));
    let ghost d1 = d0 + optional_member("path"@, path_value(c.path));
    first = push_optional_text(out, "run_id", &c.run_id, first, Ghost(start), Ghost(d1));
    let ghost d2 = d1 + optional_member("run_id"@, text_value(c.run_id));
    first = push_optional_text(out, "artifact_kind", &c.artifact_kind, first, Ghost(start), Ghost(d2));
    let ghost d3 = d2 + optional_member("artifact_kind"@, text_value(c.artifact_kind));
    first = push_optional_text(out, "os_error_kind", &c.os_error_kind, first, Ghost(start), Ghost(d3));
    let ghost d4 = d3 + optional_member("os_error_kind"@, text_value(c.os_error_kind));
    first = push_optional_count(out, "count", c.count, first, Ghost(start), Ghost(d4));
    let ghost d5 = d4 + optional_member("count"@, count_value(c.count));
    first = push_optional_text(out, "setting", &c.setting, first, Ghost(start), Ghost(d5));
    let ghost d6 = d5 + optional_member("setting"@, text_value(c.setting));
    first = push_optional_text(out, "environment_variable", &c.environment_variable, first, Ghost(start), Ghost(d6));
    let ghost d7 = d6 + optional_member("environment_variable"@, text_value(c.environment_variable));
    first = push_optional_count(out, "line", c.line, first, Ghost(start), Ghost(d7));
    let ghost d8 = d7 + optional_member("line"@, count_value(c.line));
    first = push_optional_count(out, "column", c.column, first, Ghost(start), Ghost(d8));
    let ghost d9 = d8 + optional_member("column"@, count_value(c.column));
    assert(d9 =~= context_members(*c));
    out.push('}');
    assert(out@ =~= start + json_object(context_members(*c)));
}

/// The members of a diagnostic: code, severity, classification, impact and
/// message; the context unless it is empty; whether it is retryable when
/// that is known.
pub open spec fn diagnostic_members(d: Diagnostic) -> Seq<Seq<char>> {
    seq![
        json_member("code"@, json_string(code_name(d.code))),
        json_member("severity"@, json_string(severity_name(d.severity))),
        json_member("classification"@, json_string(classification_name(d.classification))),
        json_member("impact"@, json_string(impact_name(d.impact))),
        json_member("message"@, json_string(d.message@)),
    ] + (if context_members(d.context).len() == 0 {
        Seq::<Seq<char>>::empty()
    } else {
        seq![json_member("context"@, json_object(context_members(d.context)))]
    }) + optional_member("retryable"@, match d.retryable { Some(b) => Some(json_bool(b)), None => None })
}

/// The canonical JSON text of a diagnostic.
pub open spec fn diagnostic_json(d: Diagnostic) -> Seq<char> {
    json_object(diagnostic_members(d))
}

fn context_present(c: &DiagnosticContext) -> (r: bool)
    ensures
        r == (context_members(*c).len() > 0),
{
    c.path.is_some() || c.run_id.is_some() || c.artifact_kind.is_some() || c.os_error_kind.is_some()
        || c.count.is_some() || c.setting.is_some() || c.environment_variable.is_some() || c.line.is_some()
        || c.column.is_some()
}

/// The canonical JSON text of `d`.
#[verifier::spinoff_prover]
pub fn diagnostic_text(d: &Diagnostic) -> (t: String)
    ensures
        t@ == diagnostic_json(*d),
{
    let mut out: Vec<char> = Vec::new();
    let ghost start = out@;
    out.push('{');
    let ghost mut done: Seq<Seq<char>> = seq![];
    assert(out@ =~= start + seq!['{'] + json_joined(done));
    push_member_key(&mut out, "code", true, Ghost(start), Ghost(done));
    push_code_name(&mut out, d.code);
    proof { lemma_member_pushed(start, done, "code"@, json_string(code_name(d.code)), out@); done = done.push(json_member("code"@, json_string(code_name(d.code)))); }
    push_member_key(&mut out, "severity", false, Ghost(start), Ghost(done));
    push_severity_name(&mut out, d.severity);
    proof { lemma_member_pushed(start, done, "severity"@, json_string(severity_name(d.severity)), out@); done = done.push(json_member("severity"@, json_string(severity_name(d.severity)))); }
    push_member_key(&mut out, "classification", false, Ghost(start), Ghost(done));
    push_classification_name(&mut out, d.classification);
    proof { lemma_member_pushed(start, done, "classification"@, json_string(classification_name(d.classification)), out@); done = done.push(json_member("classification"@, json_string(classification_name(d.classification)))); }
    push_member_key(&mut out, "impact", false, Ghost(start), Ghost(done));
    push_impact_name(&mut out, d.impact);
    proof { lemma_member_pushed(start, done, "impact"@, json_string(impact_name(d.impact)), out@); done = done.push(json_member("impact"@, json_string(impact_name(d.impact)))); }
    push_member_key(&mut out, "message", false, Ghost(start), Ghost(done));
    push_json_string(&mut out, d.message.as_str());
    proof { lemma_member_pushed(start, done, "message"@, json_string(d.message@), out@); done = done.push(json_member("message"@, json_string(d.message@))); }
    let ghost fixed = done;
    if context_present(&d.context) {
        push_member_key(&mut out, "context", false, Ghost(start), Ghost(done));
        push_context_json(&mut out, &d.context);
        proof {
            lemma_member_pushed(start, done, "context"@, json_object(context_members(d.context)), out@);
            done = done.push(json_member("context"@, json_object(context_members(d.context))));
        }
    }
    assert(done =~= fixed + (if context_members(d.context).len() == 0 {
        Seq::<Seq<char>>::empty()
    } else {
        seq![json_member("context"@, json_object(context_members(d.context)))]
    }));
    let ghost with_context = done;
    match d.retryable {
        Some(b) => {
            push_member_key(&mut out, "retryable", false, Ghost(start), Ghost(done));
            push_json_bool(&mut out, b);
            proof {
                lemma_member_pushed(start, done, "retryable"@, json_bool(b), out@);
                done = done.push(json_member("retryable"@, json_bool(b)));
            }
        },
        None => {},
    }
    assert(done =~= with_context + optional_member("retryable"@, match d.retryable { Some(b) => Some(json_bool(b)), None => None }));
    out.push('}');
    assert(done =~= diagnostic_members(*d));
    assert(out@ =~= diagnostic_json(*d));
    string_of(&out)
}

} // verus!
