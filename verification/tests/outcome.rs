use optiflow::diagnostic_json::diagnostic_text;
use optiflow::outcome::{
    CommandOutcomeClass, CommandResult, CoverageStatus, Diagnostic, DiagnosticClassification,
    DiagnosticCode, DiagnosticImpact, DiagnosticSeverity, ProcessExitCode,
};

fn empty_object() -> Option<serde_json::Value> {
    Some(serde_json::Value::Object(serde_json::Map::new()))
}

fn resolve(
    coverage: Option<CoverageStatus>,
    diagnostics: Vec<Diagnostic>,
    result: Option<serde_json::Value>,
) -> CommandResult {
    CommandResult::resolve("scan".to_owned(), coverage, Vec::new(), diagnostics, result)
}

#[test]
fn exit_code_contract_is_stable() {
    let cases = [
        (CommandOutcomeClass::Success, 0),
        (CommandOutcomeClass::InternalFailure, 1),
        (CommandOutcomeClass::InvalidInput, 2),
        (CommandOutcomeClass::PartialSuccess, 3),
        (CommandOutcomeClass::CapabilityUnavailable, 4),
        (CommandOutcomeClass::StaleState, 5),
        (CommandOutcomeClass::Interrupted, 130),
        (CommandOutcomeClass::Terminated, 143),
    ];
    for (class, code) in cases {
        assert_eq!(class.exit_code().get(), code);
    }
}

#[test]
fn exit_numbers_map_back_to_their_codes() {
    assert_eq!(ProcessExitCode::from_number(143), Some(ProcessExitCode::InterruptedBySigterm));
    assert_eq!(ProcessExitCode::from_number(0), Some(ProcessExitCode::Success));
    assert_eq!(ProcessExitCode::from_number(7), None);
}

#[test]
fn coverage_impact_is_distinct_from_warning_severity() {
    let informational_warning = Diagnostic::new(
        DiagnosticCode::OptionalCapabilityUnavailable,
        DiagnosticSeverity::Warning,
        DiagnosticClassification::Capability,
        DiagnosticImpact::NoImpact,
        "optional capability unavailable".to_owned(),
    );
    let complete = resolve(Some(CoverageStatus::Complete), vec![informational_warning], empty_object());
    assert_eq!(complete.outcome.class, CommandOutcomeClass::Success);

    let partial = resolve(
        Some(CoverageStatus::Partial),
        vec![Diagnostic::new(
            DiagnosticCode::PartialInventory,
            DiagnosticSeverity::Warning,
            DiagnosticClassification::Coverage,
            DiagnosticImpact::DegradesCoverage,
            "partial inventory".to_owned(),
        )],
        empty_object(),
    );
    assert_eq!(partial.outcome.class, CommandOutcomeClass::PartialSuccess);
}

#[test]
fn blocking_precedence_is_semantic() {
    let result = resolve(
        Some(CoverageStatus::Partial),
        vec![
            Diagnostic::new(
                DiagnosticCode::PartialInventory,
                DiagnosticSeverity::Warning,
                DiagnosticClassification::Coverage,
                DiagnosticImpact::DegradesCoverage,
                "partial".to_owned(),
            ),
            Diagnostic::new(
                DiagnosticCode::StateTransactionFailed,
                DiagnosticSeverity::Fatal,
                DiagnosticClassification::Internal,
                DiagnosticImpact::BlocksCommand,
                "state failure".to_owned(),
            ),
        ],
        empty_object(),
    );
    assert_eq!(result.outcome.class, CommandOutcomeClass::InternalFailure);
}

#[test]
fn resolver_coalesces_duplicate_diagnostics_and_preserves_count() {
    let diagnostic = Diagnostic::new(
        DiagnosticCode::PartialInventory,
        DiagnosticSeverity::Warning,
        DiagnosticClassification::Coverage,
        DiagnosticImpact::DegradesCoverage,
        "path was unavailable".to_owned(),
    );
    let result = resolve(Some(CoverageStatus::Partial), vec![diagnostic.clone(), diagnostic], empty_object());
    assert_eq!(result.diagnostics.len(), 1);
    assert_eq!(result.diagnostics[0].context.count, Some(2));
}

#[test]
fn signal_outcome_overrides_other_blocking_diagnostics() {
    let result = resolve(
        Some(CoverageStatus::Partial),
        vec![
            Diagnostic::new(
                DiagnosticCode::StateTransactionFailed,
                DiagnosticSeverity::Fatal,
                DiagnosticClassification::Internal,
                DiagnosticImpact::BlocksCommand,
                "state failed".to_owned(),
            ),
            Diagnostic::new(
                DiagnosticCode::OperationTerminated,
                DiagnosticSeverity::Error,
                DiagnosticClassification::Interruption,
                DiagnosticImpact::BlocksCommand,
                "terminated".to_owned(),
            ),
        ],
        empty_object(),
    );
    assert_eq!(result.outcome.class, CommandOutcomeClass::Terminated);
    assert_eq!(result.outcome.exit_code.get(), 143);
}

#[test]
fn blocking_classifications_resolve_to_stable_classes() {
    let cases = [
        (
            DiagnosticClassification::Input,
            DiagnosticCode::InvalidCommandInput,
            CommandOutcomeClass::InvalidInput,
        ),
        (
            DiagnosticClassification::Capability,
            DiagnosticCode::RequiredCapabilityUnavailable,
            CommandOutcomeClass::CapabilityUnavailable,
        ),
        (DiagnosticClassification::State, DiagnosticCode::StoredRunNotFound, CommandOutcomeClass::StaleState),
        (
            DiagnosticClassification::Artifact,
            DiagnosticCode::ArtifactCommitFailed,
            CommandOutcomeClass::InternalFailure,
        ),
    ];
    for (classification, code, expected) in cases {
        let result = resolve(
            None,
            vec![Diagnostic::new(
                code,
                DiagnosticSeverity::Error,
                classification,
                DiagnosticImpact::BlocksCommand,
                "wording is irrelevant".to_owned(),
            )],
            None,
        );
        assert_eq!(result.outcome.class, expected);
    }
}

#[test]
fn resolved_results_pass_their_own_validation() {
    let result = resolve(Some(CoverageStatus::Complete), Vec::new(), empty_object());
    assert_eq!(result.outcome.class, CommandOutcomeClass::Success);
    assert!(result.validate().is_ok());
}

#[test]
fn diagnostics_have_a_canonical_text() {
    let mut diagnostic = Diagnostic::new(
        DiagnosticCode::ConfigurationValueInvalid,
        DiagnosticSeverity::Error,
        DiagnosticClassification::Input,
        DiagnosticImpact::BlocksCommand,
        "bad \"value\"".to_owned(),
    );
    assert_eq!(
        diagnostic_text(&diagnostic),
        "{\"code\":\"configuration_value_invalid\",\"severity\":\"error\",\"classification\":\"input\",\"impact\":\"blocks_command\",\"message\":\"bad \\\"value\\\"\"}"
    );
    diagnostic.context.setting = Some("scan.include_hidden".to_owned());
    diagnostic.context.line = Some(3);
    diagnostic.retryable = Some(false);
    assert_eq!(
        diagnostic_text(&diagnostic),
        "{\"code\":\"configuration_value_invalid\",\"severity\":\"error\",\"classification\":\"input\",\"impact\":\"blocks_command\",\"message\":\"bad \\\"value\\\"\",\"context\":{\"setting\":\"scan.include_hidden\",\"line\":3},\"retryable\":false}"
    );
}
