use optiflow::artifact_set::ArtifactSetInspection;
use optiflow::cli::{Cli, Command, OutputFormat};
use optiflow::configuration::policy::{ConfigurationSourceRecord, ConfigurationSourceStatus, PolicySourceKind};
use optiflow::configuration::resolver::{resolve, CapturedEnvironment, ConfigurationDocuments};
use optiflow::outcome::{CoverageStatus, DiagnosticCode, DiagnosticSeverity};
use optiflow::reporting::{
    check_run_identifier, extension_inspection_findings, interruption_diagnostic, loaded_source_count,
    missing_run_diagnostic, requested_output_format, require_committed_artifact_set, review_source_policy,
    supported_report_schema, report_requires_artifact_set, HistoricalPolicy,
};
use optiflow::signals::Interruption;

fn arguments(items: &[&str]) -> Vec<String> {
    items.iter().map(|s| s.to_string()).collect()
}

fn environment(include_hidden: Option<&str>) -> CapturedEnvironment {
    CapturedEnvironment {
        config: None,
        state_directory: None,
        output_format: None,
        follow_symlinks: None,
        include_hidden: include_hidden.map(|v| v.as_bytes().to_vec()),
        cross_filesystems: None,
        probe_media: None,
        xdg_state_home: None,
    }
}

fn policy(include_hidden: Option<&str>) -> optiflow::configuration::policy::EffectivePolicyV1 {
    let cli = Cli { state_directory: None, config: None, no_config: false, json: false, output_format: None, command: Command::Doctor };
    resolve(&cli, &environment(include_hidden), b"/work", b"/state".to_vec(), ConfigurationDocuments { explicit: None, user: None, project: None }, Vec::new())
        .expect("the configuration resolves")
        .policy
}

#[test]
fn output_format_is_read_from_raw_arguments() {
    assert_eq!(requested_output_format(&arguments(&["optiflow", "doctor"])), OutputFormat::Human);
    assert_eq!(requested_output_format(&arguments(&["optiflow", "--json", "doctor"])), OutputFormat::Json);
    assert_eq!(requested_output_format(&arguments(&["optiflow", "--output-format=json"])), OutputFormat::Json);
    assert_eq!(requested_output_format(&arguments(&["optiflow", "--output-format", "json"])), OutputFormat::Json);
    assert_eq!(requested_output_format(&arguments(&["optiflow", "--output-format", "human", "--json"])), OutputFormat::Json);
    assert_eq!(requested_output_format(&arguments(&["optiflow", "--output-format", "--json"])), OutputFormat::Human);
    assert_eq!(requested_output_format(&arguments(&["optiflow", "--output-format"])), OutputFormat::Human);
}

#[test]
fn signals_map_to_their_own_diagnostics() {
    let term = interruption_diagnostic(Some(Interruption::Terminate), Some("run".to_owned()));
    assert_eq!(term.code, DiagnosticCode::OperationTerminated);
    assert_eq!(term.message, "the operation was terminated by SIGTERM");
    assert_eq!(term.context.run_id.as_deref(), Some("run"));
    let int = interruption_diagnostic(Some(Interruption::Interrupt), None);
    assert_eq!(int.code, DiagnosticCode::OperationInterrupted);
    assert_eq!(interruption_diagnostic(None, None).code, DiagnosticCode::OperationInterrupted);
}

#[test]
fn report_schemas_and_artifact_sets() {
    assert!(supported_report_schema("optiflow.report.v1"));
    assert!(supported_report_schema("optiflow.report.v5"));
    assert!(!supported_report_schema("optiflow.report.v6"));
    assert!(!supported_report_schema("optiflow.plan.v5"));
    assert!(report_requires_artifact_set("optiflow.report.v5"));
    assert!(!report_requires_artifact_set("optiflow.report.v4"));
    let refused = require_committed_artifact_set(ArtifactSetInspection::incomplete("staging remains".to_owned()), b"/runs/a")
        .unwrap_err();
    assert_eq!(refused.code, DiagnosticCode::StoredStateIncompatible);
    assert_eq!(refused.message, "staging remains");
    assert!(refused.context.path.is_some());
}

#[test]
fn run_identifiers_follow_the_uuid_text_forms() {
    assert!(check_run_identifier("550e8400-e29b-41d4-a716-446655440000").is_ok());
    assert!(check_run_identifier("550E8400E29B41D4A716446655440000").is_ok());
    assert!(check_run_identifier("{550e8400-e29b-41d4-a716-446655440000}").is_ok());
    assert!(check_run_identifier("URN:uuid:550e8400-e29b-41d4-a716-446655440000").is_ok());
    assert!(check_run_identifier("550e8400-e29b-41d4-a716-44665544000g").is_err());
    let refused = check_run_identifier("last-tuesday").unwrap_err();
    assert_eq!(refused.code, DiagnosticCode::InvalidCommandInput);
}

#[test]
fn missing_runs_are_told_apart() {
    assert_eq!(missing_run_diagnostic("r".to_owned(), Some("interrupted")).code, DiagnosticCode::SourceRunInterrupted);
    assert_eq!(missing_run_diagnostic("r".to_owned(), Some("failed")).code, DiagnosticCode::StoredRunNotFound);
    assert_eq!(missing_run_diagnostic("r".to_owned(), None).code, DiagnosticCode::StoredRunNotFound);
}

#[test]
fn historical_policies_are_reviewed() {
    let current = policy(None);
    let missing = review_source_policy("run", HistoricalPolicy::Missing, &current);
    assert!(missing.accepted_schema.is_none());
    assert_eq!(missing.diagnostics[0].code, DiagnosticCode::HistoricalPolicyUnknown);
    assert_eq!(missing.diagnostics[0].severity, DiagnosticSeverity::Information);

    let unreadable = review_source_policy("run", HistoricalPolicy::Unreadable("denied".to_owned()), &current);
    assert_eq!(unreadable.diagnostics[0].message, "the historical effective policy could not be read: denied");
    assert_eq!(unreadable.diagnostics[0].severity, DiagnosticSeverity::Warning);

    let same = review_source_policy("run", HistoricalPolicy::Decoded(policy(None)), &current);
    assert_eq!(same.accepted_schema.as_deref(), Some("optiflow.effective-policy.v1"));
    assert!(same.diagnostics.is_empty());

    let differs = review_source_policy("run", HistoricalPolicy::Decoded(policy(Some("true"))), &current);
    assert!(differs.accepted_schema.is_some());
    assert_eq!(differs.diagnostics[0].code, DiagnosticCode::SourcePolicyDiffers);

    let mut tampered = policy(None);
    tampered.evidence_policy.include_hidden = true;
    let refused = review_source_policy("run", HistoricalPolicy::Decoded(tampered), &current);
    assert!(refused.accepted_schema.is_none());
    assert_eq!(refused.diagnostics[0].code, DiagnosticCode::EffectivePolicyFingerprintMismatch);
    assert_eq!(
        refused.diagnostics[0].message,
        "the historical effective policy failed integrity validation: effective-policy fingerprint mismatch"
    );
}

#[test]
fn loaded_sources_and_extension_findings_are_counted() {
    let sources = vec![
        ConfigurationSourceRecord { source: PolicySourceKind::UserConfiguration, status: ConfigurationSourceStatus::Absent, path: None },
        ConfigurationSourceRecord { source: PolicySourceKind::ProjectConfiguration, status: ConfigurationSourceStatus::Loaded, path: None },
    ];
    assert_eq!(loaded_source_count(&sources), 1);
    let (coverage, diagnostic) = extension_inspection_findings(2, 1);
    assert_eq!(coverage, Some(CoverageStatus::Partial));
    let diagnostic = diagnostic.expect("a warning");
    assert_eq!(diagnostic.message, "extension inspection found 2 unavailable provider(s) and 1 precedence conflict(s)");
    assert_eq!(diagnostic.context.count, Some(3));
    assert_eq!(extension_inspection_findings(0, 0), (None, None));
}
