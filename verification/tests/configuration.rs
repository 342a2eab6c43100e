use optiflow::cli::{Cli, Command, OutputFormat};
use optiflow::configuration::explain::ExplainedValue;
use optiflow::configuration::policy::{ConfigurationSourceStatus, PolicySourceKind};
use optiflow::configuration::sources::{
    check_document_header, discovered_records, explicit_records, metadata_failure_code, select_sources,
    suppressed_records, toml_failure_diagnostic, SchemaField, SourceSelection, UserLookup,
};
use optiflow::configuration::resolver::{
    parse_boolean_environment, resolve, resolve_relative, CapturedEnvironment, ConfigDocumentV1,
    ConfigurationDocuments, FoundDocument, ScanConfigDocument,
};
use optiflow::domain::NativePath;
use optiflow::outcome::DiagnosticCode;

#[test]
fn relative_paths_do_not_expand_shell_syntax() {
    let base = b"/workspace/project";
    assert_eq!(resolve_relative(b"$HOME/*.db", base), b"/workspace/project/$HOME/*.db".to_vec());
    assert_eq!(resolve_relative(b"~/state", base), b"/workspace/project/~/state".to_vec());
}

#[test]
fn absolute_paths_are_kept() {
    assert_eq!(resolve_relative(b"/var/state", b"/workspace"), b"/var/state".to_vec());
}

#[test]
fn boolean_environment_is_strict() {
    assert!(parse_boolean_environment("OPTIFLOW_TEST", b"true").unwrap());
    assert!(!parse_boolean_environment("OPTIFLOW_TEST", b"false").unwrap());
    assert!(parse_boolean_environment("OPTIFLOW_TEST", b"yes").is_err());
}

fn doctor_cli(json: bool) -> Cli {
    Cli {
        state_directory: None,
        config: None,
        no_config: false,
        json,
        output_format: None,
        command: Command::Doctor,
    }
}

fn quiet_environment() -> CapturedEnvironment {
    CapturedEnvironment {
        config: None,
        state_directory: None,
        output_format: None,
        follow_symlinks: None,
        include_hidden: None,
        cross_filesystems: None,
        probe_media: None,
        xdg_state_home: None,
    }
}

fn no_documents() -> ConfigurationDocuments {
    ConfigurationDocuments { explicit: None, user: None, project: None }
}

fn project_document(include_hidden: bool) -> FoundDocument {
    scan_document(b"/work/optiflow.toml", b"/work", include_hidden)
}

fn scan_document(path: &[u8], base: &[u8], include_hidden: bool) -> FoundDocument {
    FoundDocument {
        path: NativePath::from_path(path),
        base: base.to_vec(),
        document: ConfigDocumentV1 {
            schema: "optiflow.config.v1".to_owned(),
            output: None,
            state: None,
            scan: Some(ScanConfigDocument {
                follow_symlinks: None,
                include_hidden: Some(include_hidden),
                cross_filesystems: None,
                probe_media: None,
            }),
        },
    }
}

#[test]
fn explain_reports_the_winning_source_and_what_it_shadowed() {
    let mut environment = quiet_environment();
    environment.include_hidden = Some(b"true".to_vec());
    let documents = ConfigurationDocuments { explicit: None, user: None, project: Some(project_document(false)) };
    let resolution = resolve(&doctor_cli(false), &environment, b"/work", b"/state".to_vec(), documents, Vec::new())
        .expect("the configuration resolves");
    let explanation = resolution.explain("scan.include_hidden").expect("a known setting");
    assert_eq!(explanation.setting, "evidence_policy.include_hidden");
    assert_eq!(explanation.value, ExplainedValue::Flag(true));
    assert_eq!(explanation.provenance.source, PolicySourceKind::Environment);
    assert_eq!(explanation.shadowed_values.len(), 2);
    assert!(explanation.shadowed_values.iter().all(|s| s.setting == "evidence_policy.include_hidden"));
    assert_eq!(explanation.shadowed_values[1].provenance.source, PolicySourceKind::ProjectConfiguration);
    assert_eq!(explanation.category, "evidence");
    assert!(explanation.affects_evidence);
    assert!(!explanation.locked);
    assert_eq!(explanation.environment_variable.as_deref(), Some("OPTIFLOW_INCLUDE_HIDDEN"));
    assert_eq!(explanation.cli_argument.as_deref(), Some("--include-hidden / --exclude-hidden"));
}

#[test]
fn explain_covers_locked_settings_and_rejects_unknown_ones() {
    let resolution = resolve(&doctor_cli(true), &quiet_environment(), b"/work", b"/state".to_vec(), no_documents(), Vec::new())
        .expect("the configuration resolves");
    let format = resolution.explain("output.format").expect("a known setting");
    assert_eq!(format.value, ExplainedValue::Format(OutputFormat::Json));
    assert_eq!(format.provenance.source, PolicySourceKind::CommandLine);
    let locked = resolution.explain("safety_invariants.apply_enabled").expect("a known setting");
    assert_eq!(locked.value, ExplainedValue::Flag(false));
    assert!(locked.locked);
    assert_eq!(locked.category, "locked_safety");
    assert_eq!(locked.provenance.source, PolicySourceKind::LockedInvariant);
    assert_eq!(locked.environment_variable, None);
    let attempts = resolution.explain("evidence_policy.maximum_observation_attempts").expect("a known setting");
    assert_eq!(attempts.value, ExplainedValue::Attempts(2));
    let unknown = resolution.explain("scan.recursive").unwrap_err();
    assert_eq!(unknown.code, DiagnosticCode::ConfigurationSettingUnknown);
    assert_eq!(unknown.context.setting.as_deref(), Some("scan.recursive"));
}

#[test]
fn configuration_sources_are_selected_in_order() {
    let mut cli = doctor_cli(false);
    let mut environment = quiet_environment();
    assert_eq!(select_sources(&cli, &environment, b"/work"), SourceSelection::Discover);
    environment.config = Some(b"env.toml".to_vec());
    assert_eq!(select_sources(&cli, &environment, b"/work"), SourceSelection::Explicit(b"/work/env.toml".to_vec()));
    cli.config = Some(b"/etc/optiflow.toml".to_vec());
    assert_eq!(select_sources(&cli, &environment, b"/work"), SourceSelection::Explicit(b"/etc/optiflow.toml".to_vec()));
    cli.no_config = true;
    assert_eq!(select_sources(&cli, &environment, b"/work"), SourceSelection::Suppressed);

    let suppressed = suppressed_records();
    assert!(suppressed.iter().all(|r| r.status == ConfigurationSourceStatus::Suppressed && r.path.is_none()));
    let explicit = explicit_records(b"/etc/optiflow.toml");
    assert_eq!(explicit[0].source, PolicySourceKind::ExplicitConfiguration);
    assert_eq!(explicit[0].status, ConfigurationSourceStatus::Loaded);
    let discovered = discovered_records(&UserLookup::Absent(b"/home/u/.config/optiflow/optiflow.toml".to_vec()), &None, b"/work");
    assert_eq!(discovered[0].status, ConfigurationSourceStatus::Absent);
    assert_eq!(discovered[1].status, ConfigurationSourceStatus::Absent);
    assert_eq!(discovered[1].path, Some(NativePath::from_path(b"/work/optiflow.toml")));
}

#[test]
fn document_headers_are_checked_before_decoding() {
    let path = b"/work/optiflow.toml";
    assert_eq!(check_document_header(path, &SchemaField::Missing, false).unwrap_err().code, DiagnosticCode::ConfigurationSchemaMissing);
    assert_eq!(check_document_header(path, &SchemaField::NotText, false).unwrap_err().code, DiagnosticCode::ConfigurationValueInvalid);
    assert_eq!(
        check_document_header(path, &SchemaField::Text("optiflow.config.v2".to_owned()), false).unwrap_err().code,
        DiagnosticCode::ConfigurationSchemaUnsupported
    );
    assert_eq!(
        check_document_header(path, &SchemaField::Text("optiflow.config.v1".to_owned()), true).unwrap_err().code,
        DiagnosticCode::ConfigurationLockedInvariant
    );
    assert!(check_document_header(path, &SchemaField::Text("optiflow.config.v1".to_owned()), false).is_ok());
    assert_eq!(metadata_failure_code(true, true), DiagnosticCode::ConfigurationNotFound);
    assert_eq!(metadata_failure_code(false, true), DiagnosticCode::ConfigurationUnreadable);
}

#[test]
fn toml_failures_carry_their_position() {
    let text = b"schema = \"optiflow.config.v1\"\n[scan]\nrecurse = true\n";
    let unknown = toml_failure_diagnostic(b"/work/optiflow.toml", text, "unknown field `recurse`", Some(37));
    assert_eq!(unknown.code, DiagnosticCode::ConfigurationUnknownKey);
    assert_eq!(unknown.message, "configuration TOML is invalid: unknown field `recurse`");
    assert_eq!(unknown.context.line, Some(3));
    assert_eq!(unknown.context.column, Some(1));
    let broken = toml_failure_diagnostic(b"/work/optiflow.toml", b"schema = ", "expected a value", Some(500));
    assert_eq!(broken.code, DiagnosticCode::ConfigurationParseFailed);
    assert_eq!(broken.context.line, Some(1));
    assert_eq!(broken.context.column, Some(10));
    let unplaced = toml_failure_diagnostic(b"/work/optiflow.toml", b"", "bad", None);
    assert_eq!(unplaced.context.line, None);
}

#[test]
fn the_project_file_outranks_the_user_file_and_both_are_recorded() {
    let documents = ConfigurationDocuments {
        explicit: None,
        user: Some(scan_document(b"/home/u/.config/optiflow/optiflow.toml", b"/home/u/.config/optiflow", true)),
        project: Some(project_document(false)),
    };
    let resolution = resolve(&doctor_cli(false), &quiet_environment(), b"/work", b"/state".to_vec(), documents, Vec::new())
        .expect("the configuration resolves");
    assert!(!resolution.policy.evidence_policy.include_hidden);
    let entry = resolution
        .policy
        .provenance
        .iter()
        .find(|e| e.setting == "evidence_policy.include_hidden")
        .expect("a provenance entry");
    assert_eq!(entry.provenance.source, PolicySourceKind::ProjectConfiguration);
    let shadowed: Vec<_> = resolution
        .shadowed_values
        .iter()
        .filter(|s| s.setting == "evidence_policy.include_hidden")
        .map(|s| s.provenance.source)
        .collect();
    assert_eq!(shadowed, vec![PolicySourceKind::CompiledDefault, PolicySourceKind::UserConfiguration]);
    let names: Vec<&str> = resolution.policy.provenance.iter().map(|e| e.setting.as_str()).collect();
    let mut sorted = names.clone();
    sorted.sort();
    assert_eq!(names, sorted);
    assert_eq!(names.len(), 16);
}

#[test]
fn an_explicit_file_suppresses_the_discovered_ones() {
    let documents = ConfigurationDocuments {
        explicit: Some(scan_document(b"/etc/optiflow.toml", b"/etc", true)),
        user: Some(scan_document(b"/home/u/optiflow.toml", b"/home/u", false)),
        project: Some(project_document(false)),
    };
    let resolution = resolve(&doctor_cli(false), &quiet_environment(), b"/work", b"/state".to_vec(), documents, Vec::new())
        .expect("the configuration resolves");
    assert!(resolution.policy.evidence_policy.include_hidden);
    let explanation = resolution.explain("evidence_policy.include_hidden").expect("a known setting");
    assert_eq!(explanation.provenance.source, PolicySourceKind::ExplicitConfiguration);
}
