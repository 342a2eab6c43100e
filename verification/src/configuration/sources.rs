//! Which configuration files a command consults, the records of every
//! source, and the checks on a document's header before it is decoded.

use vstd::prelude::*;
use crate::cli::Cli;
use crate::configuration::policy::{ConfigurationSourceRecord, ConfigurationSourceStatus, PolicySourceKind};
use crate::configuration::resolver::{
    is_input_diagnostic, path_diagnostic, resolve_relative, source_record, spec_join,
    CapturedEnvironment, CONFIG_SCHEMA,
};
use crate::domain::path_of_bytes;
use crate::outcome::{Diagnostic, DiagnosticClassification, DiagnosticCode, DiagnosticImpact, DiagnosticSeverity};
use crate::text::{compare_strings, has_infix, has_infix_spec, owned};
use crate::json::push_str;
use crate::text::string_of;

verus! {

/// The file name of user and project configuration documents.
pub const PROJECT_CONFIG_NAME: &'static str = "optiflow.toml";

/// Which configuration files a command consults.
#[derive(Debug, Clone, PartialEq, Eq)]
pub enum SourceSelection {
    /// `--no-config`: none.
    Suppressed,
    /// `--config` or `OPTIFLOW_CONFIG`: exactly this file, resolved against
    /// the working directory.
    Explicit(Vec<u8>),
    /// The user configuration, then the nearest project configuration.
    Discover,
}

/// The explicitly selected file, if any: the command line wins over the
/// environment.
pub open spec fn explicit_path(cli: Cli, environment: CapturedEnvironment, cwd: Seq<u8>) -> Option<Seq<u8>> {
    match cli.config {
        Some(p) => Some(spec_join(p@, cwd)),
        None => match environment.config {
            Some(p) => Some(spec_join(p@, cwd)),
            None => None,
        },
    }
}

/// Selects the configuration files to consult.
pub fn select_sources(cli: &Cli, environment: &CapturedEnvironment, cwd: &[u8]) -> (s: SourceSelection)
    ensures
        cli.no_config ==> s == SourceSelection::Suppressed,
        !cli.no_config ==> match explicit_path(*cli, *environment, cwd@) {
            Some(p) => s matches SourceSelection::Explicit(q) && q@ == p,
            None => s == SourceSelection::Discover,
        },
{
    if cli.no_config {
        return SourceSelection::Suppressed;
    }
    match &cli.config {
        Some(p) => SourceSelection::Explicit(resolve_relative(p.as_slice(), cwd)),
        None => match &environment.config {
            Some(p) => SourceSelection::Explicit(resolve_relative(p.as_slice(), cwd)),
            None => SourceSelection::Discover,
        },
    }
}

/// Whether a record has these parts.
pub open spec fn record_is(r: ConfigurationSourceRecord, source: PolicySourceKind, status: ConfigurationSourceStatus, path: Option<Seq<u8>>) -> bool {
    &&& r.source == source
    &&& r.status == status
    &&& match (r.path, path) {
        (Some(p), Some(b)) => p@ == path_of_bytes(b),
        (None, None) => true,
        _ => false,
    }
}

/// The records of a command run with `--no-config`.
pub fn suppressed_records() -> (r: Vec<ConfigurationSourceRecord>)
    ensures
        r@.len() == 3,
        record_is(r@[0], PolicySourceKind::UserConfiguration, ConfigurationSourceStatus::Suppressed, None),
        record_is(r@[1], PolicySourceKind::ProjectConfiguration, ConfigurationSourceStatus::Suppressed, None),
        record_is(r@[2], PolicySourceKind::ExplicitConfiguration, ConfigurationSourceStatus::Suppressed, None),
{
    let mut r: Vec<ConfigurationSourceRecord> = Vec::new();
    r.push(source_record(PolicySourceKind::UserConfiguration, ConfigurationSourceStatus::Suppressed, None));
    r.push(source_record(PolicySourceKind::ProjectConfiguration, ConfigurationSourceStatus::Suppressed, None));
    r.push(source_record(PolicySourceKind::ExplicitConfiguration, ConfigurationSourceStatus::Suppressed, None));
    r
}

/// The records of a command that loaded an explicitly selected file, which
/// suppresses the discovered ones.
pub fn explicit_records(path: &[u8]) -> (r: Vec<ConfigurationSourceRecord>)
    ensures
        r@.len() == 3,
        record_is(r@[0], PolicySourceKind::ExplicitConfiguration, ConfigurationSourceStatus::Loaded, Some(path@)),
        record_is(r@[1], PolicySourceKind::UserConfiguration, ConfigurationSourceStatus::Suppressed, None),
        record_is(r@[2], PolicySourceKind::ProjectConfiguration, ConfigurationSourceStatus::Suppressed, None),
{
    let mut r: Vec<ConfigurationSourceRecord> = Vec::new();
    r.push(source_record(PolicySourceKind::ExplicitConfiguration, ConfigurationSourceStatus::Loaded, Some(path)));
    r.push(source_record(PolicySourceKind::UserConfiguration, ConfigurationSourceStatus::Suppressed, None));
    r.push(source_record(PolicySourceKind::ProjectConfiguration, ConfigurationSourceStatus::Suppressed, None));
    r
}

/// What the search for the user configuration found.
#[derive(Debug, Clone, PartialEq, Eq)]
pub enum UserLookup {
    /// The platform has no configuration directory.
    Unknown,
    /// Nothing is at the platform's path.
    Absent(Vec<u8>),
    /// A file was loaded from this path.
    Loaded(Vec<u8>),
}

/// The path where a project configuration is looked for first.
pub open spec fn project_path(cwd: Seq<u8>) -> Seq<u8> {
    spec_join(PROJECT_CONFIG_NAME@.map_values(|c: char| c as u8), cwd)
}

fn project_name_bytes() -> (b: Vec<u8>)
    ensures
        b@ == PROJECT_CONFIG_NAME@.map_values(|c: char| c as u8),
{
    proof { reveal_strlit("optiflow.toml"); }
    let b: Vec<u8> = vec![111u8, 112u8, 116u8, 105u8, 102u8, 108u8, 111u8, 119u8, 46u8, 116u8, 111u8, 109u8, 108u8];
    assert(b@ =~= PROJECT_CONFIG_NAME@.map_values(|c: char| c as u8));
    b
}

/// The records of a command that searched for user and project
/// configuration: the user file, loaded or absent; then the nearest project
/// file, loaded, or absent at the working directory.
pub fn discovered_records(user: &UserLookup, project: &Option<Vec<u8>>, cwd: &[u8]) -> (r: Vec<ConfigurationSourceRecord>)
    ensures
        r@.len() == 2,
        match user {
            UserLookup::Unknown => record_is(r@[0], PolicySourceKind::UserConfiguration, ConfigurationSourceStatus::Absent, None),
            UserLookup::Absent(p) => record_is(r@[0], PolicySourceKind::UserConfiguration, ConfigurationSourceStatus::Absent, Some(p@)),
            UserLookup::Loaded(p) => record_is(r@[0], PolicySourceKind::UserConfiguration, ConfigurationSourceStatus::Loaded, Some(p@)),
        },
        match project {
            Some(p) => record_is(r@[1], PolicySourceKind::ProjectConfiguration, ConfigurationSourceStatus::Loaded, Some(p@)),
            None => record_is(r@[1], PolicySourceKind::ProjectConfiguration, ConfigurationSourceStatus::Absent, Some(project_path(cwd@))),
        },
{
    let mut r: Vec<ConfigurationSourceRecord> = Vec::new();
    let first = match user {
        UserLookup::Unknown => source_record(PolicySourceKind::UserConfiguration, ConfigurationSourceStatus::Absent, None),
        UserLookup::Absent(p) => source_record(PolicySourceKind::UserConfiguration, ConfigurationSourceStatus::Absent, Some(p.as_slice())),
        UserLookup::Loaded(p) => source_record(PolicySourceKind::UserConfiguration, ConfigurationSourceStatus::Loaded, Some(p.as_slice())),
    };
    r.push(first);
    let second = match project {
        Some(p) => source_record(PolicySourceKind::ProjectConfiguration, ConfigurationSourceStatus::Loaded, Some(p.as_slice())),
        None => {
            let name = project_name_bytes();
            let at = resolve_relative(name.as_slice(), cwd);
            source_record(PolicySourceKind::ProjectConfiguration, ConfigurationSourceStatus::Absent, Some(at.as_slice()))
        },
    };
    r.push(second);
    r
}

/// What a configuration document's `schema` key holds.
#[derive(Debug, Clone, PartialEq, Eq)]
pub enum SchemaField {
    Missing,
    NotText,
    Text(String),
}

/// Checks a configuration document's header before it is decoded: it must
/// declare the supported schema as text, and it must not try to configure
/// the locked safety invariants.
pub fn check_document_header(path: &[u8], schema: &SchemaField, declares_safety: bool) -> (r: Result<(), Box<Diagnostic>>)
    ensures
        match schema {
            SchemaField::Missing => r matches Err(d) && is_input_diagnostic(*d, DiagnosticCode::ConfigurationSchemaMissing,
                "the configuration document must declare schema"@),
            SchemaField::NotText => r matches Err(d) && is_input_diagnostic(*d, DiagnosticCode::ConfigurationValueInvalid,
                "configuration schema must be a string"@),
            SchemaField::Text(s) => if s@ != CONFIG_SCHEMA@ {
                r matches Err(d) && is_input_diagnostic(*d, DiagnosticCode::ConfigurationSchemaUnsupported,
                    "the configuration document declares an unsupported schema"@)
            } else if declares_safety {
                r matches Err(d) && is_input_diagnostic(*d, DiagnosticCode::ConfigurationLockedInvariant,
                    "locked safety invariants cannot be configured"@)
            } else {
                r is Ok
            },
        },
        r matches Err(d) ==> d.context.path matches Some(p) && p@ == path_of_bytes(path@),
{
    match schema {
        SchemaField::Missing => Err(path_diagnostic(
            DiagnosticCode::ConfigurationSchemaMissing,
            path,
            owned("the configuration document must declare schema"),
        )),
        SchemaField::NotText => Err(path_diagnostic(
            DiagnosticCode::ConfigurationValueInvalid,
            path,
            owned("configuration schema must be a string"),
        )),
        SchemaField::Text(s) => {
            if compare_strings(s.as_str(), CONFIG_SCHEMA) != 0 {
                Err(path_diagnostic(
                    DiagnosticCode::ConfigurationSchemaUnsupported,
                    path,
                    owned("the configuration document declares an unsupported schema"),
                ))
            } else if declares_safety {
                Err(path_diagnostic(
                    DiagnosticCode::ConfigurationLockedInvariant,
                    path,
                    owned("locked safety invariants cannot be configured"),
                ))
            } else {
                Ok(())
            }
        },
    }
}

/// The code of a failure to read a configuration file's metadata: a missing
/// file is "not found" only when it was selected explicitly.
pub fn metadata_failure_code(explicitly_selected: bool, not_found: bool) -> (c: DiagnosticCode)
    ensures
        c == if explicitly_selected && not_found {
            DiagnosticCode::ConfigurationNotFound
        } else {
            DiagnosticCode::ConfigurationUnreadable
        },
{
    if explicitly_selected && not_found {
        DiagnosticCode::ConfigurationNotFound
    } else {
        DiagnosticCode::ConfigurationUnreadable
    }
}

/// The number of line feeds in `s`.
pub open spec fn line_feeds(s: Seq<u8>) -> nat
    decreases s.len(),
{
    if s.len() == 0 {
        0
    } else {
        line_feeds(s.drop_last()) + if s.last() == 10u8 { 1nat } else { 0nat }
    }
}

/// The number of bytes after the last line feed of `s`.
pub open spec fn last_line_length(s: Seq<u8>) -> nat
    decreases s.len(),
{
    if s.len() == 0 {
        0
    } else if s.last() == 10u8 {
        0
    } else {
        last_line_length(s.drop_last()) + 1
    }
}

/// The line and column, counted from one, of the byte at `offset` (clamped
/// to the end of the text).
pub open spec fn position_of(text: Seq<u8>, offset: nat) -> (nat, nat) {
    let prefix = text.take(if offset < text.len() { offset as int } else { text.len() as int });
    (line_feeds(prefix) + 1, last_line_length(prefix) + 1)
}

/// The diagnostic of a configuration document the TOML decoder refused:
/// an unknown key when the decoder's message says so, a parse failure
/// otherwise; with the line and column of the refused span, when the
/// decoder gave one.
pub fn toml_failure_diagnostic(path: &[u8], text: &[u8], message: &str, span_start: Option<usize>) -> (d: Box<Diagnostic>)
    ensures
        is_input_diagnostic(*d, if has_infix_spec(message@, "unknown field"@) {
            DiagnosticCode::ConfigurationUnknownKey
        } else {
            DiagnosticCode::ConfigurationParseFailed
        }, "configuration TOML is invalid: "@ + message@),
        d.context.path matches Some(p) && p@ == path_of_bytes(path@),
        match span_start {
            Some(start) => {
                let (line, column) = position_of(text@, start as nat);
                d.context.line == Some(if line > u64::MAX { u64::MAX } else { line as u64 })
                    && d.context.column == Some(if column > u64::MAX { u64::MAX } else { column as u64 })
            },
            None => d.context.line is None && d.context.column is None,
        },
{
    let code = if has_infix(message, "unknown field") {
        DiagnosticCode::ConfigurationUnknownKey
    } else {
        DiagnosticCode::ConfigurationParseFailed
    };
    let mut t: Vec<char> = Vec::new();
    push_str(&mut t, "configuration TOML is invalid: ");
    push_str(&mut t, message);
    assert(t@ =~= "configuration TOML is invalid: "@ + message@);
    let mut d = Box::new(Diagnostic::new(
        code,
        DiagnosticSeverity::Error,
        DiagnosticClassification::Input,
        DiagnosticImpact::BlocksCommand,
        string_of(&t),
    ).with_path(path));
    if let Some(start) = span_start {
        let end = if start < text.len() { start } else { text.len() };
        let ghost prefix = text@.take(end as int);
        let mut feeds: u64 = 0;
        let mut tail: u64 = 0;
        let mut i: usize = 0;
        while i < end
            invariant
                end <= text.len(),
                prefix == text@.take(end as int),
                i <= end,
                feeds == line_feeds(text@.take(i as int)),
                tail == last_line_length(text@.take(i as int)),
                feeds <= i,
                tail <= i,
            decreases end - i,
        {
            assert(text@.take(i + 1).drop_last() =~= text@.take(i as int));
            if text[i] == 10u8 {
                feeds = feeds + 1;
                tail = 0;
            } else {
                tail = tail + 1;
            }
            i = i + 1;
        }
        assert(text@.take(end as int) =~= prefix);
        d.context.line = Some(feeds.saturating_add(1));
        d.context.column = Some(tail.saturating_add(1));
    }
    d
}

} // verus!
