//! Layering of configuration sources: compiled defaults, then configuration
//! files, then the environment, then the command line. Every replaced value
//! is kept, with its provenance, as a shadowed value.

use vstd::prelude::*;
use crate::cli::{Cli, Command, OutputFormat};
use crate::configuration::policy::{
    build_effective_policy, fingerprints_of, spec_locked_safety_invariants, ConfigurationSourceRecord,
    ConfigurationSourceStatus, EffectivePolicyV1, EvidencePolicy, ExactGroupingProfile, PolicyProvenance,
    PolicySourceKind, RuntimePolicy, SettingProvenance, StabilityRequirement, UnstableObservationPolicy, EFFECTIVE_POLICY_SCHEMA,
};
use crate::domain::ScanOptions;
use crate::hashing::DEFAULT_MAX_OBSERVATION_ATTEMPTS;
use crate::domain::{NativePath, PathText, path_of_bytes};
use crate::outcome::{
    Diagnostic, DiagnosticClassification, DiagnosticCode, DiagnosticImpact, DiagnosticSeverity,
    empty_context,
};
use crate::text::{chars_of, compare_chars, compare_strings, owned, string_of, utf8_string};
use crate::json::push_str;

verus! {

pub const CONFIG_SCHEMA: &'static str = "optiflow.config.v1";
pub const PROJECT_CONFIG_NAME: &'static str = "optiflow.toml";

/// A configuration document, after parsing.
#[derive(Debug, Clone)]
pub struct ConfigDocumentV1 {
    pub schema: String,
    pub output: Option<OutputConfigDocument>,
    pub state: Option<StateConfigDocument>,
    pub scan: Option<ScanConfigDocument>,
}

#[derive(Debug, Clone, Copy)]
pub struct OutputConfigDocument {
    pub format: Option<OutputFormat>,
}

#[derive(Debug, Clone)]
pub struct StateConfigDocument {
    pub directory: Option<String>,
}

#[derive(Debug, Clone, Copy)]
pub struct ScanConfigDocument {
    pub follow_symlinks: Option<bool>,
    pub include_hidden: Option<bool>,
    pub cross_filesystems: Option<bool>,
    pub probe_media: Option<bool>,
}

/// The environment variables that configuration reads, captured once.
#[derive(Debug, Clone)]
pub struct CapturedEnvironment {
    pub config: Option<Vec<u8>>,
    pub state_directory: Option<Vec<u8>>,
    pub output_format: Option<Vec<u8>>,
    pub follow_symlinks: Option<Vec<u8>>,
    pub include_hidden: Option<Vec<u8>>,
    pub cross_filesystems: Option<Vec<u8>>,
    pub probe_media: Option<Vec<u8>>,
    pub xdg_state_home: Option<Vec<u8>>,
}

/// A value replaced by a later source.
#[derive(Debug, Clone)]
pub enum SettingValue {
    Format(OutputFormat),
    Directory(Vec<u8>),
    Flag(bool),
}

#[derive(Debug, Clone)]
pub struct ShadowedValue {
    pub setting: String,
    pub value: SettingValue,
    pub provenance: PolicyProvenance,
}

#[derive(Debug, Clone)]
pub struct ResolvedValue<T> {
    pub value: T,
    pub provenance: PolicyProvenance,
}

/// The settings being resolved, each with the source that set it last.
#[derive(Debug, Clone)]
pub struct WorkingPolicy {
    pub output_format: ResolvedValue<OutputFormat>,
    pub state_directory: ResolvedValue<Vec<u8>>,
    pub follow_symlinks: ResolvedValue<bool>,
    pub include_hidden: ResolvedValue<bool>,
    pub cross_filesystems: ResolvedValue<bool>,
    pub probe_media: ResolvedValue<bool>,
    pub shadowed: Vec<ShadowedValue>,
}

/// The content of a provenance record.
pub struct ProvenanceView {
    pub source: PolicySourceKind,
    pub detail: Seq<char>,
    pub path: Option<PathText>,
}

impl View for PolicyProvenance {
    type V = ProvenanceView;

    open spec fn view(&self) -> ProvenanceView {
        ProvenanceView {
            source: self.source,
            detail: self.detail@,
            path: match self.path {
                Some(p) => Some(p@),
                None => None,
            },
        }
    }
}

pub enum SettingView {
    Format(OutputFormat),
    Directory(Seq<u8>),
    Flag(bool),
}

pub struct ShadowView {
    pub setting: Seq<char>,
    pub value: SettingView,
    pub provenance: ProvenanceView,
}

impl View for ShadowedValue {
    type V = ShadowView;

    open spec fn view(&self) -> ShadowView {
        ShadowView {
            setting: self.setting@,
            value: match self.value {
                SettingValue::Format(f) => SettingView::Format(f),
                SettingValue::Directory(d) => SettingView::Directory(d@),
                SettingValue::Flag(b) => SettingView::Flag(b),
            },
            provenance: self.provenance@,
        }
    }
}

/// The four evidence switches.
pub enum Switch {
    FollowSymlinks,
    IncludeHidden,
    CrossFilesystems,
    ProbeMedia,
}

/// The content of a working policy.
pub struct WorkingView {
    pub output_format: (OutputFormat, ProvenanceView),
    pub state_directory: (Seq<u8>, ProvenanceView),
    pub follow_symlinks: (bool, ProvenanceView),
    pub include_hidden: (bool, ProvenanceView),
    pub cross_filesystems: (bool, ProvenanceView),
    pub probe_media: (bool, ProvenanceView),
    pub shadowed: Seq<ShadowView>,
}

impl View for WorkingPolicy {
    type V = WorkingView;

    open spec fn view(&self) -> WorkingView {
        WorkingView {
            output_format: (self.output_format.value, self.output_format.provenance@),
            state_directory: (self.state_directory.value@, self.state_directory.provenance@),
            follow_symlinks: (self.follow_symlinks.value, self.follow_symlinks.provenance@),
            include_hidden: (self.include_hidden.value, self.include_hidden.provenance@),
            cross_filesystems: (self.cross_filesystems.value, self.cross_filesystems.provenance@),
            probe_media: (self.probe_media.value, self.probe_media.provenance@),
            shadowed: self.shadowed@.map_values(|s: ShadowedValue| s@),
        }
    }
}

pub open spec fn switch_setting(s: Switch) -> Seq<char> {
    match s {
        Switch::FollowSymlinks => "evidence_policy.follow_symlinks"@,
        Switch::IncludeHidden => "evidence_policy.include_hidden"@,
        Switch::CrossFilesystems => "evidence_policy.cross_filesystems"@,
        Switch::ProbeMedia => "evidence_policy.probe_media"@,
    }
}

pub open spec fn get_switch(w: WorkingView, s: Switch) -> (bool, ProvenanceView) {
    match s {
        Switch::FollowSymlinks => w.follow_symlinks,
        Switch::IncludeHidden => w.include_hidden,
        Switch::CrossFilesystems => w.cross_filesystems,
        Switch::ProbeMedia => w.probe_media,
    }
}

/// Replaces a switch, keeping the replaced value as shadowed.
pub open spec fn set_switch(w: WorkingView, s: Switch, v: bool, p: ProvenanceView) -> WorkingView {
    let shadowed = w.shadowed.push(ShadowView {
        setting: switch_setting(s),
        value: SettingView::Flag(get_switch(w, s).0),
        provenance: get_switch(w, s).1,
    });
    match s {
        Switch::FollowSymlinks => WorkingView { follow_symlinks: (v, p), shadowed, ..w },
        Switch::IncludeHidden => WorkingView { include_hidden: (v, p), shadowed, ..w },
        Switch::CrossFilesystems => WorkingView { cross_filesystems: (v, p), shadowed, ..w },
        Switch::ProbeMedia => WorkingView { probe_media: (v, p), shadowed, ..w },
    }
}

/// Replaces the output format, keeping the replaced value as shadowed.
pub open spec fn set_format(w: WorkingView, v: OutputFormat, p: ProvenanceView) -> WorkingView {
    WorkingView {
        output_format: (v, p),
        shadowed: w.shadowed.push(ShadowView {
            setting: "presentation_policy.output_format"@,
            value: SettingView::Format(w.output_format.0),
            provenance: w.output_format.1,
        }),
        ..w
    }
}

/// Replaces the state directory, keeping the replaced value as shadowed.
pub open spec fn set_directory(w: WorkingView, v: Seq<u8>, p: ProvenanceView) -> WorkingView {
    WorkingView {
        state_directory: (v, p),
        shadowed: w.shadowed.push(ShadowView {
            setting: "operational_policy.state_directory"@,
            value: SettingView::Directory(w.state_directory.0),
            provenance: w.state_directory.1,
        }),
        ..w
    }
}

/// Sets a switch when a source gives it a value.
pub open spec fn maybe_switch(w: WorkingView, s: Switch, v: Option<bool>, p: ProvenanceView) -> WorkingView {
    match v {
        Some(b) => set_switch(w, s, b, p),
        None => w,
    }
}

/// `base` joined with `path`: an absolute path stands alone; otherwise a
/// separator is added between a non-empty base and the path when the base
/// does not already end with one. Nothing is expanded.
pub open spec fn spec_join(path: Seq<u8>, base: Seq<u8>) -> Seq<u8> {
    if path.len() > 0 && path[0] == 47u8 {
        path
    } else if base.len() == 0 || base.last() == 47u8 {
        base + path
    } else {
        base + seq![47u8] + path
    }
}

/// Resolves a path against a base directory without expanding anything:
/// absolute paths are kept, relative paths are joined to the base.
pub fn resolve_relative(path: &[u8], base: &[u8]) -> (r: Vec<u8>)
    ensures
        r@ == spec_join(path@, base@),
{
    if path.len() > 0 && path[0] == 47u8 {
        return vstd::slice::slice_to_vec(path);
    }
    let mut out = vstd::slice::slice_to_vec(base);
    if base.len() > 0 && base[base.len() - 1] != 47u8 {
        out.push(47u8);
    }
    let n = path.len();
    let mut i: usize = 0;
    let ghost start = out@;
    while i < n
        invariant
            n == path@.len(),
            i <= n,
            out@ == start + path@.take(i as int),
        decreases n - i,
    {
        proof {
            assert(path@.take(i + 1) =~= path@.take(i as int).push(path@[i as int]));
        }
        out.push(path[i]);
        i = i + 1;
    }
    assert(path@.take(n as int) =~= path@);
    proof {
        if base.len() > 0 && base@.last() != 47u8 {
            assert(start =~= base@ + seq![47u8]);
        } else {
            assert(start =~= base@);
        }
    }
    out
}

pub open spec fn provenance_is(p: ProvenanceView, source: PolicySourceKind, detail: Seq<char>, path: Option<PathText>) -> bool {
    p.source == source && p.detail == detail && p.path == path
}

/// A copy of a provenance record.
pub fn copy_provenance(p: &PolicyProvenance) -> (r: PolicyProvenance)
    ensures
        r@ == p@,
{
    PolicyProvenance {
        source: p.source,
        detail: p.detail.clone(),
        path: match &p.path {
            Some(path) => Some(path.copy()),
            None => None,
        },
    }
}

fn provenance(source: PolicySourceKind, detail: &str, path: Option<NativePath>) -> (p: PolicyProvenance)
    ensures
        p.source == source,
        p.detail@ == detail@,
        p.path == path,
{
    PolicyProvenance { source, detail: owned(detail), path }
}

/// The provenance of a value read from an environment variable.
pub fn environment_provenance(name: &str) -> (p: PolicyProvenance)
    ensures
        provenance_is(p@, PolicySourceKind::Environment, name@, None),
{
    provenance(PolicySourceKind::Environment, name, None)
}

fn replace_format(working: &mut WorkingPolicy, value: OutputFormat, provenance: PolicyProvenance)
    ensures
        final(working)@ == set_format(old(working)@, value, provenance@),
{
    let previous = ShadowedValue {
        setting: owned("presentation_policy.output_format"),
        value: SettingValue::Format(working.output_format.value),
        provenance: copy_provenance(&working.output_format.provenance),
    };
    let ghost w = working@;
    working.shadowed.push(previous);
    working.output_format = ResolvedValue { value, provenance };
    assert(working@.shadowed =~= set_format(w, value, provenance@).shadowed);
}

fn replace_directory(working: &mut WorkingPolicy, value: Vec<u8>, provenance: PolicyProvenance)
    ensures
        final(working)@ == set_directory(old(working)@, value@, provenance@),
{
    let previous = ShadowedValue {
        setting: owned("operational_policy.state_directory"),
        value: SettingValue::Directory(working.state_directory.value.clone()),
        provenance: copy_provenance(&working.state_directory.provenance),
    };
    let ghost w = working@;
    working.shadowed.push(previous);
    working.state_directory = ResolvedValue { value, provenance };
    assert(working@.shadowed =~= set_directory(w, value@, provenance@).shadowed);
}

fn replace_switch(working: &mut WorkingPolicy, switch: Switch, value: bool, provenance: PolicyProvenance)
    ensures
        final(working)@ == set_switch(old(working)@, switch, value, provenance@),
{
    let ghost w = working@;
    let (setting, old_value, old_provenance) = match switch {
        Switch::FollowSymlinks => ("evidence_policy.follow_symlinks", working.follow_symlinks.value, copy_provenance(&working.follow_symlinks.provenance)),
        Switch::IncludeHidden => ("evidence_policy.include_hidden", working.include_hidden.value, copy_provenance(&working.include_hidden.provenance)),
        Switch::CrossFilesystems => ("evidence_policy.cross_filesystems", working.cross_filesystems.value, copy_provenance(&working.cross_filesystems.provenance)),
        Switch::ProbeMedia => ("evidence_policy.probe_media", working.probe_media.value, copy_provenance(&working.probe_media.provenance)),
    };
    working.shadowed.push(ShadowedValue {
        setting: owned(setting),
        value: SettingValue::Flag(old_value),
        provenance: old_provenance,
    });
    let resolved = ResolvedValue { value, provenance };
    match switch {
        Switch::FollowSymlinks => working.follow_symlinks = resolved,
        Switch::IncludeHidden => working.include_hidden = resolved,
        Switch::CrossFilesystems => working.cross_filesystems = resolved,
        Switch::ProbeMedia => working.probe_media = resolved,
    }
    assert(working@.shadowed =~= set_switch(w, switch, value, provenance@).shadowed);
}


/// The error diagnostic of invalid input.
pub open spec fn is_input_diagnostic(d: Diagnostic, code: DiagnosticCode, message: Seq<char>) -> bool {
    &&& d.code == code
    &&& d.severity == DiagnosticSeverity::Error
    &&& d.classification == DiagnosticClassification::Input
    &&& d.impact == DiagnosticImpact::BlocksCommand
    &&& d.message@ == message
    &&& d.retryable is None
}

/// The diagnostic of an invalid environment variable.
pub open spec fn is_environment_diagnostic(d: Diagnostic, name: Seq<char>, message: Seq<char>) -> bool {
    &&& is_input_diagnostic(d, DiagnosticCode::ConfigurationEnvironmentInvalid, name + " is invalid: "@ + message)
    &&& d.context == crate::outcome::DiagnosticContext {
        environment_variable: d.context.environment_variable,
        ..empty_context()
    }
    &&& d.context.environment_variable matches Some(v) && v@ == name
}

/// An invalid-input diagnostic.
pub fn diagnostic(code: DiagnosticCode, message: String) -> (d: Box<Diagnostic>)
    ensures
        is_input_diagnostic(*d, code, message@),
        d.context == empty_context(),
{
    Box::new(Diagnostic::new(
        code,
        DiagnosticSeverity::Error,
        DiagnosticClassification::Input,
        DiagnosticImpact::BlocksCommand,
        message,
    ))
}

/// A fatal internal diagnostic.
pub fn internal_diagnostic(code: DiagnosticCode, message: String) -> (d: Box<Diagnostic>)
    ensures
        d.code == code,
        d.severity == DiagnosticSeverity::Fatal,
        d.classification == DiagnosticClassification::Internal,
        d.impact == DiagnosticImpact::BlocksCommand,
        d.message == message,
        d.context == empty_context(),
        d.retryable is None,
{
    Box::new(Diagnostic::new(
        code,
        DiagnosticSeverity::Fatal,
        DiagnosticClassification::Internal,
        DiagnosticImpact::BlocksCommand,
        message,
    ))
}

/// An invalid-input diagnostic about one path.
pub fn path_diagnostic(code: DiagnosticCode, path: &[u8], message: String) -> (d: Box<Diagnostic>)
    ensures
        is_input_diagnostic(*d, code, message@),
        d.context.path matches Some(p) && p@ == path_of_bytes(path@),
{
    Box::new(Diagnostic::new(
        code,
        DiagnosticSeverity::Error,
        DiagnosticClassification::Input,
        DiagnosticImpact::BlocksCommand,
        message,
    ).with_path(path))
}

/// An invalid-input diagnostic about one setting.
pub fn setting_diagnostic(code: DiagnosticCode, setting: &str, message: String) -> (d: Box<Diagnostic>)
    ensures
        is_input_diagnostic(*d, code, message@),
        d.context.setting matches Some(v) && v@ == setting@,
{
    let mut d = diagnostic(code, message);
    d.context.setting = Some(owned(setting));
    d
}

/// The diagnostic of an invalid environment variable.
pub fn environment_diagnostic(name: &str, message: &str) -> (d: Box<Diagnostic>)
    ensures
        is_environment_diagnostic(*d, name@, message@),
{
    let mut text: Vec<char> = Vec::new();
    push_str(&mut text, name);
    push_str(&mut text, " is invalid: ");
    push_str(&mut text, message);
    assert(text@ =~= name@ + " is invalid: "@ + message@);
    let mut d = diagnostic(DiagnosticCode::ConfigurationEnvironmentInvalid, string_of(&text));
    d.context.environment_variable = Some(owned(name));
    d
}

/// The text of an environment value, when it is Unicode.
pub open spec fn spec_unicode(value: Seq<u8>) -> Option<Seq<char>> {
    if vstd::utf8::valid_utf8(value) { Some(vstd::utf8::decode_utf8(value)) } else { None }
}

/// A strict boolean environment value: exactly `true` or `false`.
pub open spec fn spec_parse_boolean(value: Seq<u8>) -> Result<bool, Seq<char>> {
    match spec_unicode(value) {
        None => Err("value must be Unicode"@),
        Some(t) => if t == "true"@ {
            Ok(true)
        } else if t == "false"@ {
            Ok(false)
        } else {
            Err("expected true or false"@)
        },
    }
}

/// The text of an environment value; non-Unicode values are refused.
pub fn parse_unicode_environment(name: &str, value: &[u8]) -> (r: Result<String, Box<Diagnostic>>)
    ensures
        match r {
            Ok(t) => spec_unicode(value@) == Some(t@),
            Err(d) => spec_unicode(value@) is None && is_environment_diagnostic(*d, name@, "value must be Unicode"@),
        },
{
    match utf8_string(value) {
        Some(text) => Ok(text),
        None => Err(environment_diagnostic(name, "value must be Unicode")),
    }
}

/// Parses a strict boolean environment value.
pub fn parse_boolean_environment(name: &str, value: &[u8]) -> (r: Result<bool, Box<Diagnostic>>)
    ensures
        match (r, spec_parse_boolean(value@)) {
            (Ok(b), Ok(c)) => b == c,
            (Err(d), Err(m)) => is_environment_diagnostic(*d, name@, m),
            _ => false,
        },
{
    let text = parse_unicode_environment(name, value)?;
    if compare_strings(text.as_str(), "true") == 0 {
        Ok(true)
    } else if compare_strings(text.as_str(), "false") == 0 {
        Ok(false)
    } else {
        Err(environment_diagnostic(name, "expected true or false"))
    }
}

/// The settings a configuration document gives.
pub struct DocumentView {
    pub schema: Seq<char>,
    pub format: Option<OutputFormat>,
    pub directory: Option<Seq<char>>,
    pub follow_symlinks: Option<bool>,
    pub include_hidden: Option<bool>,
    pub cross_filesystems: Option<bool>,
    pub probe_media: Option<bool>,
}

impl View for ConfigDocumentV1 {
    type V = DocumentView;

    open spec fn view(&self) -> DocumentView {
        DocumentView {
            schema: self.schema@,
            format: match self.output { Some(o) => o.format, None => None },
            directory: match self.state {
                Some(st) => match st.directory { Some(d) => Some(d@), None => None },
                None => None,
            },
            follow_symlinks: match self.scan { Some(sc) => sc.follow_symlinks, None => None },
            include_hidden: match self.scan { Some(sc) => sc.include_hidden, None => None },
            cross_filesystems: match self.scan { Some(sc) => sc.cross_filesystems, None => None },
            probe_media: match self.scan { Some(sc) => sc.probe_media, None => None },
        }
    }
}

pub open spec fn file_provenance(source: PolicySourceKind, detail: Seq<char>, path: PathText) -> ProvenanceView {
    ProvenanceView { source, detail, path: Some(path) }
}

/// The output-format step of a document.
pub open spec fn document_format_step(w: WorkingView, d: DocumentView, source: PolicySourceKind, path: PathText) -> WorkingView {
    match d.format {
        Some(f) => set_format(w, f, file_provenance(source, "output.format"@, path)),
        None => w,
    }
}

/// The switch steps of a document, in order.
pub open spec fn document_switch_steps(w: WorkingView, d: DocumentView, source: PolicySourceKind, path: PathText) -> WorkingView {
    let w1 = maybe_switch(w, Switch::FollowSymlinks, d.follow_symlinks,
        file_provenance(source, switch_setting(Switch::FollowSymlinks), path));
    let w2 = maybe_switch(w1, Switch::IncludeHidden, d.include_hidden,
        file_provenance(source, switch_setting(Switch::IncludeHidden), path));
    let w3 = maybe_switch(w2, Switch::CrossFilesystems, d.cross_filesystems,
        file_provenance(source, switch_setting(Switch::CrossFilesystems), path));
    maybe_switch(w3, Switch::ProbeMedia, d.probe_media,
        file_provenance(source, switch_setting(Switch::ProbeMedia), path))
}

/// Applies one configuration document. `base` is the directory holding the
/// document; a relative state directory is resolved against it. An empty
/// state directory is refused, after the output format was applied.
pub open spec fn spec_apply_document(
    w: WorkingView,
    d: DocumentView,
    source: PolicySourceKind,
    path: PathText,
    base: Seq<u8>,
) -> (WorkingView, bool) {
    let w1 = document_format_step(w, d, source, path);
    match d.directory {
        Some(dir) => if dir.len() == 0 {
            (w1, false)
        } else {
            let w2 = set_directory(w1, spec_join(vstd::utf8::encode_utf8(dir), base),
                file_provenance(source, "state.directory"@, path));
            (document_switch_steps(w2, d, source, path), true)
        },
        None => (document_switch_steps(w1, d, source, path), true),
    }
}

fn apply_switch(working: &mut WorkingPolicy, switch: Switch, value: Option<bool>, provenance: PolicyProvenance)
    ensures
        final(working)@ == maybe_switch(old(working)@, switch, value, provenance@),
{
    match value {
        Some(v) => replace_switch(working, switch, v, provenance),
        None => {},
    }
}

fn file_provenance_for(source: PolicySourceKind, detail: &str, path: &NativePath) -> (p: PolicyProvenance)
    ensures
        p@ == file_provenance(source, detail@, path@),
{
    provenance(source, detail, Some(path.copy()))
}

/// Applies one configuration document to the working policy.
pub fn apply_document(
    document: &ConfigDocumentV1,
    source: PolicySourceKind,
    path: &NativePath,
    base: &[u8],
    working: &mut WorkingPolicy,
) -> (r: Result<(), Box<Diagnostic>>)
    ensures
        final(working)@ == spec_apply_document(old(working)@, document@, source, path@, base@).0,
        r is Ok <==> spec_apply_document(old(working)@, document@, source, path@, base@).1,
        r matches Err(d) ==> is_input_diagnostic(*d, DiagnosticCode::ConfigurationValueInvalid, "state.directory cannot be empty"@)
            && (d.context.setting matches Some(v) && v@ == "state.directory"@),
{
    let format = match &document.output {
        Some(output) => output.format,
        None => None,
    };
    match format {
        Some(f) => replace_format(working, f, file_provenance_for(source, "output.format", path)),
        None => {},
    }
    let directory = match &document.state {
        Some(state) => match &state.directory {
            Some(d) => Some(d),
            None => None,
        },
        None => None,
    };
    match directory {
        Some(d) => {
            if d.as_str().as_bytes().len() == 0 {
                proof {
                    assert(d@.len() == 0) by {
                        if d@.len() > 0 {
                            vstd::utf8::encode_utf8_first_scalar(d@);
                        }
                    }
                }
                return Err(setting_diagnostic(
                    DiagnosticCode::ConfigurationValueInvalid,
                    "state.directory",
                    owned("state.directory cannot be empty"),
                ));
            }
            proof {
                assert(d@.len() > 0);
            }
            let resolved = resolve_relative(d.as_str().as_bytes(), base);
            replace_directory(working, resolved, file_provenance_for(source, "state.directory", path));
        },
        None => {},
    }
    let (follow, hidden, cross, probe) = match &document.scan {
        Some(scan) => (scan.follow_symlinks, scan.include_hidden, scan.cross_filesystems, scan.probe_media),
        None => (None, None, None, None),
    };
    apply_switch(working, Switch::FollowSymlinks, follow, file_provenance_for(source, "evidence_policy.follow_symlinks", path));
    apply_switch(working, Switch::IncludeHidden, hidden, file_provenance_for(source, "evidence_policy.include_hidden", path));
    apply_switch(working, Switch::CrossFilesystems, cross, file_provenance_for(source, "evidence_policy.cross_filesystems", path));
    apply_switch(working, Switch::ProbeMedia, probe, file_provenance_for(source, "evidence_policy.probe_media", path));
    Ok(())
}


/// The environment variables, as raw values.
pub struct EnvironmentView {
    pub config: Option<Seq<u8>>,
    pub state_directory: Option<Seq<u8>>,
    pub output_format: Option<Seq<u8>>,
    pub follow_symlinks: Option<Seq<u8>>,
    pub include_hidden: Option<Seq<u8>>,
    pub cross_filesystems: Option<Seq<u8>>,
    pub probe_media: Option<Seq<u8>>,
    pub xdg_state_home: Option<Seq<u8>>,
}

impl View for CapturedEnvironment {
    type V = EnvironmentView;

    open spec fn view(&self) -> EnvironmentView {
        EnvironmentView {
            config: match self.config { Some(v) => Some(v@), None => None },
            state_directory: match self.state_directory { Some(v) => Some(v@), None => None },
            output_format: match self.output_format { Some(v) => Some(v@), None => None },
            follow_symlinks: match self.follow_symlinks { Some(v) => Some(v@), None => None },
            include_hidden: match self.include_hidden { Some(v) => Some(v@), None => None },
            cross_filesystems: match self.cross_filesystems { Some(v) => Some(v@), None => None },
            probe_media: match self.probe_media { Some(v) => Some(v@), None => None },
            xdg_state_home: match self.xdg_state_home { Some(v) => Some(v@), None => None },
        }
    }
}

pub open spec fn env_provenance(name: Seq<char>) -> ProvenanceView {
    ProvenanceView { source: PolicySourceKind::Environment, detail: name, path: None }
}

/// An environment step's outcome: the working policy so far, and the
/// variable and message of the first invalid value, if any.
pub type EnvStep = (WorkingView, Option<(Seq<char>, Seq<char>)>);

pub open spec fn env_switch_step(
    prev: EnvStep,
    s: Switch,
    name: Seq<char>,
    value: Option<Seq<u8>>,
) -> EnvStep {
    if prev.1 is Some {
        prev
    } else {
        match value {
            None => prev,
            Some(v) => match spec_parse_boolean(v) {
                Ok(b) => (set_switch(prev.0, s, b, env_provenance(name)), None),
                Err(m) => (prev.0, Some((name, m))),
            },
        }
    }
}

/// Applies the recognized environment variables in order; the first
/// invalid value stops the layering.
pub open spec fn spec_apply_environment(w: WorkingView, e: EnvironmentView, cwd: Seq<u8>) -> EnvStep {
    let fmt_name = "OPTIFLOW_OUTPUT_FORMAT"@;
    let s0: EnvStep = match e.output_format {
        None => (w, None),
        Some(v) => match spec_unicode(v) {
            None => (w, Some((fmt_name, "value must be Unicode"@))),
            Some(t) => if t == "human"@ {
                (set_format(w, OutputFormat::Human, env_provenance(fmt_name)), None)
            } else if t == "json"@ {
                (set_format(w, OutputFormat::Json, env_provenance(fmt_name)), None)
            } else {
                (w, Some((fmt_name, "expected human or json"@)))
            },
        },
    };
    let dir_name = "OPTIFLOW_STATE_DIRECTORY"@;
    let s1: EnvStep = if s0.1 is Some {
        s0
    } else {
        match e.state_directory {
            None => s0,
            Some(v) => if v.len() == 0 {
                (s0.0, Some((dir_name, "path cannot be empty"@)))
            } else {
                (set_directory(s0.0, spec_join(v, cwd), env_provenance(dir_name)), None)
            },
        }
    };
    let s2 = env_switch_step(s1, Switch::FollowSymlinks, "OPTIFLOW_FOLLOW_SYMLINKS"@, e.follow_symlinks);
    let s3 = env_switch_step(s2, Switch::IncludeHidden, "OPTIFLOW_INCLUDE_HIDDEN"@, e.include_hidden);
    let s4 = env_switch_step(s3, Switch::CrossFilesystems, "OPTIFLOW_CROSS_FILESYSTEMS"@, e.cross_filesystems);
    env_switch_step(s4, Switch::ProbeMedia, "OPTIFLOW_PROBE_MEDIA"@, e.probe_media)
}

/// A recognized boolean environment variable with a value: when the
/// environment layer succeeds, the value was `true` or `false` and the
/// setting it names holds that value with the variable as its provenance;
/// when the value is neither, the layer fails.
pub open spec fn env_switch_applied(r: EnvStep, value: Option<Seq<u8>>, setting: (bool, ProvenanceView), name: Seq<char>) -> bool {
    match value {
        None => true,
        Some(v) => match spec_parse_boolean(v) {
            Ok(b) => r.1 is None ==> setting == (b, env_provenance(name)),
            Err(_) => r.1 is Some,
        },
    }
}

/// Each recognized environment variable that is set decides its setting:
/// a boolean variable's value `true` or `false`, the output format `human`
/// or `json`, or a non-empty state directory joined to the working
/// directory becomes the setting, with the variable as provenance,
/// whenever the environment layer succeeds; any other value makes the
/// layer fail.
pub proof fn lemma_environment_switches_decide(w: WorkingView, e: EnvironmentView, cwd: Seq<u8>)
    ensures
        ({
            let r = spec_apply_environment(w, e, cwd);
            &&& env_switch_applied(r, e.follow_symlinks, r.0.follow_symlinks, "OPTIFLOW_FOLLOW_SYMLINKS"@)
            &&& env_switch_applied(r, e.include_hidden, r.0.include_hidden, "OPTIFLOW_INCLUDE_HIDDEN"@)
            &&& env_switch_applied(r, e.cross_filesystems, r.0.cross_filesystems, "OPTIFLOW_CROSS_FILESYSTEMS"@)
            &&& env_switch_applied(r, e.probe_media, r.0.probe_media, "OPTIFLOW_PROBE_MEDIA"@)
            &&& r.1 is None && e.output_format is Some ==> {
                let t = spec_unicode(e.output_format.unwrap());
                ||| t == Some("human"@) && r.0.output_format == (OutputFormat::Human, env_provenance("OPTIFLOW_OUTPUT_FORMAT"@))
                ||| t == Some("json"@) && r.0.output_format == (OutputFormat::Json, env_provenance("OPTIFLOW_OUTPUT_FORMAT"@))
            }
            &&& e.output_format is Some && spec_unicode(e.output_format.unwrap()) != Some("human"@)
                && spec_unicode(e.output_format.unwrap()) != Some("json"@) ==> r.1 is Some
            &&& r.1 is None && e.state_directory is Some ==> e.state_directory.unwrap().len() > 0
                && r.0.state_directory == (spec_join(e.state_directory.unwrap(), cwd), env_provenance("OPTIFLOW_STATE_DIRECTORY"@))
            &&& e.state_directory == Some(Seq::<u8>::empty()) ==> r.1 is Some
        }),
{
    let r = spec_apply_environment(w, e, cwd);
    let fmt_name = "OPTIFLOW_OUTPUT_FORMAT"@;
    let s0: EnvStep = match e.output_format {
        None => (w, None),
        Some(v) => match spec_unicode(v) {
            None => (w, Some((fmt_name, "value must be Unicode"@))),
            Some(t) => if t == "human"@ {
                (set_format(w, OutputFormat::Human, env_provenance(fmt_name)), None)
            } else if t == "json"@ {
                (set_format(w, OutputFormat::Json, env_provenance(fmt_name)), None)
            } else {
                (w, Some((fmt_name, "expected human or json"@)))
            },
        },
    };
    let dir_name = "OPTIFLOW_STATE_DIRECTORY"@;
    let s1: EnvStep = if s0.1 is Some {
        s0
    } else {
        match e.state_directory {
            None => s0,
            Some(v) => if v.len() == 0 {
                (s0.0, Some((dir_name, "path cannot be empty"@)))
            } else {
                (set_directory(s0.0, spec_join(v, cwd), env_provenance(dir_name)), None)
            },
        }
    };
    let s2 = env_switch_step(s1, Switch::FollowSymlinks, "OPTIFLOW_FOLLOW_SYMLINKS"@, e.follow_symlinks);
    let s3 = env_switch_step(s2, Switch::IncludeHidden, "OPTIFLOW_INCLUDE_HIDDEN"@, e.include_hidden);
    let s4 = env_switch_step(s3, Switch::CrossFilesystems, "OPTIFLOW_CROSS_FILESYSTEMS"@, e.cross_filesystems);
    let s5 = env_switch_step(s4, Switch::ProbeMedia, "OPTIFLOW_PROBE_MEDIA"@, e.probe_media);
    assert(r == s5);
    assert(s2.1 is Some ==> s3.1 is Some);
    assert(s3.1 is Some ==> s4.1 is Some);
    assert(s4.1 is Some ==> s5.1 is Some);
    assert(s5.1 is None ==> s2.0.follow_symlinks == s5.0.follow_symlinks);
    assert(s5.1 is None ==> s3.0.include_hidden == s5.0.include_hidden);
    assert(s5.1 is None ==> s4.0.cross_filesystems == s5.0.cross_filesystems);
    assert(s5.1 is None ==> s1.0.output_format == s5.0.output_format && s1.0.state_directory == s5.0.state_directory);
    assert(s5.1 is None ==> s0.0.output_format == s1.0.output_format);
    assert(s0.1 is Some ==> s1.1 is Some);
    assert(s1.1 is Some ==> s2.1 is Some);
}

fn apply_environment_switch(
    working: &mut WorkingPolicy,
    switch: Switch,
    name: &str,
    value: &Option<Vec<u8>>,
) -> (r: Result<(), Box<Diagnostic>>)
    ensures
        ({
            let prev: EnvStep = (old(working)@, None);
            let next = env_switch_step(prev, switch, name@, match *value { Some(v) => Some(v@), None => None });
            &&& final(working)@ == next.0
            &&& match (r, next.1) {
                (Ok(()), None) => true,
                (Err(d), Some((n, m))) => is_environment_diagnostic(*d, n, m),
                _ => false,
            }
        }),
{
    match value {
        Some(v) => {
            let b = parse_boolean_environment(name, v.as_slice())?;
            replace_switch(working, switch, b, environment_provenance(name));
            Ok(())
        },
        None => Ok(()),
    }
}

/// Applies the recognized environment variables to the working policy.
pub fn apply_environment(
    environment: &CapturedEnvironment,
    cwd: &[u8],
    working: &mut WorkingPolicy,
) -> (r: Result<(), Box<Diagnostic>>)
    ensures
        final(working)@ == spec_apply_environment(old(working)@, environment@, cwd@).0,
        match (r, spec_apply_environment(old(working)@, environment@, cwd@).1) {
            (Ok(()), None) => true,
            (Err(d), Some((n, m))) => is_environment_diagnostic(*d, n, m),
            _ => false,
        },
{
    match &environment.output_format {
        Some(v) => {
            let text = parse_unicode_environment("OPTIFLOW_OUTPUT_FORMAT", v.as_slice())?;
            let format = if compare_strings(text.as_str(), "human") == 0 {
                OutputFormat::Human
            } else if compare_strings(text.as_str(), "json") == 0 {
                OutputFormat::Json
            } else {
                return Err(environment_diagnostic("OPTIFLOW_OUTPUT_FORMAT", "expected human or json"));
            };
            replace_format(working, format, environment_provenance("OPTIFLOW_OUTPUT_FORMAT"));
        },
        None => {},
    }
    match &environment.state_directory {
        Some(v) => {
            if v.len() == 0 {
                return Err(environment_diagnostic("OPTIFLOW_STATE_DIRECTORY", "path cannot be empty"));
            }
            let resolved = resolve_relative(v.as_slice(), cwd);
            replace_directory(working, resolved, environment_provenance("OPTIFLOW_STATE_DIRECTORY"));
        },
        None => {},
    }
    apply_environment_switch(working, Switch::FollowSymlinks, "OPTIFLOW_FOLLOW_SYMLINKS", &environment.follow_symlinks)?;
    apply_environment_switch(working, Switch::IncludeHidden, "OPTIFLOW_INCLUDE_HIDDEN", &environment.include_hidden)?;
    apply_environment_switch(working, Switch::CrossFilesystems, "OPTIFLOW_CROSS_FILESYSTEMS", &environment.cross_filesystems)?;
    apply_environment_switch(working, Switch::ProbeMedia, "OPTIFLOW_PROBE_MEDIA", &environment.probe_media)?;
    Ok(())
}

pub open spec fn cli_provenance(argument: Seq<char>) -> ProvenanceView {
    ProvenanceView { source: PolicySourceKind::CommandLine, detail: argument, path: None }
}

/// Applies the explicit command-line options: they override every other
/// source.
pub open spec fn spec_apply_command_line(w: WorkingView, cli: Cli, cwd: Seq<u8>) -> WorkingView {
    let w1 = if cli.json {
        set_format(w, OutputFormat::Json, cli_provenance("--json"@))
    } else {
        match cli.output_format {
            Some(f) => set_format(w, f, cli_provenance("--output-format"@)),
            None => w,
        }
    };
    let w2 = match cli.state_directory {
        Some(d) => set_directory(w1, spec_join(d@, cwd), cli_provenance("--state-directory"@)),
        None => w1,
    };
    match cli.command {
        Command::Scan(scan) => {
            let w3 = maybe_switch(w2, Switch::FollowSymlinks,
                crate::cli::flag_override(scan.follow_symlinks, scan.no_follow_symlinks),
                cli_provenance(if scan.follow_symlinks { "--follow-symlinks"@ } else { "--no-follow-symlinks"@ }));
            let w4 = maybe_switch(w3, Switch::IncludeHidden,
                crate::cli::flag_override(scan.include_hidden, scan.exclude_hidden),
                cli_provenance(if scan.include_hidden { "--include-hidden"@ } else { "--exclude-hidden"@ }));
            let w5 = maybe_switch(w4, Switch::CrossFilesystems,
                crate::cli::flag_override(scan.cross_filesystems, scan.stay_on_filesystem),
                cli_provenance(if scan.cross_filesystems { "--cross-filesystems"@ } else { "--stay-on-filesystem"@ }));
            maybe_switch(w5, Switch::ProbeMedia,
                if scan.no_probe { Some(false) } else if scan.probe { Some(true) } else { None },
                cli_provenance(if scan.no_probe { "--no-probe"@ } else { "--probe"@ }))
        },
        _ => w2,
    }
}

fn cli_provenance_for(argument: &str) -> (p: PolicyProvenance)
    ensures
        p@ == cli_provenance(argument@),
{
    provenance(PolicySourceKind::CommandLine, argument, None)
}

/// Applies the command-line options to the working policy.
pub fn apply_command_line(cli: &Cli, cwd: &[u8], working: &mut WorkingPolicy)
    ensures
        final(working)@ == spec_apply_command_line(old(working)@, *cli, cwd@),
{
    if cli.json {
        replace_format(working, OutputFormat::Json, cli_provenance_for("--json"));
    } else {
        match cli.output_format {
            Some(f) => replace_format(working, f, cli_provenance_for("--output-format")),
            None => {},
        }
    }
    match &cli.state_directory {
        Some(d) => {
            let resolved = resolve_relative(d.as_slice(), cwd);
            replace_directory(working, resolved, cli_provenance_for("--state-directory"));
        },
        None => {},
    }
    match &cli.command {
        Command::Scan(scan) => {
            apply_switch(working, Switch::FollowSymlinks, scan.follow_symlinks_override(),
                cli_provenance_for(if scan.follow_symlinks { "--follow-symlinks" } else { "--no-follow-symlinks" }));
            apply_switch(working, Switch::IncludeHidden, scan.include_hidden_override(),
                cli_provenance_for(if scan.include_hidden { "--include-hidden" } else { "--exclude-hidden" }));
            apply_switch(working, Switch::CrossFilesystems, scan.cross_filesystems_override(),
                cli_provenance_for(if scan.cross_filesystems { "--cross-filesystems" } else { "--stay-on-filesystem" }));
            apply_switch(working, Switch::ProbeMedia, scan.probe_media_override(),
                cli_provenance_for(if scan.no_probe { "--no-probe" } else { "--probe" }));
        },
        _ => {},
    }
}

/// The command line overrides every earlier source: an output format given
/// on the command line is the resolved one, whatever the files and the
/// environment said, and so is a state directory or an explicit scan switch.
pub proof fn lemma_command_line_wins(w: WorkingView, cli: Cli, cwd: Seq<u8>)
    ensures
        cli.json ==> spec_apply_command_line(w, cli, cwd).output_format.0 == OutputFormat::Json,
        !cli.json && cli.output_format is Some ==>
            spec_apply_command_line(w, cli, cwd).output_format.0 == cli.output_format->0,
        cli.state_directory matches Some(d) ==>
            spec_apply_command_line(w, cli, cwd).state_directory.0 == spec_join(d@, cwd),
        cli.command matches Command::Scan(scan) ==> ((scan.no_probe || scan.probe) ==>
            spec_apply_command_line(w, cli, cwd).probe_media.0 == !scan.no_probe),
        cli.command matches Command::Scan(scan) ==> ((scan.include_hidden || scan.exclude_hidden) ==>
            spec_apply_command_line(w, cli, cwd).include_hidden.0 == scan.include_hidden),
        cli.command matches Command::Scan(scan) ==> ((scan.follow_symlinks || scan.no_follow_symlinks) ==>
            spec_apply_command_line(w, cli, cwd).follow_symlinks.0 == scan.follow_symlinks),
        cli.command matches Command::Scan(scan) ==> ((scan.cross_filesystems || scan.stay_on_filesystem) ==>
            spec_apply_command_line(w, cli, cwd).cross_filesystems.0 == scan.cross_filesystems),
{
}

/// Without command-line options, a valid environment value overrides the
/// configuration files: the environment's output format is the resolved one.
pub proof fn lemma_environment_overrides_files(w: WorkingView, e: EnvironmentView, cwd: Seq<u8>)
    requires
        e.output_format matches Some(v) && spec_unicode(v) == Some("json"@),
        spec_apply_environment(w, e, cwd).1 is None,
    ensures
        spec_apply_environment(w, e, cwd).0.output_format.0 == OutputFormat::Json,
{
    assert("json"@ != "human"@) by {
        reveal_strlit("json");
        reveal_strlit("human");
        assert("json"@.len() == 4);
        assert("human"@.len() == 5);
    }
}


/// The canonical name of a setting, accepting the configuration-file
/// spelling of the configurable ones.
pub open spec fn spec_canonical_setting(requested: Seq<char>) -> Option<Seq<char>> {
    if requested == "output.format"@ {
        Some("presentation_policy.output_format"@)
    }     else if requested == "presentation_policy.output_format"@ {
        Some("presentation_policy.output_format"@)
    }     else if requested == "state.directory"@ {
        Some("operational_policy.state_directory"@)
    }     else if requested == "operational_policy.state_directory"@ {
        Some("operational_policy.state_directory"@)
    }     else if requested == "scan.follow_symlinks"@ {
        Some("evidence_policy.follow_symlinks"@)
    }     else if requested == "evidence_policy.follow_symlinks"@ {
        Some("evidence_policy.follow_symlinks"@)
    }     else if requested == "scan.include_hidden"@ {
        Some("evidence_policy.include_hidden"@)
    }     else if requested == "evidence_policy.include_hidden"@ {
        Some("evidence_policy.include_hidden"@)
    }     else if requested == "scan.cross_filesystems"@ {
        Some("evidence_policy.cross_filesystems"@)
    }     else if requested == "evidence_policy.cross_filesystems"@ {
        Some("evidence_policy.cross_filesystems"@)
    }     else if requested == "scan.probe_media"@ {
        Some("evidence_policy.probe_media"@)
    }     else if requested == "evidence_policy.probe_media"@ {
        Some("evidence_policy.probe_media"@)
    }     else if requested == "evidence_policy.exact_grouping_profile"@ {
        Some("evidence_policy.exact_grouping_profile"@)
    }     else if requested == "evidence_policy.observation_stability"@ {
        Some("evidence_policy.observation_stability"@)
    }     else if requested == "evidence_policy.unstable_observations"@ {
        Some("evidence_policy.unstable_observations"@)
    }     else if requested == "evidence_policy.maximum_observation_attempts"@ {
        Some("evidence_policy.maximum_observation_attempts"@)
    }     else if requested == "safety_invariants.source_mutation"@ {
        Some("safety_invariants.source_mutation"@)
    }     else if requested == "safety_invariants.apply_enabled"@ {
        Some("safety_invariants.apply_enabled"@)
    }     else if requested == "safety_invariants.shell_execution"@ {
        Some("safety_invariants.shell_execution"@)
    }     else if requested == "safety_invariants.artifact_validation_required"@ {
        Some("safety_invariants.artifact_validation_required"@)
    }     else if requested == "safety_invariants.atomic_artifact_commit_required"@ {
        Some("safety_invariants.atomic_artifact_commit_required"@)
    }     else if requested == "safety_invariants.current_stability_required_for_exact_groups"@ {
        Some("safety_invariants.current_stability_required_for_exact_groups"@)
    } else {
        None
    }
}

/// Maps a requested setting name to its canonical name.
pub fn canonical_setting(requested: &str) -> (r: Option<&'static str>)
    ensures
        match r {
            Some(c) => spec_canonical_setting(requested@) == Some(c@),
            None => spec_canonical_setting(requested@) is None,
        },
{
    if compare_strings(requested, "output.format") == 0 {
        return Some("presentation_policy.output_format");
    }
    if compare_strings(requested, "presentation_policy.output_format") == 0 {
        return Some("presentation_policy.output_format");
    }
    if compare_strings(requested, "state.directory") == 0 {
        return Some("operational_policy.state_directory");
    }
    if compare_strings(requested, "operational_policy.state_directory") == 0 {
        return Some("operational_policy.state_directory");
    }
    if compare_strings(requested, "scan.follow_symlinks") == 0 {
        return Some("evidence_policy.follow_symlinks");
    }
    if compare_strings(requested, "evidence_policy.follow_symlinks") == 0 {
        return Some("evidence_policy.follow_symlinks");
    }
    if compare_strings(requested, "scan.include_hidden") == 0 {
        return Some("evidence_policy.include_hidden");
    }
    if compare_strings(requested, "evidence_policy.include_hidden") == 0 {
        return Some("evidence_policy.include_hidden");
    }
    if compare_strings(requested, "scan.cross_filesystems") == 0 {
        return Some("evidence_policy.cross_filesystems");
    }
    if compare_strings(requested, "evidence_policy.cross_filesystems") == 0 {
        return Some("evidence_policy.cross_filesystems");
    }
    if compare_strings(requested, "scan.probe_media") == 0 {
        return Some("evidence_policy.probe_media");
    }
    if compare_strings(requested, "evidence_policy.probe_media") == 0 {
        return Some("evidence_policy.probe_media");
    }
    if compare_strings(requested, "evidence_policy.exact_grouping_profile") == 0 {
        return Some("evidence_policy.exact_grouping_profile");
    }
    if compare_strings(requested, "evidence_policy.observation_stability") == 0 {
        return Some("evidence_policy.observation_stability");
    }
    if compare_strings(requested, "evidence_policy.unstable_observations") == 0 {
        return Some("evidence_policy.unstable_observations");
    }
    if compare_strings(requested, "evidence_policy.maximum_observation_attempts") == 0 {
        return Some("evidence_policy.maximum_observation_attempts");
    }
    if compare_strings(requested, "safety_invariants.source_mutation") == 0 {
        return Some("safety_invariants.source_mutation");
    }
    if compare_strings(requested, "safety_invariants.apply_enabled") == 0 {
        return Some("safety_invariants.apply_enabled");
    }
    if compare_strings(requested, "safety_invariants.shell_execution") == 0 {
        return Some("safety_invariants.shell_execution");
    }
    if compare_strings(requested, "safety_invariants.artifact_validation_required") == 0 {
        return Some("safety_invariants.artifact_validation_required");
    }
    if compare_strings(requested, "safety_invariants.atomic_artifact_commit_required") == 0 {
        return Some("safety_invariants.atomic_artifact_commit_required");
    }
    if compare_strings(requested, "safety_invariants.current_stability_required_for_exact_groups") == 0 {
        return Some("safety_invariants.current_stability_required_for_exact_groups");
    }
    None
}

/// What `config explain` says about a canonical setting: category, whether
/// it affects evidence, whether it is locked, its constraints, and its
/// environment variable and command-line options.
pub struct SettingMetadata {
    pub category: &'static str,
    pub affects_evidence: bool,
    pub locked: bool,
    pub constraints: &'static str,
    pub environment_variable: Option<&'static str>,
    pub cli_argument: Option<&'static str>,
}

pub open spec fn starts_with(s: Seq<char>, prefix: Seq<char>) -> bool {
    prefix.len() <= s.len() && s.take(prefix.len() as int) == prefix
}

pub open spec fn metadata_is(
    m: SettingMetadata,
    category: Seq<char>,
    affects: bool,
    locked: bool,
    constraints: Seq<char>,
    env: Option<Seq<char>>,
    arg: Option<Seq<char>>,
) -> bool {
    &&& m.category@ == category
    &&& m.affects_evidence == affects
    &&& m.locked == locked
    &&& m.constraints@ == constraints
    &&& match (m.environment_variable, env) {
        (Some(a), Some(b)) => a@ == b,
        (None, None) => true,
        _ => false,
    }
    &&& match (m.cli_argument, arg) {
        (Some(a), Some(b)) => a@ == b,
        (None, None) => true,
        _ => false,
    }
}

/// What `config explain` says about a setting, as text.
pub struct SettingDescription {
    pub category: Seq<char>,
    pub affects_evidence: bool,
    pub locked: bool,
    pub constraints: Seq<char>,
    pub environment_variable: Option<Seq<char>>,
    pub cli_argument: Option<Seq<char>>,
}

pub open spec fn describe(
    category: Seq<char>,
    affects: bool,
    locked: bool,
    constraints: Seq<char>,
    env: Option<Seq<char>>,
    arg: Option<Seq<char>>,
) -> SettingDescription {
    SettingDescription {
        category,
        affects_evidence: affects,
        locked,
        constraints,
        environment_variable: env,
        cli_argument: arg,
    }
}

/// The description of each canonical setting.
pub open spec fn setting_description(setting: Seq<char>) -> SettingDescription {
    if setting == "presentation_policy.output_format"@ {
        describe("presentation"@, false, false, "human or json"@, Some("OPTIFLOW_OUTPUT_FORMAT"@), Some("--output-format / --json"@))
    } else if setting == "operational_policy.state_directory"@ {
        describe("operational"@, false, false, "non-empty native path"@, Some("OPTIFLOW_STATE_DIRECTORY"@), Some("--state-directory"@))
    } else if setting == "evidence_policy.follow_symlinks"@ {
        describe("evidence"@, true, false, "boolean"@, Some("OPTIFLOW_FOLLOW_SYMLINKS"@), Some("--follow-symlinks / --no-follow-symlinks"@))
    } else if setting == "evidence_policy.include_hidden"@ {
        describe("evidence"@, true, false, "boolean"@, Some("OPTIFLOW_INCLUDE_HIDDEN"@), Some("--include-hidden / --exclude-hidden"@))
    } else if setting == "evidence_policy.cross_filesystems"@ {
        describe("evidence"@, true, false, "boolean"@, Some("OPTIFLOW_CROSS_FILESYSTEMS"@), Some("--cross-filesystems / --stay-on-filesystem"@))
    } else if setting == "evidence_policy.probe_media"@ {
        describe("evidence"@, true, false, "boolean"@, Some("OPTIFLOW_PROBE_MEDIA"@), Some("--probe / --no-probe"@))
    } else if starts_with(setting, "safety_invariants."@) {
        describe("locked_safety"@, true, true, "not configurable"@, None, None)
    } else {
        describe("evidence"@, true, true, "not configurable"@, None, None)
    }
}

pub open spec fn spec_setting_metadata(setting: Seq<char>, m: SettingMetadata) -> bool {
    let d = setting_description(setting);
    metadata_is(m, d.category, d.affects_evidence, d.locked, d.constraints, d.environment_variable, d.cli_argument)
}

fn has_prefix(s: &str, prefix: &str) -> (r: bool)
    ensures
        r == starts_with(s@, prefix@),
{
    let x = chars_of(s);
    let p = chars_of(prefix);
    if p.len() > x.len() {
        return false;
    }
    let mut i: usize = 0;
    while i < p.len()
        invariant
            x@ == s@,
            p@ == prefix@,
            p@.len() <= x@.len(),
            i <= p@.len(),
            forall|k: int| 0 <= k < i ==> x@[k] == p@[k],
        decreases p@.len() - i,
    {
        if x[i] != p[i] {
            assert(s@.take(prefix@.len() as int)[i as int] != prefix@[i as int]);
            return false;
        }
        i = i + 1;
    }
    assert(s@.take(prefix@.len() as int) =~= prefix@);
    true
}

/// Describes a canonical setting.
pub fn setting_metadata(setting: &str) -> (m: SettingMetadata)
    ensures
        spec_setting_metadata(setting@, m),
{
    if compare_strings(setting, "presentation_policy.output_format") == 0 {
        SettingMetadata { category: "presentation", affects_evidence: false, locked: false, constraints: "human or json",
            environment_variable: Some("OPTIFLOW_OUTPUT_FORMAT"), cli_argument: Some("--output-format / --json") }
    } else if compare_strings(setting, "operational_policy.state_directory") == 0 {
        SettingMetadata { category: "operational", affects_evidence: false, locked: false, constraints: "non-empty native path",
            environment_variable: Some("OPTIFLOW_STATE_DIRECTORY"), cli_argument: Some("--state-directory") }
    } else if compare_strings(setting, "evidence_policy.follow_symlinks") == 0 {
        SettingMetadata { category: "evidence", affects_evidence: true, locked: false, constraints: "boolean",
            environment_variable: Some("OPTIFLOW_FOLLOW_SYMLINKS"), cli_argument: Some("--follow-symlinks / --no-follow-symlinks") }
    } else if compare_strings(setting, "evidence_policy.include_hidden") == 0 {
        SettingMetadata { category: "evidence", affects_evidence: true, locked: false, constraints: "boolean",
            environment_variable: Some("OPTIFLOW_INCLUDE_HIDDEN"), cli_argument: Some("--include-hidden / --exclude-hidden") }
    } else if compare_strings(setting, "evidence_policy.cross_filesystems") == 0 {
        SettingMetadata { category: "evidence", affects_evidence: true, locked: false, constraints: "boolean",
            environment_variable: Some("OPTIFLOW_CROSS_FILESYSTEMS"), cli_argument: Some("--cross-filesystems / --stay-on-filesystem") }
    } else if compare_strings(setting, "evidence_policy.probe_media") == 0 {
        SettingMetadata { category: "evidence", affects_evidence: true, locked: false, constraints: "boolean",
            environment_variable: Some("OPTIFLOW_PROBE_MEDIA"), cli_argument: Some("--probe / --no-probe") }
    } else if has_prefix(setting, "safety_invariants.") {
        SettingMetadata { category: "locked_safety", affects_evidence: true, locked: true, constraints: "not configurable",
            environment_variable: None, cli_argument: None }
    } else {
        SettingMetadata { category: "evidence", affects_evidence: true, locked: true, constraints: "not configurable",
            environment_variable: None, cli_argument: None }
    }
}

/// A record of one configuration source and its status.
pub fn source_record(
    source: PolicySourceKind,
    status: ConfigurationSourceStatus,
    path: Option<&[u8]>,
) -> (r: ConfigurationSourceRecord)
    ensures
        r.source == source,
        r.status == status,
        match (r.path, path) {
            (Some(p), Some(b)) => p@ == path_of_bytes(b@),
            (None, None) => true,
            _ => false,
        },
{
    ConfigurationSourceRecord {
        source,
        status,
        path: match path {
            Some(b) => Some(NativePath::from_path(b)),
            None => None,
        },
    }
}


/// One configuration file to layer, already read and parsed. `base` is the
/// directory that holds it.
#[derive(Debug, Clone)]
pub struct LoadedDocument {
    pub source: PolicySourceKind,
    pub path: NativePath,
    pub base: Vec<u8>,
    pub document: ConfigDocumentV1,
}

pub open spec fn default_provenance(detail: Seq<char>) -> ProvenanceView {
    ProvenanceView { source: PolicySourceKind::CompiledDefault, detail, path: None }
}

/// The compiled defaults: human output, the platform state directory, no
/// link following, hidden paths excluded, filesystem boundaries kept, and
/// optional media probing enabled.
pub open spec fn spec_defaults(state_directory: Seq<u8>) -> WorkingView {
    WorkingView {
        output_format: (OutputFormat::Human, default_provenance("compiled output default"@)),
        state_directory: (state_directory, default_provenance("platform state-directory default"@)),
        follow_symlinks: (false, default_provenance("conservative traversal default"@)),
        include_hidden: (false, default_provenance("hidden paths excluded by default"@)),
        cross_filesystems: (false, default_provenance("filesystem boundaries preserved by default"@)),
        probe_media: (true, default_provenance("optional media probing enabled by default"@)),
        shadowed: seq![],
    }
}

/// The working policy of the compiled defaults.
pub fn default_working_policy(state_directory: Vec<u8>) -> (w: WorkingPolicy)
    ensures
        w@ == spec_defaults(state_directory@),
{
    let w = WorkingPolicy {
        output_format: ResolvedValue { value: OutputFormat::Human, provenance: provenance(PolicySourceKind::CompiledDefault, "compiled output default", None) },
        state_directory: ResolvedValue { value: state_directory, provenance: provenance(PolicySourceKind::CompiledDefault, "platform state-directory default", None) },
        follow_symlinks: ResolvedValue { value: false, provenance: provenance(PolicySourceKind::CompiledDefault, "conservative traversal default", None) },
        include_hidden: ResolvedValue { value: false, provenance: provenance(PolicySourceKind::CompiledDefault, "hidden paths excluded by default", None) },
        cross_filesystems: ResolvedValue { value: false, provenance: provenance(PolicySourceKind::CompiledDefault, "filesystem boundaries preserved by default", None) },
        probe_media: ResolvedValue { value: true, provenance: provenance(PolicySourceKind::CompiledDefault, "optional media probing enabled by default", None) },
        shadowed: Vec::new(),
    };
    assert(w@.shadowed =~= Seq::<ShadowView>::empty());
    w
}

pub struct LoadedView {
    pub source: PolicySourceKind,
    pub path: PathText,
    pub base: Seq<u8>,
    pub document: DocumentView,
}

impl View for LoadedDocument {
    type V = LoadedView;

    open spec fn view(&self) -> LoadedView {
        LoadedView { source: self.source, path: self.path@, base: self.base@, document: self.document@ }
    }
}

/// Applies configuration documents in order; the first refused document
/// stops the layering.
pub open spec fn spec_apply_documents(w: WorkingView, docs: Seq<LoadedView>) -> (WorkingView, bool)
    decreases docs.len(),
{
    if docs.len() == 0 {
        (w, true)
    } else {
        let prev = spec_apply_documents(w, docs.drop_last());
        if !prev.1 {
            prev
        } else {
            let d = docs.last();
            spec_apply_document(prev.0, d.document, d.source, d.path, d.base)
        }
    }
}

/// The whole layering: defaults, then the documents, then the environment,
/// then the command line. `None` when a source was refused.
pub open spec fn spec_layers(
    cli: Cli,
    e: EnvironmentView,
    cwd: Seq<u8>,
    default_state_directory: Seq<u8>,
    docs: Seq<LoadedView>,
) -> Option<WorkingView> {
    if cli.no_config && cli.config is Some {
        None
    } else {
        let after_files = spec_apply_documents(spec_defaults(default_state_directory), docs);
        if !after_files.1 {
            None
        } else {
            let after_env = spec_apply_environment(after_files.0, e, cwd);
            if after_env.1 is Some {
                None
            } else {
                Some(spec_apply_command_line(after_env.0, cli, cwd))
            }
        }
    }
}

/// Whether a resolved setting comes from the environment variable `name`
/// set to `value`: the value reads as the boolean the setting holds, and
/// the variable is its provenance.
pub open spec fn from_environment(setting: (bool, ProvenanceView), value: Seq<u8>, name: Seq<char>) -> bool {
    spec_parse_boolean(value) matches Ok(b) && setting == (b, env_provenance(name))
}

/// Environment variables override configuration files and defaults, and
/// only the command line overrides them: when the layering succeeds and a
/// recognized boolean variable is set while the command line names no
/// switch for the same setting, the setting holds the variable's value
/// with the variable as provenance; a value other than `true` or `false`
/// refuses the layering.
pub proof fn lemma_environment_layer_reaches_policy(
    cli: Cli,
    e: EnvironmentView,
    cwd: Seq<u8>,
    default_state_directory: Seq<u8>,
    docs: Seq<LoadedView>,
)
    ensures
        ({
            let r = spec_layers(cli, e, cwd, default_state_directory, docs);
            let (follow_cli, hidden_cli, cross_cli, probe_cli) = match cli.command {
                Command::Scan(scan) => (
                    scan.follow_symlinks || scan.no_follow_symlinks,
                    scan.include_hidden || scan.exclude_hidden,
                    scan.cross_filesystems || scan.stay_on_filesystem,
                    scan.probe || scan.no_probe,
                ),
                _ => (false, false, false, false),
            };
            &&& r is Some && e.probe_media is Some && !probe_cli
                ==> from_environment(r.unwrap().probe_media, e.probe_media.unwrap(), "OPTIFLOW_PROBE_MEDIA"@)
            &&& r is Some && e.follow_symlinks is Some && !follow_cli
                ==> from_environment(r.unwrap().follow_symlinks, e.follow_symlinks.unwrap(), "OPTIFLOW_FOLLOW_SYMLINKS"@)
            &&& r is Some && e.include_hidden is Some && !hidden_cli
                ==> from_environment(r.unwrap().include_hidden, e.include_hidden.unwrap(), "OPTIFLOW_INCLUDE_HIDDEN"@)
            &&& r is Some && e.cross_filesystems is Some && !cross_cli
                ==> from_environment(r.unwrap().cross_filesystems, e.cross_filesystems.unwrap(), "OPTIFLOW_CROSS_FILESYSTEMS"@)
            &&& e.probe_media is Some && spec_parse_boolean(e.probe_media.unwrap()) is Err ==> r is None
            &&& e.follow_symlinks is Some && spec_parse_boolean(e.follow_symlinks.unwrap()) is Err ==> r is None
            &&& e.include_hidden is Some && spec_parse_boolean(e.include_hidden.unwrap()) is Err ==> r is None
            &&& e.cross_filesystems is Some && spec_parse_boolean(e.cross_filesystems.unwrap()) is Err ==> r is None
        }),
{
    if !(cli.no_config && cli.config is Some) {
        let after_files = spec_apply_documents(spec_defaults(default_state_directory), docs);
        if after_files.1 {
            lemma_environment_switches_decide(after_files.0, e, cwd);
            let after_env = spec_apply_environment(after_files.0, e, cwd);
            if after_env.1 is None {
                let w = after_env.0;
                let w1 = if cli.json {
                    set_format(w, OutputFormat::Json, cli_provenance("--json"@))
                } else {
                    match cli.output_format {
                        Some(f) => set_format(w, f, cli_provenance("--output-format"@)),
                        None => w,
                    }
                };
                let w2 = match cli.state_directory {
                    Some(d) => set_directory(w1, spec_join(d@, cwd), cli_provenance("--state-directory"@)),
                    None => w1,
                };
                assert(w2.probe_media == w.probe_media && w2.follow_symlinks == w.follow_symlinks);
                assert(w2.include_hidden == w.include_hidden && w2.cross_filesystems == w.cross_filesystems);
            }
        }
    }
}

/// The command line overrides every other source: when the layering
/// succeeds, each switch given on the command line decides its setting,
/// with the switch as provenance (`--no-probe` winning over `--probe`), and
/// `--json` decides the output format.
pub proof fn lemma_command_line_overrides(
    cli: Cli,
    e: EnvironmentView,
    cwd: Seq<u8>,
    default_state_directory: Seq<u8>,
    docs: Seq<LoadedView>,
)
    ensures
        ({
            let r = spec_layers(cli, e, cwd, default_state_directory, docs);
            &&& r is Some && cli.json ==> r.unwrap().output_format == (OutputFormat::Json, cli_provenance("--json"@))
            &&& r is Some ==> match cli.command {
                Command::Scan(scan) => {
                    let w = r.unwrap();
                    &&& scan.no_probe ==> w.probe_media == (false, cli_provenance("--no-probe"@))
                    &&& scan.probe && !scan.no_probe ==> w.probe_media == (true, cli_provenance("--probe"@))
                    &&& scan.follow_symlinks ==> w.follow_symlinks == (true, cli_provenance("--follow-symlinks"@))
                    &&& !scan.follow_symlinks && scan.no_follow_symlinks
                        ==> w.follow_symlinks == (false, cli_provenance("--no-follow-symlinks"@))
                    &&& scan.include_hidden ==> w.include_hidden == (true, cli_provenance("--include-hidden"@))
                    &&& !scan.include_hidden && scan.exclude_hidden
                        ==> w.include_hidden == (false, cli_provenance("--exclude-hidden"@))
                    &&& scan.cross_filesystems ==> w.cross_filesystems == (true, cli_provenance("--cross-filesystems"@))
                    &&& !scan.cross_filesystems && scan.stay_on_filesystem
                        ==> w.cross_filesystems == (false, cli_provenance("--stay-on-filesystem"@))
                },
                _ => true,
            }
        }),
{
}

/// The diagnostic a refused layering carries: the selector conflict, else
/// the first refused document's, else the first invalid environment
/// variable's.
pub open spec fn layers_refusal(
    d: Diagnostic,
    cli: Cli,
    e: EnvironmentView,
    cwd: Seq<u8>,
    default_state_directory: Seq<u8>,
    docs: Seq<LoadedView>,
) -> bool {
    if cli.no_config && cli.config is Some {
        is_input_diagnostic(d, DiagnosticCode::ConfigurationSelectorConflict, "--config and --no-config cannot be used together"@)
    } else {
        let after_files = spec_apply_documents(spec_defaults(default_state_directory), docs);
        if !after_files.1 {
            is_input_diagnostic(d, DiagnosticCode::ConfigurationValueInvalid, "state.directory cannot be empty"@)
                && (d.context.setting matches Some(v) && v@ == "state.directory"@)
        } else {
            match spec_apply_environment(after_files.0, e, cwd).1 {
                Some((n, m)) => is_environment_diagnostic(d, n, m),
                None => false,
            }
        }
    }
}

/// Resolves the working policy from every source, lowest precedence first.
pub fn layer_sources(
    cli: &Cli,
    environment: &CapturedEnvironment,
    cwd: &[u8],
    default_state_directory: Vec<u8>,
    documents: &Vec<LoadedDocument>,
) -> (r: Result<WorkingPolicy, Box<Diagnostic>>)
    ensures
        match r {
            Ok(w) => spec_layers(*cli, environment@, cwd@, default_state_directory@, documents@.map_values(|d: LoadedDocument| d@)) == Some(w@),
            Err(d) => spec_layers(*cli, environment@, cwd@, default_state_directory@, documents@.map_values(|d: LoadedDocument| d@)) is None
                && layers_refusal(*d, *cli, environment@, cwd@, default_state_directory@, documents@.map_values(|d: LoadedDocument| d@)),
        },
{
    let ghost docs = documents@.map_values(|d: LoadedDocument| d@);
    if cli.no_config && cli.config.is_some() {
        let message = owned("--config and --no-config cannot be used together");
        proof {
            reveal_strlit("--config and --no-config cannot be used together");
        }
        return Err(diagnostic(DiagnosticCode::ConfigurationSelectorConflict, message));
    }
    let mut working = default_working_policy(default_state_directory);
    let n = documents.len();
    let mut i: usize = 0;
    while i < n
        invariant
            n == documents@.len(),
            docs == documents@.map_values(|d: LoadedDocument| d@),
            !(cli.no_config && cli.config is Some),
            i <= n,
            spec_apply_documents(spec_defaults(default_state_directory@), docs.take(i as int)) == (working@, true),
        decreases n - i,
    {
        let loaded = &documents[i];
        proof {
            assert(docs.take(i + 1).drop_last() =~= docs.take(i as int));
            assert(docs.take(i + 1).last() == loaded@);
        }
        let applied = apply_document(&loaded.document, loaded.source, &loaded.path, loaded.base.as_slice(), &mut working);
        match applied {
            Err(d) => {
                proof {
                    assert(!spec_apply_documents(spec_defaults(default_state_directory@), docs.take(i + 1)).1);
                    lemma_documents_refused(spec_defaults(default_state_directory@), docs, i + 1);
                    assert(docs.take(n as int) =~= docs);
                }
                return Err(d);
            },
            Ok(()) => {},
        }
        i = i + 1;
    }
    assert(docs.take(n as int) =~= docs);
    match apply_environment(environment, cwd, &mut working) {
        Err(d) => {
            return Err(d);
        },
        Ok(()) => {},
    }
    apply_command_line(cli, cwd, &mut working);
    Ok(working)
}

proof fn lemma_documents_refused(w: WorkingView, docs: Seq<LoadedView>, k: int)
    requires
        0 <= k <= docs.len(),
        !spec_apply_documents(w, docs.take(k)).1,
    ensures
        !spec_apply_documents(w, docs).1,
    decreases docs.len() - k,
{
    if k < docs.len() {
        assert(docs.take(k + 1).drop_last() =~= docs.take(k));
        lemma_documents_refused(w, docs, k + 1);
    } else {
        assert(docs.take(k) =~= docs);
    }
}

/// A document that does not set the output format leaves it unchanged.
pub proof fn lemma_document_keeps_unset_format(
    w: WorkingView,
    d: DocumentView,
    source: PolicySourceKind,
    path: PathText,
    base: Seq<u8>,
)
    requires
        d.format is None,
    ensures
        spec_apply_document(w, d, source, path, base).0.output_format == w.output_format,
{
}

/// With neither the environment nor the command line naming an output
/// format, the resolved format is the one the configuration files left.
#[verifier::rlimit(30)]
pub proof fn lemma_files_decide_unset_format(
    cli: Cli,
    e: EnvironmentView,
    cwd: Seq<u8>,
    default_state_directory: Seq<u8>,
    docs: Seq<LoadedView>,
)
    requires
        !cli.json,
        cli.output_format is None,
        e.output_format is None,
        spec_layers(cli, e, cwd, default_state_directory, docs) is Some,
    ensures
        spec_layers(cli, e, cwd, default_state_directory, docs)->0.output_format
            == spec_apply_documents(spec_defaults(default_state_directory), docs).0.output_format,
{
    let after_files = spec_apply_documents(spec_defaults(default_state_directory), docs);
    let s0: EnvStep = (after_files.0, None);
    let s1 = if s0.1 is Some { s0 } else {
        match e.state_directory {
            None => s0,
            Some(v) => if v.len() == 0 { (s0.0, Some(("OPTIFLOW_STATE_DIRECTORY"@, "path cannot be empty"@))) } else {
                (set_directory(s0.0, spec_join(v, cwd), env_provenance("OPTIFLOW_STATE_DIRECTORY"@)), None)
            },
        }
    };
    assert(s1.0.output_format == after_files.0.output_format);
}

/// The outcome of configuration resolution: the effective policy, the
/// sources consulted, every shadowed value, and what the commands need.
#[derive(Debug)]
pub struct ConfigurationResolution {
    pub policy: EffectivePolicyV1,
    pub sources: Vec<ConfigurationSourceRecord>,
    pub shadowed_values: Vec<ShadowedValue>,
    pub runtime: RuntimePolicy,
}

/// The settings the safety contract locks.
pub open spec fn locked_settings() -> Seq<Seq<char>> {
    seq![
        "evidence_policy.exact_grouping_profile"@,
        "evidence_policy.observation_stability"@,
        "evidence_policy.unstable_observations"@,
        "evidence_policy.maximum_observation_attempts"@,
        "safety_invariants.source_mutation"@,
        "safety_invariants.apply_enabled"@,
        "safety_invariants.shell_execution"@,
        "safety_invariants.artifact_validation_required"@,
        "safety_invariants.atomic_artifact_commit_required"@,
        "safety_invariants.current_stability_required_for_exact_groups"@,
    ]
}

/// The evidence policy a working policy resolves to.
pub open spec fn resolved_evidence(w: WorkingView) -> EvidencePolicy {
    EvidencePolicy {
        follow_symlinks: w.follow_symlinks.0,
        include_hidden: w.include_hidden.0,
        cross_filesystems: w.cross_filesystems.0,
        probe_media: w.probe_media.0,
        exact_grouping_profile: ExactGroupingProfile::SizeAndBlake3_256,
        observation_stability: StabilityRequirement::Required,
        unstable_observations: UnstableObservationPolicy::Exclude,
        maximum_observation_attempts: DEFAULT_MAX_OBSERVATION_ATTEMPTS,
    }
}

/// The provenance recorded for each setting: where the working policy
/// got each resolvable value, and the safety contract for the locked ones.
pub open spec fn expected_provenance(w: WorkingView, setting: Seq<char>) -> Option<ProvenanceView> {
    if setting == "presentation_policy.output_format"@ {
        Some(w.output_format.1)
    } else if setting == "operational_policy.state_directory"@ {
        Some(w.state_directory.1)
    } else if setting == "evidence_policy.follow_symlinks"@ {
        Some(w.follow_symlinks.1)
    } else if setting == "evidence_policy.include_hidden"@ {
        Some(w.include_hidden.1)
    } else if setting == "evidence_policy.cross_filesystems"@ {
        Some(w.cross_filesystems.1)
    } else if setting == "evidence_policy.probe_media"@ {
        Some(w.probe_media.1)
    } else if locked_settings().contains(setting) {
        Some(ProvenanceView {
            source: PolicySourceKind::LockedInvariant,
            detail: "locked by the OptiFlow safety contract"@,
            path: None,
        })
    } else {
        None
    }
}

/// Every setting that has a provenance, ordered by name.
pub open spec fn provenance_settings() -> Seq<Seq<char>> {
    seq![
        "evidence_policy.cross_filesystems"@,
        "evidence_policy.exact_grouping_profile"@,
        "evidence_policy.follow_symlinks"@,
        "evidence_policy.include_hidden"@,
        "evidence_policy.maximum_observation_attempts"@,
        "evidence_policy.observation_stability"@,
        "evidence_policy.probe_media"@,
        "evidence_policy.unstable_observations"@,
        "operational_policy.state_directory"@,
        "presentation_policy.output_format"@,
        "safety_invariants.apply_enabled"@,
        "safety_invariants.artifact_validation_required"@,
        "safety_invariants.atomic_artifact_commit_required"@,
        "safety_invariants.current_stability_required_for_exact_groups"@,
        "safety_invariants.shell_execution"@,
        "safety_invariants.source_mutation"@,
    ]
}

/// Whether `v` lists every setting of `provenance_settings`, in that
/// order, each with the provenance that `w` gives it.
pub open spec fn provenance_listed(w: WorkingView, v: Seq<SettingProvenance>) -> bool {
    &&& v.len() == provenance_settings().len()
    &&& forall|i: int| 0 <= i < v.len() ==> {
        &&& (#[trigger] v[i]).setting@ == provenance_settings()[i]
        &&& expected_provenance(w, provenance_settings()[i]) == Some(v[i].provenance@)
    }
}

/// Whether entry `i` of `v` is the first one for `setting`.
pub open spec fn first_entry_for(v: Seq<SettingProvenance>, setting: Seq<char>, i: int) -> bool {
    &&& 0 <= i < v.len()
    &&& v[i].setting@ == setting
    &&& forall|j: int| 0 <= j < i ==> (#[trigger] v[j]).setting@ != setting
}

/// A listed provenance names, for every setting that has one, the source
/// whose value won: the first entry for the setting carries exactly the
/// provenance the layering gave it.
pub proof fn lemma_listed_provenance_names_source(w: WorkingView, v: Seq<SettingProvenance>, setting: Seq<char>)
    requires
        provenance_listed(w, v),
        expected_provenance(w, setting) is Some,
    ensures
        exists|i: int| first_entry_for(v, setting, i) && Some(v[i].provenance@) == expected_provenance(w, setting),
{
    let names = provenance_settings();
    assert(names.contains(setting)) by {
        if setting == "presentation_policy.output_format"@ {
            assert(names[9] == setting);
        } else if setting == "operational_policy.state_directory"@ {
            assert(names[8] == setting);
        } else if setting == "evidence_policy.follow_symlinks"@ {
            assert(names[2] == setting);
        } else if setting == "evidence_policy.include_hidden"@ {
            assert(names[3] == setting);
        } else if setting == "evidence_policy.cross_filesystems"@ {
            assert(names[0] == setting);
        } else if setting == "evidence_policy.probe_media"@ {
            assert(names[6] == setting);
        } else {
            let locked = locked_settings();
            assert(locked.contains(setting));
            let k = choose|k: int| 0 <= k < locked.len() && locked[k] == setting;
            if k == 0 { assert(names[1] == setting); }
            else if k == 1 { assert(names[5] == setting); }
            else if k == 2 { assert(names[7] == setting); }
            else if k == 3 { assert(names[4] == setting); }
            else if k == 4 { assert(names[15] == setting); }
            else if k == 5 { assert(names[10] == setting); }
            else if k == 6 { assert(names[14] == setting); }
            else if k == 7 { assert(names[11] == setting); }
            else if k == 8 { assert(names[12] == setting); }
            else { assert(names[13] == setting); }
        }
    }
    let k = choose|k: int| 0 <= k < names.len() && names[k] == setting;
    lemma_first_entry_exists(v, setting, k, 0);
}

/// Some entry at or below `k` is the first one for `setting`.
proof fn lemma_first_entry_exists(v: Seq<SettingProvenance>, setting: Seq<char>, k: int, from: int)
    requires
        0 <= from <= k < v.len(),
        v[k].setting@ == setting,
        forall|j: int| 0 <= j < from ==> (#[trigger] v[j]).setting@ != setting,
    ensures
        exists|i: int| first_entry_for(v, setting, i) && v[i].setting@ == setting,
    decreases k - from,
{
    if v[from].setting@ == setting {
        assert(first_entry_for(v, setting, from));
    } else {
        lemma_first_entry_exists(v, setting, k, from + 1);
    }
}

proof fn lemma_expected_provenance(w: WorkingView)
    ensures
        expected_provenance(w, "presentation_policy.output_format"@) == Some(w.output_format.1),
        expected_provenance(w, "operational_policy.state_directory"@) == Some(w.state_directory.1),
        expected_provenance(w, "evidence_policy.follow_symlinks"@) == Some(w.follow_symlinks.1),
        expected_provenance(w, "evidence_policy.include_hidden"@) == Some(w.include_hidden.1),
        expected_provenance(w, "evidence_policy.cross_filesystems"@) == Some(w.cross_filesystems.1),
        expected_provenance(w, "evidence_policy.probe_media"@) == Some(w.probe_media.1),
        expected_provenance(w, "evidence_policy.exact_grouping_profile"@) == Some(ProvenanceView { source: PolicySourceKind::LockedInvariant, detail: "locked by the OptiFlow safety contract"@, path: None }),
        expected_provenance(w, "evidence_policy.observation_stability"@) == Some(ProvenanceView { source: PolicySourceKind::LockedInvariant, detail: "locked by the OptiFlow safety contract"@, path: None }),
        expected_provenance(w, "evidence_policy.unstable_observations"@) == Some(ProvenanceView { source: PolicySourceKind::LockedInvariant, detail: "locked by the OptiFlow safety contract"@, path: None }),
        expected_provenance(w, "evidence_policy.maximum_observation_attempts"@) == Some(ProvenanceView { source: PolicySourceKind::LockedInvariant, detail: "locked by the OptiFlow safety contract"@, path: None }),
        expected_provenance(w, "safety_invariants.source_mutation"@) == Some(ProvenanceView { source: PolicySourceKind::LockedInvariant, detail: "locked by the OptiFlow safety contract"@, path: None }),
        expected_provenance(w, "safety_invariants.apply_enabled"@) == Some(ProvenanceView { source: PolicySourceKind::LockedInvariant, detail: "locked by the OptiFlow safety contract"@, path: None }),
        expected_provenance(w, "safety_invariants.shell_execution"@) == Some(ProvenanceView { source: PolicySourceKind::LockedInvariant, detail: "locked by the OptiFlow safety contract"@, path: None }),
        expected_provenance(w, "safety_invariants.artifact_validation_required"@) == Some(ProvenanceView { source: PolicySourceKind::LockedInvariant, detail: "locked by the OptiFlow safety contract"@, path: None }),
        expected_provenance(w, "safety_invariants.atomic_artifact_commit_required"@) == Some(ProvenanceView { source: PolicySourceKind::LockedInvariant, detail: "locked by the OptiFlow safety contract"@, path: None }),
        expected_provenance(w, "safety_invariants.current_stability_required_for_exact_groups"@) == Some(ProvenanceView { source: PolicySourceKind::LockedInvariant, detail: "locked by the OptiFlow safety contract"@, path: None }),
{
    reveal_strlit("presentation_policy.output_format");
    reveal_strlit("operational_policy.state_directory");
    reveal_strlit("evidence_policy.follow_symlinks");
    reveal_strlit("evidence_policy.include_hidden");
    reveal_strlit("evidence_policy.cross_filesystems");
    reveal_strlit("evidence_policy.probe_media");
    reveal_strlit("evidence_policy.exact_grouping_profile");
    reveal_strlit("evidence_policy.observation_stability");
    reveal_strlit("evidence_policy.unstable_observations");
    reveal_strlit("evidence_policy.maximum_observation_attempts");
    reveal_strlit("safety_invariants.source_mutation");
    reveal_strlit("safety_invariants.apply_enabled");
    reveal_strlit("safety_invariants.shell_execution");
    reveal_strlit("safety_invariants.artifact_validation_required");
    reveal_strlit("safety_invariants.atomic_artifact_commit_required");
    reveal_strlit("safety_invariants.current_stability_required_for_exact_groups");
    assert("operational_policy.state_directory"@[0] != "presentation_policy.output_format"@[0]);
    assert("evidence_policy.follow_symlinks"@[0] != "presentation_policy.output_format"@[0]);
    assert("evidence_policy.follow_symlinks"@[0] != "operational_policy.state_directory"@[0]);
    assert("evidence_policy.include_hidden"@[0] != "presentation_policy.output_format"@[0]);
    assert("evidence_policy.include_hidden"@[0] != "operational_policy.state_directory"@[0]);
    assert("evidence_policy.include_hidden"@[16] != "evidence_policy.follow_symlinks"@[16]);
    assert("evidence_policy.cross_filesystems"@[0] != "presentation_policy.output_format"@[0]);
    assert("evidence_policy.cross_filesystems"@[0] != "operational_policy.state_directory"@[0]);
    assert("evidence_policy.cross_filesystems"@[16] != "evidence_policy.follow_symlinks"@[16]);
    assert("evidence_policy.cross_filesystems"@[16] != "evidence_policy.include_hidden"@[16]);
    assert("evidence_policy.probe_media"@[0] != "presentation_policy.output_format"@[0]);
    assert("evidence_policy.probe_media"@[0] != "operational_policy.state_directory"@[0]);
    assert("evidence_policy.probe_media"@[16] != "evidence_policy.follow_symlinks"@[16]);
    assert("evidence_policy.probe_media"@[16] != "evidence_policy.include_hidden"@[16]);
    assert("evidence_policy.probe_media"@[16] != "evidence_policy.cross_filesystems"@[16]);
    assert("evidence_policy.exact_grouping_profile"@[0] != "presentation_policy.output_format"@[0]);
    assert("evidence_policy.exact_grouping_profile"@[0] != "operational_policy.state_directory"@[0]);
    assert("evidence_policy.exact_grouping_profile"@[16] != "evidence_policy.follow_symlinks"@[16]);
    assert("evidence_policy.exact_grouping_profile"@[16] != "evidence_policy.include_hidden"@[16]);
    assert("evidence_policy.exact_grouping_profile"@[16] != "evidence_policy.cross_filesystems"@[16]);
    assert("evidence_policy.exact_grouping_profile"@[16] != "evidence_policy.probe_media"@[16]);
    assert("evidence_policy.observation_stability"@[0] != "presentation_policy.output_format"@[0]);
    assert("evidence_policy.observation_stability"@[0] != "operational_policy.state_directory"@[0]);
    assert("evidence_policy.observation_stability"@[16] != "evidence_policy.follow_symlinks"@[16]);
    assert("evidence_policy.observation_stability"@[16] != "evidence_policy.include_hidden"@[16]);
    assert("evidence_policy.observation_stability"@[16] != "evidence_policy.cross_filesystems"@[16]);
    assert("evidence_policy.observation_stability"@[16] != "evidence_policy.probe_media"@[16]);
    assert("evidence_policy.unstable_observations"@[0] != "presentation_policy.output_format"@[0]);
    assert("evidence_policy.unstable_observations"@[0] != "operational_policy.state_directory"@[0]);
    assert("evidence_policy.unstable_observations"@[16] != "evidence_policy.follow_symlinks"@[16]);
    assert("evidence_policy.unstable_observations"@[16] != "evidence_policy.include_hidden"@[16]);
    assert("evidence_policy.unstable_observations"@[16] != "evidence_policy.cross_filesystems"@[16]);
    assert("evidence_policy.unstable_observations"@[16] != "evidence_policy.probe_media"@[16]);
    assert("evidence_policy.maximum_observation_attempts"@[0] != "presentation_policy.output_format"@[0]);
    assert("evidence_policy.maximum_observation_attempts"@[0] != "operational_policy.state_directory"@[0]);
    assert("evidence_policy.maximum_observation_attempts"@[16] != "evidence_policy.follow_symlinks"@[16]);
    assert("evidence_policy.maximum_observation_attempts"@[16] != "evidence_policy.include_hidden"@[16]);
    assert("evidence_policy.maximum_observation_attempts"@[16] != "evidence_policy.cross_filesystems"@[16]);
    assert("evidence_policy.maximum_observation_attempts"@[16] != "evidence_policy.probe_media"@[16]);
    assert("safety_invariants.source_mutation"@[0] != "presentation_policy.output_format"@[0]);
    assert("safety_invariants.source_mutation"@[0] != "operational_policy.state_directory"@[0]);
    assert("safety_invariants.source_mutation"@[0] != "evidence_policy.follow_symlinks"@[0]);
    assert("safety_invariants.source_mutation"@[0] != "evidence_policy.include_hidden"@[0]);
    assert("safety_invariants.source_mutation"@[0] != "evidence_policy.cross_filesystems"@[0]);
    assert("safety_invariants.source_mutation"@[0] != "evidence_policy.probe_media"@[0]);
    assert("safety_invariants.apply_enabled"@[0] != "presentation_policy.output_format"@[0]);
    assert("safety_invariants.apply_enabled"@[0] != "operational_policy.state_directory"@[0]);
    assert("safety_invariants.apply_enabled"@[0] != "evidence_policy.follow_symlinks"@[0]);
    assert("safety_invariants.apply_enabled"@[0] != "evidence_policy.include_hidden"@[0]);
    assert("safety_invariants.apply_enabled"@[0] != "evidence_policy.cross_filesystems"@[0]);
    assert("safety_invariants.apply_enabled"@[0] != "evidence_policy.probe_media"@[0]);
    assert("safety_invariants.shell_execution"@[0] != "presentation_policy.output_format"@[0]);
    assert("safety_invariants.shell_execution"@[0] != "operational_policy.state_directory"@[0]);
    assert("safety_invariants.shell_execution"@[0] != "evidence_policy.follow_symlinks"@[0]);
    assert("safety_invariants.shell_execution"@[0] != "evidence_policy.include_hidden"@[0]);
    assert("safety_invariants.shell_execution"@[0] != "evidence_policy.cross_filesystems"@[0]);
    assert("safety_invariants.shell_execution"@[0] != "evidence_policy.probe_media"@[0]);
    assert("safety_invariants.artifact_validation_required"@[0] != "presentation_policy.output_format"@[0]);
    assert("safety_invariants.artifact_validation_required"@[0] != "operational_policy.state_directory"@[0]);
    assert("safety_invariants.artifact_validation_required"@[0] != "evidence_policy.follow_symlinks"@[0]);
    assert("safety_invariants.artifact_validation_required"@[0] != "evidence_policy.include_hidden"@[0]);
    assert("safety_invariants.artifact_validation_required"@[0] != "evidence_policy.cross_filesystems"@[0]);
    assert("safety_invariants.artifact_validation_required"@[0] != "evidence_policy.probe_media"@[0]);
    assert("safety_invariants.atomic_artifact_commit_required"@[0] != "presentation_policy.output_format"@[0]);
    assert("safety_invariants.atomic_artifact_commit_required"@[0] != "operational_policy.state_directory"@[0]);
    assert("safety_invariants.atomic_artifact_commit_required"@[0] != "evidence_policy.follow_symlinks"@[0]);
    assert("safety_invariants.atomic_artifact_commit_required"@[0] != "evidence_policy.include_hidden"@[0]);
    assert("safety_invariants.atomic_artifact_commit_required"@[0] != "evidence_policy.cross_filesystems"@[0]);
    assert("safety_invariants.atomic_artifact_commit_required"@[0] != "evidence_policy.probe_media"@[0]);
    assert("safety_invariants.current_stability_required_for_exact_groups"@[0] != "presentation_policy.output_format"@[0]);
    assert("safety_invariants.current_stability_required_for_exact_groups"@[0] != "operational_policy.state_directory"@[0]);
    assert("safety_invariants.current_stability_required_for_exact_groups"@[0] != "evidence_policy.follow_symlinks"@[0]);
    assert("safety_invariants.current_stability_required_for_exact_groups"@[0] != "evidence_policy.include_hidden"@[0]);
    assert("safety_invariants.current_stability_required_for_exact_groups"@[0] != "evidence_policy.cross_filesystems"@[0]);
    assert("safety_invariants.current_stability_required_for_exact_groups"@[0] != "evidence_policy.probe_media"@[0]);
    assert(locked_settings()[0] == "evidence_policy.exact_grouping_profile"@);
    assert(locked_settings()[1] == "evidence_policy.observation_stability"@);
    assert(locked_settings()[2] == "evidence_policy.unstable_observations"@);
    assert(locked_settings()[3] == "evidence_policy.maximum_observation_attempts"@);
    assert(locked_settings()[4] == "safety_invariants.source_mutation"@);
    assert(locked_settings()[5] == "safety_invariants.apply_enabled"@);
    assert(locked_settings()[6] == "safety_invariants.shell_execution"@);
    assert(locked_settings()[7] == "safety_invariants.artifact_validation_required"@);
    assert(locked_settings()[8] == "safety_invariants.atomic_artifact_commit_required"@);
    assert(locked_settings()[9] == "safety_invariants.current_stability_required_for_exact_groups"@);
}

fn locked_provenance() -> (p: PolicyProvenance)
    ensures
        p@ == (ProvenanceView { source: PolicySourceKind::LockedInvariant, detail: "locked by the OptiFlow safety contract"@, path: None }),
{
    provenance(PolicySourceKind::LockedInvariant, "locked by the OptiFlow safety contract", None)
}

fn listed(setting: &str, provenance: PolicyProvenance) -> (e: SettingProvenance)
    ensures
        e.setting@ == setting@,
        e.provenance@ == provenance@,
{
    SettingProvenance { setting: owned(setting), provenance }
}

fn provenance_list(working: &WorkingPolicy) -> (v: Vec<SettingProvenance>)
    ensures
        provenance_listed(working@, v@),
{
    let ghost w = working@;
    proof { lemma_expected_provenance(w); }
    let mut v: Vec<SettingProvenance> = Vec::new();
    v.push(listed("evidence_policy.cross_filesystems", copy_provenance(&working.cross_filesystems.provenance)));
    v.push(listed("evidence_policy.exact_grouping_profile", locked_provenance()));
    v.push(listed("evidence_policy.follow_symlinks", copy_provenance(&working.follow_symlinks.provenance)));
    v.push(listed("evidence_policy.include_hidden", copy_provenance(&working.include_hidden.provenance)));
    v.push(listed("evidence_policy.maximum_observation_attempts", locked_provenance()));
    v.push(listed("evidence_policy.observation_stability", locked_provenance()));
    v.push(listed("evidence_policy.probe_media", copy_provenance(&working.probe_media.provenance)));
    v.push(listed("evidence_policy.unstable_observations", locked_provenance()));
    v.push(listed("operational_policy.state_directory", copy_provenance(&working.state_directory.provenance)));
    v.push(listed("presentation_policy.output_format", copy_provenance(&working.output_format.provenance)));
    v.push(listed("safety_invariants.apply_enabled", locked_provenance()));
    v.push(listed("safety_invariants.artifact_validation_required", locked_provenance()));
    v.push(listed("safety_invariants.atomic_artifact_commit_required", locked_provenance()));
    v.push(listed("safety_invariants.current_stability_required_for_exact_groups", locked_provenance()));
    v.push(listed("safety_invariants.shell_execution", locked_provenance()));
    v.push(listed("safety_invariants.source_mutation", locked_provenance()));
    v
}

/// Finishes resolution from the layered working policy: the evidence policy
/// with its locked parts, the provenance of every setting, the effective
/// policy with its fingerprints, and the runtime settings.
pub fn finish_resolution(working: WorkingPolicy, sources: Vec<ConfigurationSourceRecord>) -> (r: ConfigurationResolution)
    ensures
        r.policy.schema@ == EFFECTIVE_POLICY_SCHEMA@,
        r.policy.evidence_policy == resolved_evidence(working@),
        r.policy.operational_policy.state_directory@ == path_of_bytes(working.state_directory.value@),
        r.policy.presentation_policy.output_format == working.output_format.value,
        r.policy.safety_invariants == spec_locked_safety_invariants(),
        fingerprints_of(
            r.policy.fingerprints,
            resolved_evidence(working@),
            path_of_bytes(working.state_directory.value@),
            working.output_format.value,
            spec_locked_safety_invariants(),
        ),
        provenance_listed(working@, r.policy.provenance@),
        r.sources@ == sources@,
        r.shadowed_values@ == working.shadowed@,
        r.runtime.state_directory@ == working.state_directory.value@,
        r.runtime.scan == (ScanOptions {
            follow_symlinks: working.follow_symlinks.value,
            include_hidden: working.include_hidden.value,
            cross_filesystems: working.cross_filesystems.value,
            probe_media: working.probe_media.value,
        }),
        r.runtime.output_format == working.output_format.value,
{
    let evidence = EvidencePolicy {
        follow_symlinks: working.follow_symlinks.value,
        include_hidden: working.include_hidden.value,
        cross_filesystems: working.cross_filesystems.value,
        probe_media: working.probe_media.value,
        exact_grouping_profile: ExactGroupingProfile::SizeAndBlake3_256,
        observation_stability: StabilityRequirement::Required,
        unstable_observations: UnstableObservationPolicy::Exclude,
        maximum_observation_attempts: DEFAULT_MAX_OBSERVATION_ATTEMPTS,
    };
    let map = provenance_list(&working);
    let state_directory = working.state_directory.value;
    let policy = match build_effective_policy(evidence, state_directory.as_slice(), working.output_format.value, map) {
        Ok(p) => p,
        Err(_) => vstd::pervasive::unreached(),
    };
    let runtime = RuntimePolicy {
        state_directory,
        scan: ScanOptions {
            follow_symlinks: working.follow_symlinks.value,
            include_hidden: working.include_hidden.value,
            cross_filesystems: working.cross_filesystems.value,
            probe_media: working.probe_media.value,
        },
        output_format: working.output_format.value,
    };
    ConfigurationResolution { policy, sources, shadowed_values: working.shadowed, runtime }
}

/// A configuration document that was found and parsed: its path, the
/// directory its relative paths are resolved against, and its content.
pub struct FoundDocument {
    pub path: NativePath,
    pub base: Vec<u8>,
    pub document: ConfigDocumentV1,
}

/// The configuration documents of one invocation, by where each was found.
pub struct ConfigurationDocuments {
    /// The file named by `--config` or `OPTIFLOW_CONFIG`.
    pub explicit: Option<FoundDocument>,
    /// The user configuration file.
    pub user: Option<FoundDocument>,
    /// The nearest project configuration file.
    pub project: Option<FoundDocument>,
}

/// A found document loaded as coming from `source`.
pub open spec fn found_as(d: FoundDocument, source: PolicySourceKind) -> LoadedView {
    LoadedView { source, path: d.path@, base: d.base@, document: d.document@ }
}

/// The documents in the order they are layered: an explicitly selected
/// file alone, which suppresses the discovered ones; otherwise the user
/// file, then the project file.
pub open spec fn layered_documents(d: ConfigurationDocuments) -> Seq<LoadedView> {
    match d.explicit {
        Some(e) => seq![found_as(e, PolicySourceKind::ExplicitConfiguration)],
        None => (match d.user {
            Some(u) => seq![found_as(u, PolicySourceKind::UserConfiguration)],
            None => Seq::empty(),
        }) + (match d.project {
            Some(p) => seq![found_as(p, PolicySourceKind::ProjectConfiguration)],
            None => Seq::empty(),
        }),
    }
}

fn loaded_from(d: FoundDocument, source: PolicySourceKind) -> (l: LoadedDocument)
    ensures
        l@ == found_as(d, source),
{
    LoadedDocument { source, path: d.path, base: d.base, document: d.document }
}

/// The documents as `layered_documents` orders them.
fn layered(documents: ConfigurationDocuments) -> (v: Vec<LoadedDocument>)
    ensures
        v@.map_values(|d: LoadedDocument| d@) == layered_documents(documents),
{
    let ghost d = documents;
    let mut v: Vec<LoadedDocument> = Vec::new();
    match documents.explicit {
        Some(e) => {
            v.push(loaded_from(e, PolicySourceKind::ExplicitConfiguration));
        },
        None => {
            match documents.user {
                Some(u) => {
                    v.push(loaded_from(u, PolicySourceKind::UserConfiguration));
                },
                None => {},
            }
            match documents.project {
                Some(p) => {
                    v.push(loaded_from(p, PolicySourceKind::ProjectConfiguration));
                },
                None => {},
            }
        },
    }
    assert(v@.map_values(|x: LoadedDocument| x@) =~= layered_documents(d));
    v
}

/// Resolves the configuration from the command line, the captured
/// environment, the initial working directory, the platform's default state
/// directory and the configuration documents that were found and parsed
/// (with the records of every source consulted).
pub fn resolve(
    cli: &Cli,
    environment: &CapturedEnvironment,
    cwd: &[u8],
    default_state_directory: Vec<u8>,
    documents: ConfigurationDocuments,
    sources: Vec<ConfigurationSourceRecord>,
) -> (r: Result<ConfigurationResolution, Box<Diagnostic>>)
    ensures
        match r {
            Ok(res) => match spec_layers(*cli, environment@, cwd@, default_state_directory@, layered_documents(documents)) {
                Some(w) => {
                    &&& res.policy.schema@ == EFFECTIVE_POLICY_SCHEMA@
                    &&& res.policy.evidence_policy == resolved_evidence(w)
                    &&& res.policy.operational_policy.state_directory@ == path_of_bytes(w.state_directory.0)
                    &&& res.policy.presentation_policy.output_format == w.output_format.0
                    &&& res.policy.safety_invariants == spec_locked_safety_invariants()
                    &&& provenance_listed(w, res.policy.provenance@)
                    &&& res.sources@ == sources@
                    &&& res.shadowed_values@.map_values(|s: ShadowedValue| s@) == w.shadowed
                    &&& fingerprints_of(
                        res.policy.fingerprints,
                        resolved_evidence(w),
                        path_of_bytes(w.state_directory.0),
                        w.output_format.0,
                        spec_locked_safety_invariants(),
                    )
                    &&& res.runtime.state_directory@ == w.state_directory.0
                    &&& res.runtime.scan == (ScanOptions {
                        follow_symlinks: w.follow_symlinks.0,
                        include_hidden: w.include_hidden.0,
                        cross_filesystems: w.cross_filesystems.0,
                        probe_media: w.probe_media.0,
                    })
                    &&& res.runtime.output_format == w.output_format.0
                },
                None => false,
            },
            Err(d) => spec_layers(*cli, environment@, cwd@, default_state_directory@, layered_documents(documents)) is None
                && layers_refusal(*d, *cli, environment@, cwd@, default_state_directory@, layered_documents(documents)),
        },
{
    let ordered = layered(documents);
    let working = layer_sources(cli, environment, cwd, default_state_directory, &ordered)?;
    Ok(finish_resolution(working, sources))
}

} // verus!
