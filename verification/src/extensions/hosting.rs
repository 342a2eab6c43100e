//! The host's admission decisions for embedded and process extensions.

use vstd::prelude::*;
use crate::duplicates::string_views;
use crate::extensions::catalog::{capability_index, has_configuration, LoadedExtension};
use crate::extensions::exchange::{invocation_problem, selected_mode_from, validate_invocation};
use crate::extensions::model::{
    CapabilityKind, ExecutionModeDeclaration, ExtensionDiagnostic, ExtensionInvocationV1, ImmutableArtifactReference,
    LifecycleEvent, LifecyclePhase, ObserverHookDeclaration, ProcessLimits, TrustMode,
};
use crate::json::push_str;
use crate::subprocess::{subprocess_error_text, SubprocessError};
use crate::json::{decimal_digits, push_decimal};
use crate::text::{compare_strings, owned, string_of};

verus! {

/// A typed extension failure which has not crossed the result acceptance
/// boundary.
#[derive(Debug, Clone, PartialEq, Eq)]
pub struct ExtensionFailure {
    pub code: String,
    pub message: String,
    pub retryable: bool,
}

impl ExtensionFailure {
    pub fn new(code: String, message: String, retryable: bool) -> (f: Self)
        ensures
            f.code == code,
            f.message == message,
            f.retryable == retryable,
    {
        ExtensionFailure { code, message, retryable }
    }
}

/// Why an embedded extension could not be registered or invoked.
#[derive(Debug, Clone, PartialEq, Eq)]
pub enum RegistryError {
    InvalidRegistration { capability_id: String, message: String },
    DuplicateRegistration { capability_id: String },
    MissingRegistration { capability_id: String },
    InvocationRejected { capability_id: String, message: String },
    HandlerFailed { capability_id: String, failure: ExtensionFailure },
    ResultRejected { capability_id: String, message: String },
    Cancelled { capability_id: String },
}

/// Why a process extension could not be used.
#[derive(Debug)]
pub enum ProcessExtensionError {
    Unavailable { message: String },
    InvocationRejected { message: String },
    InputTooLarge { limit_bytes: u64, observed_bytes: usize },
    ExecutableChanged { message: String },
    Process(SubprocessError),
    ResultRejected { message: String },
}

/// The message of a registry error.
pub open spec fn registry_error_text(e: RegistryError) -> Seq<char> {
    match e {
        RegistryError::InvalidRegistration { capability_id, message } => "cannot register "@ + capability_id@ + ": "@ + message@,
        RegistryError::DuplicateRegistration { capability_id } => "capability "@ + capability_id@ + " is already registered"@,
        RegistryError::MissingRegistration { capability_id } => "capability "@ + capability_id@ + " is not registered"@,
        RegistryError::InvocationRejected { capability_id, message } =>
            "invocation for "@ + capability_id@ + " was rejected: "@ + message@,
        RegistryError::HandlerFailed { capability_id, failure } =>
            "extension handler "@ + capability_id@ + " failed: "@ + failure.message@,
        RegistryError::ResultRejected { capability_id, message } =>
            "result from "@ + capability_id@ + " was rejected: "@ + message@,
        RegistryError::Cancelled { capability_id } => "extension invocation "@ + capability_id@ + " was cancelled"@,
    }
}

impl RegistryError {
    /// The error's message.
    pub fn describe(&self) -> (text: String)
        ensures
            text@ == registry_error_text(*self),
    {
        let mut t: Vec<char> = Vec::new();
        match self {
            RegistryError::InvalidRegistration { capability_id, message } => {
                push_str(&mut t, "cannot register ");
                push_str(&mut t, capability_id.as_str());
                push_str(&mut t, ": ");
                push_str(&mut t, message.as_str());
            },
            RegistryError::DuplicateRegistration { capability_id } => {
                push_str(&mut t, "capability ");
                push_str(&mut t, capability_id.as_str());
                push_str(&mut t, " is already registered");
            },
            RegistryError::MissingRegistration { capability_id } => {
                push_str(&mut t, "capability ");
                push_str(&mut t, capability_id.as_str());
                push_str(&mut t, " is not registered");
            },
            RegistryError::InvocationRejected { capability_id, message } => {
                push_str(&mut t, "invocation for ");
                push_str(&mut t, capability_id.as_str());
                push_str(&mut t, " was rejected: ");
                push_str(&mut t, message.as_str());
            },
            RegistryError::HandlerFailed { capability_id, failure } => {
                push_str(&mut t, "extension handler ");
                push_str(&mut t, capability_id.as_str());
                push_str(&mut t, " failed: ");
                push_str(&mut t, failure.message.as_str());
            },
            RegistryError::ResultRejected { capability_id, message } => {
                push_str(&mut t, "result from ");
                push_str(&mut t, capability_id.as_str());
                push_str(&mut t, " was rejected: ");
                push_str(&mut t, message.as_str());
            },
            RegistryError::Cancelled { capability_id } => {
                push_str(&mut t, "extension invocation ");
                push_str(&mut t, capability_id.as_str());
                push_str(&mut t, " was cancelled");
            },
        }
        assert(t@ =~= registry_error_text(*self));
        string_of(&t)
    }
}

/// The message of a process-extension error.
pub open spec fn process_extension_error_text(e: ProcessExtensionError) -> Seq<char> {
    match e {
        ProcessExtensionError::Unavailable { message } => "process extension is unavailable: "@ + message@,
        ProcessExtensionError::InvocationRejected { message } => "process extension invocation was rejected: "@ + message@,
        ProcessExtensionError::InputTooLarge { limit_bytes, observed_bytes } =>
            "process extension invocation has "@ + decimal_digits(observed_bytes as nat) + " bytes; limit is "@
                + decimal_digits(limit_bytes as nat),
        ProcessExtensionError::ExecutableChanged { message } => "locked process executable changed: "@ + message@,
        ProcessExtensionError::Process(error) => "process extension failed: "@ + subprocess_error_text(error),
        ProcessExtensionError::ResultRejected { message } => "process extension result was rejected: "@ + message@,
    }
}

impl ProcessExtensionError {
    /// The error's message.
    pub fn describe(&self) -> (text: String)
        ensures
            text@ == process_extension_error_text(*self),
    {
        let mut t: Vec<char> = Vec::new();
        match self {
            ProcessExtensionError::Unavailable { message } => {
                push_str(&mut t, "process extension is unavailable: ");
                push_str(&mut t, message.as_str());
            },
            ProcessExtensionError::InvocationRejected { message } => {
                push_str(&mut t, "process extension invocation was rejected: ");
                push_str(&mut t, message.as_str());
            },
            ProcessExtensionError::InputTooLarge { limit_bytes, observed_bytes } => {
                push_str(&mut t, "process extension invocation has ");
                push_decimal(&mut t, *observed_bytes as u64);
                push_str(&mut t, " bytes; limit is ");
                push_decimal(&mut t, *limit_bytes);
            },
            ProcessExtensionError::ExecutableChanged { message } => {
                push_str(&mut t, "locked process executable changed: ");
                push_str(&mut t, message.as_str());
            },
            ProcessExtensionError::Process(error) => {
                push_str(&mut t, "process extension failed: ");
                let inner = error.describe();
                push_str(&mut t, inner.as_str());
            },
            ProcessExtensionError::ResultRejected { message } => {
                push_str(&mut t, "process extension result was rejected: ");
                push_str(&mut t, message.as_str());
            },
        }
        assert(t@ =~= process_extension_error_text(*self));
        string_of(&t)
    }
}

/// The texts joined with `"; "` between them.
pub open spec fn joined(texts: Seq<Seq<char>>) -> Seq<char>
    decreases texts.len(),
{
    if texts.len() == 0 {
        seq![]
    } else if texts.len() == 1 {
        texts[0]
    } else {
        joined(texts.drop_last()) + "; "@ + texts.last()
    }
}

fn join_reasons(texts: &Vec<String>) -> (r: String)
    ensures
        r@ == joined(string_views(texts@)),
{
    let mut out: Vec<char> = Vec::new();
    let mut k: usize = 0;
    while k < texts.len()
        invariant
            k <= texts@.len(),
            out@ == joined(string_views(texts@.take(k as int))),
        decreases texts@.len() - k,
    {
        let ghost before = out@;
        if k > 0 {
            push_str(&mut out, "; ");
        }
        push_str(&mut out, texts[k].as_str());
        proof {
            let next = string_views(texts@.take(k + 1));
            assert(next.drop_last() =~= string_views(texts@.take(k as int)));
            assert(next.last() == texts@[k as int]@);
            if k == 0 {
                assert(next =~= seq![texts@[0]@]);
            }
        }
        k = k + 1;
    }
    assert(texts@.take(texts@.len() as int) =~= texts@);
    string_of(&out)
}

/// An embedded extension is refused unless its lock trusts embedded
/// execution and it has no availability problem.
pub fn admit_embedded(extension: &LoadedExtension) -> (r: Result<(), RegistryError>)
    ensures
        extension.lock.trust != TrustMode::TrustedEmbedded ==> (r matches Err(RegistryError::InvalidRegistration { capability_id, message })
            && capability_id@ == extension.manifest.extension_id@
            && message@ == "the operator lock does not grant trusted embedded execution"@),
        extension.lock.trust == TrustMode::TrustedEmbedded && extension.availability_reasons@.len() > 0
            ==> (r matches Err(RegistryError::InvalidRegistration { capability_id, message })
            && capability_id@ == extension.manifest.extension_id@
            && message@ == joined(string_views(extension.availability_reasons@))),
        extension.lock.trust == TrustMode::TrustedEmbedded && extension.availability_reasons@.len() == 0 ==> r is Ok,
{
    if extension.lock.trust != TrustMode::TrustedEmbedded {
        return Err(RegistryError::InvalidRegistration {
            capability_id: extension.manifest.extension_id.clone(),
            message: owned("the operator lock does not grant trusted embedded execution"),
        });
    }
    if extension.availability_reasons.len() > 0 {
        return Err(RegistryError::InvalidRegistration {
            capability_id: extension.manifest.extension_id.clone(),
            message: join_reasons(&extension.availability_reasons),
        });
    }
    Ok(())
}

/// Why registering a handler of kind `kind` for `capability_id` is refused,
/// if it is.
pub open spec fn registration_refusal(extension: LoadedExtension, capability_id: Seq<char>, kind: CapabilityKind, registered: Seq<Seq<char>>) -> Option<Seq<char>> {
    let i = capability_index(extension.manifest.capabilities@, capability_id);
    let c = extension.manifest.capabilities@[i];
    if i < 0 {
        Some("the capability is not declared in the pinned manifest"@)
    } else if c.kind != kind {
        Some("the typed handler role does not match the manifest"@)
    } else if !(extension.availability_reasons@.len() == 0 && c.effects.subset_of(extension.lock.granted_effects)
        && has_configuration(extension.lock.configurations@, c.configuration_schema@)) {
        Some("the capability is not enabled, configured, and authorized"@)
    } else {
        None
    }
}

/// Checks a registration of a handler of kind `kind` for `capability_id`,
/// given the capabilities already registered.
pub fn check_registration(extension: &LoadedExtension, capability_id: &str, kind: CapabilityKind, registered: &Vec<String>) -> (r: Result<(), RegistryError>)
    ensures
        match registration_refusal(*extension, capability_id@, kind, string_views(registered@)) {
            Some(message) => r matches Err(RegistryError::InvalidRegistration { capability_id: id, message: m })
                && id@ == capability_id@ && m@ == message,
            None => if string_views(registered@).contains(capability_id@) {
                r matches Err(RegistryError::DuplicateRegistration { capability_id: id }) && id@ == capability_id@
            } else {
                r is Ok
            },
        },
{
    proof {
        crate::extensions::catalog::lemma_capability_index_range(extension.manifest.capabilities@, capability_id@);
    }
    let capability = match extension.capability(capability_id) {
        Some(c) => c,
        None => {
            return Err(RegistryError::InvalidRegistration {
                capability_id: owned(capability_id),
                message: owned("the capability is not declared in the pinned manifest"),
            });
        },
    };
    if capability.kind != kind {
        return Err(RegistryError::InvalidRegistration {
            capability_id: owned(capability_id),
            message: owned("the typed handler role does not match the manifest"),
        });
    }
    if !extension.is_available_for(capability) {
        return Err(RegistryError::InvalidRegistration {
            capability_id: owned(capability_id),
            message: owned("the capability is not enabled, configured, and authorized"),
        });
    }
    if crate::extensions::catalog::contains_text(registered, capability_id) {
        return Err(RegistryError::DuplicateRegistration { capability_id: owned(capability_id) });
    }
    Ok(())
}

/// The process limits a process extension runs under, or why it cannot run:
/// its lock must trust process execution, it must have no availability
/// problem, and its selected execution mode must be a process contract.
pub fn admit_process(extension: &LoadedExtension) -> (r: Result<ProcessLimits, ProcessExtensionError>)
    ensures
        extension.lock.trust != TrustMode::TrustedProcess ==> (r matches Err(ProcessExtensionError::Unavailable { message })
            && message@ == "the operator lock does not grant trusted process execution"@),
        extension.lock.trust == TrustMode::TrustedProcess && extension.availability_reasons@.len() > 0
            ==> (r matches Err(ProcessExtensionError::Unavailable { message })
            && message@ == joined(string_views(extension.availability_reasons@))),
        extension.lock.trust == TrustMode::TrustedProcess && extension.availability_reasons@.len() == 0 ==> ({
            let i = selected_mode_from(extension.manifest.execution_modes@, extension.lock.selected_execution_mode@, 0);
            if i >= 0 && extension.manifest.execution_modes@[i] is Process {
                r matches Ok(limits) && extension.manifest.execution_modes@[i] matches ExecutionModeDeclaration::Process { limits: l, .. } && limits == l
            } else {
                r matches Err(ProcessExtensionError::Unavailable { message })
                    && message@ == "the selected execution mode is not a process contract"@
            }
        }),
{
    if extension.lock.trust != TrustMode::TrustedProcess {
        return Err(ProcessExtensionError::Unavailable {
            message: owned("the operator lock does not grant trusted process execution"),
        });
    }
    if extension.availability_reasons.len() > 0 {
        return Err(ProcessExtensionError::Unavailable { message: join_reasons(&extension.availability_reasons) });
    }
    let modes = &extension.manifest.execution_modes;
    match crate::extensions::exchange::selected_mode_position(modes, extension.lock.selected_execution_mode.as_str()) {
        Some(k) => {
            match &modes[k] {
                ExecutionModeDeclaration::Process { limits, .. } => {
                    return Ok(*limits);
                },
                ExecutionModeDeclaration::Embedded { .. } => {},
            }
        },
        None => {},
    }
    Err(ProcessExtensionError::Unavailable { message: owned("the selected execution mode is not a process contract") })
}


/// The content of an artifact reference.
pub open spec fn reference_view(r: ImmutableArtifactReference) -> (Seq<char>, Seq<char>, Seq<char>, Seq<char>) {
    (r.artifact_id@, r.schema@, r.content_digest.algorithm@, r.content_digest.value@)
}

/// The content of an extension diagnostic.
pub open spec fn diagnostic_view(d: ExtensionDiagnostic) -> (Seq<char>, Seq<char>, bool) {
    (d.code@, d.message@, d.retryable)
}

/// Whether two lifecycle events hold the same content.
pub open spec fn same_event(a: LifecycleEvent, b: LifecycleEvent) -> bool {
    &&& a.event_id@ == b.event_id@
    &&& a.invocation_id@ == b.invocation_id@
    &&& a.sequence == b.sequence
    &&& a.phase == b.phase
    &&& a.state@ == b.state@
    &&& a.artifact_references@.map_values(|r: ImmutableArtifactReference| reference_view(r))
        == b.artifact_references@.map_values(|r: ImmutableArtifactReference| reference_view(r))
    &&& a.diagnostics@.map_values(|d: ExtensionDiagnostic| diagnostic_view(d))
        == b.diagnostics@.map_values(|d: ExtensionDiagnostic| diagnostic_view(d))
}

fn same_text(a: &String, b: &String) -> (r: bool)
    ensures
        r == (a@ == b@),
{
    compare_strings(a.as_str(), b.as_str()) == 0
}

fn same_references(a: &Vec<ImmutableArtifactReference>, b: &Vec<ImmutableArtifactReference>) -> (r: bool)
    ensures
        r == (a@.map_values(|x: ImmutableArtifactReference| reference_view(x))
            == b@.map_values(|x: ImmutableArtifactReference| reference_view(x))),
{
    let ghost va = a@.map_values(|x: ImmutableArtifactReference| reference_view(x));
    let ghost vb = b@.map_values(|x: ImmutableArtifactReference| reference_view(x));
    if a.len() != b.len() {
        assert(va.len() != vb.len());
        return false;
    }
    let mut i: usize = 0;
    while i < a.len()
        invariant
            a@.len() == b@.len(),
            va == a@.map_values(|x: ImmutableArtifactReference| reference_view(x)),
            vb == b@.map_values(|x: ImmutableArtifactReference| reference_view(x)),
            i <= a@.len(),
            forall|k: int| 0 <= k < i ==> va[k] == vb[k],
        decreases a@.len() - i,
    {
        let x = &a[i];
        let y = &b[i];
        if !(same_text(&x.artifact_id, &y.artifact_id) && same_text(&x.schema, &y.schema)
            && same_text(&x.content_digest.algorithm, &y.content_digest.algorithm)
            && same_text(&x.content_digest.value, &y.content_digest.value)) {
            assert(va[i as int] != vb[i as int]);
            return false;
        }
        i = i + 1;
    }
    assert(va =~= vb);
    true
}

fn same_diagnostics(a: &Vec<ExtensionDiagnostic>, b: &Vec<ExtensionDiagnostic>) -> (r: bool)
    ensures
        r == (a@.map_values(|x: ExtensionDiagnostic| diagnostic_view(x))
            == b@.map_values(|x: ExtensionDiagnostic| diagnostic_view(x))),
{
    let ghost va = a@.map_values(|x: ExtensionDiagnostic| diagnostic_view(x));
    let ghost vb = b@.map_values(|x: ExtensionDiagnostic| diagnostic_view(x));
    if a.len() != b.len() {
        assert(va.len() != vb.len());
        return false;
    }
    let mut i: usize = 0;
    while i < a.len()
        invariant
            a@.len() == b@.len(),
            va == a@.map_values(|x: ExtensionDiagnostic| diagnostic_view(x)),
            vb == b@.map_values(|x: ExtensionDiagnostic| diagnostic_view(x)),
            i <= a@.len(),
            forall|k: int| 0 <= k < i ==> va[k] == vb[k],
        decreases a@.len() - i,
    {
        let x = &a[i];
        let y = &b[i];
        if !(same_text(&x.code, &y.code) && same_text(&x.message, &y.message) && x.retryable == y.retryable) {
            assert(va[i as int] != vb[i as int]);
            return false;
        }
        i = i + 1;
    }
    assert(va =~= vb);
    true
}

fn events_match(a: &LifecycleEvent, b: &LifecycleEvent) -> (r: bool)
    ensures
        r == same_event(*a, *b),
{
    same_text(&a.event_id, &b.event_id) && same_text(&a.invocation_id, &b.invocation_id) && a.sequence == b.sequence
        && a.phase == b.phase && same_text(&a.state, &b.state)
        && same_references(&a.artifact_references, &b.artifact_references)
        && same_diagnostics(&a.diagnostics, &b.diagnostics)
}

/// Whether a read-only observer hook of the manifest declares `phase`.
pub open spec fn phase_declared(hooks: Seq<ObserverHookDeclaration>, phase: LifecyclePhase) -> bool {
    exists|i: int| 0 <= i < hooks.len() && #[trigger] hooks[i].read_only && hooks[i].lifecycle_points.has(phase)
}

fn declares_phase(hooks: &Vec<ObserverHookDeclaration>, phase: LifecyclePhase) -> (r: bool)
    ensures
        r == phase_declared(hooks@, phase),
{
    let mut i: usize = 0;
    while i < hooks.len()
        invariant
            i <= hooks@.len(),
            forall|k: int| 0 <= k < i ==> !(#[trigger] hooks@[k].read_only && hooks@[k].lifecycle_points.has(phase)),
        decreases hooks@.len() - i,
    {
        let points = hooks[i].lifecycle_points;
        let has = match phase {
            LifecyclePhase::Discover => points.discover,
            LifecyclePhase::Inspect => points.inspect,
            LifecyclePhase::Plan => points.plan,
            LifecyclePhase::Authorize => points.authorize,
            LifecyclePhase::Execute => points.execute,
            LifecyclePhase::Validate => points.validate,
            LifecyclePhase::CommitEvidence => points.commit_evidence,
        };
        if hooks[i].read_only && has {
            assert(hooks@[i as int].read_only && hooks@[i as int].lifecycle_points.has(phase));
            return true;
        }
        i = i + 1;
    }
    false
}

/// Decides whether an embedded handler may be called for `invocation`,
/// given whether the caller was cancelled and the kind of handler
/// registered for its capability: a valid invocation, not cancelled, with
/// a registered handler.
pub fn admit_invocation(
    extension: &LoadedExtension,
    invocation: &ExtensionInvocationV1,
    cancelled: bool,
    registered: Option<CapabilityKind>,
) -> (r: Result<(), RegistryError>)
    ensures
        match invocation_problem(*extension, *invocation) {
            Some(problem) => r matches Err(RegistryError::InvocationRejected { capability_id: id, message })
                && id@ == invocation.capability_id@ && message@ == problem,
            None => if cancelled {
                r matches Err(RegistryError::Cancelled { capability_id: id }) && id@ == invocation.capability_id@
            } else if registered is None {
                r matches Err(RegistryError::MissingRegistration { capability_id: id }) && id@ == invocation.capability_id@
            } else {
                r is Ok
            },
        },
{
    match validate_invocation(extension, invocation) {
        Err(message) => {
            return Err(RegistryError::InvocationRejected { capability_id: invocation.capability_id.clone(), message });
        },
        Ok(()) => {},
    }
    if cancelled {
        return Err(RegistryError::Cancelled { capability_id: invocation.capability_id.clone() });
    }
    if registered.is_none() {
        return Err(RegistryError::MissingRegistration { capability_id: invocation.capability_id.clone() });
    }
    Ok(())
}

/// Decides whether the lifecycle observer registered for `invocation` may
/// receive `event`: a valid invocation, the event bound to it, not
/// cancelled, a registered lifecycle observer, and a read-only hook of the
/// manifest declaring the event's phase.
pub fn admit_lifecycle_event(
    extension: &LoadedExtension,
    invocation: &ExtensionInvocationV1,
    event: &LifecycleEvent,
    cancelled: bool,
    registered: Option<CapabilityKind>,
) -> (r: Result<(), RegistryError>)
    ensures
        match invocation_problem(*extension, *invocation) {
            Some(problem) => r matches Err(RegistryError::InvocationRejected { capability_id: id, message })
                && id@ == invocation.capability_id@ && message@ == problem,
            None => if event.invocation_id@ != invocation.invocation_id@
                || !(invocation.lifecycle_event matches Some(bound) && same_event(bound, *event)) {
                r matches Err(RegistryError::InvocationRejected { capability_id: id, message })
                    && id@ == invocation.capability_id@ && message@ == "lifecycle event is not bound to the invocation"@
            } else if cancelled {
                r matches Err(RegistryError::Cancelled { capability_id: id }) && id@ == invocation.capability_id@
            } else if registered is None {
                r matches Err(RegistryError::MissingRegistration { capability_id: id }) && id@ == invocation.capability_id@
            } else if registered != Some(CapabilityKind::LifecycleObserver) {
                r matches Err(RegistryError::InvalidRegistration { capability_id: id, message })
                    && id@ == invocation.capability_id@
                    && message@ == "only a lifecycle observer can receive lifecycle events"@
            } else if !phase_declared(extension.manifest.observer_hooks@, event.phase) {
                r matches Err(RegistryError::InvocationRejected { capability_id: id, message })
                    && id@ == invocation.capability_id@
                    && message@ == "the lifecycle phase is not declared by a read-only hook"@
            } else {
                r is Ok
            },
        },
{
    match validate_invocation(extension, invocation) {
        Err(message) => {
            return Err(RegistryError::InvocationRejected { capability_id: invocation.capability_id.clone(), message });
        },
        Ok(()) => {},
    }
    let bound = match &invocation.lifecycle_event {
        Some(e) => same_text(&event.invocation_id, &invocation.invocation_id) && events_match(e, event),
        None => false,
    };
    if !bound {
        return Err(RegistryError::InvocationRejected {
            capability_id: invocation.capability_id.clone(),
            message: owned("lifecycle event is not bound to the invocation"),
        });
    }
    if cancelled {
        return Err(RegistryError::Cancelled { capability_id: invocation.capability_id.clone() });
    }
    let kind = match registered {
        Some(k) => k,
        None => return Err(RegistryError::MissingRegistration { capability_id: invocation.capability_id.clone() }),
    };
    if kind != CapabilityKind::LifecycleObserver {
        return Err(RegistryError::InvalidRegistration {
            capability_id: invocation.capability_id.clone(),
            message: owned("only a lifecycle observer can receive lifecycle events"),
        });
    }
    if !declares_phase(&extension.manifest.observer_hooks, event.phase) {
        return Err(RegistryError::InvocationRejected {
            capability_id: invocation.capability_id.clone(),
            message: owned("the lifecycle phase is not declared by a read-only hook"),
        });
    }
    Ok(())
}

} // verus!
