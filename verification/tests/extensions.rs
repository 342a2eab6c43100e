use optiflow::domain::NativePath;
use optiflow::extensions::availability::{availability_reasons, ProcessProbe};
use optiflow::extensions::catalog::{CatalogError, ExtensionCatalog, ExtensionResolutionStatus, LoadedExtension};
use optiflow::extensions::exchange::validate_invocation;
use optiflow::extensions::hosting::{admit_embedded, admit_invocation, admit_lifecycle_event, check_registration, RegistryError};
use optiflow::extensions::loading::{LockDocument, ManifestDocument};
use optiflow::extensions::manifest_rules::{valid_capability_id, valid_qualified_id, valid_semver, validate_manifest};
use optiflow::extensions::model::{
    AuthorizationEvidence, CapabilityDeclaration, CapabilityKind, Cacheability, ConfigurationSchemaDeclaration,
    CoverageDeclaration, DeclaredCoverage, Determinism, Digest, EffectSet, EvidenceContribution,
    ExecutionModeDeclaration, ExtensionCoverage, ExtensionCoverageStatus, ExtensionEffect, ExtensionIdentity,
    ExtensionInvocationV1, ExtensionLockV1, ExtensionManifestV1, ExtensionOutcome, ExtensionProvenance,
    ExtensionResultV1, ImmutableArtifactReference, InvocationConfiguration, LocalityDeclaration,
    LifecycleEvent, LifecyclePhase, LockedConfiguration, ProcessLimits, Publisher, ReplacementDeclaration,
    ResourceNeeds, TrustMode,
};
use optiflow::extensions::results::validate_result;

const SCHEMA_DOCUMENT: &[u8] = br#"{"type":"object"}"#;
const CONFIG_VALUES: &[u8] = br#"{}"#;

fn path(text: &str) -> NativePath {
    NativePath::from_path(text.as_bytes())
}

fn read_only() -> EffectSet {
    let mut effects = EffectSet::empty();
    effects.insert(ExtensionEffect::ArtifactRead);
    effects
}

fn capability(id: &str, kind: CapabilityKind) -> CapabilityDeclaration {
    CapabilityDeclaration {
        capability_id: id.to_string(),
        capability_version: "1.0.0".to_string(),
        kind,
        configuration_schema: "acme.config".to_string(),
        accepts: vec!["optiflow.file".to_string()],
        produces: vec!["acme.evidence".to_string()],
        preconditions: vec![],
        postconditions: vec![],
        determinism: Determinism::Deterministic,
        cacheability: Cacheability::Cacheable,
        coverage: CoverageDeclaration { mode: DeclaredCoverage::Complete, dimensions: vec![] },
        resource_needs: ResourceNeeds { cpu_threads: 1, memory_bytes: 1024, temporary_storage_bytes: 0, gpu: false },
        locality: LocalityDeclaration { local_only: true, network_hosts: vec![] },
        content_changes: false,
        effects: read_only(),
    }
}

fn manifest(id: &str, version: &str, fallbacks_for: Vec<String>) -> ExtensionManifestV1 {
    ExtensionManifestV1 {
        schema: "optiflow.extension-manifest.v1".to_string(),
        extension_id: id.to_string(),
        version: version.to_string(),
        publisher: Publisher { id: "acme".to_string(), display_name: "Acme".to_string() },
        sdk_contract: "optiflow.extension-sdk.v1".to_string(),
        configuration_schemas: vec![ConfigurationSchemaDeclaration {
            schema_id: "acme.config".to_string(),
            schema_digest: Digest::blake3(SCHEMA_DOCUMENT),
            document: SCHEMA_DOCUMENT.to_vec(),
        }],
        capabilities: vec![capability("optiflow/png/inspect", CapabilityKind::Inspector)],
        execution_modes: vec![ExecutionModeDeclaration::Embedded {
            name: "embedded".to_string(),
            entrypoint: "acme::inspect".to_string(),
        }],
        requested_effects: read_only(),
        replacement: ReplacementDeclaration { replaces: vec![], fallbacks_for },
        observer_hooks: vec![],
    }
}

fn manifest_bytes(id: &str, version: &str) -> Vec<u8> {
    format!("{{\"extension_id\":\"{id}\",\"version\":\"{version}\"}}").into_bytes()
}

fn lock(id: &str, version: &str, manifest_bytes: &[u8], precedence: i32, allowed_fallbacks: Vec<String>) -> ExtensionLockV1 {
    let mut lock = ExtensionLockV1 {
        schema: "optiflow.extension-lock.v1".to_string(),
        lock_id: format!("lock-{id}"),
        extension_id: id.to_string(),
        extension_version: version.to_string(),
        manifest_digest: Digest::blake3(manifest_bytes),
        enabled: true,
        trust: TrustMode::TrustedEmbedded,
        granted_effects: read_only(),
        grants_digest: Digest { algorithm: String::new(), value: String::new() },
        precedence,
        allowed_replacements: vec![],
        allowed_fallbacks,
        selected_execution_mode: "embedded".to_string(),
        process: None,
        configurations: vec![(
            "acme.config".to_string(),
            LockedConfiguration { values: CONFIG_VALUES.to_vec(), fingerprint: Digest::blake3(CONFIG_VALUES) },
        )],
    };
    lock.grants_digest = lock.expected_grants_digest();
    lock
}

fn probe() -> ProcessProbe {
    ProcessProbe {
        executable_digest: Err("not probed".to_string()),
        executable_permission: false,
        working_directory: Err("not probed".to_string()),
    }
}

fn documents(id: &str, version: &str, precedence: i32, fallbacks: Vec<String>) -> (ManifestDocument, LockDocument) {
    let bytes = manifest_bytes(id, version);
    let m = ManifestDocument {
        path: path(&format!("/ext/{id}.extension.json")),
        bytes: bytes.clone(),
        manifest: manifest(id, version, fallbacks.clone()),
    };
    let l = LockDocument {
        path: path(&format!("/ext/{id}.lock.json")),
        bytes: format!("lock {id}").into_bytes(),
        lock: lock(id, version, &bytes, precedence, fallbacks),
        probe: probe(),
    };
    (m, l)
}

fn catalog(specs: &[(&str, i32, Vec<String>)]) -> ExtensionCatalog {
    let mut manifests = Vec::new();
    let mut locks = Vec::new();
    for (id, precedence, fallbacks) in specs {
        let (m, l) = documents(id, "1.0.0", *precedence, fallbacks.clone());
        manifests.push(m);
        locks.push(l);
    }
    ExtensionCatalog::load(manifests, locks).expect("catalog loads")
}

#[test]
fn identifier_syntax_follows_the_sdk_rules() {
    assert!(valid_qualified_id("acme.png-inspector"));
    assert!(!valid_qualified_id("acme"));
    assert!(!valid_qualified_id("Acme.tool"));
    assert!(!valid_qualified_id("acme..tool"));
    assert!(!valid_qualified_id("acme.9tool"));
    assert!(valid_capability_id("optiflow/png/inspect"));
    assert!(!valid_capability_id("optiflow/"));
    assert!(!valid_capability_id("other/png"));
    assert!(!valid_capability_id("optiflow/Png"));
    assert!(valid_semver("1.0.0"));
    assert!(valid_semver("0.10.3"));
    assert!(!valid_semver("01.0.0"));
    assert!(!valid_semver("1.0"));
    assert!(!valid_semver("1..0"));
    assert!(!valid_semver("1.0.0-beta"));
}

#[test]
fn a_well_formed_manifest_is_accepted() {
    let m = manifest("acme.png-inspector", "1.0.0", vec![]);
    assert!(validate_manifest(&path("/ext/m.json"), &m).is_ok());
}

#[test]
fn manifest_rules_report_the_first_broken_rule() {
    let mut m = manifest("Acme", "1.0.0", vec![]);
    match validate_manifest(&path("/ext/m.json"), &m) {
        Err(CatalogError::InvalidInput { message, .. }) => {
            assert_eq!(message, "extension_id must be a lowercase qualified identifier")
        }
        other => panic!("unexpected {other:?}"),
    }
    m.extension_id = "acme.tool".to_string();
    m.capabilities.push(capability("optiflow/png/inspect", CapabilityKind::Inspector));
    match validate_manifest(&path("/ext/m.json"), &m) {
        Err(CatalogError::InvalidInput { message, .. }) => {
            assert_eq!(message, "capability optiflow/png/inspect is declared more than once")
        }
        other => panic!("unexpected {other:?}"),
    }
    let mut m = manifest("acme.tool", "1.0.0", vec![]);
    m.requested_effects.insert(ExtensionEffect::Publish);
    match validate_manifest(&path("/ext/m.json"), &m) {
        Err(CatalogError::InvalidInput { message, .. }) => assert_eq!(
            message,
            "extension SDK v1 cannot request mutation, destructive, signing, or publication authority"
        ),
        other => panic!("unexpected {other:?}"),
    }
    let mut m = manifest("acme.tool", "1.0.0", vec![]);
    m.configuration_schemas[0].schema_digest.value = "0".repeat(64);
    match validate_manifest(&path("/ext/m.json"), &m) {
        Err(CatalogError::InvalidInput { message, .. }) => {
            assert_eq!(message, "configuration schema acme.config fingerprint does not match its document")
        }
        other => panic!("unexpected {other:?}"),
    }
}

#[test]
fn a_consistent_lock_leaves_no_availability_reasons() {
    let bytes = manifest_bytes("acme.tool", "1.0.0");
    let m = manifest("acme.tool", "1.0.0", vec![]);
    let l = lock("acme.tool", "1.0.0", &bytes, 0, vec![]);
    let reasons = availability_reasons(&m, &Digest::blake3(&bytes), &l, &probe());
    assert!(reasons.is_empty(), "{reasons:?}");
}

#[test]
fn availability_reasons_are_sorted_and_unique() {
    let bytes = manifest_bytes("acme.tool", "1.0.0");
    let m = manifest("acme.tool", "1.0.0", vec![]);
    let mut l = lock("acme.tool", "1.0.0", &bytes, 0, vec![]);
    l.enabled = false;
    l.manifest_digest = Digest::blake3(b"other bytes");
    let reasons = availability_reasons(&m, &Digest::blake3(&bytes), &l, &probe());
    assert_eq!(
        reasons,
        vec![
            "the extension is disabled by its operator lock".to_string(),
            "the lock does not pin the exact manifest bytes".to_string(),
            "the lock grants fingerprint is inconsistent".to_string(),
        ]
    );
}

#[test]
fn loading_pairs_manifests_with_locks_in_identifier_order() {
    let c = catalog(&[("acme.zeta", 0, vec![]), ("acme.alpha", 0, vec![])]);
    let ids: Vec<&str> = c.extensions().iter().map(|e| e.manifest.extension_id.as_str()).collect();
    assert_eq!(ids, vec!["acme.alpha", "acme.zeta"]);
    let e = &c.extensions()[0];
    assert_eq!(e.lock.extension_id, "acme.alpha");
    assert_eq!(e.manifest_digest, Digest::blake3(&manifest_bytes("acme.alpha", "1.0.0")));
    assert!(e.availability_reasons.is_empty());
}

#[test]
fn loading_refuses_missing_orphan_and_duplicate_documents() {
    let (m1, _l1) = documents("acme.one", "1.0.0", 0, vec![]);
    match ExtensionCatalog::load(vec![m1], vec![]) {
        Err(CatalogError::MissingLock { extension_id, version }) => {
            assert_eq!((extension_id.as_str(), version.as_str()), ("acme.one", "1.0.0"))
        }
        other => panic!("unexpected {:?}", other.err()),
    }
    let (_m2, l2) = documents("acme.two", "1.0.0", 0, vec![]);
    match ExtensionCatalog::load(vec![], vec![l2]) {
        Err(CatalogError::OrphanLock { extension_id, .. }) => assert_eq!(extension_id, "acme.two"),
        other => panic!("unexpected {:?}", other.err()),
    }
    let (a, _) = documents("acme.dup", "1.0.0", 0, vec![]);
    let (b, _) = documents("acme.dup", "1.0.0", 0, vec![]);
    match ExtensionCatalog::load(vec![a, b], vec![]) {
        Err(CatalogError::DuplicateManifest { extension_id, .. }) => assert_eq!(extension_id, "acme.dup"),
        other => panic!("unexpected {:?}", other.err()),
    }
    let (a, la) = documents("acme.multi", "1.0.0", 0, vec![]);
    let (b, lb) = documents("acme.multi", "2.0.0", 0, vec![]);
    match ExtensionCatalog::load(vec![b, a], vec![la, lb]) {
        Err(CatalogError::InvalidInput { path, message }) => {
            assert_eq!(message, "only one explicitly selected version of an extension may be loaded");
            assert_eq!(path, NativePath::from_path(b"/ext/acme.multi.extension.json"));
        }
        other => panic!("unexpected {:?}", other.err()),
    }
}

#[test]
fn a_unique_eligible_provider_is_selected() {
    let c = catalog(&[("acme.one", 5, vec![])]);
    let r = c.resolve("optiflow/png/inspect");
    assert_eq!(r.status, ExtensionResolutionStatus::Selected);
    assert_eq!(r.selected_extension_id.as_deref(), Some("acme.one"));
    assert_eq!(r.reasons, vec!["selected the unique eligible provider at the highest precedence".to_string()]);
    assert!(c.selected("optiflow/png/inspect").is_some());
}

#[test]
fn tied_eligible_providers_conflict() {
    let c = catalog(&[("acme.one", 5, vec![]), ("acme.two", 5, vec![])]);
    let r = c.resolve("optiflow/png/inspect");
    assert_eq!(r.status, ExtensionResolutionStatus::Conflict);
    assert_eq!(r.selected_extension_id, None);
    assert_eq!(r.candidates.len(), 2);
}

#[test]
fn an_undeclared_capability_is_unavailable() {
    let c = catalog(&[("acme.one", 5, vec![])]);
    let r = c.resolve("optiflow/video/inspect");
    assert_eq!(r.status, ExtensionResolutionStatus::Unavailable);
    assert_eq!(r.reasons, vec!["no provider declares the requested capability".to_string()]);
}

#[test]
fn an_authorized_fallback_replaces_an_unavailable_preferred_provider() {
    let (m1, mut l1) = documents("acme.main", "1.0.0", 9, vec![]);
    l1.lock.enabled = false;
    let (m2, l2) = documents("acme.backup", "1.0.0", 1, vec!["acme.main".to_string()]);
    let c = ExtensionCatalog::load(vec![m1, m2], vec![l1, l2]).expect("catalog loads");
    let r = c.resolve("optiflow/png/inspect");
    assert_eq!(r.status, ExtensionResolutionStatus::Selected);
    assert_eq!(r.selected_extension_id.as_deref(), Some("acme.backup"));
    assert_eq!(r.fallback_extension_ids, vec!["acme.backup".to_string()]);
    assert_eq!(r.candidates[0].extension_id, "acme.main");
    assert!(!r.candidates[0].eligible);
    assert_eq!(
        r.reasons,
        vec!["preferred provider acme.main is unavailable; selected the explicitly authorized fallback".to_string()]
    );
    // The selected provider is an eligible candidate.
    assert!(r.candidates.iter().any(|c| c.extension_id == "acme.backup" && c.eligible));
}

#[test]
fn doctor_reports_a_complete_catalog() {
    let c = catalog(&[("acme.one", 5, vec![])]);
    let report = c.doctor();
    assert!(report.complete);
    assert_eq!(report.extension_count, 1);
    assert_eq!(report.available_extension_count, 1);
    assert_eq!(report.capability_count, 1);
    assert_eq!(report.resolutions[0].capability_id, "optiflow/png/inspect");
    let listed = c.list();
    assert_eq!(listed[0].capability_ids, vec!["optiflow/png/inspect".to_string()]);
    assert!(c.inspect("acme.one").is_ok());
    assert!(matches!(c.inspect("acme.none"), Err(CatalogError::ExtensionNotFound { .. })));
}

fn invocation(e: &LoadedExtension) -> ExtensionInvocationV1 {
    ExtensionInvocationV1 {
        schema: "optiflow.extension-invocation.v1".to_string(),
        invocation_id: "inv-1".to_string(),
        extension: ExtensionIdentity {
            extension_id: e.manifest.extension_id.clone(),
            version: e.manifest.version.clone(),
            manifest_digest: e.manifest_digest.clone(),
        },
        capability_id: "optiflow/png/inspect".to_string(),
        capability_kind: CapabilityKind::Inspector,
        input_artifacts: vec![ImmutableArtifactReference {
            artifact_id: "a1".to_string(),
            schema: "optiflow.file".to_string(),
            content_digest: Digest::blake3(b"file"),
        }],
        input_evidence: vec![],
        configuration: InvocationConfiguration {
            schema_id: "acme.config".to_string(),
            values: CONFIG_VALUES.to_vec(),
            fingerprint: Digest::blake3(CONFIG_VALUES),
        },
        authorization: AuthorizationEvidence {
            lock_id: e.lock.lock_id.clone(),
            lock_digest: e.lock_digest.clone(),
            grants_digest: e.lock.grants_digest.clone(),
            granted_effects: e.lock.granted_effects,
        },
        limits: ProcessLimits { timeout_ms: 1000, max_stdin_bytes: 10, max_stdout_bytes: 10, max_stderr_bytes: 10 },
        cancellation_id: "cancel-1".to_string(),
        checkpoint_references: vec![],
        lifecycle_event: None,
    }
}

fn result_for(e: &LoadedExtension, inv: &ExtensionInvocationV1) -> ExtensionResultV1 {
    ExtensionResultV1 {
        schema: "optiflow.extension-result.v1".to_string(),
        invocation_id: inv.invocation_id.clone(),
        extension: inv.extension.clone(),
        capability_id: inv.capability_id.clone(),
        outcome: ExtensionOutcome::Produced,
        coverage: ExtensionCoverage { status: ExtensionCoverageStatus::Complete, limitations: vec![] },
        consumed_artifacts: vec!["a1".to_string()],
        evidence: vec![EvidenceContribution {
            evidence_id: "ev-1".to_string(),
            schema: "acme.evidence".to_string(),
            value: b"{\"ok\":true}".to_vec(),
            fingerprint: Digest::blake3(b"{\"ok\":true}"),
        }],
        policy_contributions: vec![],
        plan_operations: vec![],
        validations: vec![],
        reports: vec![],
        diagnostics: vec![],
        progress: vec![],
        provenance: ExtensionProvenance {
            extension: inv.extension.clone(),
            capability_id: inv.capability_id.clone(),
            capability_version: "1.0.0".to_string(),
            configuration_fingerprint: inv.configuration.fingerprint.clone(),
            input_fingerprints: vec![Digest::blake3(b"file")],
            authorization_lock_id: e.lock.lock_id.clone(),
            authorization_lock_digest: e.lock_digest.clone(),
            grants_digest: e.lock.grants_digest.clone(),
            execution_mode: e.lock.selected_execution_mode.clone(),
        },
        observed_effects: read_only(),
        checkpoint_references: vec![],
    }
}

#[test]
fn a_bound_invocation_and_its_result_are_accepted() {
    let c = catalog(&[("acme.one", 5, vec![])]);
    let e = &c.extensions()[0];
    let inv = invocation(e);
    assert_eq!(validate_invocation(e, &inv), Ok(()));
    let result = result_for(e, &inv);
    assert_eq!(validate_result(e, &inv, &result), Ok(()));
}

#[test]
fn invocation_and_result_checks_name_the_broken_rule() {
    let c = catalog(&[("acme.one", 5, vec![])]);
    let e = &c.extensions()[0];
    let mut inv = invocation(e);
    inv.configuration.values = b"{\"x\":1}".to_vec();
    assert_eq!(
        validate_invocation(e, &inv),
        Err("invocation configuration does not match locked evidence".to_string())
    );
    let inv = invocation(e);
    let mut result = result_for(e, &inv);
    result.coverage.limitations.push("skipped".to_string());
    assert_eq!(
        validate_result(e, &inv, &result),
        Err("complete extension coverage cannot include limitations".to_string())
    );
    let mut result = result_for(e, &inv);
    result.evidence.push(result.evidence[0].clone());
    assert_eq!(
        validate_result(e, &inv, &result),
        Err("evidence contribution ev-1 is duplicated".to_string())
    );
    let mut result = result_for(e, &inv);
    result.evidence[0].fingerprint = Digest::blake3(b"other");
    assert_eq!(
        validate_result(e, &inv, &result),
        Err("evidence contribution ev-1 has a mismatched fingerprint".to_string())
    );
}

#[test]
fn embedded_registration_checks_role_and_duplicates() {
    let c = catalog(&[("acme.one", 5, vec![])]);
    let e = &c.extensions()[0];
    assert_eq!(admit_embedded(e), Ok(()));
    assert_eq!(check_registration(e, "optiflow/png/inspect", CapabilityKind::Inspector, &vec![]), Ok(()));
    assert_eq!(
        check_registration(e, "optiflow/png/inspect", CapabilityKind::Planner, &vec![]),
        Err(RegistryError::InvalidRegistration {
            capability_id: "optiflow/png/inspect".to_string(),
            message: "the typed handler role does not match the manifest".to_string(),
        })
    );
    assert_eq!(
        check_registration(e, "optiflow/png/inspect", CapabilityKind::Inspector, &vec!["optiflow/png/inspect".to_string()]),
        Err(RegistryError::DuplicateRegistration { capability_id: "optiflow/png/inspect".to_string() })
    );
}

#[test]
fn catalog_errors_describe_themselves() {
    let missing = optiflow::extensions::catalog::CatalogError::MissingLock {
        extension_id: "optiflow/png".to_owned(),
        version: "1.0.0".to_owned(),
    };
    assert_eq!(missing.describe(), "no explicit lock was supplied for extension optiflow/png version 1.0.0");
    let invalid = optiflow::extensions::catalog::CatalogError::InvalidInput {
        path: optiflow::domain::NativePath::from_path(b"/etc/ext/manifest.toml"),
        message: "schema mismatch".to_owned(),
    };
    assert_eq!(invalid.describe(), "/etc/ext/manifest.toml: schema mismatch");
    let orphan = optiflow::extensions::catalog::CatalogError::OrphanLock {
        extension_id: "optiflow/png".to_owned(),
        version: "2.0.0".to_owned(),
    };
    assert_eq!(orphan.describe(), "lock for extension optiflow/png version 2.0.0 has no matching manifest");
}

#[test]
fn registry_and_process_errors_describe_themselves() {
    let rejected = RegistryError::InvocationRejected { capability_id: "optiflow/png/inspect".to_owned(), message: "stale".to_owned() };
    assert_eq!(rejected.describe(), "invocation for optiflow/png/inspect was rejected: stale");
    let cancelled = RegistryError::Cancelled { capability_id: "optiflow/png/inspect".to_owned() };
    assert_eq!(cancelled.describe(), "extension invocation optiflow/png/inspect was cancelled");
    let large = optiflow::extensions::hosting::ProcessExtensionError::InputTooLarge { limit_bytes: 1024, observed_bytes: 4096 };
    assert_eq!(large.describe(), "process extension invocation has 4096 bytes; limit is 1024");
    let failed = optiflow::extensions::hosting::ProcessExtensionError::Process(
        optiflow::subprocess::SubprocessError::Cancelled { program: "inspector".to_owned() },
    );
    assert_eq!(failed.describe(), "process extension failed: inspector was cancelled");
}

#[test]
fn embedded_invocations_need_a_valid_uncancelled_registered_capability() {
    let c = catalog(&[("acme.one", 5, vec![])]);
    let e = &c.extensions()[0];
    let inv = invocation(e);
    let id = inv.capability_id.clone();
    assert_eq!(admit_invocation(e, &inv, false, Some(CapabilityKind::Inspector)), Ok(()));
    assert_eq!(
        admit_invocation(e, &inv, true, Some(CapabilityKind::Inspector)),
        Err(RegistryError::Cancelled { capability_id: id.clone() })
    );
    assert_eq!(
        admit_invocation(e, &inv, false, None),
        Err(RegistryError::MissingRegistration { capability_id: id.clone() })
    );
    let mut broken = invocation(e);
    broken.configuration.values = b"{\"x\":1}".to_vec();
    assert_eq!(
        admit_invocation(e, &broken, false, Some(CapabilityKind::Inspector)),
        Err(RegistryError::InvocationRejected {
            capability_id: id.clone(),
            message: "invocation configuration does not match locked evidence".to_string(),
        })
    );
    let event = LifecycleEvent {
        event_id: "event-1".to_string(),
        invocation_id: inv.invocation_id.clone(),
        sequence: 1,
        phase: LifecyclePhase::Inspect,
        state: "started".to_string(),
        artifact_references: Vec::new(),
        diagnostics: Vec::new(),
    };
    assert_eq!(
        admit_lifecycle_event(e, &inv, &event, false, Some(CapabilityKind::LifecycleObserver)),
        Err(RegistryError::InvocationRejected {
            capability_id: id,
            message: "lifecycle event is not bound to the invocation".to_string(),
        })
    );
}
