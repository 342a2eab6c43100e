use optiflow::cli::OutputFormat;
use optiflow::configuration::policy::{
    build_effective_policy, validate_fingerprints, EvidencePolicy, ExactGroupingProfile,
    PolicyProvenance, PolicySourceKind, SettingProvenance, StabilityRequirement, UnstableObservationPolicy,
};

fn evidence() -> EvidencePolicy {
    EvidencePolicy {
        follow_symlinks: false,
        include_hidden: false,
        cross_filesystems: false,
        probe_media: true,
        exact_grouping_profile: ExactGroupingProfile::SizeAndBlake3_256,
        observation_stability: StabilityRequirement::Required,
        unstable_observations: UnstableObservationPolicy::Exclude,
        maximum_observation_attempts: 2,
    }
}

#[test]
fn presentation_changes_do_not_change_evidence_fingerprint() {
    let human = build_effective_policy(evidence(), b"/tmp/state", OutputFormat::Human, Vec::new())
        .expect("human policy");
    let json = build_effective_policy(evidence(), b"/tmp/state", OutputFormat::Json, Vec::new())
        .expect("JSON policy");

    assert_eq!(human.fingerprints.evidence_policy, json.fingerprints.evidence_policy);
    assert_ne!(
        human.fingerprints.effective_configuration,
        json.fingerprints.effective_configuration
    );
}

#[test]
fn provenance_does_not_change_semantic_fingerprints() {
    let first_provenance = vec![SettingProvenance {
        setting: "presentation_policy.output_format".to_owned(),
        provenance: PolicyProvenance {
            source: PolicySourceKind::CompiledDefault,
            detail: "default".to_owned(),
            path: None,
        },
    }];
    let mut second_provenance = first_provenance.clone();
    second_provenance
        .iter_mut()
        .find(|e| e.setting == "presentation_policy.output_format")
        .expect("provenance")
        .provenance
        .source = PolicySourceKind::CommandLine;

    let first = build_effective_policy(evidence(), b"/tmp/state", OutputFormat::Human, first_provenance)
        .expect("first policy");
    let second = build_effective_policy(evidence(), b"/tmp/state", OutputFormat::Human, second_provenance)
        .expect("second policy");
    assert_eq!(first.fingerprints, second.fingerprints);
}

#[test]
fn evidence_changes_change_the_evidence_fingerprint() {
    let first = build_effective_policy(evidence(), b"/tmp/state", OutputFormat::Human, Vec::new())
        .expect("first policy");
    let mut changed = evidence();
    changed.include_hidden = true;
    let second = build_effective_policy(changed, b"/tmp/state", OutputFormat::Human, Vec::new())
        .expect("second policy");
    assert_ne!(first.fingerprints.evidence_policy, second.fingerprints.evidence_policy);
}

#[test]
fn fingerprint_mismatch_fails_closed() {
    let mut policy = build_effective_policy(evidence(), b"/tmp/state", OutputFormat::Human, Vec::new())
        .expect("policy");
    policy.fingerprints.evidence_policy.value = "0".repeat(64);
    assert!(validate_fingerprints(&policy).is_err());
}

#[test]
fn built_policy_passes_its_own_fingerprint_check() {
    let policy = build_effective_policy(evidence(), b"/tmp/state", OutputFormat::Json, Vec::new())
        .expect("policy");
    assert!(validate_fingerprints(&policy).is_ok());
    assert_eq!(policy.fingerprints.evidence_policy.value.len(), 64);
}

#[test]
fn unsupported_policy_schema_is_refused() {
    let mut policy = build_effective_policy(evidence(), b"/tmp/state", OutputFormat::Human, Vec::new())
        .expect("policy");
    policy.schema = "optiflow.effective-policy.v0".to_owned();
    assert_eq!(
        validate_fingerprints(&policy).unwrap_err(),
        "unsupported effective-policy schema"
    );
}
