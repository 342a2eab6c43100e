//! `config explain`: the value, provenance, shadowed values and description
//! of one canonical setting of a resolved configuration.

use vstd::prelude::*;
use crate::cli::OutputFormat;
use crate::configuration::policy::{
    EffectivePolicyV1, ExactGroupingProfile, PolicyProvenance, SettingProvenance, StabilityRequirement,
    UnstableObservationPolicy,
};
use crate::configuration::resolver::{
    canonical_setting, copy_provenance, first_entry_for, internal_diagnostic, is_input_diagnostic,
    setting_description, setting_diagnostic, setting_metadata, spec_canonical_setting,
    ConfigurationResolution, ProvenanceView, SettingDescription,
    SettingValue, ShadowView, ShadowedValue,
};
use crate::domain::NativePath;
use crate::json::push_str;
use crate::outcome::{
    Diagnostic, DiagnosticClassification, DiagnosticCode, DiagnosticImpact, DiagnosticSeverity,
};
use crate::text::{compare_strings, owned, string_of};

verus! {

/// The value of one setting of the effective policy.
#[derive(Debug, Clone, PartialEq, Eq)]
pub enum ExplainedValue {
    Format(OutputFormat),
    Directory(NativePath),
    Flag(bool),
    GroupingProfile(ExactGroupingProfile),
    Stability(StabilityRequirement),
    UnstableObservations(UnstableObservationPolicy),
    Attempts(u32),
}

/// Everything `config explain` reports about one setting.
#[derive(Debug, Clone)]
pub struct SettingExplanation {
    pub setting: String,
    pub value: ExplainedValue,
    pub provenance: PolicyProvenance,
    pub shadowed_values: Vec<ShadowedValue>,
    pub category: String,
    pub affects_evidence: bool,
    pub locked: bool,
    pub constraints: String,
    pub environment_variable: Option<String>,
    pub cli_argument: Option<String>,
}

/// The value the effective policy holds for a canonical setting.
pub open spec fn policy_value(p: EffectivePolicyV1, setting: Seq<char>) -> Option<ExplainedValue> {
    let e = p.evidence_policy;
    let s = p.safety_invariants;
    if setting == "presentation_policy.output_format"@ {
        Some(ExplainedValue::Format(p.presentation_policy.output_format))
    } else if setting == "operational_policy.state_directory"@ {
        Some(ExplainedValue::Directory(p.operational_policy.state_directory))
    } else if setting == "evidence_policy.follow_symlinks"@ {
        Some(ExplainedValue::Flag(e.follow_symlinks))
    } else if setting == "evidence_policy.include_hidden"@ {
        Some(ExplainedValue::Flag(e.include_hidden))
    } else if setting == "evidence_policy.cross_filesystems"@ {
        Some(ExplainedValue::Flag(e.cross_filesystems))
    } else if setting == "evidence_policy.probe_media"@ {
        Some(ExplainedValue::Flag(e.probe_media))
    } else if setting == "evidence_policy.exact_grouping_profile"@ {
        Some(ExplainedValue::GroupingProfile(e.exact_grouping_profile))
    } else if setting == "evidence_policy.observation_stability"@ {
        Some(ExplainedValue::Stability(e.observation_stability))
    } else if setting == "evidence_policy.unstable_observations"@ {
        Some(ExplainedValue::UnstableObservations(e.unstable_observations))
    } else if setting == "evidence_policy.maximum_observation_attempts"@ {
        Some(ExplainedValue::Attempts(e.maximum_observation_attempts))
    } else if setting == "safety_invariants.source_mutation"@ {
        Some(ExplainedValue::Flag(s.source_mutation))
    } else if setting == "safety_invariants.apply_enabled"@ {
        Some(ExplainedValue::Flag(s.apply_enabled))
    } else if setting == "safety_invariants.shell_execution"@ {
        Some(ExplainedValue::Flag(s.shell_execution))
    } else if setting == "safety_invariants.artifact_validation_required"@ {
        Some(ExplainedValue::Flag(s.artifact_validation_required))
    } else if setting == "safety_invariants.atomic_artifact_commit_required"@ {
        Some(ExplainedValue::Flag(s.atomic_artifact_commit_required))
    } else if setting == "safety_invariants.current_stability_required_for_exact_groups"@ {
        Some(ExplainedValue::Flag(s.current_stability_required_for_exact_groups))
    } else {
        None
    }
}

pub open spec fn text_option(o: Option<String>) -> Option<Seq<char>> {
    match o {
        Some(s) => Some(s@),
        None => None,
    }
}

/// Whether the explanation's descriptive fields are those of `d`.
pub open spec fn described_as(e: SettingExplanation, d: SettingDescription) -> bool {
    &&& e.category@ == d.category
    &&& e.affects_evidence == d.affects_evidence
    &&& e.locked == d.locked
    &&& e.constraints@ == d.constraints
    &&& text_option(e.environment_variable) == d.environment_variable
    &&& text_option(e.cli_argument) == d.cli_argument
}

/// The shadowed values recorded for one setting, in their order.
pub open spec fn shadows_of(s: Seq<ShadowView>, setting: Seq<char>) -> Seq<ShadowView>
    decreases s.len(),
{
    if s.len() == 0 {
        Seq::empty()
    } else {
        let rest = shadows_of(s.drop_last(), setting);
        if s.last().setting == setting {
            rest.push(s.last())
        } else {
            rest
        }
    }
}

pub open spec fn shadow_views(s: Seq<ShadowedValue>) -> Seq<ShadowView> {
    s.map_values(|v: ShadowedValue| v@)
}

fn copy_shadow(s: &ShadowedValue) -> (r: ShadowedValue)
    ensures
        r@ == s@,
{
    let value = match &s.value {
        SettingValue::Format(f) => SettingValue::Format(*f),
        SettingValue::Directory(d) => {
            let c = d.clone();
            assert(c@ =~= d@);
            SettingValue::Directory(c)
        },
        SettingValue::Flag(b) => SettingValue::Flag(*b),
    };
    ShadowedValue { setting: s.setting.clone(), value, provenance: copy_provenance(&s.provenance) }
}

fn text_copy(o: Option<&'static str>) -> (r: Option<String>)
    ensures
        text_option(r) == match o {
            Some(s) => Some(s@),
            None => None::<Seq<char>>,
        },
{
    match o {
        Some(s) => Some(owned(s)),
        None => None,
    }
}

fn explained_value(p: &EffectivePolicyV1, setting: &str) -> (v: ExplainedValue)
    requires
        policy_value(*p, setting@) is Some,
    ensures
        policy_value(*p, setting@) == Some(v),
{
    let e = &p.evidence_policy;
    let s = &p.safety_invariants;
    if compare_strings(setting, "presentation_policy.output_format") == 0 {
        ExplainedValue::Format(p.presentation_policy.output_format)
    } else if compare_strings(setting, "operational_policy.state_directory") == 0 {
        ExplainedValue::Directory(p.operational_policy.state_directory.copy())
    } else if compare_strings(setting, "evidence_policy.follow_symlinks") == 0 {
        ExplainedValue::Flag(e.follow_symlinks)
    } else if compare_strings(setting, "evidence_policy.include_hidden") == 0 {
        ExplainedValue::Flag(e.include_hidden)
    } else if compare_strings(setting, "evidence_policy.cross_filesystems") == 0 {
        ExplainedValue::Flag(e.cross_filesystems)
    } else if compare_strings(setting, "evidence_policy.probe_media") == 0 {
        ExplainedValue::Flag(e.probe_media)
    } else if compare_strings(setting, "evidence_policy.exact_grouping_profile") == 0 {
        ExplainedValue::GroupingProfile(e.exact_grouping_profile)
    } else if compare_strings(setting, "evidence_policy.observation_stability") == 0 {
        ExplainedValue::Stability(e.observation_stability)
    } else if compare_strings(setting, "evidence_policy.unstable_observations") == 0 {
        ExplainedValue::UnstableObservations(e.unstable_observations)
    } else if compare_strings(setting, "evidence_policy.maximum_observation_attempts") == 0 {
        ExplainedValue::Attempts(e.maximum_observation_attempts)
    } else if compare_strings(setting, "safety_invariants.source_mutation") == 0 {
        ExplainedValue::Flag(s.source_mutation)
    } else if compare_strings(setting, "safety_invariants.apply_enabled") == 0 {
        ExplainedValue::Flag(s.apply_enabled)
    } else if compare_strings(setting, "safety_invariants.shell_execution") == 0 {
        ExplainedValue::Flag(s.shell_execution)
    } else if compare_strings(setting, "safety_invariants.artifact_validation_required") == 0 {
        ExplainedValue::Flag(s.artifact_validation_required)
    } else if compare_strings(setting, "safety_invariants.atomic_artifact_commit_required") == 0 {
        ExplainedValue::Flag(s.atomic_artifact_commit_required)
    } else {
        ExplainedValue::Flag(s.current_stability_required_for_exact_groups)
    }
}

proof fn lemma_canonical_has_value(p: EffectivePolicyV1, requested: Seq<char>, c: Seq<char>)
    requires
        spec_canonical_setting(requested) == Some(c),
    ensures
        policy_value(p, c) is Some,
{
}

fn shadows_for(all: &Vec<ShadowedValue>, setting: &str) -> (r: Vec<ShadowedValue>)
    ensures
        shadow_views(r@) == shadows_of(shadow_views(all@), setting@),
{
    let mut r: Vec<ShadowedValue> = Vec::new();
    let mut i: usize = 0;
    while i < all.len()
        invariant
            i <= all.len(),
            shadow_views(r@) == shadows_of(shadow_views(all@.take(i as int)), setting@),
        decreases all.len() - i,
    {
        let ghost before = r@;
        let s = &all[i];
        assert(shadow_views(all@.take(i + 1)).drop_last() =~= shadow_views(all@.take(i as int)));
        assert(shadow_views(all@.take(i + 1)).last() == all@[i as int]@);
        if compare_strings(s.setting.as_str(), setting) == 0 {
            r.push(copy_shadow(s));
            assert(shadow_views(r@) =~= shadow_views(before).push(all@[i as int]@));
        }
        i = i + 1;
    }
    assert(all@.take(all@.len() as int) =~= all@);
    r
}

/// A copy of the provenance of the first entry for `setting`, if any.
fn provenance_for(entries: &Vec<SettingProvenance>, setting: &str) -> (r: Option<PolicyProvenance>)
    ensures
        match r {
            Some(p) => exists|i: int| first_entry_for(entries@, setting@, i) && entries@[i].provenance@ == p@,
            None => forall|i: int| 0 <= i < entries@.len() ==> (#[trigger] entries@[i]).setting@ != setting@,
        },
{
    let mut i: usize = 0;
    while i < entries.len()
        invariant
            i <= entries@.len(),
            forall|j: int| 0 <= j < i ==> (#[trigger] entries@[j]).setting@ != setting@,
        decreases entries@.len() - i,
    {
        if compare_strings(entries[i].setting.as_str(), setting) == 0 {
            let p = copy_provenance(&entries[i].provenance);
            assert(first_entry_for(entries@, setting@, i as int));
            return Some(p);
        }
        i = i + 1;
    }
    None
}

impl ConfigurationResolution {
    /// Explains one setting, named canonically or by its configuration-file
    /// spelling: its effective value, where it came from, the values it
    /// shadowed, and how it may be configured.
    pub fn explain(&self, requested: &str) -> (r: Result<SettingExplanation, Box<Diagnostic>>)
        ensures
            match spec_canonical_setting(requested@) {
                None => match r {
                    Err(d) => {
                        &&& is_input_diagnostic(*d, DiagnosticCode::ConfigurationSettingUnknown, "the requested configuration setting is unknown"@)
                        &&& d.context.setting matches Some(v) && v@ == requested@
                    },
                    Ok(_) => false,
                },
                Some(c) => match r {
                    Ok(e) => {
                        &&& e.setting@ == c
                        &&& policy_value(self.policy, c) == Some(e.value)
                        &&& exists|i: int| first_entry_for(self.policy.provenance@, c, i)
                            && self.policy.provenance@[i].provenance@ == e.provenance@
                        &&& shadow_views(e.shadowed_values@) == shadows_of(shadow_views(self.shadowed_values@), c)
                        &&& described_as(e, setting_description(c))
                    },
                    Err(d) => {
                        &&& d.code == DiagnosticCode::EffectivePolicyInvalid
                        &&& d.severity == DiagnosticSeverity::Fatal
                        &&& d.classification == DiagnosticClassification::Internal
                        &&& d.impact == DiagnosticImpact::BlocksCommand
                        &&& d.message@ == "the effective policy omitted provenance for "@ + c
                        &&& forall|i: int| 0 <= i < self.policy.provenance@.len()
                            ==> (#[trigger] self.policy.provenance@[i]).setting@ != c
                    },
                },
            },
    {
        let canonical = match canonical_setting(requested) {
            Some(c) => c,
            None => {
                return Err(setting_diagnostic(
                    DiagnosticCode::ConfigurationSettingUnknown,
                    requested,
                    owned("the requested configuration setting is unknown"),
                ));
            },
        };
        let ghost c = canonical@;
        let provenance = match provenance_for(&self.policy.provenance, canonical) {
            Some(p) => p,
            None => {
                let mut text: Vec<char> = Vec::new();
                push_str(&mut text, "the effective policy omitted provenance for ");
                push_str(&mut text, canonical);
                assert(text@ =~= "the effective policy omitted provenance for "@ + c);
                return Err(internal_diagnostic(DiagnosticCode::EffectivePolicyInvalid, string_of(&text)));
            },
        };
        proof {
            lemma_canonical_has_value(self.policy, requested@, c);
        }
        let value = explained_value(&self.policy, canonical);
        let metadata = setting_metadata(canonical);
        let explanation = SettingExplanation {
            setting: owned(canonical),
            value,
            provenance,
            shadowed_values: shadows_for(&self.shadowed_values, canonical),
            category: owned(metadata.category),
            affects_evidence: metadata.affects_evidence,
            locked: metadata.locked,
            constraints: owned(metadata.constraints),
            environment_variable: text_copy(metadata.environment_variable),
            cli_argument: text_copy(metadata.cli_argument),
        };
        Ok(explanation)
    }
}

} // verus!
