//! The checks on what the host sends an extension and on what comes back.

use vstd::prelude::*;
use crate::duplicates::string_views;
use crate::extensions::availability::same_digest;
use crate::extensions::catalog::{capability_index, LoadedExtension};
use crate::extensions::manifest_rules::{digest_matches, digest_of_matches, mode_name, mode_name_of};
use crate::extensions::model::{
    CapabilityDeclaration, CapabilityKind, Digest, EffectSet, EvidenceContribution,
    ExecutionModeDeclaration, ExtensionInvocationV1, ImmutableArtifactReference,
    LockedConfiguration, ObserverHookDeclaration, EXTENSION_INVOCATION_SCHEMA,
};
use crate::text::{compare_strings, owned};

verus! {

/// Two artifact references are the same reference.
pub open spec fn same_reference(a: ImmutableArtifactReference, b: ImmutableArtifactReference) -> bool {
    a.artifact_id@ == b.artifact_id@ && a.schema@ == b.schema@ && same_digest(a.content_digest, b.content_digest)
}

pub(crate) fn same_digest_of(a: &Digest, b: &Digest) -> (r: bool)
    ensures
        r == same_digest(*a, *b),
{
    compare_strings(a.algorithm.as_str(), b.algorithm.as_str()) == 0
        && compare_strings(a.value.as_str(), b.value.as_str()) == 0
}

pub(crate) fn same_reference_of(a: &ImmutableArtifactReference, b: &ImmutableArtifactReference) -> (r: bool)
    ensures
        r == same_reference(*a, *b),
{
    compare_strings(a.artifact_id.as_str(), b.artifact_id.as_str()) == 0
        && compare_strings(a.schema.as_str(), b.schema.as_str()) == 0
        && same_digest_of(&a.content_digest, &b.content_digest)
}

/// `refs` holds a reference equal to `r`.
pub open spec fn holds_reference(refs: Seq<ImmutableArtifactReference>, r: ImmutableArtifactReference) -> bool {
    exists|i: int| 0 <= i < refs.len() && same_reference(#[trigger] refs[i], r)
}

fn holds_reference_of(refs: &Vec<ImmutableArtifactReference>, r: &ImmutableArtifactReference) -> (b: bool)
    ensures
        b == holds_reference(refs@, *r),
{
    let mut k: usize = 0;
    while k < refs.len()
        invariant
            k <= refs@.len(),
            forall|i: int| 0 <= i < k ==> !same_reference(#[trigger] refs@[i], *r),
        decreases refs@.len() - k,
    {
        if same_reference_of(&refs[k], r) {
            return true;
        }
        k = k + 1;
    }
    false
}

/// `texts` holds `t`.
pub open spec fn holds_text(texts: Seq<String>, t: Seq<char>) -> bool {
    exists|i: int| 0 <= i < texts.len() && (#[trigger] texts[i])@ == t
}

pub(crate) fn holds_text_of(texts: &Vec<String>, t: &str) -> (b: bool)
    ensures
        b == holds_text(texts@, t@),
{
    let mut k: usize = 0;
    while k < texts.len()
        invariant
            k <= texts@.len(),
            forall|i: int| 0 <= i < k ==> (#[trigger] texts@[i])@ != t@,
        decreases texts@.len() - k,
    {
        if compare_strings(texts[k].as_str(), t) == 0 {
            assert(texts@[k as int]@ == t@);
            return true;
        }
        k = k + 1;
    }
    false
}

/// The position of the first artifact with identifier `id`, from `from`
/// on, or -1.
pub open spec fn artifact_from(refs: Seq<ImmutableArtifactReference>, id: Seq<char>, from: int) -> int
    decreases refs.len() - from,
{
    if from < 0 || from >= refs.len() {
        -1
    } else if refs[from].artifact_id@ == id {
        from
    } else {
        artifact_from(refs, id, from + 1)
    }
}

/// What is wrong with the `i`-th inline evidence of an invocation, if
/// anything.
pub open spec fn evidence_rule(inv: ExtensionInvocationV1, i: int) -> Option<Seq<char>> {
    let ev = inv.input_evidence@;
    let e = ev[i];
    let a = artifact_from(inv.input_artifacts@, e.evidence_id@, 0);
    if exists|j: int| 0 <= j < i && (#[trigger] ev[j]).evidence_id@ == e.evidence_id@ {
        Some("inline input evidence identifiers must be unique"@)
    } else if a < 0 {
        Some("inline input evidence has no matching artifact reference"@)
    } else if inv.input_artifacts@[a].schema@ != e.schema@ || !same_digest(inv.input_artifacts@[a].content_digest, e.fingerprint)
        || !digest_matches(e.fingerprint, e.value@) {
        Some("inline input evidence does not match its immutable reference"@)
    } else {
        None
    }
}

/// The first problem with inline evidence, from the `i`-th on.
pub open spec fn evidence_problem_from(inv: ExtensionInvocationV1, i: int) -> Option<Seq<char>>
    decreases inv.input_evidence@.len() - i,
{
    if i < 0 || i >= inv.input_evidence@.len() {
        None
    } else {
        match evidence_rule(inv, i) {
            Some(p) => Some(p),
            None => evidence_problem_from(inv, i + 1),
        }
    }
}

/// Two artifacts, among the inputs followed by the checkpoints, share an
/// identifier.
pub open spec fn artifact_ids_repeat(inv: ExtensionInvocationV1) -> bool {
    let all = inv.input_artifacts@ + inv.checkpoint_references@;
    exists|i: int, j: int| 0 <= i < j < all.len() && (#[trigger] all[i]).artifact_id@ == (#[trigger] all[j]).artifact_id@
}

/// A read-only hook of `hooks` is attached to `phase`.
pub open spec fn read_only_hook_for(hooks: Seq<ObserverHookDeclaration>, phase: crate::extensions::model::LifecyclePhase) -> bool {
    exists|i: int| 0 <= i < hooks.len() && (#[trigger] hooks[i]).read_only && hooks[i].lifecycle_points.has(phase)
}

/// What is wrong with the invocation's lifecycle event for a capability of
/// kind `kind`, if anything.
pub open spec fn lifecycle_rule(ext: LoadedExtension, inv: ExtensionInvocationV1, kind: CapabilityKind) -> Option<Seq<char>> {
    match inv.lifecycle_event {
        Some(event) => if kind == CapabilityKind::LifecycleObserver {
            if event.invocation_id@ != inv.invocation_id@ {
                Some("lifecycle event is not bound to its invocation"@)
            } else if exists|i: int| 0 <= i < event.artifact_references@.len()
                && !holds_reference(inv.input_artifacts@, #[trigger] event.artifact_references@[i]) {
                Some("lifecycle event references evidence outside its invocation"@)
            } else if !read_only_hook_for(ext.manifest.observer_hooks@, event.phase) {
                Some("lifecycle event phase is not declared by a read-only hook"@)
            } else {
                None
            }
        } else {
            Some("only a lifecycle observer invocation may contain an event"@)
        },
        None => if kind == CapabilityKind::LifecycleObserver {
            Some("lifecycle observer invocation is missing its event"@)
        } else {
            None
        },
    }
}

/// The position of the first locked configuration for `id`, or -1.
pub open spec fn locked_from(cfgs: Seq<(String, LockedConfiguration)>, id: Seq<char>, from: int) -> int
    decreases cfgs.len() - from,
{
    if from < 0 || from >= cfgs.len() {
        -1
    } else if cfgs[from].0@ == id {
        from
    } else {
        locked_from(cfgs, id, from + 1)
    }
}

/// The position of the first execution mode named `name`, or -1.
pub open spec fn selected_mode_from(modes: Seq<ExecutionModeDeclaration>, name: Seq<char>, from: int) -> int
    decreases modes.len() - from,
{
    if from < 0 || from >= modes.len() {
        -1
    } else if mode_name(modes[from]) == name {
        from
    } else {
        selected_mode_from(modes, name, from + 1)
    }
}

/// What is wrong with the invocation from its configuration on, given the
/// capability it invokes.
pub open spec fn binding_rule(ext: LoadedExtension, inv: ExtensionInvocationV1, c: CapabilityDeclaration) -> Option<Seq<char>> {
    let mode = selected_mode_from(ext.manifest.execution_modes@, ext.lock.selected_execution_mode@, 0);
    let locked = locked_from(ext.lock.configurations@, inv.configuration.schema_id@, 0);
    if inv.configuration.schema_id@ != c.configuration_schema@ {
        Some("invocation configuration schema does not match the capability"@)
    } else if mode < 0 {
        Some("the locked execution mode is unavailable"@)
    } else if (match ext.manifest.execution_modes@[mode] {
        ExecutionModeDeclaration::Process { limits, .. } => inv.limits != limits,
        ExecutionModeDeclaration::Embedded { .. } => false,
    }) {
        Some("invocation limits do not match the pinned process limits"@)
    } else if locked < 0 {
        Some("invocation configuration is not present in the lock"@)
    } else if inv.configuration.values@ != ext.lock.configurations@[locked].1.values@
        || !same_digest(inv.configuration.fingerprint, ext.lock.configurations@[locked].1.fingerprint) {
        Some("invocation configuration does not match locked evidence"@)
    } else if inv.authorization.lock_id@ != ext.lock.lock_id@ || !same_digest(inv.authorization.lock_digest, ext.lock_digest)
        || !same_digest(inv.authorization.grants_digest, ext.lock.grants_digest)
        || inv.authorization.granted_effects != ext.lock.granted_effects {
        Some("invocation authorization does not match the operator lock"@)
    } else if !c.effects.subset_of(inv.authorization.granted_effects) {
        Some("invocation lacks an effect required by its capability"@)
    } else {
        None
    }
}

/// The first rule the invocation breaks for the extension, in the order they
/// are checked, or `None` when it follows all of them.
pub open spec fn invocation_problem(ext: LoadedExtension, inv: ExtensionInvocationV1) -> Option<Seq<char>> {
    let ci = capability_index(ext.manifest.capabilities@, inv.capability_id@);
    let c = ext.manifest.capabilities@[ci];
    if inv.schema@ != EXTENSION_INVOCATION_SCHEMA@ {
        Some("invocation schema is unsupported"@)
    } else if inv.extension.extension_id@ != ext.manifest.extension_id@ || inv.extension.version@ != ext.manifest.version@
        || !same_digest(inv.extension.manifest_digest, ext.manifest_digest) {
        Some("invocation extension identity does not match the resolved provider"@)
    } else if ci < 0 {
        Some("invocation capability is not declared by the provider"@)
    } else if inv.capability_kind != c.kind {
        Some("invocation capability kind does not match the manifest"@)
    } else if exists|i: int| 0 <= i < inv.input_artifacts@.len() && !holds_text(c.accepts@, (#[trigger] inv.input_artifacts@[i]).schema@) {
        Some("invocation contains an artifact schema the capability does not accept"@)
    } else if evidence_problem_from(inv, 0) is Some {
        evidence_problem_from(inv, 0)
    } else if artifact_ids_repeat(inv) {
        Some("invocation artifact identifiers must be unique"@)
    } else if lifecycle_rule(ext, inv, c.kind) is Some {
        lifecycle_rule(ext, inv, c.kind)
    } else {
        binding_rule(ext, inv, c)
    }
}

fn artifact_position(refs: &Vec<ImmutableArtifactReference>, id: &str) -> (r: Option<usize>)
    ensures
        match r {
            Some(k) => k < refs@.len() && artifact_from(refs@, id@, 0) == k,
            None => artifact_from(refs@, id@, 0) == -1,
        },
{
    let mut k: usize = 0;
    while k < refs.len()
        invariant
            k <= refs@.len(),
            artifact_from(refs@, id@, 0) == artifact_from(refs@, id@, k as int),
        decreases refs@.len() - k,
    {
        if compare_strings(refs[k].artifact_id.as_str(), id) == 0 {
            return Some(k);
        }
        k = k + 1;
    }
    None
}

pub(crate) fn selected_mode_position(modes: &Vec<ExecutionModeDeclaration>, name: &str) -> (r: Option<usize>)
    ensures
        match r {
            Some(k) => k < modes@.len() && selected_mode_from(modes@, name@, 0) == k,
            None => selected_mode_from(modes@, name@, 0) == -1,
        },
{
    let mut k: usize = 0;
    while k < modes.len()
        invariant
            k <= modes@.len(),
            selected_mode_from(modes@, name@, 0) == selected_mode_from(modes@, name@, k as int),
        decreases modes@.len() - k,
    {
        if compare_strings(mode_name_of(&modes[k]), name) == 0 {
            return Some(k);
        }
        k = k + 1;
    }
    None
}

fn locked_position(cfgs: &Vec<(String, LockedConfiguration)>, id: &str) -> (r: Option<usize>)
    ensures
        match r {
            Some(k) => k < cfgs@.len() && locked_from(cfgs@, id@, 0) == k,
            None => locked_from(cfgs@, id@, 0) == -1,
        },
{
    let mut k: usize = 0;
    while k < cfgs.len()
        invariant
            k <= cfgs@.len(),
            locked_from(cfgs@, id@, 0) == locked_from(cfgs@, id@, k as int),
        decreases cfgs@.len() - k,
    {
        if compare_strings(cfgs[k].0.as_str(), id) == 0 {
            return Some(k);
        }
        k = k + 1;
    }
    None
}

fn evidence_rule_of(inv: &ExtensionInvocationV1, i: usize) -> (r: Option<String>)
    requires
        i < inv.input_evidence@.len(),
    ensures
        crate::extensions::catalog::optional_text(r) == evidence_rule(*inv, i as int),
{
    let ev = &inv.input_evidence;
    let e = &ev[i];
    let mut j: usize = 0;
    while j < i
        invariant
            j <= i < ev@.len(),
            ev@ == inv.input_evidence@,
            e == ev@[i as int],
            forall|k: int| 0 <= k < j ==> (#[trigger] ev@[k]).evidence_id@ != e.evidence_id@,
        decreases i - j,
    {
        if compare_strings(ev[j].evidence_id.as_str(), e.evidence_id.as_str()) == 0 {
            assert(ev@[j as int].evidence_id@ == ev@[i as int].evidence_id@);
            return Some(owned("inline input evidence identifiers must be unique"));
        }
        j = j + 1;
    }
    let arts = &inv.input_artifacts;
    let a = match artifact_position(arts, e.evidence_id.as_str()) {
        Some(a) => a,
        None => {
            return Some(owned("inline input evidence has no matching artifact reference"));
        },
    };
    let art = &arts[a];
    if compare_strings(art.schema.as_str(), e.schema.as_str()) != 0 || !same_digest_of(&art.content_digest, &e.fingerprint)
        || !digest_of_matches(&e.fingerprint, e.value.as_slice()) {
        return Some(owned("inline input evidence does not match its immutable reference"));
    }
    None
}

fn evidence_problem(inv: &ExtensionInvocationV1) -> (r: Option<String>)
    ensures
        crate::extensions::catalog::optional_text(r) == evidence_problem_from(*inv, 0),
{
    let mut i: usize = 0;
    while i < inv.input_evidence.len()
        invariant
            i <= inv.input_evidence@.len(),
            evidence_problem_from(*inv, 0) == evidence_problem_from(*inv, i as int),
        decreases inv.input_evidence@.len() - i,
    {
        let p = evidence_rule_of(inv, i);
        if p.is_some() {
            return p;
        }
        i = i + 1;
    }
    None
}

fn reference_at(inv: &ExtensionInvocationV1, j: u128) -> (r: &ImmutableArtifactReference)
    requires
        j < inv.input_artifacts@.len() + inv.checkpoint_references@.len(),
    ensures
        *r == (inv.input_artifacts@ + inv.checkpoint_references@)[j as int],
{
    let n1 = inv.input_artifacts.len();
    if j < n1 as u128 {
        let idx = j as usize;
        assert(idx == j);
        &inv.input_artifacts[idx]
    } else {
        let n2 = inv.checkpoint_references.len();
        let d: u128 = j - n1 as u128;
        assert(d < n2);
        let idx = d as usize;
        assert(idx == j - n1);
        &inv.checkpoint_references[idx]
    }
}

fn artifact_ids_repeat_of(inv: &ExtensionInvocationV1) -> (r: bool)
    ensures
        r == artifact_ids_repeat(*inv),
{
    let ghost all = inv.input_artifacts@ + inv.checkpoint_references@;
    let n: u128 = inv.input_artifacts.len() as u128 + inv.checkpoint_references.len() as u128;
    let mut j: u128 = 0;
    while j < n
        invariant
            j <= n,
            n == all.len(),
            all == inv.input_artifacts@ + inv.checkpoint_references@,
            forall|a: int, b: int| 0 <= a < b < j ==> (#[trigger] all[a]).artifact_id@ != (#[trigger] all[b]).artifact_id@,
        decreases n - j,
    {
        let bj = reference_at(inv, j);
        let mut i: u128 = 0;
        while i < j
            invariant
                i <= j < n,
                n == all.len(),
                all == inv.input_artifacts@ + inv.checkpoint_references@,
                *bj == all[j as int],
                forall|a: int| 0 <= a < i ==> (#[trigger] all[a]).artifact_id@ != all[j as int].artifact_id@,
            decreases j - i,
        {
            let bi = reference_at(inv, i);
            if compare_strings(bi.artifact_id.as_str(), bj.artifact_id.as_str()) == 0 {
                assert(all[i as int].artifact_id@ == all[j as int].artifact_id@);
                return true;
            }
            i = i + 1;
        }
        j = j + 1;
    }
    false
}

pub(crate) fn all_held(refs: &Vec<ImmutableArtifactReference>, inputs: &Vec<ImmutableArtifactReference>) -> (r: bool)
    ensures
        r == !(exists|i: int| 0 <= i < refs@.len() && !holds_reference(inputs@, #[trigger] refs@[i])),
{
    let mut k: usize = 0;
    while k < refs.len()
        invariant
            k <= refs@.len(),
            forall|i: int| 0 <= i < k ==> holds_reference(inputs@, #[trigger] refs@[i]),
        decreases refs@.len() - k,
    {
        if !holds_reference_of(inputs, &refs[k]) {
            assert(!holds_reference(inputs@, refs@[k as int]));
            return false;
        }
        k = k + 1;
    }
    true
}

fn read_only_hook_exists(hooks: &Vec<ObserverHookDeclaration>, phase: crate::extensions::model::LifecyclePhase) -> (r: bool)
    ensures
        r == read_only_hook_for(hooks@, phase),
{
    let mut h: usize = 0;
    while h < hooks.len()
        invariant
            h <= hooks@.len(),
            forall|i: int| 0 <= i < h ==> !((#[trigger] hooks@[i]).read_only && hooks@[i].lifecycle_points.has(phase)),
        decreases hooks@.len() - h,
    {
        if hooks[h].read_only && hooks[h].lifecycle_points.contains(phase) {
            assert(hooks@[h as int].read_only && hooks@[h as int].lifecycle_points.has(phase));
            return true;
        }
        h = h + 1;
    }
    false
}

fn all_accepted(arts: &Vec<ImmutableArtifactReference>, accepts: &Vec<String>) -> (r: bool)
    ensures
        r == !(exists|i: int| 0 <= i < arts@.len() && !holds_text(accepts@, (#[trigger] arts@[i]).schema@)),
{
    let mut k: usize = 0;
    while k < arts.len()
        invariant
            k <= arts@.len(),
            forall|i: int| 0 <= i < k ==> holds_text(accepts@, (#[trigger] arts@[i]).schema@),
        decreases arts@.len() - k,
    {
        if !holds_text_of(accepts, arts[k].schema.as_str()) {
            assert(!holds_text(accepts@, arts@[k as int].schema@));
            return false;
        }
        k = k + 1;
    }
    true
}

fn lifecycle_rule_of(ext: &LoadedExtension, inv: &ExtensionInvocationV1, kind: CapabilityKind) -> (r: Option<String>)
    ensures
        crate::extensions::catalog::optional_text(r) == lifecycle_rule(*ext, *inv, kind),
{
    match &inv.lifecycle_event {
        Some(event) => {
            if kind != CapabilityKind::LifecycleObserver {
                return Some(owned("only a lifecycle observer invocation may contain an event"));
            }
            if compare_strings(event.invocation_id.as_str(), inv.invocation_id.as_str()) != 0 {
                return Some(owned("lifecycle event is not bound to its invocation"));
            }
            if !all_held(&event.artifact_references, &inv.input_artifacts) {
                return Some(owned("lifecycle event references evidence outside its invocation"));
            }
            if read_only_hook_exists(&ext.manifest.observer_hooks, event.phase) {
                return None;
            }
            Some(owned("lifecycle event phase is not declared by a read-only hook"))
        },
        None => {
            if kind == CapabilityKind::LifecycleObserver {
                Some(owned("lifecycle observer invocation is missing its event"))
            } else {
                None
            }
        },
    }
}

fn binding_rule_of(ext: &LoadedExtension, inv: &ExtensionInvocationV1, c: &CapabilityDeclaration) -> (r: Option<String>)
    ensures
        crate::extensions::catalog::optional_text(r) == binding_rule(*ext, *inv, *c),
{
    if compare_strings(inv.configuration.schema_id.as_str(), c.configuration_schema.as_str()) != 0 {
        return Some(owned("invocation configuration schema does not match the capability"));
    }
    let modes = &ext.manifest.execution_modes;
    let m = match selected_mode_position(modes, ext.lock.selected_execution_mode.as_str()) {
        Some(m) => m,
        None => {
            return Some(owned("the locked execution mode is unavailable"));
        },
    };
    match &modes[m] {
        ExecutionModeDeclaration::Process { limits, .. } => {
            if inv.limits != *limits {
                return Some(owned("invocation limits do not match the pinned process limits"));
            }
        },
        ExecutionModeDeclaration::Embedded { .. } => {},
    }
    let cfgs = &ext.lock.configurations;
    let k = match locked_position(cfgs, inv.configuration.schema_id.as_str()) {
        Some(k) => k,
        None => {
            return Some(owned("invocation configuration is not present in the lock"));
        },
    };
    let locked = &cfgs[k].1;
    if !bytes_equal(&inv.configuration.values, &locked.values) || !same_digest_of(&inv.configuration.fingerprint, &locked.fingerprint) {
        return Some(owned("invocation configuration does not match locked evidence"));
    }
    if compare_strings(inv.authorization.lock_id.as_str(), ext.lock.lock_id.as_str()) != 0
        || !same_digest_of(&inv.authorization.lock_digest, &ext.lock_digest)
        || !same_digest_of(&inv.authorization.grants_digest, &ext.lock.grants_digest)
        || inv.authorization.granted_effects != ext.lock.granted_effects {
        return Some(owned("invocation authorization does not match the operator lock"));
    }
    if !c.effects.is_subset(&inv.authorization.granted_effects) {
        return Some(owned("invocation lacks an effect required by its capability"));
    }
    None
}

/// Whether two byte strings are equal.
pub(crate) fn bytes_equal(a: &Vec<u8>, b: &Vec<u8>) -> (r: bool)
    ensures
        r == (a@ == b@),
{
    if a.len() != b.len() {
        return false;
    }
    let mut k: usize = 0;
    while k < a.len()
        invariant
            k <= a@.len(),
            a@.len() == b@.len(),
            forall|i: int| 0 <= i < k ==> a@[i] == b@[i],
        decreases a@.len() - k,
    {
        if a[k] != b[k] {
            return false;
        }
        k = k + 1;
    }
    assert(a@ =~= b@);
    true
}

/// Checks an invocation before it is sent to the extension, reporting the
/// first rule it breaks.
pub fn validate_invocation(extension: &LoadedExtension, invocation: &ExtensionInvocationV1) -> (r: Result<(), String>)
    ensures
        match invocation_problem(*extension, *invocation) {
            None => r is Ok,
            Some(problem) => r matches Err(message) && message@ == problem,
        },
{
    let inv = invocation;
    if compare_strings(inv.schema.as_str(), EXTENSION_INVOCATION_SCHEMA) != 0 {
        return Err(owned("invocation schema is unsupported"));
    }
    if compare_strings(inv.extension.extension_id.as_str(), extension.manifest.extension_id.as_str()) != 0
        || compare_strings(inv.extension.version.as_str(), extension.manifest.version.as_str()) != 0
        || !same_digest_of(&inv.extension.manifest_digest, &extension.manifest_digest) {
        return Err(owned("invocation extension identity does not match the resolved provider"));
    }
    proof {
        crate::extensions::catalog::lemma_capability_index_range(extension.manifest.capabilities@, inv.capability_id@);
    }
    let c = match extension.capability(inv.capability_id.as_str()) {
        Some(c) => c,
        None => {
            return Err(owned("invocation capability is not declared by the provider"));
        },
    };
    if inv.capability_kind != c.kind {
        return Err(owned("invocation capability kind does not match the manifest"));
    }
    if !all_accepted(&inv.input_artifacts, &c.accepts) {
        return Err(owned("invocation contains an artifact schema the capability does not accept"));
    }
    match evidence_problem(inv) {
        Some(p) => {
            return Err(p);
        },
        None => {},
    }
    if artifact_ids_repeat_of(inv) {
        return Err(owned("invocation artifact identifiers must be unique"));
    }
    match lifecycle_rule_of(extension, inv, c.kind) {
        Some(p) => {
            return Err(p);
        },
        None => {},
    }
    match binding_rule_of(extension, inv, c) {
        Some(p) => Err(p),
        None => Ok(()),
    }
}

} // verus!
