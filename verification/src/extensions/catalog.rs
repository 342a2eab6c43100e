//! The loaded extensions and the choice of a provider for each capability.

use vstd::prelude::*;
use crate::domain::{display_text, NativePath};
use crate::json::push_str;
use crate::text::string_of;
use crate::duplicates::string_views;
use crate::extensions::model::{
    CapabilityDeclaration, Digest, EffectSet, ExecutionModeDeclaration, ExtensionLockV1,
    ExtensionManifestV1, LockedConfiguration, TrustMode, EXTENSION_SDK_CONTRACT,
};
use crate::sorting::{items_of, keyed, sort_by_key, sorted_unique, spec_sort_by_key, strictly_ascending};
use crate::text::{chars_less, compare_strings, owned};

verus! {

/// Why a set of extension documents could not be loaded.
#[derive(Debug, Clone, PartialEq, Eq)]
pub enum CatalogError {
    InvalidInput { path: NativePath, message: String },
    DuplicateManifest { extension_id: String, version: String },
    DuplicateLock { extension_id: String, version: String },
    MissingLock { extension_id: String, version: String },
    OrphanLock { extension_id: String, version: String },
    ExtensionNotFound { extension_id: String },
}

impl CatalogError {
    /// The document the error is about, where it names one.
    pub fn path(&self) -> (p: Option<&NativePath>)
        ensures
            match self {
                CatalogError::InvalidInput { path, .. } => p == Some(path),
                _ => p.is_none(),
            },
    {
        match self {
            CatalogError::InvalidInput { path, .. } => Some(path),
            _ => None,
        }
    }

    /// The error's message.
    pub fn describe(&self) -> (text: String)
        ensures
            text@ == catalog_error_text(*self),
    {
        let mut t: Vec<char> = Vec::new();
        match self {
            CatalogError::InvalidInput { path, message } => {
                let shown = path.display();
                push_str(&mut t, shown.as_str());
                push_str(&mut t, ": ");
                push_str(&mut t, message.as_str());
            },
            CatalogError::DuplicateManifest { extension_id, version } => {
                push_str(&mut t, "duplicate manifest for extension ");
                push_str(&mut t, extension_id.as_str());
                push_str(&mut t, " version ");
                push_str(&mut t, version.as_str());
            },
            CatalogError::DuplicateLock { extension_id, version } => {
                push_str(&mut t, "duplicate lock for extension ");
                push_str(&mut t, extension_id.as_str());
                push_str(&mut t, " version ");
                push_str(&mut t, version.as_str());
            },
            CatalogError::MissingLock { extension_id, version } => {
                push_str(&mut t, "no explicit lock was supplied for extension ");
                push_str(&mut t, extension_id.as_str());
                push_str(&mut t, " version ");
                push_str(&mut t, version.as_str());
            },
            CatalogError::OrphanLock { extension_id, version } => {
                push_str(&mut t, "lock for extension ");
                push_str(&mut t, extension_id.as_str());
                push_str(&mut t, " version ");
                push_str(&mut t, version.as_str());
                push_str(&mut t, " has no matching manifest");
            },
            CatalogError::ExtensionNotFound { extension_id } => {
                push_str(&mut t, "extension ");
                push_str(&mut t, extension_id.as_str());
                push_str(&mut t, " was not found");
            },
        }
        assert(t@ =~= catalog_error_text(*self));
        string_of(&t)
    }
}

/// The message of a catalog error.
pub open spec fn catalog_error_text(e: CatalogError) -> Seq<char> {
    match e {
        CatalogError::InvalidInput { path, message } => display_text(path@) + ": "@ + message@,
        CatalogError::DuplicateManifest { extension_id, version } =>
            "duplicate manifest for extension "@ + extension_id@ + " version "@ + version@,
        CatalogError::DuplicateLock { extension_id, version } =>
            "duplicate lock for extension "@ + extension_id@ + " version "@ + version@,
        CatalogError::MissingLock { extension_id, version } =>
            "no explicit lock was supplied for extension "@ + extension_id@ + " version "@ + version@,
        CatalogError::OrphanLock { extension_id, version } =>
            "lock for extension "@ + extension_id@ + " version "@ + version@ + " has no matching manifest"@,
        CatalogError::ExtensionNotFound { extension_id } => "extension "@ + extension_id@ + " was not found"@,
    }
}

/// A manifest together with the operator lock that admits it.
#[derive(Debug, Clone)]
pub struct LoadedExtension {
    pub manifest_path: NativePath,
    pub lock_path: NativePath,
    pub manifest_digest: Digest,
    pub lock_digest: Digest,
    pub manifest: ExtensionManifestV1,
    pub lock: ExtensionLockV1,
    pub availability_reasons: Vec<String>,
}

/// The position of the first capability named `id`, from `from` on, or -1.
pub open spec fn capability_from(caps: Seq<CapabilityDeclaration>, id: Seq<char>, from: int) -> int
    decreases caps.len() - from,
{
    if from < 0 || from >= caps.len() {
        -1
    } else if caps[from].capability_id@ == id {
        from
    } else {
        capability_from(caps, id, from + 1)
    }
}

/// The position of the first capability named `id`, or -1.
pub open spec fn capability_index(caps: Seq<CapabilityDeclaration>, id: Seq<char>) -> int {
    capability_from(caps, id, 0)
}

proof fn lemma_capability_from_range(caps: Seq<CapabilityDeclaration>, id: Seq<char>, from: int)
    requires
        0 <= from,
    ensures
        capability_from(caps, id, from) == -1 || (from <= capability_from(caps, id, from) < caps.len()
            && caps[capability_from(caps, id, from)].capability_id@ == id),
    decreases caps.len() - from,
{
    if from < caps.len() && caps[from].capability_id@ != id {
        lemma_capability_from_range(caps, id, from + 1);
    }
}

pub proof fn lemma_capability_index_range(caps: Seq<CapabilityDeclaration>, id: Seq<char>)
    ensures
        capability_index(caps, id) == -1 || (0 <= capability_index(caps, id) < caps.len()
            && caps[capability_index(caps, id)].capability_id@ == id),
{
    lemma_capability_from_range(caps, id, 0);
}

/// Whether a lock holds a configuration for the schema `id`.
pub open spec fn has_configuration(cfgs: Seq<(String, LockedConfiguration)>, id: Seq<char>) -> bool {
    exists|i: int| 0 <= i < cfgs.len() && (#[trigger] cfgs[i]).0@ == id
}

impl LoadedExtension {
    pub fn manifest(&self) -> (r: &ExtensionManifestV1)
        ensures
            r == &self.manifest,
    {
        &self.manifest
    }

    pub fn lock(&self) -> (r: &ExtensionLockV1)
        ensures
            r == &self.lock,
    {
        &self.lock
    }

    pub fn manifest_path(&self) -> (r: &NativePath)
        ensures
            r == &self.manifest_path,
    {
        &self.manifest_path
    }

    pub fn lock_path(&self) -> (r: &NativePath)
        ensures
            r == &self.lock_path,
    {
        &self.lock_path
    }

    pub fn manifest_digest(&self) -> (r: &Digest)
        ensures
            r == &self.manifest_digest,
    {
        &self.manifest_digest
    }

    pub fn lock_digest(&self) -> (r: &Digest)
        ensures
            r == &self.lock_digest,
    {
        &self.lock_digest
    }

    pub fn availability_reasons(&self) -> (r: &[String])
        ensures
            r@ == self.availability_reasons@,
    {
        self.availability_reasons.as_slice()
    }

    /// The first capability the manifest declares under `capability_id`.
    pub fn capability(&self, capability_id: &str) -> (r: Option<&CapabilityDeclaration>)
        ensures
            ({
                let i = capability_index(self.manifest.capabilities@, capability_id@);
                match r {
                    Some(c) => i >= 0 && *c == self.manifest.capabilities@[i],
                    None => i == -1,
                }
            }),
    {
        let caps = &self.manifest.capabilities;
        let mut k: usize = 0;
        while k < caps.len()
            invariant
                k <= caps@.len(),
                caps@ == self.manifest.capabilities@,
                capability_index(caps@, capability_id@) == capability_from(caps@, capability_id@, k as int),
            decreases caps@.len() - k,
        {
            if compare_strings(caps[k].capability_id.as_str(), capability_id) == 0 {
                assert(caps@[k as int].capability_id@ == capability_id@);
                assert(capability_from(caps@, capability_id@, k as int) == k);
                return Some(&caps[k]);
            }
            k = k + 1;
        }
        None
    }

    /// Whether the lock holds a configuration for the schema `schema_id`.
    pub fn has_locked_configuration(&self, schema_id: &str) -> (r: bool)
        ensures
            r == has_configuration(self.lock.configurations@, schema_id@),
    {
        let cfgs = &self.lock.configurations;
        let mut k: usize = 0;
        while k < cfgs.len()
            invariant
                k <= cfgs@.len(),
                cfgs@ == self.lock.configurations@,
                forall|j: int| 0 <= j < k ==> (#[trigger] cfgs@[j]).0@ != schema_id@,
            decreases cfgs@.len() - k,
        {
            if compare_strings(cfgs[k].0.as_str(), schema_id) == 0 {
                assert(cfgs@[k as int].0@ == schema_id@);
                return true;
            }
            k = k + 1;
        }
        false
    }

    /// Whether the extension may serve `capability`: it has no availability
    /// problem, the lock grants every effect the capability needs, and the
    /// lock holds the capability's configuration.
    pub fn is_available_for(&self, capability: &CapabilityDeclaration) -> (r: bool)
        ensures
            r == (self.availability_reasons@.len() == 0
                && capability.effects.subset_of(self.lock.granted_effects)
                && has_configuration(self.lock.configurations@, capability.configuration_schema@)),
    {
        self.availability_reasons.len() == 0 && capability.effects.is_subset(&self.lock.granted_effects)
            && self.has_locked_configuration(capability.configuration_schema.as_str())
    }
}

/// How a capability's provider was decided.
#[derive(Debug, Clone, Copy, PartialEq, Eq, Structural)]
pub enum ExtensionResolutionStatus {
    Selected,
    Unavailable,
    Conflict,
}

/// One extension that declares the capability being resolved.
#[derive(Debug, Clone, PartialEq, Eq)]
pub struct ResolutionCandidate {
    pub extension_id: String,
    pub version: String,
    pub precedence: i32,
    pub eligible: bool,
    pub reasons: Vec<String>,
}

/// A candidate as text.
pub struct CandidateView {
    pub extension_id: Seq<char>,
    pub version: Seq<char>,
    pub precedence: i32,
    pub eligible: bool,
    pub reasons: Seq<Seq<char>>,
}

impl View for ResolutionCandidate {
    type V = CandidateView;

    open spec fn view(&self) -> CandidateView {
        CandidateView {
            extension_id: self.extension_id@,
            version: self.version@,
            precedence: self.precedence,
            eligible: self.eligible,
            reasons: string_views(self.reasons@),
        }
    }
}

/// The views of a sequence of candidates.
pub open spec fn candidate_views(v: Seq<ResolutionCandidate>) -> Seq<CandidateView> {
    v.map_values(|c: ResolutionCandidate| c@)
}

/// The decision on one capability.
#[derive(Debug, Clone, PartialEq, Eq)]
pub struct ExtensionResolution {
    pub capability_id: String,
    pub status: ExtensionResolutionStatus,
    pub selected_extension_id: Option<String>,
    pub candidates: Vec<ResolutionCandidate>,
    pub fallback_extension_ids: Vec<String>,
    pub reasons: Vec<String>,
}

/// The extensions a catalog holds, sorted by identifier and version.
pub struct ExtensionCatalog {
    extensions: Vec<LoadedExtension>,
}

pub open spec fn effects_not_granted_reason() -> Seq<char> {
    "the lock does not grant every effect required by the capability"@
}

pub open spec fn missing_configuration_reason(schema: Seq<char>) -> Seq<char> {
    "locked configuration "@ + schema + " is missing"@
}

/// What the catalog reports for extension `e` offering capability `c`.
pub open spec fn candidate_of(e: LoadedExtension, c: CapabilityDeclaration) -> CandidateView {
    let reasons = string_views(e.availability_reasons@)
        + (if c.effects.subset_of(e.lock.granted_effects) { seq![] } else { seq![effects_not_granted_reason()] })
        + (if has_configuration(e.lock.configurations@, c.configuration_schema@) {
            seq![]
        } else {
            seq![missing_configuration_reason(c.configuration_schema@)]
        });
    CandidateView {
        extension_id: e.manifest.extension_id@,
        version: e.manifest.version@,
        precedence: e.lock.precedence,
        eligible: reasons.len() == 0,
        reasons,
    }
}

/// The candidates among the first `n` extensions, in catalog order.
pub open spec fn raw_candidates(exts: Seq<LoadedExtension>, cap: Seq<char>, n: int) -> Seq<CandidateView>
    decreases n,
{
    if n <= 0 {
        seq![]
    } else {
        let e = exts[n - 1];
        let i = capability_index(e.manifest.capabilities@, cap);
        raw_candidates(exts, cap, n - 1) + (if i >= 0 {
            seq![candidate_of(e, e.manifest.capabilities@[i])]
        } else {
            seq![]
        })
    }
}

/// `a` is listed before `b`: higher precedence first, then by identifier,
/// then by version.
pub open spec fn ranks_before(a: CandidateView, b: CandidateView) -> bool {
    ||| a.precedence > b.precedence
    ||| (a.precedence == b.precedence && chars_less(a.extension_id, b.extension_id))
    ||| (a.precedence == b.precedence && a.extension_id == b.extension_id && chars_less(a.version, b.version))
}

/// Inserts `x` after every candidate it does not rank before.
pub open spec fn insert_candidate(s: Seq<CandidateView>, x: CandidateView) -> Seq<CandidateView>
    decreases s.len(),
{
    if s.len() == 0 {
        seq![x]
    } else if ranks_before(x, s.last()) {
        insert_candidate(s.drop_last(), x).push(s.last())
    } else {
        s.push(x)
    }
}

/// Stable insertion sort of candidates by rank.
pub open spec fn sort_candidates(s: Seq<CandidateView>) -> Seq<CandidateView>
    decreases s.len(),
{
    if s.len() == 0 {
        seq![]
    } else {
        insert_candidate(sort_candidates(s.drop_last()), s.last())
    }
}

/// The candidates for `cap`, in the order a resolution lists them.
pub open spec fn ranked_candidates(exts: Seq<LoadedExtension>, cap: Seq<char>) -> Seq<CandidateView> {
    sort_candidates(raw_candidates(exts, cap, exts.len() as int))
}

/// The position of the first extension with identifier `id` and version
/// `version`, from `from` on, or -1.
pub open spec fn extension_from(exts: Seq<LoadedExtension>, id: Seq<char>, version: Seq<char>, from: int) -> int
    decreases exts.len() - from,
{
    if from < 0 || from >= exts.len() {
        -1
    } else if exts[from].manifest.extension_id@ == id && exts[from].manifest.version@ == version {
        from
    } else {
        extension_from(exts, id, version, from + 1)
    }
}

/// The extension `id` at `version` declares itself a fallback for
/// `preferred`, and its lock allows that.
pub open spec fn authorized_fallback(exts: Seq<LoadedExtension>, id: Seq<char>, version: Seq<char>, preferred: Seq<char>) -> bool {
    let i = extension_from(exts, id, version, 0);
    &&& i >= 0
    &&& string_views(exts[i].manifest.replacement.fallbacks_for@).contains(preferred)
    &&& string_views(exts[i].lock.allowed_fallbacks@).contains(preferred)
}

/// The number of eligible candidates at precedence `h` among the first `n`.
pub open spec fn eligible_at(s: Seq<CandidateView>, h: i32, n: int) -> nat
    decreases n,
{
    if n <= 0 {
        0
    } else {
        eligible_at(s, h, n - 1) + (if s[n - 1].precedence == h && s[n - 1].eligible { 1nat } else { 0nat })
    }
}

/// The position of the first eligible candidate at precedence `h`, from
/// `from` on, or -1.
pub open spec fn first_eligible_at(s: Seq<CandidateView>, h: i32, from: int) -> int
    decreases s.len() - from,
{
    if from < 0 || from >= s.len() {
        -1
    } else if s[from].precedence == h && s[from].eligible {
        from
    } else {
        first_eligible_at(s, h, from + 1)
    }
}

/// The number of candidates at precedence `h` from `from` on, before the
/// first at another precedence.
pub open spec fn tier_from(s: Seq<CandidateView>, h: i32, from: int) -> nat
    decreases s.len() - from,
{
    if from < 0 || from >= s.len() || s[from].precedence != h {
        0
    } else {
        1 + tier_from(s, h, from + 1)
    }
}

/// The identifiers of the eligible candidates below precedence `h`, among
/// the first `n`, that are authorized fallbacks for `selected`.
pub open spec fn lower_fallbacks(exts: Seq<LoadedExtension>, s: Seq<CandidateView>, h: i32, selected: Seq<char>, n: int) -> Seq<Seq<char>>
    decreases n,
{
    if n <= 0 {
        seq![]
    } else {
        let c = s[n - 1];
        lower_fallbacks(exts, s, h, selected, n - 1) + (if c.eligible && c.precedence < h
            && authorized_fallback(exts, c.extension_id, c.version, selected) {
            seq![c.extension_id]
        } else {
            seq![]
        })
    }
}

/// The eligible candidates after the first, among the first `n`, that are
/// authorized fallbacks for `preferred`.
pub open spec fn authorized_after_first(exts: Seq<LoadedExtension>, s: Seq<CandidateView>, preferred: Seq<char>, n: int) -> Seq<CandidateView>
    decreases n,
{
    if n <= 1 {
        seq![]
    } else {
        let c = s[n - 1];
        authorized_after_first(exts, s, preferred, n - 1) + (if c.eligible
            && authorized_fallback(exts, c.extension_id, c.version, preferred) {
            seq![c]
        } else {
            seq![]
        })
    }
}

/// What a resolution decides, as text.
pub struct ResolutionOutcome {
    pub status: ExtensionResolutionStatus,
    pub selected: Option<Seq<char>>,
    pub fallbacks: Seq<Seq<char>>,
    pub reasons: Seq<Seq<char>>,
}

pub open spec fn no_provider_reason() -> Seq<char> {
    "no provider declares the requested capability"@
}

pub open spec fn tied_providers_reason() -> Seq<char> {
    "multiple eligible providers have the same highest precedence"@
}

pub open spec fn unique_provider_reason() -> Seq<char> {
    "selected the unique eligible provider at the highest precedence"@
}

pub open spec fn no_preferred_reason() -> Seq<char> {
    "the highest-precedence tier is unavailable and does not identify one preferred provider for fallback"@
}

pub open spec fn no_fallback_reason() -> Seq<char> {
    "the preferred provider is unavailable and no explicitly authorized fallback is available"@
}

pub open spec fn tied_fallbacks_reason() -> Seq<char> {
    "multiple authorized fallbacks have the same highest precedence"@
}

pub open spec fn fallback_selected_reason(preferred: Seq<char>) -> Seq<char> {
    "preferred provider "@ + preferred + " is unavailable; selected the explicitly authorized fallback"@
}

/// The decision on the ranked candidates `s`.
pub open spec fn resolution_outcome(exts: Seq<LoadedExtension>, s: Seq<CandidateView>) -> ResolutionOutcome {
    if s.len() == 0 {
        ResolutionOutcome { status: ExtensionResolutionStatus::Unavailable, selected: None, fallbacks: seq![], reasons: seq![no_provider_reason()] }
    } else {
        let h = s[0].precedence;
        let n = eligible_at(s, h, s.len() as int);
        if n > 1 {
            ResolutionOutcome { status: ExtensionResolutionStatus::Conflict, selected: None, fallbacks: seq![], reasons: seq![tied_providers_reason()] }
        } else if n == 1 {
            let selected = s[first_eligible_at(s, h, 0)].extension_id;
            ResolutionOutcome {
                status: ExtensionResolutionStatus::Selected,
                selected: Some(selected),
                fallbacks: lower_fallbacks(exts, s, h, selected, s.len() as int),
                reasons: seq![unique_provider_reason()],
            }
        } else if tier_from(s, h, 0) != 1 {
            ResolutionOutcome { status: ExtensionResolutionStatus::Unavailable, selected: None, fallbacks: seq![], reasons: seq![no_preferred_reason()] }
        } else {
            let preferred = s[0].extension_id;
            let a = authorized_after_first(exts, s, preferred, s.len() as int);
            if a.len() == 0 {
                ResolutionOutcome { status: ExtensionResolutionStatus::Unavailable, selected: None, fallbacks: seq![], reasons: seq![no_fallback_reason()] }
            } else if a.len() > 1 && a[1].precedence == a[0].precedence {
                ResolutionOutcome { status: ExtensionResolutionStatus::Conflict, selected: None, fallbacks: seq![], reasons: seq![tied_fallbacks_reason()] }
            } else {
                ResolutionOutcome {
                    status: ExtensionResolutionStatus::Selected,
                    selected: Some(a[0].extension_id),
                    fallbacks: a.map_values(|c: CandidateView| c.extension_id),
                    reasons: seq![fallback_selected_reason(preferred)],
                }
            }
        }
    }
}

/// The text of an optional string.
pub open spec fn optional_text(o: Option<String>) -> Option<Seq<char>> {
    match o {
        Some(t) => Some(t@),
        None => None,
    }
}

/// Whether `r` is the resolution of `cap` among `exts`.
pub open spec fn resolves(exts: Seq<LoadedExtension>, cap: Seq<char>, r: ExtensionResolution) -> bool {
    let s = ranked_candidates(exts, cap);
    let o = resolution_outcome(exts, s);
    &&& r.capability_id@ == cap
    &&& candidate_views(r.candidates@) == s
    &&& r.status == o.status
    &&& optional_text(r.selected_extension_id) == o.selected
    &&& string_views(r.fallback_extension_ids@) == o.fallbacks
    &&& string_views(r.reasons@) == o.reasons
}

proof fn lemma_insert_candidate_at(s: Seq<CandidateView>, x: CandidateView, pos: int)
    requires
        0 <= pos <= s.len(),
        forall|j: int| pos <= j < s.len() ==> ranks_before(x, #[trigger] s[j]),
        pos > 0 ==> !ranks_before(x, s[pos - 1]),
    ensures
        insert_candidate(s, x) == s.take(pos).push(x) + s.skip(pos),
    decreases s.len(),
{
    if s.len() == 0 {
        assert(s.take(pos).push(x) + s.skip(pos) =~= seq![x]);
    } else if pos == s.len() {
        assert(s.take(pos) =~= s);
        assert(s.skip(pos) =~= Seq::<CandidateView>::empty());
        assert(s.take(pos).push(x) + s.skip(pos) =~= s.push(x));
    } else {
        let d = s.drop_last();
        assert(ranks_before(x, s[s.len() - 1]));
        lemma_insert_candidate_at(d, x, pos);
        assert(d.take(pos) =~= s.take(pos));
        assert((d.take(pos).push(x) + d.skip(pos)).push(s.last()) =~= s.take(pos).push(x) + s.skip(pos));
    }
}

fn ranks_before_exec(a: &ResolutionCandidate, b: &ResolutionCandidate) -> (r: bool)
    ensures
        r == ranks_before(a@, b@),
{
    if a.precedence != b.precedence {
        return a.precedence > b.precedence;
    }
    let by_id = compare_strings(a.extension_id.as_str(), b.extension_id.as_str());
    if by_id != 0 {
        return by_id < 0;
    }
    compare_strings(a.version.as_str(), b.version.as_str()) < 0
}

pub(crate) fn clone_strings(v: &Vec<String>) -> (r: Vec<String>)
    ensures
        string_views(r@) == string_views(v@),
{
    let mut r: Vec<String> = Vec::new();
    let mut k: usize = 0;
    while k < v.len()
        invariant
            k <= v@.len(),
            r@.len() == k,
            forall|j: int| 0 <= j < k ==> (#[trigger] r@[j])@ == v@[j]@,
        decreases v@.len() - k,
    {
        r.push(v[k].clone());
        k = k + 1;
    }
    assert(string_views(r@) =~= string_views(v@));
    r
}

pub(crate) fn contains_text(v: &Vec<String>, t: &str) -> (r: bool)
    ensures
        r == string_views(v@).contains(t@),
{
    let mut k: usize = 0;
    while k < v.len()
        invariant
            k <= v@.len(),
            forall|j: int| 0 <= j < k ==> (#[trigger] v@[j])@ != t@,
        decreases v@.len() - k,
    {
        if compare_strings(v[k].as_str(), t) == 0 {
            assert(string_views(v@)[k as int] == t@);
            return true;
        }
        k = k + 1;
    }
    proof {
        if string_views(v@).contains(t@) {
            let j = choose|j: int| 0 <= j < string_views(v@).len() && string_views(v@)[j] == t@;
            assert(v@[j]@ == t@);
        }
    }
    false
}

impl ExtensionCatalog {
    /// The extensions of the catalog.
    pub closed spec fn entries(&self) -> Seq<LoadedExtension> {
        self.extensions@
    }

    /// A catalog of `extensions`, in the given order.
    pub(crate) fn from_extensions(extensions: Vec<LoadedExtension>) -> (c: Self)
        ensures
            c.entries() == extensions@,
    {
        ExtensionCatalog { extensions }
    }

    pub fn extensions(&self) -> (r: &[LoadedExtension])
        ensures
            r@ == self.entries(),
    {
        self.extensions.as_slice()
    }

    fn candidate_for(e: &LoadedExtension, c: &CapabilityDeclaration) -> (r: ResolutionCandidate)
        ensures
            r@ == candidate_of(*e, *c),
    {
        let mut reasons = clone_strings(&e.availability_reasons);
        let ghost start = string_views(reasons@);
        if !c.effects.is_subset(&e.lock.granted_effects) {
            reasons.push(owned("the lock does not grant every effect required by the capability"));
        }
        let ghost middle = string_views(reasons@);
        assert(middle =~= start + (if c.effects.subset_of(e.lock.granted_effects) {
            seq![]
        } else {
            seq![effects_not_granted_reason()]
        }));
        if !e.has_locked_configuration(c.configuration_schema.as_str()) {
            let mut text: Vec<char> = Vec::new();
            crate::json::push_str(&mut text, "locked configuration ");
            crate::json::push_str(&mut text, c.configuration_schema.as_str());
            crate::json::push_str(&mut text, " is missing");
            assert(text@ =~= missing_configuration_reason(c.configuration_schema@));
            reasons.push(crate::text::string_of(&text));
        }
        assert(string_views(reasons@) =~= candidate_of(*e, *c).reasons);
        let eligible = reasons.len() == 0;
        ResolutionCandidate {
            extension_id: e.manifest.extension_id.clone(),
            version: e.manifest.version.clone(),
            precedence: e.lock.precedence,
            eligible,
            reasons,
        }
    }

    /// The candidates for `capability_id`, ranked.
    fn ranked(&self, capability_id: &str) -> (r: Vec<ResolutionCandidate>)
        ensures
            candidate_views(r@) == ranked_candidates(self.entries(), capability_id@),
    {
        let exts = &self.extensions;
        let ghost cap = capability_id@;
        let mut out: Vec<ResolutionCandidate> = Vec::new();
        let ghost mut raw: Seq<CandidateView> = seq![];
        let mut k: usize = 0;
        while k < exts.len()
            invariant
                k <= exts@.len(),
                exts@ == self.entries(),
                cap == capability_id@,
                raw == raw_candidates(exts@, cap, k as int),
                candidate_views(out@) == sort_candidates(raw),
            decreases exts@.len() - k,
        {
            let e = &exts[k];
            proof {
                lemma_capability_from_range(e.manifest.capabilities@, cap, 0);
            }
            match e.capability(capability_id) {
                Some(c) => {
                    let cand = Self::candidate_for(e, c);
                    let ghost x = cand@;
                    let mut pos = out.len();
                    while pos > 0 && ranks_before_exec(&cand, &out[pos - 1])
                        invariant
                            pos <= out@.len(),
                            x == cand@,
                            forall|j: int| pos <= j < out@.len() ==> ranks_before(x, #[trigger] out@[j]@),
                        decreases pos,
                    {
                        pos = pos - 1;
                    }
                    let ghost before = candidate_views(out@);
                    proof {
                        lemma_insert_candidate_at(before, x, pos as int);
                    }
                    out.insert(pos, cand);
                    proof {
                        assert(candidate_views(out@) =~= before.take(pos as int).push(x) + before.skip(pos as int));
                        let nr = raw.push(x);
                        assert(nr.drop_last() =~= raw);
                        assert(raw_candidates(exts@, cap, k + 1) =~= nr);
                        raw = nr;
                    }
                },
                None => {
                    assert(raw_candidates(exts@, cap, k + 1) =~= raw);
                },
            }
            k = k + 1;
        }
        out
    }
}

proof fn lemma_first_eligible_is(s: Seq<CandidateView>, h: i32, from: int, i: int)
    requires
        0 <= from <= i < s.len(),
        s[i].precedence == h && s[i].eligible,
        forall|j: int| from <= j < i ==> !(s[j].precedence == h && s[j].eligible),
    ensures
        first_eligible_at(s, h, from) == i,
    decreases i - from,
{
    if from < i {
        lemma_first_eligible_is(s, h, from + 1, i);
    }
}

proof fn lemma_extension_from_is(exts: Seq<LoadedExtension>, id: Seq<char>, version: Seq<char>, from: int, i: int)
    requires
        0 <= from <= i <= exts.len(),
        i < exts.len() ==> exts[i].manifest.extension_id@ == id && exts[i].manifest.version@ == version,
        forall|j: int| from <= j < i ==> !(exts[j].manifest.extension_id@ == id && exts[j].manifest.version@ == version),
    ensures
        extension_from(exts, id, version, from) == (if i < exts.len() { i } else { -1 }),
    decreases i - from,
{
    if from < i {
        lemma_extension_from_is(exts, id, version, from + 1, i);
    }
}

fn no_strings() -> (r: Vec<String>)
    ensures
        string_views(r@) == Seq::<Seq<char>>::empty(),
{
    let r: Vec<String> = Vec::new();
    assert(string_views(r@) =~= Seq::<Seq<char>>::empty());
    r
}

fn single(t: &str) -> (r: Vec<String>)
    ensures
        string_views(r@) == seq![t@],
{
    let mut r: Vec<String> = Vec::new();
    r.push(owned(t));
    assert(string_views(r@) =~= seq![t@]);
    r
}

impl ExtensionCatalog {
    /// Whether the candidate is an authorized fallback for `preferred`: the
    /// first extension with the candidate's identifier and version declares
    /// itself a fallback for `preferred`, and its lock allows that.
    fn is_authorized_fallback(&self, candidate: &ResolutionCandidate, preferred: &str) -> (r: bool)
        ensures
            r == authorized_fallback(self.entries(), candidate.extension_id@, candidate.version@, preferred@),
    {
        let exts = &self.extensions;
        let mut k: usize = 0;
        while k < exts.len()
            invariant
                k <= exts@.len(),
                exts@ == self.entries(),
                forall|j: int| 0 <= j < k ==> !((#[trigger] exts@[j]).manifest.extension_id@ == candidate.extension_id@
                    && exts@[j].manifest.version@ == candidate.version@),
            decreases exts@.len() - k,
        {
            let e = &exts[k];
            if compare_strings(e.manifest.extension_id.as_str(), candidate.extension_id.as_str()) == 0
                && compare_strings(e.manifest.version.as_str(), candidate.version.as_str()) == 0 {
                proof {
                    lemma_extension_from_is(exts@, candidate.extension_id@, candidate.version@, 0, k as int);
                }
                return contains_text(&e.manifest.replacement.fallbacks_for, preferred)
                    && contains_text(&e.lock.allowed_fallbacks, preferred);
            }
            k = k + 1;
        }
        proof {
            lemma_extension_from_is(exts@, candidate.extension_id@, candidate.version@, 0, k as int);
        }
        false
    }

    /// Chooses the provider of `capability_id`.
    ///
    /// The candidates are the extensions that declare the capability, ranked
    /// by precedence (highest first), identifier and version. The one eligible
    /// candidate at the highest precedence is selected; two or more there are
    /// a conflict. When none there is eligible and that tier holds a single
    /// preferred provider, the first eligible candidate that declares itself
    /// a fallback for it, with its lock's consent, is selected, unless the
    /// next such fallback has the same precedence.
    pub fn resolve(&self, capability_id: &str) -> (r: ExtensionResolution)
        ensures
            resolves(self.entries(), capability_id@, r),
    {
        let cands = self.ranked(capability_id);
        let ghost exts = self.entries();
        let ghost s = candidate_views(cands@);
        let n = cands.len();
        if n == 0 {
            return ExtensionResolution {
                capability_id: owned(capability_id),
                status: ExtensionResolutionStatus::Unavailable,
                selected_extension_id: None,
                candidates: cands,
                fallback_extension_ids: no_strings(),
                reasons: single("no provider declares the requested capability"),
            };
        }
        let h = cands[0].precedence;
        assert(s[0].precedence == h);
        let mut count: usize = 0;
        let mut first: usize = 0;
        let mut k: usize = 0;
        while k < n
            invariant
                n == cands@.len(),
                s == candidate_views(cands@),
                k <= n,
                count <= k,
                count == eligible_at(s, h, k as int),
                count == 0 ==> forall|j: int| 0 <= j < k ==> !(s[j].precedence == h && s[j].eligible),
                count > 0 ==> first < k && s[first as int].precedence == h && s[first as int].eligible
                    && forall|j: int| 0 <= j < first ==> !(s[j].precedence == h && s[j].eligible),
            decreases n - k,
        {
            assert(s[k as int] == cands@[k as int]@);
            if cands[k].precedence == h && cands[k].eligible {
                if count == 0 {
                    first = k;
                }
                count = count + 1;
            }
            k = k + 1;
        }
        if count > 1 {
            return ExtensionResolution {
                capability_id: owned(capability_id),
                status: ExtensionResolutionStatus::Conflict,
                selected_extension_id: None,
                candidates: cands,
                fallback_extension_ids: no_strings(),
                reasons: single("multiple eligible providers have the same highest precedence"),
            };
        }
        if count == 1 {
            proof {
                lemma_first_eligible_is(s, h, 0, first as int);
            }
            assert(s[first as int] == cands@[first as int]@);
            let selected = cands[first].extension_id.clone();
            let mut fallbacks: Vec<String> = Vec::new();
            let mut k: usize = 0;
            while k < n
                invariant
                    n == cands@.len(),
                    s == candidate_views(cands@),
                    exts == self.entries(),
                    k <= n,
                    string_views(fallbacks@) == lower_fallbacks(exts, s, h, selected@, k as int),
                decreases n - k,
            {
                assert(s[k as int] == cands@[k as int]@);
                let c = &cands[k];
                if c.eligible && c.precedence < h && self.is_authorized_fallback(c, selected.as_str()) {
                    fallbacks.push(c.extension_id.clone());
                }
                assert(string_views(fallbacks@) =~= lower_fallbacks(exts, s, h, selected@, k + 1));
                k = k + 1;
            }
            return ExtensionResolution {
                capability_id: owned(capability_id),
                status: ExtensionResolutionStatus::Selected,
                selected_extension_id: Some(selected),
                candidates: cands,
                fallback_extension_ids: fallbacks,
                reasons: single("selected the unique eligible provider at the highest precedence"),
            };
        }
        let mut tier: usize = 0;
        while tier < n && cands[tier].precedence == h
            invariant
                n == cands@.len(),
                s == candidate_views(cands@),
                tier <= n,
                tier_from(s, h, 0) == tier + tier_from(s, h, tier as int),
            decreases n - tier,
        {
            assert(s[tier as int] == cands@[tier as int]@);
            tier = tier + 1;
        }
        if tier < n {
            assert(s[tier as int] == cands@[tier as int]@);
        }
        assert(tier_from(s, h, tier as int) == 0);
        if tier != 1 {
            return ExtensionResolution {
                capability_id: owned(capability_id),
                status: ExtensionResolutionStatus::Unavailable,
                selected_extension_id: None,
                candidates: cands,
                fallback_extension_ids: no_strings(),
                reasons: single("the highest-precedence tier is unavailable and does not identify one preferred provider for fallback"),
            };
        }
        let preferred = cands[0].extension_id.clone();
        let mut authorized: Vec<usize> = Vec::new();
        let mut k: usize = 1;
        while k < n
            invariant
                n == cands@.len(),
                s == candidate_views(cands@),
                exts == self.entries(),
                1 <= k <= n,
                authorized@.len() == authorized_after_first(exts, s, preferred@, k as int).len(),
                forall|j: int| 0 <= j < authorized@.len() ==> (#[trigger] authorized@[j]) < n
                    && s[authorized@[j] as int] == authorized_after_first(exts, s, preferred@, k as int)[j],
            decreases n - k,
        {
            assert(s[k as int] == cands@[k as int]@);
            let c = &cands[k];
            if c.eligible && self.is_authorized_fallback(c, preferred.as_str()) {
                authorized.push(k);
            }
            k = k + 1;
        }
        let ghost a = authorized_after_first(exts, s, preferred@, n as int);
        if authorized.len() == 0 {
            return ExtensionResolution {
                capability_id: owned(capability_id),
                status: ExtensionResolutionStatus::Unavailable,
                selected_extension_id: None,
                candidates: cands,
                fallback_extension_ids: no_strings(),
                reasons: single("the preferred provider is unavailable and no explicitly authorized fallback is available"),
            };
        }
        let a0 = authorized[0];
        assert(s[a0 as int] == cands@[a0 as int]@);
        if authorized.len() > 1 {
            let a1 = authorized[1];
            assert(s[a1 as int] == cands@[a1 as int]@);
            if cands[a1].precedence == cands[a0].precedence {
                return ExtensionResolution {
                    capability_id: owned(capability_id),
                    status: ExtensionResolutionStatus::Conflict,
                    selected_extension_id: None,
                    candidates: cands,
                    fallback_extension_ids: no_strings(),
                    reasons: single("multiple authorized fallbacks have the same highest precedence"),
                };
            }
        }
        let mut fallbacks: Vec<String> = Vec::new();
        let mut j: usize = 0;
        while j < authorized.len()
            invariant
                n == cands@.len(),
                s == candidate_views(cands@),
                a == authorized_after_first(exts, s, preferred@, n as int),
                authorized@.len() == a.len(),
                forall|i: int| 0 <= i < authorized@.len() ==> (#[trigger] authorized@[i]) < n
                    && s[authorized@[i] as int] == a[i],
                j <= authorized@.len(),
                string_views(fallbacks@) == a.take(j as int).map_values(|c: CandidateView| c.extension_id),
            decreases authorized@.len() - j,
        {
            let i = authorized[j];
            assert(s[i as int] == cands@[i as int]@);
            assert(s[authorized@[j as int] as int] == a[j as int]);
            let id = cands[i].extension_id.clone();
            assert(id@ == a[j as int].extension_id);
            let ghost before = fallbacks@;
            fallbacks.push(id);
            assert(string_views(fallbacks@) =~= string_views(before).push(id@));
            assert(a.take(j + 1) =~= a.take(j as int).push(a[j as int]));
            assert(string_views(fallbacks@) =~= a.take(j + 1).map_values(|c: CandidateView| c.extension_id));
            j = j + 1;
        }
        assert(a.take(a.len() as int) =~= a);
        let mut text: Vec<char> = Vec::new();
        crate::json::push_str(&mut text, "preferred provider ");
        crate::json::push_str(&mut text, preferred.as_str());
        crate::json::push_str(&mut text, " is unavailable; selected the explicitly authorized fallback");
        assert(text@ =~= fallback_selected_reason(preferred@));
        let mut reasons: Vec<String> = Vec::new();
        reasons.push(crate::text::string_of(&text));
        assert(string_views(reasons@) =~= seq![fallback_selected_reason(preferred@)]);
        ExtensionResolution {
            capability_id: owned(capability_id),
            status: ExtensionResolutionStatus::Selected,
            selected_extension_id: Some(cands[a0].extension_id.clone()),
            candidates: cands,
            fallback_extension_ids: fallbacks,
            reasons,
        }
    }
}

proof fn lemma_first_eligible_found(s: Seq<CandidateView>, h: i32, from: int)
    requires
        0 <= from,
    ensures
        first_eligible_at(s, h, from) == -1 || (from <= first_eligible_at(s, h, from) < s.len()
            && s[first_eligible_at(s, h, from)].precedence == h && s[first_eligible_at(s, h, from)].eligible),
        first_eligible_at(s, h, from) == -1 ==> forall|j: int| from <= j < s.len() ==> !(#[trigger] s[j].precedence == h && s[j].eligible),
    decreases s.len() - from,
{
    if from < s.len() && !(s[from].precedence == h && s[from].eligible) {
        lemma_first_eligible_found(s, h, from + 1);
    }
}

proof fn lemma_eligible_at_witness(s: Seq<CandidateView>, h: i32, n: int)
    requires
        0 <= n <= s.len(),
        eligible_at(s, h, n) > 0,
    ensures
        exists|j: int| 0 <= j < n && (#[trigger] s[j]).precedence == h && s[j].eligible,
    decreases n,
{
    if !(s[n - 1].precedence == h && s[n - 1].eligible) {
        lemma_eligible_at_witness(s, h, n - 1);
    } else {
        assert(s[n - 1].precedence == h && s[n - 1].eligible);
    }
}

proof fn lemma_authorized_are_eligible(exts: Seq<LoadedExtension>, s: Seq<CandidateView>, preferred: Seq<char>, n: int)
    requires
        n <= s.len(),
    ensures
        forall|j: int| 0 <= j < authorized_after_first(exts, s, preferred, n).len() ==> exists|i: int|
            0 <= i < s.len() && s[i] == #[trigger] authorized_after_first(exts, s, preferred, n)[j] && s[i].eligible,
    decreases n,
{
    if n > 1 {
        lemma_authorized_are_eligible(exts, s, preferred, n - 1);
        let prev = authorized_after_first(exts, s, preferred, n - 1);
        let cur = authorized_after_first(exts, s, preferred, n);
        assert forall|j: int| 0 <= j < cur.len() implies exists|i: int|
            0 <= i < s.len() && s[i] == #[trigger] cur[j] && s[i].eligible by {
            if j < prev.len() {
                assert(cur[j] == prev[j]);
            } else {
                assert(cur[j] == s[n - 1]);
            }
        }
    }
}

proof fn lemma_lower_fallbacks_are_eligible(exts: Seq<LoadedExtension>, s: Seq<CandidateView>, h: i32, selected: Seq<char>, n: int)
    requires
        n <= s.len(),
    ensures
        forall|j: int| 0 <= j < lower_fallbacks(exts, s, h, selected, n).len() ==> exists|i: int|
            0 <= i < s.len() && s[i].extension_id == #[trigger] lower_fallbacks(exts, s, h, selected, n)[j] && s[i].eligible,
    decreases n,
{
    if n > 0 {
        lemma_lower_fallbacks_are_eligible(exts, s, h, selected, n - 1);
        let prev = lower_fallbacks(exts, s, h, selected, n - 1);
        let cur = lower_fallbacks(exts, s, h, selected, n);
        assert forall|j: int| 0 <= j < cur.len() implies exists|i: int|
            0 <= i < s.len() && s[i].extension_id == #[trigger] cur[j] && s[i].eligible by {
            if j < prev.len() {
                assert(cur[j] == prev[j]);
            } else {
                assert(cur[j] == s[n - 1].extension_id);
            }
        }
    }
}

/// A resolution names a provider exactly when it selected one, and the
/// provider it selects, like every fallback it lists, is an eligible
/// candidate of the capability.
pub proof fn lemma_selected_provider_is_eligible(exts: Seq<LoadedExtension>, cap: Seq<char>)
    ensures
        ({
            let s = ranked_candidates(exts, cap);
            let o = resolution_outcome(exts, s);
            &&& (o.status == ExtensionResolutionStatus::Selected) == o.selected.is_some()
            &&& o.selected.is_some() ==> exists|i: int|
                0 <= i < s.len() && s[i].extension_id == o.selected.unwrap() && s[i].eligible
            &&& forall|j: int| 0 <= j < o.fallbacks.len() ==> exists|i: int|
                0 <= i < s.len() && s[i].extension_id == #[trigger] o.fallbacks[j] && s[i].eligible
        }),
{
    let s = ranked_candidates(exts, cap);
    let o = resolution_outcome(exts, s);
    if s.len() > 0 {
        let h = s[0].precedence;
        let n = eligible_at(s, h, s.len() as int);
        if n == 1 {
            lemma_first_eligible_found(s, h, 0);
            lemma_eligible_at_witness(s, h, s.len() as int);
            let selected = s[first_eligible_at(s, h, 0)].extension_id;
            lemma_lower_fallbacks_are_eligible(exts, s, h, selected, s.len() as int);
        } else if n == 0 && tier_from(s, h, 0) == 1 {
            let preferred = s[0].extension_id;
            let a = authorized_after_first(exts, s, preferred, s.len() as int);
            lemma_authorized_are_eligible(exts, s, preferred, s.len() as int);
            if a.len() > 0 && !(a.len() > 1 && a[1].precedence == a[0].precedence) {
                assert(a[0] == a[0]);
                assert forall|j: int| 0 <= j < o.fallbacks.len() implies exists|i: int|
                    0 <= i < s.len() && s[i].extension_id == #[trigger] o.fallbacks[j] && s[i].eligible by {
                    assert(o.fallbacks[j] == a[j].extension_id);
                    assert(exists|i: int| 0 <= i < s.len() && s[i] == #[trigger] a[j] && s[i].eligible);
                }
            }
        }
    }
}

/// Candidates in non-increasing precedence.
pub open spec fn precedence_ordered(s: Seq<CandidateView>) -> bool {
    forall|i: int, j: int| 0 <= i < j < s.len() ==> (#[trigger] s[i]).precedence >= (#[trigger] s[j]).precedence
}

proof fn lemma_insert_candidate_elements(s: Seq<CandidateView>, x: CandidateView)
    ensures
        insert_candidate(s, x).len() == s.len() + 1,
        forall|i: int| 0 <= i < insert_candidate(s, x).len() ==>
            #[trigger] insert_candidate(s, x)[i] == x || s.contains(insert_candidate(s, x)[i]),
    decreases s.len(),
{
    if s.len() > 0 && ranks_before(x, s.last()) {
        lemma_insert_candidate_elements(s.drop_last(), x);
        let t = insert_candidate(s.drop_last(), x);
        assert forall|i: int| 0 <= i < insert_candidate(s, x).len() implies
            #[trigger] insert_candidate(s, x)[i] == x || s.contains(insert_candidate(s, x)[i]) by {
            if i < t.len() {
                assert(insert_candidate(s, x)[i] == t[i]);
                if t[i] != x {
                    let q = choose|q: int| 0 <= q < s.drop_last().len() && s.drop_last()[q] == t[i];
                    assert(s[q] == t[i]);
                }
            } else {
                assert(insert_candidate(s, x)[i] == s[s.len() - 1]);
            }
        }
    } else if s.len() > 0 {
        assert forall|i: int| 0 <= i < insert_candidate(s, x).len() implies
            #[trigger] insert_candidate(s, x)[i] == x || s.contains(insert_candidate(s, x)[i]) by {
            if i < s.len() {
                assert(insert_candidate(s, x)[i] == s[i]);
            }
        }
    }
}

proof fn lemma_insert_candidate_ordered(s: Seq<CandidateView>, x: CandidateView)
    requires
        precedence_ordered(s),
    ensures
        precedence_ordered(insert_candidate(s, x)),
    decreases s.len(),
{
    if s.len() > 0 {
        let l = s.last();
        let r = insert_candidate(s, x);
        if ranks_before(x, l) {
            let d = s.drop_last();
            lemma_insert_candidate_ordered(d, x);
            lemma_insert_candidate_elements(d, x);
            let t = insert_candidate(d, x);
            assert(r == t.push(l));
            assert forall|i: int, j: int| 0 <= i < j < r.len() implies (#[trigger] r[i]).precedence >= (#[trigger] r[j]).precedence by {
                if j < t.len() {
                    assert(r[i] == t[i] && r[j] == t[j]);
                } else {
                    assert(r[i] == t[i] && r[j] == l);
                    if t[i] != x {
                        let q = choose|q: int| 0 <= q < d.len() && d[q] == t[i];
                        assert(s[q] == t[i]);
                        assert(s[q].precedence >= s[s.len() - 1].precedence);
                    }
                }
            }
        } else {
            assert(r == s.push(x));
            assert forall|i: int, j: int| 0 <= i < j < r.len() implies (#[trigger] r[i]).precedence >= (#[trigger] r[j]).precedence by {
                if j < s.len() {
                    assert(r[i] == s[i] && r[j] == s[j]);
                } else {
                    assert(r[i] == s[i] && r[j] == x);
                    assert(s[i].precedence >= s[s.len() - 1].precedence);
                }
            }
        }
    }
}

proof fn lemma_sort_candidates_ordered(s: Seq<CandidateView>)
    ensures
        precedence_ordered(sort_candidates(s)),
    decreases s.len(),
{
    if s.len() > 0 {
        lemma_sort_candidates_ordered(s.drop_last());
        lemma_insert_candidate_ordered(sort_candidates(s.drop_last()), s.last());
    }
}

/// Whether candidate `c` is an eligible fallback that the extension lock
/// and manifest authorize for `preferred`.
pub open spec fn usable_fallback(exts: Seq<LoadedExtension>, c: CandidateView, preferred: Seq<char>) -> bool {
    c.eligible && authorized_fallback(exts, c.extension_id, c.version, preferred)
}

proof fn lemma_first_authorized(exts: Seq<LoadedExtension>, s: Seq<CandidateView>, preferred: Seq<char>, n: int)
    requires
        n <= s.len(),
    ensures
        ({
            let a = authorized_after_first(exts, s, preferred, n);
            &&& a.len() == 0 ==> forall|j: int| 1 <= j < n ==> !usable_fallback(exts, #[trigger] s[j], preferred)
            &&& a.len() > 0 ==> exists|k: int| 1 <= k < n && a[0] == s[k] && usable_fallback(exts, s[k], preferred)
                && forall|j: int| 1 <= j < k ==> !usable_fallback(exts, #[trigger] s[j], preferred)
        }),
    decreases n,
{
    if n > 1 {
        lemma_first_authorized(exts, s, preferred, n - 1);
        let prev = authorized_after_first(exts, s, preferred, n - 1);
        let a = authorized_after_first(exts, s, preferred, n);
        if prev.len() > 0 {
            assert(a[0] == prev[0]);
        } else if a.len() > 0 {
            assert(a[0] == s[n - 1]);
            assert(usable_fallback(exts, s[n - 1], preferred));
        } else {
            assert(!usable_fallback(exts, s[n - 1], preferred));
        }
    }
}

proof fn lemma_authorized_list(exts: Seq<LoadedExtension>, s: Seq<CandidateView>, preferred: Seq<char>, n: int)
    requires
        n <= s.len(),
        precedence_ordered(s),
    ensures
        ({
            let a = authorized_after_first(exts, s, preferred, n);
            &&& forall|i: int| 0 <= i < a.len() ==> exists|p: int| 1 <= p < n && #[trigger] a[i] == s[p]
            &&& forall|j: int| 1 <= j < n && usable_fallback(exts, #[trigger] s[j], preferred)
                ==> exists|i: int| 0 <= i < a.len() && a[i] == s[j]
            &&& precedence_ordered(a)
        }),
    decreases n,
{
    if n > 1 {
        lemma_authorized_list(exts, s, preferred, n - 1);
        let prev = authorized_after_first(exts, s, preferred, n - 1);
        let a = authorized_after_first(exts, s, preferred, n);
        assert forall|i: int| 0 <= i < a.len() implies exists|p: int| 1 <= p < n && #[trigger] a[i] == s[p] by {
            if i < prev.len() {
                assert(a[i] == prev[i]);
                let p = choose|p: int| 1 <= p < n - 1 && prev[i] == s[p];
            } else {
                assert(a[i] == s[n - 1]);
            }
        }
        assert forall|j: int| 1 <= j < n && usable_fallback(exts, #[trigger] s[j], preferred)
            implies exists|i: int| 0 <= i < a.len() && a[i] == s[j] by {
            if j < n - 1 {
                let i = choose|i: int| 0 <= i < prev.len() && prev[i] == s[j];
                assert(a[i] == prev[i]);
            } else {
                assert(a[prev.len() as int] == s[n - 1]);
            }
        }
        assert forall|i: int, j: int| 0 <= i < j < a.len() implies (#[trigger] a[i]).precedence >= (#[trigger] a[j]).precedence by {
            if j < prev.len() {
                assert(a[i] == prev[i] && a[j] == prev[j]);
            } else {
                assert(a[i] == prev[i] && a[j] == s[n - 1]);
                let p = choose|p: int| 1 <= p < n - 1 && prev[i] == s[p];
                assert(s[p].precedence >= s[n - 1].precedence);
            }
        }
    }
}

proof fn lemma_untied_head(a: Seq<CandidateView>, i: int)
    requires
        precedence_ordered(a),
        0 < i < a.len(),
        !(a.len() > 1 && a[1].precedence == a[0].precedence),
    ensures
        a[i].precedence < a[0].precedence,
{
    assert(a[0].precedence >= a[1].precedence);
    if i > 1 {
        assert(a[1].precedence >= a[i].precedence);
    }
}

proof fn lemma_fallback_choice(exts: Seq<LoadedExtension>, s: Seq<CandidateView>, preferred: Seq<char>)
    requires
        s.len() > 0,
        precedence_ordered(s),
        authorized_after_first(exts, s, preferred, s.len() as int).len() > 0,
        ({
            let a = authorized_after_first(exts, s, preferred, s.len() as int);
            !(a.len() > 1 && a[1].precedence == a[0].precedence)
        }),
    ensures
        exists|k: int| {
            &&& 1 <= k < s.len()
            &&& s[k] == authorized_after_first(exts, s, preferred, s.len() as int)[0]
            &&& usable_fallback(exts, s[k], preferred)
            &&& forall|j: int| 1 <= j < s.len() && usable_fallback(exts, #[trigger] s[j], preferred)
                ==> k <= j && s[j].precedence <= s[k].precedence
                    && (s[j] != s[k] ==> s[j].precedence < s[k].precedence)
        },
{
    let a = authorized_after_first(exts, s, preferred, s.len() as int);
    lemma_first_authorized(exts, s, preferred, s.len() as int);
    let k = choose|k: int| 1 <= k < s.len() && a[0] == s[k] && usable_fallback(exts, s[k], preferred)
        && forall|j: int| 1 <= j < k ==> !usable_fallback(exts, #[trigger] s[j], preferred);
    assert forall|j: int| 1 <= j < s.len() && usable_fallback(exts, #[trigger] s[j], preferred)
        implies k <= j && s[j].precedence <= s[k].precedence
            && (s[j] != s[k] ==> s[j].precedence < s[k].precedence) by {
        if j < k {
            assert(!usable_fallback(exts, s[j], preferred));
        }
        assert(s[k].precedence >= s[j].precedence);
        if s[j] != s[k] {
            lemma_authorized_list(exts, s, preferred, s.len() as int);
            let i = choose|i: int| 0 <= i < a.len() && a[i] == s[j];
            assert(i != 0);
            lemma_untied_head(a, i);
        }
    }
}

/// When no candidate at the highest precedence is eligible and a provider
/// is still selected, it is a fallback: an eligible candidate that the
/// extension lock and manifest authorize for the top-ranked provider, and
/// it ranks at or before, and has at least the precedence of, every other
/// such authorized fallback; no different authorized fallback shares its
/// precedence, since such a tie is a conflict that selects nothing.
pub proof fn lemma_fallback_is_highest_authorized(exts: Seq<LoadedExtension>, cap: Seq<char>)
    ensures
        ({
            let s = ranked_candidates(exts, cap);
            let o = resolution_outcome(exts, s);
            (s.len() > 0 && o.selected.is_some()
                && forall|i: int| 0 <= i < s.len() && (#[trigger] s[i]).precedence == s[0].precedence ==> !s[i].eligible)
            ==> exists|k: int| {
                &&& 1 <= k < s.len()
                &&& s[k].extension_id == o.selected.unwrap()
                &&& usable_fallback(exts, s[k], s[0].extension_id)
                &&& forall|j: int| 1 <= j < s.len() && usable_fallback(exts, #[trigger] s[j], s[0].extension_id)
                    ==> k <= j && s[j].precedence <= s[k].precedence
                        && (s[j] != s[k] ==> s[j].precedence < s[k].precedence)
            }
        }),
{
    let s = ranked_candidates(exts, cap);
    let o = resolution_outcome(exts, s);
    if s.len() > 0 && o.selected.is_some()
        && forall|i: int| 0 <= i < s.len() && (#[trigger] s[i]).precedence == s[0].precedence ==> !s[i].eligible {
        let h = s[0].precedence;
        if eligible_at(s, h, s.len() as int) > 0 {
            lemma_eligible_at_witness(s, h, s.len() as int);
            let j = choose|j: int| 0 <= j < s.len() && (#[trigger] s[j]).precedence == h && s[j].eligible;
            assert(!s[j].eligible);
        }
        let preferred = s[0].extension_id;
        lemma_sort_candidates_ordered(raw_candidates(exts, cap, exts.len() as int));
        let a = authorized_after_first(exts, s, preferred, s.len() as int);
        assert(o.selected == Some(a[0].extension_id));
        lemma_fallback_choice(exts, s, preferred);
    }
}

proof fn lemma_eligible_at_two(s: Seq<CandidateView>, h: i32, n: int, i: int, j: int)
    requires
        0 <= i < j < n <= s.len(),
        s[i].precedence == h && s[i].eligible,
        s[j].precedence == h && s[j].eligible,
    ensures
        eligible_at(s, h, n) >= 2,
    decreases n,
{
    if j < n - 1 {
        lemma_eligible_at_two(s, h, n - 1, i, j);
    } else {
        lemma_eligible_at_one(s, h, n - 1, i);
    }
}

proof fn lemma_eligible_at_one(s: Seq<CandidateView>, h: i32, n: int, i: int)
    requires
        0 <= i < n <= s.len(),
        s[i].precedence == h && s[i].eligible,
    ensures
        eligible_at(s, h, n) >= 1,
    decreases n,
{
    if i < n - 1 {
        lemma_eligible_at_one(s, h, n - 1, i);
    }
}

proof fn lemma_eligible_at_unique(s: Seq<CandidateView>, h: i32, n: int, k: int)
    requires
        0 <= n <= s.len(),
        forall|j: int| 0 <= j < s.len() && j != k ==> !((#[trigger] s[j]).precedence == h && s[j].eligible),
    ensures
        eligible_at(s, h, n) == (if 0 <= k < n && s[k].precedence == h && s[k].eligible { 1nat } else { 0nat }),
    decreases n,
{
    if n > 0 {
        lemma_eligible_at_unique(s, h, n - 1, k);
    }
}

/// At the highest precedence, two eligible providers are a conflict that
/// selects nothing, and a single eligible provider is the one selected.
pub proof fn lemma_top_tier_decides(exts: Seq<LoadedExtension>, cap: Seq<char>)
    ensures
        ({
            let s = ranked_candidates(exts, cap);
            let o = resolution_outcome(exts, s);
            &&& forall|i: int, j: int| 0 <= i < j < s.len() && (#[trigger] s[i]).precedence == s[0].precedence
                && (#[trigger] s[j]).precedence == s[0].precedence && s[i].eligible && s[j].eligible
                ==> o.status == ExtensionResolutionStatus::Conflict && o.selected is None
            &&& forall|k: int| 0 <= k < s.len() && (#[trigger] s[k]).precedence == s[0].precedence && s[k].eligible
                && (forall|j: int| 0 <= j < s.len() && j != k && s[j].precedence == s[0].precedence ==> !s[j].eligible)
                ==> o.status == ExtensionResolutionStatus::Selected && o.selected == Some(s[k].extension_id)
        }),
{
    let s = ranked_candidates(exts, cap);
    let o = resolution_outcome(exts, s);
    assert forall|i: int, j: int| 0 <= i < j < s.len() && (#[trigger] s[i]).precedence == s[0].precedence
        && (#[trigger] s[j]).precedence == s[0].precedence && s[i].eligible && s[j].eligible
        implies o.status == ExtensionResolutionStatus::Conflict && o.selected is None by {
        lemma_eligible_at_two(s, s[0].precedence, s.len() as int, i, j);
    }
    assert forall|k: int| 0 <= k < s.len() && (#[trigger] s[k]).precedence == s[0].precedence && s[k].eligible
        && (forall|j: int| 0 <= j < s.len() && j != k && s[j].precedence == s[0].precedence ==> !s[j].eligible)
        implies o.status == ExtensionResolutionStatus::Selected && o.selected == Some(s[k].extension_id) by {
        let h = s[0].precedence;
        assert forall|j: int| 0 <= j < s.len() && j != k implies !((#[trigger] s[j]).precedence == h && s[j].eligible) by {}
        lemma_eligible_at_unique(s, h, s.len() as int, k);
        lemma_first_eligible_found(s, h, 0);
        let f = first_eligible_at(s, h, 0);
        if f == -1 {
            assert(!(s[k].precedence == h && s[k].eligible));
        }
        assert(f == k);
    }
}

/// A summary of one loaded extension.
#[derive(Debug, Clone, PartialEq, Eq)]
pub struct ExtensionListEntry {
    pub extension_id: String,
    pub version: String,
    pub publisher_id: String,
    pub manifest_digest: Digest,
    pub lock_digest: Digest,
    pub enabled: bool,
    pub trust: TrustMode,
    pub precedence: i32,
    pub execution_mode: String,
    pub capability_ids: Vec<String>,
    pub available: bool,
    pub reasons: Vec<String>,
}

/// A loaded extension in full, with its summary and document paths.
#[derive(Debug, Clone)]
pub struct ExtensionInspection {
    pub extension: ExtensionListEntry,
    pub manifest: ExtensionManifestV1,
    pub lock: ExtensionLockV1,
    pub manifest_path: NativePath,
    pub lock_path: NativePath,
}

/// The catalog's account of its extensions and of every capability they
/// declare.
#[derive(Debug, Clone)]
pub struct ExtensionDoctorReport {
    pub sdk_contract: String,
    pub extension_count: usize,
    pub available_extension_count: usize,
    pub capability_count: usize,
    pub complete: bool,
    pub extensions: Vec<ExtensionListEntry>,
    pub resolutions: Vec<ExtensionResolution>,
}

/// The capability identifiers a manifest declares, in declaration order.
pub open spec fn capability_ids_of(e: LoadedExtension) -> Seq<String> {
    e.manifest.capabilities@.map_values(|c: CapabilityDeclaration| c.capability_id)
}

/// `x` summarises `e`.
pub open spec fn summarises(x: ExtensionListEntry, e: LoadedExtension) -> bool {
    &&& x.extension_id@ == e.manifest.extension_id@
    &&& x.version@ == e.manifest.version@
    &&& x.publisher_id@ == e.manifest.publisher.id@
    &&& x.manifest_digest == e.manifest_digest
    &&& x.lock_digest == e.lock_digest
    &&& x.enabled == e.lock.enabled
    &&& x.trust == e.lock.trust
    &&& x.precedence == e.lock.precedence
    &&& x.execution_mode@ == e.lock.selected_execution_mode@
    &&& x.capability_ids@ == items_of(spec_sort_by_key(keyed(capability_ids_of(e), capability_ids_of(e))))
    &&& x.available == (e.availability_reasons@.len() == 0)
    &&& string_views(x.reasons@) == string_views(e.availability_reasons@)
}

fn copy_digest(d: &Digest) -> (r: Digest)
    ensures
        r == *d,
{
    Digest { algorithm: d.algorithm.clone(), value: d.value.clone() }
}

fn list_entry(e: &LoadedExtension) -> (x: ExtensionListEntry)
    ensures
        summarises(x, *e),
{
    let caps = &e.manifest.capabilities;
    let mut ids: Vec<String> = Vec::new();
    let mut keys: Vec<String> = Vec::new();
    let mut k: usize = 0;
    while k < caps.len()
        invariant
            k <= caps@.len(),
            caps@ == e.manifest.capabilities@,
            ids@ == capability_ids_of(*e).take(k as int),
            keys@ == ids@,
        decreases caps@.len() - k,
    {
        let id = caps[k].capability_id.clone();
        let key = caps[k].capability_id.clone();
        ids.push(id);
        keys.push(key);
        assert(ids@ =~= capability_ids_of(*e).take(k + 1));
        k = k + 1;
    }
    assert(capability_ids_of(*e).take(caps@.len() as int) =~= capability_ids_of(*e));
    let sorted = sort_by_key(ids, keys);
    ExtensionListEntry {
        extension_id: e.manifest.extension_id.clone(),
        version: e.manifest.version.clone(),
        publisher_id: e.manifest.publisher.id.clone(),
        manifest_digest: copy_digest(&e.manifest_digest),
        lock_digest: copy_digest(&e.lock_digest),
        enabled: e.lock.enabled,
        trust: e.lock.trust,
        precedence: e.lock.precedence,
        execution_mode: e.lock.selected_execution_mode.clone(),
        capability_ids: sorted,
        available: e.availability_reasons.len() == 0,
        reasons: clone_strings(&e.availability_reasons),
    }
}

/// Every capability identifier the extensions declare, in catalog order.
pub open spec fn declared_capabilities(exts: Seq<LoadedExtension>, n: int) -> Seq<Seq<char>>
    decreases n,
{
    if n <= 0 {
        seq![]
    } else {
        declared_capabilities(exts, n - 1) + string_views(capability_ids_of(exts[n - 1]))
    }
}

impl ExtensionCatalog {
    /// A summary of each extension, in catalog order.
    pub fn list(&self) -> (r: Vec<ExtensionListEntry>)
        ensures
            r@.len() == self.entries().len(),
            forall|i: int| 0 <= i < r@.len() ==> summarises(#[trigger] r@[i], self.entries()[i]),
    {
        let exts = &self.extensions;
        let mut out: Vec<ExtensionListEntry> = Vec::new();
        let mut k: usize = 0;
        while k < exts.len()
            invariant
                k <= exts@.len(),
                exts@ == self.entries(),
                out@.len() == k,
                forall|i: int| 0 <= i < k ==> summarises(#[trigger] out@[i], exts@[i]),
            decreases exts@.len() - k,
        {
            out.push(list_entry(&exts[k]));
            k = k + 1;
        }
        out
    }

    /// The extension selected for `capability_id`, if the resolution selected
    /// one: the first in the catalog with the selected identifier.
    pub fn selected(&self, capability_id: &str) -> (r: Option<&LoadedExtension>)
        ensures
            ({
                let o = resolution_outcome(self.entries(), ranked_candidates(self.entries(), capability_id@));
                match r {
                    Some(e) => o.selected matches Some(id) && e.manifest.extension_id@ == id
                        && exists|i: int| 0 <= i < self.entries().len() && self.entries()[i] == *e
                            && forall|j: int| 0 <= j < i ==> (#[trigger] self.entries()[j]).manifest.extension_id@ != id,
                    None => o.selected is None || forall|i: int| 0 <= i < self.entries().len()
                        ==> (#[trigger] self.entries()[i]).manifest.extension_id@ != o.selected->Some_0,
                }
            }),
    {
        let resolution = self.resolve(capability_id);
        let selected = match resolution.selected_extension_id {
            Some(id) => id,
            None => {
                return None;
            },
        };
        let exts = &self.extensions;
        let mut k: usize = 0;
        while k < exts.len()
            invariant
                k <= exts@.len(),
                exts@ == self.entries(),
                resolution_outcome(self.entries(), ranked_candidates(self.entries(), capability_id@)).selected == Some(selected@),
                forall|j: int| 0 <= j < k ==> (#[trigger] exts@[j]).manifest.extension_id@ != selected@,
            decreases exts@.len() - k,
        {
            if compare_strings(exts[k].manifest.extension_id.as_str(), selected.as_str()) == 0 {
                assert(self.entries()[k as int] == exts@[k as int]);
                return Some(&exts[k]);
            }
            k = k + 1;
        }
        None
    }

    /// The full record of the first extension with identifier
    /// `extension_id`.
    pub fn inspect(&self, extension_id: &str) -> (r: Result<ExtensionInspection, CatalogError>)
        ensures
            match r {
                Ok(x) => exists|i: int| 0 <= i < self.entries().len()
                    && (#[trigger] self.entries()[i]).manifest.extension_id@ == extension_id@
                    && (forall|j: int| 0 <= j < i ==> (#[trigger] self.entries()[j]).manifest.extension_id@ != extension_id@)
                    && summarises(x.extension, self.entries()[i])
                    && x.manifest_path == self.entries()[i].manifest_path
                    && x.lock_path == self.entries()[i].lock_path,
                Err(e) => (forall|i: int| 0 <= i < self.entries().len()
                    ==> (#[trigger] self.entries()[i]).manifest.extension_id@ != extension_id@)
                    && (e matches CatalogError::ExtensionNotFound { extension_id: id } && id@ == extension_id@),
            },
    {
        let exts = &self.extensions;
        let mut k: usize = 0;
        while k < exts.len()
            invariant
                k <= exts@.len(),
                exts@ == self.entries(),
                forall|j: int| 0 <= j < k ==> (#[trigger] exts@[j]).manifest.extension_id@ != extension_id@,
            decreases exts@.len() - k,
        {
            let e = &exts[k];
            if compare_strings(e.manifest.extension_id.as_str(), extension_id) == 0 {
                return Ok(ExtensionInspection {
                    extension: list_entry(e),
                    manifest: e.manifest.clone(),
                    lock: e.lock.clone(),
                    manifest_path: e.manifest_path.copy(),
                    lock_path: e.lock_path.copy(),
                });
            }
            k = k + 1;
        }
        Err(CatalogError::ExtensionNotFound { extension_id: owned(extension_id) })
    }

    /// Summarises every extension and resolves every capability any of them
    /// declares, in ascending order of capability identifier; the catalog is
    /// complete when every extension is available and every capability has
    /// a selected provider.
    pub fn doctor(&self) -> (r: ExtensionDoctorReport)
        ensures
            r.sdk_contract@ == EXTENSION_SDK_CONTRACT@,
            r.extensions@.len() == self.entries().len(),
            forall|i: int| 0 <= i < r.extensions@.len() ==> summarises(#[trigger] r.extensions@[i], self.entries()[i]),
            r.extension_count == self.entries().len(),
            r.available_extension_count == r.extensions@.filter(|x: ExtensionListEntry| x.available).len(),
            strictly_ascending(r.resolutions@.map_values(|x: ExtensionResolution| x.capability_id@)),
            r.resolutions@.map_values(|x: ExtensionResolution| x.capability_id@).to_set()
                == declared_capabilities(self.entries(), self.entries().len() as int).to_set(),
            r.capability_count == r.resolutions@.len(),
            forall|i: int| 0 <= i < r.resolutions@.len()
                ==> resolves(self.entries(), (#[trigger] r.resolutions@[i]).capability_id@, r.resolutions@[i]),
            r.complete == ((forall|i: int| 0 <= i < r.extensions@.len() ==> (#[trigger] r.extensions@[i]).available)
                && (forall|i: int| 0 <= i < r.resolutions@.len()
                    ==> (#[trigger] r.resolutions@[i]).status == ExtensionResolutionStatus::Selected)),
    {
        let entries = self.list();
        let exts = &self.extensions;
        let mut all_ids: Vec<String> = Vec::new();
        let mut k: usize = 0;
        while k < exts.len()
            invariant
                k <= exts@.len(),
                exts@ == self.entries(),
                string_views(all_ids@) == declared_capabilities(exts@, k as int),
            decreases exts@.len() - k,
        {
            let caps = &exts[k].manifest.capabilities;
            let ghost before = string_views(all_ids@);
            let mut j: usize = 0;
            while j < caps.len()
                invariant
                    k < exts@.len(),
                    j <= caps@.len(),
                    caps@ == exts@[k as int].manifest.capabilities@,
                    string_views(all_ids@) == before + string_views(capability_ids_of(exts@[k as int])).take(j as int),
                decreases caps@.len() - j,
            {
                let id = caps[j].capability_id.clone();
                let ghost prev = all_ids@;
                all_ids.push(id);
                assert(string_views(all_ids@) =~= string_views(prev).push(caps@[j as int].capability_id@));
                assert(string_views(capability_ids_of(exts@[k as int]))[j as int] == caps@[j as int].capability_id@);
                assert(string_views(all_ids@) =~= before + string_views(capability_ids_of(exts@[k as int])).take(j + 1));
                j = j + 1;
            }
            assert(string_views(capability_ids_of(exts@[k as int])).take(caps@.len() as int)
                =~= string_views(capability_ids_of(exts@[k as int])));
            k = k + 1;
        }
        let ids = sorted_unique(&all_ids);
        let mut resolutions: Vec<ExtensionResolution> = Vec::new();
        let mut all_selected = true;
        let mut j: usize = 0;
        while j < ids.len()
            invariant
                j <= ids@.len(),
                resolutions@.len() == j,
                forall|i: int| 0 <= i < j ==> (#[trigger] resolutions@[i]).capability_id@ == ids@[i]@
                    && resolves(self.entries(), resolutions@[i].capability_id@, resolutions@[i]),
                all_selected ==> forall|i: int| 0 <= i < j ==> (#[trigger] resolutions@[i]).status == ExtensionResolutionStatus::Selected,
                !all_selected ==> exists|i: int| 0 <= i < j && (#[trigger] resolutions@[i]).status != ExtensionResolutionStatus::Selected,
            decreases ids@.len() - j,
        {
            let resolution = self.resolve(ids[j].as_str());
            let st = resolution.status;
            let ghost was = all_selected;
            if st != ExtensionResolutionStatus::Selected {
                all_selected = false;
            }
            let ghost before = resolutions@;
            resolutions.push(resolution);
            proof {
                assert(resolutions@[j as int].status == st);
                assert forall|i: int| 0 <= i < j implies resolutions@[i] == before[i] by {}
                if !was {
                    let w = choose|i: int| 0 <= i < j && before[i].status != ExtensionResolutionStatus::Selected;
                    assert(resolutions@[w].status != ExtensionResolutionStatus::Selected);
                }
            }
            j = j + 1;
        }
        assert(resolutions@.map_values(|x: ExtensionResolution| x.capability_id@) =~= string_views(ids@));
        let mut available: usize = 0;
        let mut all_available = true;
        let mut i: usize = 0;
        while i < entries.len()
            invariant
                i <= entries@.len(),
                available <= i,
                available == entries@.take(i as int).filter(|x: ExtensionListEntry| x.available).len(),
                all_available == forall|q: int| 0 <= q < i ==> (#[trigger] entries@[q]).available,
            decreases entries@.len() - i,
        {
            proof {
                let f = |x: ExtensionListEntry| x.available;
                assert(entries@.take(i + 1) =~= entries@.take(i as int).push(entries@[i as int]));
                entries@.take(i as int).lemma_filter_push(entries@[i as int], f);
            }
            if entries[i].available {
                available = available + 1;
            } else {
                all_available = false;
            }
            i = i + 1;
        }
        assert(entries@.take(entries@.len() as int) =~= entries@);
        let count = entries.len();
        let capability_count = resolutions.len();
        ExtensionDoctorReport {
            sdk_contract: owned(EXTENSION_SDK_CONTRACT),
            extension_count: count,
            available_extension_count: available,
            capability_count,
            complete: all_available && all_selected,
            extensions: entries,
            resolutions,
        }
    }
}

} // verus!
