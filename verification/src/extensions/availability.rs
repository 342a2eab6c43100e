//! Why a loaded extension cannot serve, judged from its manifest, its lock
//! and what was found of its process on disk.

use vstd::prelude::*;
use crate::domain::{path_bytes, NativePath};
use crate::duplicates::string_views;
use crate::extensions::catalog::{contains_text, has_configuration};
use crate::extensions::manifest_rules::{
    digest_matches, digest_of_matches, mode_name, mode_name_of, note, note_of, schema_compile_error,
    schema_compile_error_of,
};
use crate::extensions::model::{
    grant_identity_json, CapabilityDeclaration, ConfigurationSchemaDeclaration, Digest,
    ExecutionModeDeclaration, ExtensionEffect, ExtensionLockV1, ExtensionManifestV1,
    LockedConfiguration, LockedProcess, TrustMode, EXTENSION_LOCK_SCHEMA, EXTENSION_SDK_CONTRACT,
};
use crate::json::push_str;
use crate::sorting::{sorted_unique, strictly_ascending};
use crate::text::{compare_strings, owned, string_of};

verus! {

/// What validating the JSON value serialized as `instance` against the JSON
/// Schema document serialized as `document` finds: `None` when the value is
/// valid, else the location of the first violation and its text.
pub uninterp spec fn schema_instance_error(document: Seq<u8>, instance: Seq<u8>) -> Option<(Seq<char>, Seq<char>)>;

/// Parses both documents with `serde_json::from_slice`, compiles `document`
/// with `jsonschema::validator_for` and validates `instance` with
/// `Validator::validate`. The claim is that the outcome is a function of the
/// two byte strings alone, named by `schema_instance_error`; the first
/// violation's instance path and text are what the crate reports. Nothing is
/// stated of that text.
#[verifier::external_body]
fn schema_instance_error_of(document: &[u8], instance: &[u8]) -> (r: Option<(String, String)>)
    requires
        schema_compile_error(document@) is None,
    ensures
        match r {
            Some((at, message)) => schema_instance_error(document@, instance@) == Some((at@, message@)),
            None => schema_instance_error(document@, instance@) is None,
        },
{
    let schema: serde_json::Value = serde_json::from_slice(document).ok()?;
    let value: serde_json::Value = match serde_json::from_slice(instance) {
        Ok(value) => value,
        Err(error) => return Some((String::new(), error.to_string())),
    };
    let validator = jsonschema::validator_for(&schema).ok()?;
    let error = validator.validate(&value).err()?;
    Some((error.instance_path().to_string(), error.to_string()))
}

/// What was found on disk of a locked process: the digest of its executable
/// or why it could not be read, whether the executable has an execute
/// permission bit, and whether its working directory is a directory that is
/// not a symbolic link, or why that could not be told.
#[derive(Debug, PartialEq, Eq)]
pub struct ProcessProbe {
    pub executable_digest: Result<Digest, String>,
    pub executable_permission: bool,
    pub working_directory: Result<bool, String>,
}

/// The path's bytes begin at the root.
pub open spec fn absolute(p: NativePath) -> bool {
    path_bytes(p@).len() > 0 && path_bytes(p@)[0] == 47u8
}

fn is_absolute(p: &NativePath) -> (r: bool)
    ensures
        r == absolute(*p),
{
    let bytes = p.to_path_buf();
    bytes.len() > 0 && bytes[0] == 47u8
}

/// One message when `c` holds, else none.
pub open spec fn when(c: bool, message: Seq<char>) -> Seq<Seq<char>> {
    if c { seq![message] } else { seq![] }
}

/// Two digests name the same algorithm and value.
pub open spec fn same_digest(a: Digest, b: Digest) -> bool {
    a.algorithm@ == b.algorithm@ && a.value@ == b.value@
}

fn same_digest_exec(a: &Digest, b: &Digest) -> (r: bool)
    ensures
        r == same_digest(*a, *b),
{
    compare_strings(a.algorithm.as_str(), b.algorithm.as_str()) == 0
        && compare_strings(a.value.as_str(), b.value.as_str()) == 0
}

/// Why a locked process cannot run, from what was found on disk.
pub open spec fn process_problems(process: LockedProcess, probe: ProcessProbe) -> Seq<Seq<char>> {
    when(!absolute(process.executable), "the locked process executable path is not absolute"@)
        + when(!absolute(process.working_directory), "the locked process working directory is not absolute"@)
        + match probe.executable_digest {
            Ok(d) => when(!same_digest(d, process.executable_digest), "the process executable digest does not match the lock"@),
            Err(e) => seq!["the process executable is unavailable: "@ + e@],
        }
        + when(!probe.executable_permission, "the locked process file is not executable"@)
        + match probe.working_directory {
            Ok(is_directory) => when(!is_directory, "the process working directory is not a non-symlink directory"@),
            Err(e) => seq!["the process working directory is unavailable: "@ + e@],
        }
}

/// Every text of `items` is among `allowed`.
pub open spec fn all_among(items: Seq<String>, allowed: Seq<String>) -> bool {
    forall|i: int| 0 <= i < items.len() ==> string_views(allowed).contains(#[trigger] items[i]@)
}

/// The capabilities among the first `n` that have no locked configuration.
pub open spec fn unconfigured(caps: Seq<CapabilityDeclaration>, lock: ExtensionLockV1, n: int) -> Seq<Seq<char>>
    decreases n,
{
    if n <= 0 {
        seq![]
    } else {
        let c = caps[n - 1];
        unconfigured(caps, lock, n - 1) + when(!has_configuration(lock.configurations@, c.configuration_schema@),
            note("capability "@, c.capability_id@, " has no locked configuration for "@) + c.configuration_schema@)
    }
}

/// The position of the first execution mode named `name`, from `from` on,
/// or -1.
pub open spec fn mode_from(modes: Seq<ExecutionModeDeclaration>, name: Seq<char>, from: int) -> int
    decreases modes.len() - from,
{
    if from < 0 || from >= modes.len() {
        -1
    } else if mode_name(modes[from]) == name {
        from
    } else {
        mode_from(modes, name, from + 1)
    }
}

/// Why the selected execution mode cannot run under the lock.
pub open spec fn mode_problems(m: ExtensionManifestV1, lock: ExtensionLockV1, probe: ProcessProbe) -> Seq<Seq<char>> {
    let i = mode_from(m.execution_modes@, lock.selected_execution_mode@, 0);
    if i < 0 {
        seq!["the selected execution mode is not declared"@]
    } else {
        match m.execution_modes@[i] {
            ExecutionModeDeclaration::Embedded { .. } =>
                when(lock.trust != TrustMode::TrustedEmbedded, "embedded execution requires trusted_embedded mode"@)
                + when(lock.process is Some, "an embedded lock cannot include process execution state"@),
            ExecutionModeDeclaration::Process { .. } =>
                when(lock.trust != TrustMode::TrustedProcess, "process execution requires trusted_process mode"@)
                + when(!lock.granted_effects.has(ExtensionEffect::Subprocess), "process execution requires an explicit subprocess grant"@)
                + match lock.process {
                    Some(process) => process_problems(process, probe),
                    None => seq!["a process lock must pin an executable"@],
                },
        }
    }
}

/// The position of the last schema declaration named `id` before `n`, or -1.
pub open spec fn last_schema_before(decls: Seq<ConfigurationSchemaDeclaration>, id: Seq<char>, n: int) -> int
    decreases n,
{
    if n <= 0 {
        -1
    } else if decls[n - 1].schema_id@ == id {
        n - 1
    } else {
        last_schema_before(decls, id, n - 1)
    }
}

/// Why a locked configuration does not fit the declared schema it names.
pub open spec fn configuration_problems(decls: Seq<ConfigurationSchemaDeclaration>, id: Seq<char>, locked: LockedConfiguration) -> Seq<Seq<char>> {
    let i = last_schema_before(decls, id, decls.len() as int);
    if i < 0 {
        seq![note("locked configuration "@, id, " has no declared schema"@)]
    } else {
        let document = decls[i].document@;
        when(!digest_matches(locked.fingerprint, locked.values@), note("locked configuration "@, id, " fingerprint is inconsistent"@))
            + match schema_compile_error(document) {
                Some(e) => seq![note("configuration schema "@, id, " could not be compiled: "@) + e],
                None => match schema_instance_error(document, locked.values@) {
                    Some((at, message)) => seq![note("locked configuration "@, id, " is invalid at "@) + at + ": "@ + message],
                    None => seq![],
                },
            }
    }
}

/// The problems of the first `n` locked configurations.
pub open spec fn locked_configuration_problems(m: ExtensionManifestV1, cfgs: Seq<(String, LockedConfiguration)>, n: int) -> Seq<Seq<char>>
    decreases n,
{
    if n <= 0 {
        seq![]
    } else {
        locked_configuration_problems(m, cfgs, n - 1)
            + configuration_problems(m.configuration_schemas@, cfgs[n - 1].0@, cfgs[n - 1].1)
    }
}

/// Every reason the extension cannot serve, in the order they are found,
/// possibly with repeats.
pub open spec fn availability_problems(m: ExtensionManifestV1, manifest_digest: Digest, lock: ExtensionLockV1, probe: ProcessProbe) -> Seq<Seq<char>> {
    when(m.sdk_contract@ != EXTENSION_SDK_CONTRACT@,
        "SDK contract "@ + m.sdk_contract@ + " is incompatible with "@ + EXTENSION_SDK_CONTRACT@)
        + when(lock.schema@ != EXTENSION_LOCK_SCHEMA@, "the lock declares an unsupported schema"@)
        + when(!same_digest(lock.manifest_digest, manifest_digest), "the lock does not pin the exact manifest bytes"@)
        + when(!lock.enabled || lock.trust == TrustMode::Disabled, "the extension is disabled by its operator lock"@)
        + when(!digest_matches(lock.grants_digest, vstd::utf8::encode_utf8(grant_identity_json(lock))),
            "the lock grants fingerprint is inconsistent"@)
        + when(!lock.granted_effects.subset_of(m.requested_effects), "the lock grants effects the manifest did not request"@)
        + when(!all_among(lock.allowed_replacements@, m.replacement.replaces@), "the lock authorizes an undeclared replacement"@)
        + when(!all_among(lock.allowed_fallbacks@, m.replacement.fallbacks_for@), "the lock authorizes an undeclared fallback"@)
        + unconfigured(m.capabilities@, lock, m.capabilities@.len() as int)
        + mode_problems(m, lock, probe)
        + locked_configuration_problems(m, lock.configurations@, lock.configurations@.len() as int)
}

fn push_when(out: &mut Vec<String>, c: bool, message: &str)
    ensures
        string_views(final(out)@) == string_views(old(out)@) + when(c, message@),
{
    if c {
        out.push(owned(message));
    }
    assert(string_views(out@) =~= string_views(old(out)@) + when(c, message@));
}

fn push_text(out: &mut Vec<String>, message: String)
    ensures
        string_views(final(out)@) == string_views(old(out)@).push(message@),
{
    let ghost m = message@;
    out.push(message);
    assert(string_views(out@) =~= string_views(old(out)@).push(m));
}

fn text2(a: &str, b: &str) -> (r: String)
    ensures
        r@ == a@ + b@,
{
    let mut t: Vec<char> = Vec::new();
    push_str(&mut t, a);
    push_str(&mut t, b);
    string_of(&t)
}

fn push_process_problems(out: &mut Vec<String>, process: &LockedProcess, probe: &ProcessProbe)
    ensures
        string_views(final(out)@) == string_views(old(out)@) + process_problems(*process, *probe),
{
    let ghost start = string_views(out@);
    push_when(out, !is_absolute(&process.executable), "the locked process executable path is not absolute");
    push_when(out, !is_absolute(&process.working_directory), "the locked process working directory is not absolute");
    let ghost a = string_views(out@);
    match &probe.executable_digest {
        Ok(d) => push_when(out, !same_digest_exec(d, &process.executable_digest), "the process executable digest does not match the lock"),
        Err(e) => push_text(out, text2("the process executable is unavailable: ", e.as_str())),
    }
    let ghost b = string_views(out@);
    push_when(out, !probe.executable_permission, "the locked process file is not executable");
    let ghost c = string_views(out@);
    match &probe.working_directory {
        Ok(is_directory) => push_when(out, !*is_directory, "the process working directory is not a non-symlink directory"),
        Err(e) => push_text(out, text2("the process working directory is unavailable: ", e.as_str())),
    }
    assert(string_views(out@) =~= start + process_problems(*process, *probe));
}

fn push_unconfigured(out: &mut Vec<String>, m: &ExtensionManifestV1, lock: &ExtensionLockV1)
    ensures
        string_views(final(out)@) == string_views(old(out)@) + unconfigured(m.capabilities@, *lock, m.capabilities@.len() as int),
{
    let ghost start = string_views(out@);
    let mut k: usize = 0;
    while k < m.capabilities.len()
        invariant
            k <= m.capabilities@.len(),
            string_views(out@) == start + unconfigured(m.capabilities@, *lock, k as int),
        decreases m.capabilities@.len() - k,
    {
        let c = &m.capabilities[k];
        let ghost before = string_views(out@);
        if !has_locked(lock, c.configuration_schema.as_str()) {
            let mut t: Vec<char> = Vec::new();
            push_str(&mut t, "capability ");
            push_str(&mut t, c.capability_id.as_str());
            push_str(&mut t, " has no locked configuration for ");
            push_str(&mut t, c.configuration_schema.as_str());
            push_text(out, string_of(&t));
            assert(t@ =~= note("capability "@, c.capability_id@, " has no locked configuration for "@) + c.configuration_schema@);
        }
        assert(string_views(out@) =~= start + unconfigured(m.capabilities@, *lock, k + 1));
        k = k + 1;
    }
}

fn has_locked(lock: &ExtensionLockV1, schema_id: &str) -> (r: bool)
    ensures
        r == has_configuration(lock.configurations@, schema_id@),
{
    let cfgs = &lock.configurations;
    let mut k: usize = 0;
    while k < cfgs.len()
        invariant
            k <= cfgs@.len(),
            cfgs@ == lock.configurations@,
            forall|j: int| 0 <= j < k ==> (#[trigger] cfgs@[j]).0@ != schema_id@,
        decreases cfgs@.len() - k,
    {
        if compare_strings(cfgs[k].0.as_str(), schema_id) == 0 {
            assert(cfgs@[k as int].0@ == schema_id@);
            return true;
        }
        k = k + 1;
    }
    false
}

fn mode_position(modes: &Vec<ExecutionModeDeclaration>, name: &str) -> (r: Option<usize>)
    ensures
        match r {
            Some(k) => k < modes@.len() && mode_from(modes@, name@, 0) == k,
            None => mode_from(modes@, name@, 0) == -1,
        },
{
    let mut k: usize = 0;
    while k < modes.len()
        invariant
            k <= modes@.len(),
            mode_from(modes@, name@, 0) == mode_from(modes@, name@, k as int),
        decreases modes@.len() - k,
    {
        if compare_strings(mode_name_of(&modes[k]), name) == 0 {
            return Some(k);
        }
        k = k + 1;
    }
    None
}

/// One past the position of the last declaration named `id`, or 0.
fn last_schema_position(decls: &Vec<ConfigurationSchemaDeclaration>, id: &str) -> (r: usize)
    ensures
        r <= decls@.len(),
        last_schema_before(decls@, id@, decls@.len() as int) == r - 1,
{
    let mut k: usize = decls.len();
    while k > 0
        invariant
            k <= decls@.len(),
            last_schema_before(decls@, id@, decls@.len() as int) == last_schema_before(decls@, id@, k as int),
        decreases k,
    {
        if compare_strings(decls[k - 1].schema_id.as_str(), id) == 0 {
            return k;
        }
        k = k - 1;
    }
    0
}

fn push_mode_problems(out: &mut Vec<String>, m: &ExtensionManifestV1, lock: &ExtensionLockV1, probe: &ProcessProbe)
    ensures
        string_views(final(out)@) == string_views(old(out)@) + mode_problems(*m, *lock, *probe),
{
    let ghost start = string_views(out@);
    let modes = &m.execution_modes;
    let found = mode_position(modes, lock.selected_execution_mode.as_str());
    if found.is_none() {
        push_text(out, owned("the selected execution mode is not declared"));
        return;
    }
    let k = found.unwrap();
    match &modes[k] {
        ExecutionModeDeclaration::Embedded { .. } => {
            push_when(out, lock.trust != TrustMode::TrustedEmbedded, "embedded execution requires trusted_embedded mode");
            push_when(out, lock.process.is_some(), "an embedded lock cannot include process execution state");
        },
        ExecutionModeDeclaration::Process { .. } => {
            push_when(out, lock.trust != TrustMode::TrustedProcess, "process execution requires trusted_process mode");
            push_when(out, !lock.granted_effects.contains(ExtensionEffect::Subprocess), "process execution requires an explicit subprocess grant");
            match &lock.process {
                Some(process) => push_process_problems(out, process, probe),
                None => push_text(out, owned("a process lock must pin an executable")),
            }
        },
    }
    assert(string_views(out@) =~= start + mode_problems(*m, *lock, *probe));
}

fn push_configuration_problems(out: &mut Vec<String>, m: &ExtensionManifestV1, id: &str, locked: &LockedConfiguration)
    ensures
        string_views(final(out)@) == string_views(old(out)@) + configuration_problems(m.configuration_schemas@, id@, *locked),
{
    let ghost start = string_views(out@);
    let decls = &m.configuration_schemas;
    let k = last_schema_position(decls, id);
    if k == 0 {
        push_text(out, note_of("locked configuration ", id, " has no declared schema"));
        assert(string_views(out@) =~= start + configuration_problems(m.configuration_schemas@, id@, *locked));
        return;
    }
    let document = decls[k - 1].document.as_slice();
    push_when_text(out, !digest_of_matches(&locked.fingerprint, locked.values.as_slice()),
        note_of("locked configuration ", id, " fingerprint is inconsistent"));
    let ghost middle = string_views(out@);
    match schema_compile_error_of(document) {
        Some(e) => {
            let mut t: Vec<char> = Vec::new();
            push_str(&mut t, "configuration schema ");
            push_str(&mut t, id);
            push_str(&mut t, " could not be compiled: ");
            push_str(&mut t, e.as_str());
            assert(t@ =~= note("configuration schema "@, id@, " could not be compiled: "@) + e@);
            push_text(out, string_of(&t));
        },
        None => {
            match schema_instance_error_of(document, locked.values.as_slice()) {
                Some((at, message)) => {
                    let mut t: Vec<char> = Vec::new();
                    push_str(&mut t, "locked configuration ");
                    push_str(&mut t, id);
                    push_str(&mut t, " is invalid at ");
                    push_str(&mut t, at.as_str());
                    push_str(&mut t, ": ");
                    push_str(&mut t, message.as_str());
                    assert(t@ =~= note("locked configuration "@, id@, " is invalid at "@) + at@ + ": "@ + message@);
                    push_text(out, string_of(&t));
                },
                None => {},
            }
        },
    }
    assert(string_views(out@) =~= start + configuration_problems(m.configuration_schemas@, id@, *locked));
}

fn push_when_text(out: &mut Vec<String>, c: bool, message: String)
    ensures
        string_views(final(out)@) == string_views(old(out)@) + when(c, message@),
{
    let ghost t = message@;
    if c {
        out.push(message);
    }
    assert(string_views(out@) =~= string_views(old(out)@) + when(c, t));
}

fn push_locked_configuration_problems(out: &mut Vec<String>, m: &ExtensionManifestV1, lock: &ExtensionLockV1)
    ensures
        string_views(final(out)@) == string_views(old(out)@)
            + locked_configuration_problems(*m, lock.configurations@, lock.configurations@.len() as int),
{
    let ghost start = string_views(out@);
    let cfgs = &lock.configurations;
    let mut k: usize = 0;
    while k < cfgs.len()
        invariant
            k <= cfgs@.len(),
            cfgs@ == lock.configurations@,
            string_views(out@) == start + locked_configuration_problems(*m, cfgs@, k as int),
        decreases cfgs@.len() - k,
    {
        push_configuration_problems(out, m, cfgs[k].0.as_str(), &cfgs[k].1);
        assert(string_views(out@) =~= start + locked_configuration_problems(*m, cfgs@, k + 1));
        k = k + 1;
    }
}

fn all_among_exec(items: &Vec<String>, allowed: &Vec<String>) -> (r: bool)
    ensures
        r == all_among(items@, allowed@),
{
    let mut k: usize = 0;
    while k < items.len()
        invariant
            k <= items@.len(),
            forall|i: int| 0 <= i < k ==> string_views(allowed@).contains(#[trigger] items@[i]@),
        decreases items@.len() - k,
    {
        if !contains_text(allowed, items[k].as_str()) {
            return false;
        }
        k = k + 1;
    }
    true
}

/// Every reason the extension cannot serve, before sorting.
fn availability_problem_list(manifest: &ExtensionManifestV1, manifest_digest: &Digest, lock: &ExtensionLockV1, probe: &ProcessProbe) -> (r: Vec<String>)
    ensures
        string_views(r@) == availability_problems(*manifest, *manifest_digest, *lock, *probe),
{
    let mut out: Vec<String> = Vec::new();
    assert(string_views(out@) =~= Seq::<Seq<char>>::empty());
    let ghost s0 = string_views(out@);
    if compare_strings(manifest.sdk_contract.as_str(), EXTENSION_SDK_CONTRACT) != 0 {
        let mut t: Vec<char> = Vec::new();
        push_str(&mut t, "SDK contract ");
        push_str(&mut t, manifest.sdk_contract.as_str());
        push_str(&mut t, " is incompatible with ");
        push_str(&mut t, EXTENSION_SDK_CONTRACT);
        push_text(&mut out, string_of(&t));
    }
    push_when(&mut out, compare_strings(lock.schema.as_str(), EXTENSION_LOCK_SCHEMA) != 0, "the lock declares an unsupported schema");
    push_when(&mut out, !same_digest_exec(&lock.manifest_digest, manifest_digest), "the lock does not pin the exact manifest bytes");
    push_when(&mut out, !lock.enabled || lock.trust == TrustMode::Disabled, "the extension is disabled by its operator lock");
    let expected = lock.expected_grants_digest();
    push_when(&mut out, !same_digest_exec(&lock.grants_digest, &expected), "the lock grants fingerprint is inconsistent");
    push_when(&mut out, !lock.granted_effects.is_subset(&manifest.requested_effects), "the lock grants effects the manifest did not request");
    push_when(&mut out, !all_among_exec(&lock.allowed_replacements, &manifest.replacement.replaces), "the lock authorizes an undeclared replacement");
    push_when(&mut out, !all_among_exec(&lock.allowed_fallbacks, &manifest.replacement.fallbacks_for), "the lock authorizes an undeclared fallback");
    push_unconfigured(&mut out, manifest, lock);
    push_mode_problems(&mut out, manifest, lock, probe);
    push_locked_configuration_problems(&mut out, manifest, lock);
    assert(string_views(out@) =~= availability_problems(*manifest, *manifest_digest, *lock, *probe));
    out
}

/// Why an extension cannot serve: each reason once, in ascending order.
pub fn availability_reasons(manifest: &ExtensionManifestV1, manifest_digest: &Digest, lock: &ExtensionLockV1, probe: &ProcessProbe) -> (r: Vec<String>)
    ensures
        strictly_ascending(string_views(r@)),
        string_views(r@).to_set() == availability_problems(*manifest, *manifest_digest, *lock, *probe).to_set(),
{
    let problems = availability_problem_list(manifest, manifest_digest, lock, probe);
    sorted_unique(&problems)
}

} // verus!
