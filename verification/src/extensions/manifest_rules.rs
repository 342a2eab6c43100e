//! The rules a manifest must follow before its extension can be loaded.

use vstd::prelude::*;
use crate::digest::blake3_hex;
use crate::domain::NativePath;
use crate::duplicates::string_views;
use crate::extensions::catalog::{optional_text, CatalogError};
use crate::extensions::model::{
    CapabilityDeclaration, CapabilityKind, ConfigurationSchemaDeclaration, DeclaredCoverage, Digest,
    ExecutionModeDeclaration, ExtensionEffect, ExtensionManifestV1, ObserverHookDeclaration,
    EXTENSION_INVOCATION_SCHEMA, EXTENSION_MANIFEST_SCHEMA, MAX_EXTENSION_STDERR_BYTES,
    MAX_EXTENSION_STDIN_BYTES, MAX_EXTENSION_STDOUT_BYTES, MAX_EXTENSION_TIMEOUT_MS,
};
use crate::json::push_str;
use crate::text::{chars_of, compare_strings, owned, string_of};

verus! {

/// A lowercase ASCII letter.
pub open spec fn lower_letter(c: char) -> bool {
    'a' <= c && c <= 'z'
}

/// An ASCII digit.
pub open spec fn ascii_digit(c: char) -> bool {
    '0' <= c && c <= '9'
}

/// A character allowed inside an identifier segment.
pub open spec fn segment_char(c: char) -> bool {
    lower_letter(c) || ascii_digit(c) || c == '-'
}

/// `v` is one or more segments joined by `sep`, each segment made of
/// lowercase letters, digits and `-`, and starting with a lowercase letter.
pub open spec fn segmented(v: Seq<char>, sep: char) -> bool {
    &&& v.len() > 0
    &&& lower_letter(v[0])
    &&& forall|i: int| 0 <= i < v.len() ==> segment_char(#[trigger] v[i]) || v[i] == sep
    &&& forall|i: int| 0 <= i < v.len() && #[trigger] v[i] == sep ==> i + 1 < v.len() && lower_letter(v[i + 1])
}

/// A qualified identifier: two or more dot-separated lowercase segments.
pub open spec fn qualified_id(v: Seq<char>) -> bool {
    segmented(v, '.') && v.contains('.')
}

/// The prefix of every capability identifier.
pub open spec fn capability_prefix() -> Seq<char> {
    seq!['o', 'p', 't', 'i', 'f', 'l', 'o', 'w', '/']
}

/// A capability identifier: `optiflow/` followed by one or more
/// slash-separated lowercase segments.
pub open spec fn capability_id_ok(v: Seq<char>) -> bool {
    v.len() >= 9 && v.take(9) == capability_prefix() && segmented(v.skip(9), '/')
}

/// The number of dots among the first `n` characters.
pub open spec fn dots(v: Seq<char>, n: int) -> nat
    decreases n,
{
    if n <= 0 {
        0
    } else {
        dots(v, n - 1) + (if v[n - 1] == '.' { 1nat } else { 0nat })
    }
}

/// A semantic version `major.minor.patch`: three non-empty runs of digits,
/// none with a leading zero unless it is `0` itself.
pub open spec fn semver_ok(v: Seq<char>) -> bool {
    &&& v.len() > 0
    &&& forall|i: int| 0 <= i < v.len() ==> ascii_digit(#[trigger] v[i]) || v[i] == '.'
    &&& dots(v, v.len() as int) == 2
    &&& v[0] != '.'
    &&& v[v.len() - 1] != '.'
    &&& forall|i: int| 0 <= i < v.len() - 1 && #[trigger] v[i] == '.' ==> v[i + 1] != '.'
    &&& forall|i: int| 0 <= i < v.len() && #[trigger] v[i] == '0' && (i == 0 || v[i - 1] == '.')
        ==> i + 1 == v.len() || v[i + 1] == '.'
}

fn is_lower_letter(c: char) -> (r: bool)
    ensures
        r == lower_letter(c),
{
    'a' <= c && c <= 'z'
}

fn is_segment_char(c: char) -> (r: bool)
    ensures
        r == segment_char(c),
{
    ('a' <= c && c <= 'z') || ('0' <= c && c <= '9') || c == '-'
}

/// Whether the characters of `v` from `start` on satisfy `segmented`.
fn segmented_from(v: &Vec<char>, start: usize, sep: char) -> (r: bool)
    requires
        start <= v@.len(),
    ensures
        r == segmented(v@.skip(start as int), sep),
{
    let ghost w = v@.skip(start as int);
    let n = v.len();
    if start >= n || !is_lower_letter(v[start]) {
        return false;
    }
    let mut i: usize = start;
    while i < n
        invariant
            start <= i <= n,
            n == v@.len(),
            w == v@.skip(start as int),
            forall|j: int| 0 <= j < i - start ==> segment_char(#[trigger] w[j]) || w[j] == sep,
            forall|j: int| 0 <= j < i - start && #[trigger] w[j] == sep ==> j + 1 < w.len() && lower_letter(w[j + 1]),
        decreases n - i,
    {
        let c = v[i];
        assert(w[i - start] == c);
        if !(is_segment_char(c) || c == sep) {
            return false;
        }
        if c == sep {
            if i + 1 >= n || !is_lower_letter(v[i + 1]) {
                return false;
            }
            assert(w[i + 1 - start] == v@[i + 1]);
        }
        i = i + 1;
    }
    true
}

/// Whether `value` is a qualified identifier.
pub fn valid_qualified_id(value: &str) -> (r: bool)
    ensures
        r == qualified_id(value@),
{
    let v = chars_of(value);
    assert(v@.skip(0) =~= v@);
    if !segmented_from(&v, 0, '.') {
        return false;
    }
    let mut i: usize = 0;
    while i < v.len()
        invariant
            i <= v@.len(),
            v@ == value@,
            segmented(v@, '.'),
            forall|j: int| 0 <= j < i ==> v@[j] != '.',
        decreases v@.len() - i,
    {
        if v[i] == '.' {
            assert(v@.contains('.'));
            return true;
        }
        i = i + 1;
    }
    false
}

/// Whether `value` is a capability identifier.
pub fn valid_capability_id(value: &str) -> (r: bool)
    ensures
        r == capability_id_ok(value@),
{
    let v = chars_of(value);
    if v.len() < 9 {
        return false;
    }
    let prefix = chars_of("optiflow/");
    proof {
        reveal_strlit("optiflow/");
    }
    assert(prefix@ =~= capability_prefix());
    let mut i: usize = 0;
    while i < 9
        invariant
            i <= 9,
            v@ == value@,
            v@.len() >= 9,
            prefix@ == capability_prefix(),
            forall|j: int| 0 <= j < i ==> v@[j] == capability_prefix()[j],
        decreases 9 - i,
    {
        if v[i] != prefix[i] {
            assert(v@.take(9)[i as int] != capability_prefix()[i as int]);
            assert(v@.take(9) != capability_prefix());
            assert(value@.take(9) != capability_prefix());
            return false;
        }
        i = i + 1;
    }
    assert(v@.take(9) =~= capability_prefix());
    segmented_from(&v, 9, '/')
}

proof fn lemma_dots_step(v: Seq<char>, n: int)
    requires
        0 <= n,
    ensures
        dots(v, n + 1) == dots(v, n) + (if v[n] == '.' { 1nat } else { 0nat }),
{
}

/// Whether `value` is a semantic version.
pub fn valid_semver(value: &str) -> (r: bool)
    ensures
        r == semver_ok(value@),
{
    let v = chars_of(value);
    let n = v.len();
    if n == 0 || v[0] == '.' || v[n - 1] == '.' {
        return false;
    }
    let mut count: usize = 0;
    let mut i: usize = 0;
    while i < n
        invariant
            i <= n,
            n == v@.len(),
            v@ == value@,
            n > 0,
            v@[0] != '.',
            v@[n - 1] != '.',
            count == dots(v@, i as int),
            count <= i,
            forall|j: int| 0 <= j < i ==> ascii_digit(#[trigger] v@[j]) || v@[j] == '.',
            forall|j: int| 0 <= j < i && j < n - 1 && #[trigger] v@[j] == '.' ==> v@[j + 1] != '.',
            forall|j: int| 0 <= j < i && #[trigger] v@[j] == '0' && (j == 0 || v@[j - 1] == '.')
                ==> j + 1 == n || v@[j + 1] == '.',
        decreases n - i,
    {
        let c = v[i];
        if !(('0' <= c && c <= '9') || c == '.') {
            assert(!(ascii_digit(v@[i as int]) || v@[i as int] == '.'));
            assert(!semver_ok(v@));
            return false;
        }
        if c == '.' && i + 1 < n && v[i + 1] == '.' {
            assert(v@[i as int] == '.' && v@[i + 1] == '.');
            assert(!semver_ok(v@));
            return false;
        }
        if c == '0' && (i == 0 || v[i - 1] == '.') && i + 1 < n && v[i + 1] != '.' {
            return false;
        }
        proof {
            lemma_dots_step(v@, i as int);
        }
        if c == '.' {
            count = count + 1;
        }
        i = i + 1;
    }
    count == 2
}

/// What compiling the JSON Schema document serialized as `document` yields:
/// `None` when it compiles, else the text of the error.
pub uninterp spec fn schema_compile_error(document: Seq<u8>) -> Option<Seq<char>>;

/// Parses `document` with `serde_json::from_slice` and compiles it with
/// `jsonschema::validator_for`. The claim is that the outcome is a function of
/// the bytes alone, named by `schema_compile_error`: with the crate's remote
/// and file reference resolution switched off, compiling reads nothing else.
/// Nothing is stated of the error text.
#[verifier::external_body]
pub(crate) fn schema_compile_error_of(document: &[u8]) -> (r: Option<String>)
    ensures
        optional_text(r) == schema_compile_error(document@),
{
    let value: serde_json::Value = match serde_json::from_slice(document) {
        Ok(value) => value,
        Err(error) => return Some(error.to_string()),
    };
    jsonschema::validator_for(&value).err().map(|error| error.to_string())
}

/// `prefix`, then `name`, then `suffix`.
pub open spec fn note(prefix: Seq<char>, name: Seq<char>, suffix: Seq<char>) -> Seq<char> {
    prefix + name + suffix
}

pub(crate) fn note_of(prefix: &str, name: &str, suffix: &str) -> (r: String)
    ensures
        r@ == note(prefix@, name@, suffix@),
{
    let mut out: Vec<char> = Vec::new();
    push_str(&mut out, prefix);
    push_str(&mut out, name);
    push_str(&mut out, suffix);
    assert(out@ =~= note(prefix@, name@, suffix@));
    string_of(&out)
}

/// `d` is the BLAKE3-256 digest of `bytes`.
pub open spec fn digest_matches(d: Digest, bytes: Seq<u8>) -> bool {
    d.algorithm@ == "blake3-256"@ && d.value@ == blake3_hex(bytes)
}

pub(crate) fn digest_of_matches(d: &Digest, bytes: &[u8]) -> (r: bool)
    ensures
        r == digest_matches(*d, bytes@),
{
    let expected = Digest::blake3(bytes);
    compare_strings(d.algorithm.as_str(), expected.algorithm.as_str()) == 0
        && compare_strings(d.value.as_str(), expected.value.as_str()) == 0
}

/// The first problem with a schema declaration, from the `i`-th on.
pub open spec fn schema_problem_from(decls: Seq<ConfigurationSchemaDeclaration>, i: int) -> Option<Seq<char>>
    decreases decls.len() - i,
{
    if i < 0 || i >= decls.len() {
        None
    } else {
        let id = decls[i].schema_id@;
        if exists|j: int| 0 <= j < i && (#[trigger] decls[j]).schema_id@ == id {
            Some(note("configuration schema "@, id, " is declared more than once"@))
        } else if !digest_matches(decls[i].schema_digest, decls[i].document@) {
            Some(note("configuration schema "@, id, " fingerprint does not match its document"@))
        } else {
            match schema_compile_error(decls[i].document@) {
                Some(e) => Some(note("configuration schema "@, id, " cannot be compiled: "@) + e),
                None => schema_problem_from(decls, i + 1),
            }
        }
    }
}

/// `decls` declares a schema named `id`.
pub open spec fn declares_schema(decls: Seq<ConfigurationSchemaDeclaration>, id: Seq<char>) -> bool {
    exists|j: int| 0 <= j < decls.len() && (#[trigger] decls[j]).schema_id@ == id
}

/// What is wrong with the `i`-th capability of `m`, if anything.
pub open spec fn capability_rule(m: ExtensionManifestV1, i: int) -> Option<Seq<char>> {
    let caps = m.capabilities@;
    let c = caps[i];
    let id = c.capability_id@;
    if exists|j: int| 0 <= j < i && (#[trigger] caps[j]).capability_id@ == id {
        Some(note("capability "@, id, " is declared more than once"@))
    } else if !capability_id_ok(id) {
        Some(note("capability "@, id, " is outside OptiFlow domain ownership"@))
    } else if !semver_ok(c.capability_version@) {
        Some(note("capability "@, id, " has an invalid version"@))
    } else if !declares_schema(m.configuration_schemas@, c.configuration_schema@) {
        Some(note("capability "@, id, " references an undeclared configuration schema"@))
    } else if !c.effects.subset_of(m.requested_effects) {
        Some(note("capability "@, id, " uses an effect the manifest did not request"@))
    } else if c.locality.local_only && (c.locality.network_hosts@.len() > 0 || c.effects.has(ExtensionEffect::Network)) {
        Some(note("local-only capability "@, id, " cannot declare network behavior"@))
    } else if !c.locality.local_only && (c.locality.network_hosts@.len() == 0 || !c.effects.has(ExtensionEffect::Network)) {
        Some(note("networked capability "@, id, " must declare hosts and the network effect"@))
    } else if c.resource_needs.gpu != c.effects.has(ExtensionEffect::Gpu) {
        Some(note("capability "@, id, " has inconsistent GPU declarations"@))
    } else if c.content_changes && c.kind != CapabilityKind::Planner {
        Some("only a planner may describe a content-changing operation: "@ + id)
    } else if c.kind == CapabilityKind::LifecycleObserver && c.content_changes {
        Some("lifecycle observers must be read-only"@)
    } else if c.coverage.mode == DeclaredCoverage::PartialByDesign && c.coverage.dimensions@.len() == 0 {
        Some(note("partial-by-design capability "@, id, " must name coverage dimensions"@))
    } else {
        None
    }
}

/// The first problem with a capability of `m`, from the `i`-th on.
pub open spec fn capability_problem_from(m: ExtensionManifestV1, i: int) -> Option<Seq<char>>
    decreases m.capabilities@.len() - i,
{
    if i < 0 || i >= m.capabilities@.len() {
        None
    } else {
        match capability_rule(m, i) {
            Some(p) => Some(p),
            None => capability_problem_from(m, i + 1),
        }
    }
}

/// The name an execution mode is selected by.
pub open spec fn mode_name(md: ExecutionModeDeclaration) -> Seq<char> {
    match md {
        ExecutionModeDeclaration::Embedded { name, .. } => name@,
        ExecutionModeDeclaration::Process { name, .. } => name@,
    }
}

/// What is wrong with the `i`-th execution mode of `m`, if anything.
pub open spec fn mode_rule(m: ExtensionManifestV1, i: int) -> Option<Seq<char>> {
    let modes = m.execution_modes@;
    let name = mode_name(modes[i]);
    if exists|j: int| 0 <= j < i && mode_name(#[trigger] modes[j]) == name {
        Some(note("execution mode "@, name, " is declared more than once"@))
    } else {
        match modes[i] {
            ExecutionModeDeclaration::Process { protocol, limits, .. } => {
                if !m.requested_effects.has(ExtensionEffect::Subprocess) {
                    Some(note("process execution mode "@, name, " requires the subprocess effect"@))
                } else if protocol@ != EXTENSION_INVOCATION_SCHEMA@ {
                    Some(note("process execution mode "@, name, " uses an unsupported protocol"@))
                } else if limits.timeout_ms == 0 || limits.max_stdin_bytes == 0 || limits.max_stdout_bytes == 0
                    || limits.max_stderr_bytes == 0 {
                    Some(note("process execution mode "@, name, " has a zero resource bound"@))
                } else if limits.timeout_ms > MAX_EXTENSION_TIMEOUT_MS || limits.max_stdin_bytes > MAX_EXTENSION_STDIN_BYTES
                    || limits.max_stdout_bytes > MAX_EXTENSION_STDOUT_BYTES || limits.max_stderr_bytes > MAX_EXTENSION_STDERR_BYTES {
                    Some(note("process execution mode "@, name, " exceeds an SDK v1 host ceiling"@))
                } else {
                    None
                }
            },
            ExecutionModeDeclaration::Embedded { .. } => None,
        }
    }
}

/// The first problem with an execution mode of `m`, from the `i`-th on.
pub open spec fn mode_problem_from(m: ExtensionManifestV1, i: int) -> Option<Seq<char>>
    decreases m.execution_modes@.len() - i,
{
    if i < 0 || i >= m.execution_modes@.len() {
        None
    } else {
        match mode_rule(m, i) {
            Some(p) => Some(p),
            None => mode_problem_from(m, i + 1),
        }
    }
}

/// The first problem with an observer hook, from the `i`-th on.
pub open spec fn hook_problem_from(hooks: Seq<ObserverHookDeclaration>, i: int) -> Option<Seq<char>>
    decreases hooks.len() - i,
{
    if i < 0 || i >= hooks.len() {
        None
    } else {
        let id = hooks[i].hook_id@;
        if exists|j: int| 0 <= j < i && (#[trigger] hooks[j]).hook_id@ == id {
            Some(note("observer hook "@, id, " is declared more than once"@))
        } else if !hooks[i].read_only {
            Some(note("observer hook "@, id, " must declare read_only true"@))
        } else if hooks[i].lifecycle_points.empty_set() {
            Some(note("observer hook "@, id, " must select a lifecycle point"@))
        } else {
            hook_problem_from(hooks, i + 1)
        }
    }
}

/// The manifest requests an authority SDK v1 never grants.
pub open spec fn requests_prohibited(m: ExtensionManifestV1) -> bool {
    ||| m.requested_effects.has(ExtensionEffect::SourceMutation)
    ||| m.requested_effects.has(ExtensionEffect::Destructive)
    ||| m.requested_effects.has(ExtensionEffect::Sign)
    ||| m.requested_effects.has(ExtensionEffect::Publish)
}

/// The manifest declares a lifecycle-observer capability.
pub open spec fn has_observer_capability(m: ExtensionManifestV1) -> bool {
    exists|i: int| 0 <= i < m.capabilities@.len() && (#[trigger] m.capabilities@[i]).kind == CapabilityKind::LifecycleObserver
}

/// The first rule the manifest breaks, in the order they are checked, or
/// `None` when it follows all of them.
pub open spec fn manifest_problem(m: ExtensionManifestV1) -> Option<Seq<char>> {
    let id = m.extension_id@;
    if m.schema@ != EXTENSION_MANIFEST_SCHEMA@ {
        Some("unsupported extension manifest schema"@)
    } else if !qualified_id(id) {
        Some("extension_id must be a lowercase qualified identifier"@)
    } else if !semver_ok(m.version@) {
        Some("extension version must be semantic versioning"@)
    } else if m.capabilities@.len() == 0 {
        Some("an extension must declare at least one capability"@)
    } else if string_views(m.replacement.replaces@).contains(id) || string_views(m.replacement.fallbacks_for@).contains(id) {
        Some("an extension cannot replace or fall back for itself"@)
    } else if schema_problem_from(m.configuration_schemas@, 0) is Some {
        schema_problem_from(m.configuration_schemas@, 0)
    } else if requests_prohibited(m) {
        Some("extension SDK v1 cannot request mutation, destructive, signing, or publication authority"@)
    } else if capability_problem_from(m, 0) is Some {
        capability_problem_from(m, 0)
    } else if mode_problem_from(m, 0) is Some {
        mode_problem_from(m, 0)
    } else if m.execution_modes@.len() == 0 {
        Some("an extension must declare an execution mode"@)
    } else if hook_problem_from(m.observer_hooks@, 0) is Some {
        hook_problem_from(m.observer_hooks@, 0)
    } else if has_observer_capability(m) && m.observer_hooks@.len() == 0 {
        Some("lifecycle-observer capabilities require a read-only hook declaration"@)
    } else {
        None
    }
}

fn schema_problem(decls: &Vec<ConfigurationSchemaDeclaration>) -> (r: Option<String>)
    ensures
        optional_text(r) == schema_problem_from(decls@, 0),
{
    let mut i: usize = 0;
    while i < decls.len()
        invariant
            i <= decls@.len(),
            schema_problem_from(decls@, 0) == schema_problem_from(decls@, i as int),
        decreases decls@.len() - i,
    {
        let d = &decls[i];
        let mut j: usize = 0;
        while j < i
            invariant
                j <= i < decls@.len(),
                d == decls@[i as int],
                schema_problem_from(decls@, 0) == schema_problem_from(decls@, i as int),
                forall|k: int| 0 <= k < j ==> (#[trigger] decls@[k]).schema_id@ != d.schema_id@,
            decreases i - j,
        {
            if compare_strings(decls[j].schema_id.as_str(), d.schema_id.as_str()) == 0 {
                assert(decls@[j as int].schema_id@ == decls@[i as int].schema_id@);
                return Some(note_of("configuration schema ", d.schema_id.as_str(), " is declared more than once"));
            }
            j = j + 1;
        }
        if !digest_of_matches(&d.schema_digest, d.document.as_slice()) {
            return Some(note_of("configuration schema ", d.schema_id.as_str(), " fingerprint does not match its document"));
        }
        match schema_compile_error_of(d.document.as_slice()) {
            Some(e) => {
                let mut text: Vec<char> = Vec::new();
                push_str(&mut text, "configuration schema ");
                push_str(&mut text, d.schema_id.as_str());
                push_str(&mut text, " cannot be compiled: ");
                push_str(&mut text, e.as_str());
                assert(text@ =~= note("configuration schema "@, d.schema_id@, " cannot be compiled: "@) + e@);
                return Some(string_of(&text));
            },
            None => {},
        }
        i = i + 1;
    }
    None
}

fn capability_rule_of(m: &ExtensionManifestV1, i: usize) -> (r: Option<String>)
    requires
        i < m.capabilities@.len(),
    ensures
        optional_text(r) == capability_rule(*m, i as int),
{
    let caps = &m.capabilities;
    let c = &caps[i];
    let id = c.capability_id.as_str();
    let mut j: usize = 0;
    while j < i
        invariant
            j <= i < caps@.len(),
            caps@ == m.capabilities@,
            c == caps@[i as int],
            id@ == c.capability_id@,
            forall|k: int| 0 <= k < j ==> (#[trigger] caps@[k]).capability_id@ != c.capability_id@,
        decreases i - j,
    {
        if compare_strings(caps[j].capability_id.as_str(), id) == 0 {
            assert(caps@[j as int].capability_id@ == caps@[i as int].capability_id@);
            return Some(note_of("capability ", id, " is declared more than once"));
        }
        j = j + 1;
    }
    if !valid_capability_id(id) {
        return Some(note_of("capability ", id, " is outside OptiFlow domain ownership"));
    }
    if !valid_semver(c.capability_version.as_str()) {
        return Some(note_of("capability ", id, " has an invalid version"));
    }
    let decls = &m.configuration_schemas;
    let mut declared = false;
    let mut k: usize = 0;
    while k < decls.len()
        invariant
            k <= decls@.len(),
            decls@ == m.configuration_schemas@,
            !declared ==> forall|q: int| 0 <= q < k ==> (#[trigger] decls@[q]).schema_id@ != c.configuration_schema@,
            declared ==> declares_schema(decls@, c.configuration_schema@),
        decreases decls@.len() - k,
    {
        if compare_strings(decls[k].schema_id.as_str(), c.configuration_schema.as_str()) == 0 {
            assert(decls@[k as int].schema_id@ == c.configuration_schema@);
            declared = true;
        }
        k = k + 1;
    }
    if !declared {
        return Some(note_of("capability ", id, " references an undeclared configuration schema"));
    }
    if !c.effects.is_subset(&m.requested_effects) {
        return Some(note_of("capability ", id, " uses an effect the manifest did not request"));
    }
    let network = c.effects.contains(ExtensionEffect::Network);
    if c.locality.local_only && (c.locality.network_hosts.len() > 0 || network) {
        return Some(note_of("local-only capability ", id, " cannot declare network behavior"));
    }
    if !c.locality.local_only && (c.locality.network_hosts.len() == 0 || !network) {
        return Some(note_of("networked capability ", id, " must declare hosts and the network effect"));
    }
    if c.resource_needs.gpu != c.effects.contains(ExtensionEffect::Gpu) {
        return Some(note_of("capability ", id, " has inconsistent GPU declarations"));
    }
    if c.content_changes && c.kind != CapabilityKind::Planner {
        proof {
            reveal_strlit("");
        }
        return Some(note_of("only a planner may describe a content-changing operation: ", id, ""));
    }
    if c.kind == CapabilityKind::LifecycleObserver && c.content_changes {
        return Some(owned("lifecycle observers must be read-only"));
    }
    if c.coverage.mode == DeclaredCoverage::PartialByDesign && c.coverage.dimensions.len() == 0 {
        return Some(note_of("partial-by-design capability ", id, " must name coverage dimensions"));
    }
    None
}

fn capability_problem(m: &ExtensionManifestV1) -> (r: Option<String>)
    ensures
        optional_text(r) == capability_problem_from(*m, 0),
{
    let mut i: usize = 0;
    while i < m.capabilities.len()
        invariant
            i <= m.capabilities@.len(),
            capability_problem_from(*m, 0) == capability_problem_from(*m, i as int),
        decreases m.capabilities@.len() - i,
    {
        let p = capability_rule_of(m, i);
        if p.is_some() {
            return p;
        }
        i = i + 1;
    }
    None
}

pub(crate) fn mode_name_of(md: &ExecutionModeDeclaration) -> (r: &str)
    ensures
        r@ == mode_name(*md),
{
    md.name()
}

fn mode_rule_of(m: &ExtensionManifestV1, i: usize) -> (r: Option<String>)
    requires
        i < m.execution_modes@.len(),
    ensures
        optional_text(r) == mode_rule(*m, i as int),
{
    let modes = &m.execution_modes;
    let md = &modes[i];
    let name = mode_name_of(md);
    let mut j: usize = 0;
    while j < i
        invariant
            j <= i < modes@.len(),
            modes@ == m.execution_modes@,
            md == modes@[i as int],
            name@ == mode_name(*md),
            forall|k: int| 0 <= k < j ==> mode_name(#[trigger] modes@[k]) != name@,
        decreases i - j,
    {
        if compare_strings(mode_name_of(&modes[j]), name) == 0 {
            return Some(note_of("execution mode ", name, " is declared more than once"));
        }
        j = j + 1;
    }
    match md {
        ExecutionModeDeclaration::Process { protocol, limits, .. } => {
            if !m.requested_effects.contains(ExtensionEffect::Subprocess) {
                return Some(note_of("process execution mode ", name, " requires the subprocess effect"));
            }
            if compare_strings(protocol.as_str(), EXTENSION_INVOCATION_SCHEMA) != 0 {
                return Some(note_of("process execution mode ", name, " uses an unsupported protocol"));
            }
            if limits.timeout_ms == 0 || limits.max_stdin_bytes == 0 || limits.max_stdout_bytes == 0
                || limits.max_stderr_bytes == 0 {
                return Some(note_of("process execution mode ", name, " has a zero resource bound"));
            }
            if limits.timeout_ms > MAX_EXTENSION_TIMEOUT_MS || limits.max_stdin_bytes > MAX_EXTENSION_STDIN_BYTES
                || limits.max_stdout_bytes > MAX_EXTENSION_STDOUT_BYTES || limits.max_stderr_bytes > MAX_EXTENSION_STDERR_BYTES {
                return Some(note_of("process execution mode ", name, " exceeds an SDK v1 host ceiling"));
            }
            None
        },
        ExecutionModeDeclaration::Embedded { .. } => None,
    }
}

fn mode_problem(m: &ExtensionManifestV1) -> (r: Option<String>)
    ensures
        optional_text(r) == mode_problem_from(*m, 0),
{
    let mut i: usize = 0;
    while i < m.execution_modes.len()
        invariant
            i <= m.execution_modes@.len(),
            mode_problem_from(*m, 0) == mode_problem_from(*m, i as int),
        decreases m.execution_modes@.len() - i,
    {
        let p = mode_rule_of(m, i);
        if p.is_some() {
            return p;
        }
        i = i + 1;
    }
    None
}

fn hook_problem(hooks: &Vec<ObserverHookDeclaration>) -> (r: Option<String>)
    ensures
        optional_text(r) == hook_problem_from(hooks@, 0),
{
    let mut i: usize = 0;
    while i < hooks.len()
        invariant
            i <= hooks@.len(),
            hook_problem_from(hooks@, 0) == hook_problem_from(hooks@, i as int),
        decreases hooks@.len() - i,
    {
        let h = &hooks[i];
        let mut j: usize = 0;
        while j < i
            invariant
                j <= i < hooks@.len(),
                h == hooks@[i as int],
                hook_problem_from(hooks@, 0) == hook_problem_from(hooks@, i as int),
                forall|k: int| 0 <= k < j ==> (#[trigger] hooks@[k]).hook_id@ != h.hook_id@,
            decreases i - j,
        {
            if compare_strings(hooks[j].hook_id.as_str(), h.hook_id.as_str()) == 0 {
                assert(hooks@[j as int].hook_id@ == hooks@[i as int].hook_id@);
                return Some(note_of("observer hook ", h.hook_id.as_str(), " is declared more than once"));
            }
            j = j + 1;
        }
        if !h.read_only {
            return Some(note_of("observer hook ", h.hook_id.as_str(), " must declare read_only true"));
        }
        if h.lifecycle_points.is_empty() {
            return Some(note_of("observer hook ", h.hook_id.as_str(), " must select a lifecycle point"));
        }
        i = i + 1;
    }
    None
}

fn contains_name(v: &Vec<String>, t: &str) -> (r: bool)
    ensures
        r == string_views(v@).contains(t@),
{
    let mut k: usize = 0;
    while k < v.len()
        invariant
            k <= v@.len(),
            forall|j: int| 0 <= j < k ==> (#[trigger] v@[j])@ != t@,
        decreases v@.len() - k,
    {
        if compare_strings(v[k].as_str(), t) == 0 {
            assert(string_views(v@)[k as int] == t@);
            return true;
        }
        k = k + 1;
    }
    proof {
        if string_views(v@).contains(t@) {
            let j = choose|j: int| 0 <= j < string_views(v@).len() && string_views(v@)[j] == t@;
            assert(v@[j]@ == t@);
        }
    }
    false
}

/// The first rule the manifest breaks, as text.
fn manifest_problem_text(m: &ExtensionManifestV1) -> (r: Option<String>)
    ensures
        optional_text(r) == manifest_problem(*m),
{
    let id = m.extension_id.as_str();
    if compare_strings(m.schema.as_str(), EXTENSION_MANIFEST_SCHEMA) != 0 {
        return Some(owned("unsupported extension manifest schema"));
    }
    if !valid_qualified_id(id) {
        return Some(owned("extension_id must be a lowercase qualified identifier"));
    }
    if !valid_semver(m.version.as_str()) {
        return Some(owned("extension version must be semantic versioning"));
    }
    if m.capabilities.len() == 0 {
        return Some(owned("an extension must declare at least one capability"));
    }
    if contains_name(&m.replacement.replaces, id) || contains_name(&m.replacement.fallbacks_for, id) {
        return Some(owned("an extension cannot replace or fall back for itself"));
    }
    let p = schema_problem(&m.configuration_schemas);
    if p.is_some() {
        return p;
    }
    if m.requested_effects.contains(ExtensionEffect::SourceMutation) || m.requested_effects.contains(ExtensionEffect::Destructive)
        || m.requested_effects.contains(ExtensionEffect::Sign) || m.requested_effects.contains(ExtensionEffect::Publish) {
        return Some(owned("extension SDK v1 cannot request mutation, destructive, signing, or publication authority"));
    }
    let p = capability_problem(m);
    if p.is_some() {
        return p;
    }
    let p = mode_problem(m);
    if p.is_some() {
        return p;
    }
    if m.execution_modes.len() == 0 {
        return Some(owned("an extension must declare an execution mode"));
    }
    let p = hook_problem(&m.observer_hooks);
    if p.is_some() {
        return p;
    }
    let mut observer = false;
    let mut k: usize = 0;
    while k < m.capabilities.len()
        invariant
            k <= m.capabilities@.len(),
            !observer ==> forall|q: int| 0 <= q < k ==> (#[trigger] m.capabilities@[q]).kind != CapabilityKind::LifecycleObserver,
            observer ==> has_observer_capability(*m),
        decreases m.capabilities@.len() - k,
    {
        if m.capabilities[k].kind == CapabilityKind::LifecycleObserver {
            assert(m.capabilities@[k as int].kind == CapabilityKind::LifecycleObserver);
            observer = true;
        }
        k = k + 1;
    }
    if observer && m.observer_hooks.len() == 0 {
        return Some(owned("lifecycle-observer capabilities require a read-only hook declaration"));
    }
    None
}

/// Checks a decoded manifest against the rules of SDK v1, reporting the
/// first rule it breaks as invalid input at `path`.
pub fn validate_manifest(path: &NativePath, manifest: &ExtensionManifestV1) -> (r: Result<(), CatalogError>)
    ensures
        match manifest_problem(*manifest) {
            None => r is Ok,
            Some(problem) => r matches Err(CatalogError::InvalidInput { path: p, message }) && p == *path && message@ == problem,
        },
{
    match manifest_problem_text(manifest) {
        None => Ok(()),
        Some(message) => Err(CatalogError::InvalidInput { path: path.copy(), message }),
    }
}

} // verus!
