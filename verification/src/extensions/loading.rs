//! Assembling a catalog from decoded manifest and lock documents.

use vstd::prelude::*;
use crate::digest::blake3_hex;
use crate::domain::NativePath;
use crate::duplicates::string_views;
use crate::extensions::availability::{availability_problems, availability_reasons, ProcessProbe};
use crate::extensions::catalog::{CatalogError, ExtensionCatalog, LoadedExtension};
use crate::extensions::manifest_rules::{manifest_problem, validate_manifest};
use crate::extensions::model::{Digest, ExtensionLockV1, ExtensionManifestV1};
use crate::sorting::strictly_ascending;
use crate::text::{chars_less, compare_strings, lemma_chars_less_asymmetric, lemma_chars_less_irreflexive, lemma_chars_less_total, owned};

verus! {

/// A manifest document as read: where it was, its bytes, and what they
/// decode to.
pub struct ManifestDocument {
    pub path: NativePath,
    pub bytes: Vec<u8>,
    pub manifest: ExtensionManifestV1,
}

/// A lock document as read, with what was found on disk of the process it
/// pins.
pub struct LockDocument {
    pub path: NativePath,
    pub bytes: Vec<u8>,
    pub lock: ExtensionLockV1,
    pub probe: ProcessProbe,
}

/// The identifier and version a manifest declares.
pub open spec fn manifest_key(m: ManifestDocument) -> (Seq<char>, Seq<char>) {
    (m.manifest.extension_id@, m.manifest.version@)
}

/// The identifier and version a lock admits.
pub open spec fn lock_key(l: LockDocument) -> (Seq<char>, Seq<char>) {
    (l.lock.extension_id@, l.lock.extension_version@)
}

/// Key order: by identifier, then by version.
pub open spec fn key_less(a: (Seq<char>, Seq<char>), b: (Seq<char>, Seq<char>)) -> bool {
    chars_less(a.0, b.0) || (a.0 == b.0 && chars_less(a.1, b.1))
}

/// Inserts `x` after every manifest whose key is not greater.
pub open spec fn insert_manifest(s: Seq<ManifestDocument>, x: ManifestDocument) -> Seq<ManifestDocument>
    decreases s.len(),
{
    if s.len() == 0 {
        seq![x]
    } else if key_less(manifest_key(x), manifest_key(s.last())) {
        insert_manifest(s.drop_last(), x).push(s.last())
    } else {
        s.push(x)
    }
}

/// The manifests in key order.
pub open spec fn sort_manifests(s: Seq<ManifestDocument>) -> Seq<ManifestDocument>
    decreases s.len(),
{
    if s.len() == 0 {
        seq![]
    } else {
        insert_manifest(sort_manifests(s.drop_last()), s.last())
    }
}

/// Why loading fails, as text.
pub enum LoadFailure {
    Invalid(NativePath, Seq<char>),
    DuplicateManifest(Seq<char>, Seq<char>),
    DuplicateLock(Seq<char>, Seq<char>),
    MissingLock(Seq<char>, Seq<char>),
    OrphanLock(Seq<char>, Seq<char>),
}

/// `e` reports `f`.
pub open spec fn fails_as(e: CatalogError, f: LoadFailure) -> bool {
    match (e, f) {
        (CatalogError::InvalidInput { path, message }, LoadFailure::Invalid(p, m)) => path == p && message@ == m,
        (CatalogError::DuplicateManifest { extension_id, version }, LoadFailure::DuplicateManifest(i, v)) => extension_id@ == i && version@ == v,
        (CatalogError::DuplicateLock { extension_id, version }, LoadFailure::DuplicateLock(i, v)) => extension_id@ == i && version@ == v,
        (CatalogError::MissingLock { extension_id, version }, LoadFailure::MissingLock(i, v)) => extension_id@ == i && version@ == v,
        (CatalogError::OrphanLock { extension_id, version }, LoadFailure::OrphanLock(i, v)) => extension_id@ == i && version@ == v,
        _ => false,
    }
}

/// The first manifest, from the `i`-th on, that breaks a rule or repeats an
/// earlier key.
pub open spec fn manifest_failure_from(ms: Seq<ManifestDocument>, i: int) -> Option<LoadFailure>
    decreases ms.len() - i,
{
    if i < 0 || i >= ms.len() {
        None
    } else {
        match manifest_problem(ms[i].manifest) {
            Some(p) => Some(LoadFailure::Invalid(ms[i].path, p)),
            None => if exists|j: int| 0 <= j < i && manifest_key(#[trigger] ms[j]) == manifest_key(ms[i]) {
                Some(LoadFailure::DuplicateManifest(manifest_key(ms[i]).0, manifest_key(ms[i]).1))
            } else {
                manifest_failure_from(ms, i + 1)
            },
        }
    }
}

/// The first lock, from the `j`-th on, that repeats an earlier key.
pub open spec fn lock_failure_from(ls: Seq<LockDocument>, j: int) -> Option<LoadFailure>
    decreases ls.len() - j,
{
    if j < 0 || j >= ls.len() {
        None
    } else if exists|k: int| 0 <= k < j && lock_key(#[trigger] ls[k]) == lock_key(ls[j]) {
        Some(LoadFailure::DuplicateLock(lock_key(ls[j]).0, lock_key(ls[j]).1))
    } else {
        lock_failure_from(ls, j + 1)
    }
}

/// Some lock admits `key`.
pub open spec fn has_lock(ls: Seq<LockDocument>, key: (Seq<char>, Seq<char>)) -> bool {
    exists|k: int| 0 <= k < ls.len() && lock_key(#[trigger] ls[k]) == key
}

pub open spec fn one_version_message() -> Seq<char> {
    "only one explicitly selected version of an extension may be loaded"@
}

/// The first sorted manifest, from the `p`-th on, that is a second version
/// of an extension or has no lock.
pub open spec fn pairing_failure_from(s: Seq<ManifestDocument>, ls: Seq<LockDocument>, p: int) -> Option<LoadFailure>
    decreases s.len() - p,
{
    if p < 0 || p >= s.len() {
        None
    } else if exists|q: int| 0 <= q < p && (#[trigger] s[q]).manifest.extension_id@ == s[p].manifest.extension_id@ {
        Some(LoadFailure::Invalid(s[p].path, one_version_message()))
    } else if !has_lock(ls, manifest_key(s[p])) {
        Some(LoadFailure::MissingLock(manifest_key(s[p]).0, manifest_key(s[p]).1))
    } else {
        pairing_failure_from(s, ls, p + 1)
    }
}

/// The `o`-th lock admits no manifest.
pub open spec fn unmatched(s: Seq<ManifestDocument>, ls: Seq<LockDocument>, o: int) -> bool {
    0 <= o < ls.len() && forall|p: int| 0 <= p < s.len() ==> manifest_key(#[trigger] s[p]) != lock_key(ls[o])
}

/// The `o`-th lock is the unmatched lock with the least key.
pub open spec fn least_unmatched(s: Seq<ManifestDocument>, ls: Seq<LockDocument>, o: int) -> bool {
    unmatched(s, ls, o) && forall|k: int| #[trigger] unmatched(s, ls, k) ==> !key_less(lock_key(ls[k]), lock_key(ls[o]))
}

/// The orphan lock reported, if any: the one with the least key.
pub open spec fn orphan_failure(s: Seq<ManifestDocument>, ls: Seq<LockDocument>) -> Option<LoadFailure> {
    if exists|o: int| least_unmatched(s, ls, o) {
        let o = choose|o: int| least_unmatched(s, ls, o);
        Some(LoadFailure::OrphanLock(lock_key(ls[o]).0, lock_key(ls[o]).1))
    } else {
        None
    }
}

/// Why loading `ms` with `ls` fails, in the order the checks are made, or
/// `None` when it succeeds.
pub open spec fn load_failure(ms: Seq<ManifestDocument>, ls: Seq<LockDocument>) -> Option<LoadFailure> {
    let s = sort_manifests(ms);
    if manifest_failure_from(ms, 0) is Some {
        manifest_failure_from(ms, 0)
    } else if lock_failure_from(ls, 0) is Some {
        lock_failure_from(ls, 0)
    } else if pairing_failure_from(s, ls, 0) is Some {
        pairing_failure_from(s, ls, 0)
    } else {
        orphan_failure(s, ls)
    }
}

/// The position of the first lock admitting `key`, from `from` on, or -1.
pub open spec fn lock_for(ls: Seq<LockDocument>, key: (Seq<char>, Seq<char>), from: int) -> int
    decreases ls.len() - from,
{
    if from < 0 || from >= ls.len() {
        -1
    } else if lock_key(ls[from]) == key {
        from
    } else {
        lock_for(ls, key, from + 1)
    }
}

/// `e` is what loading makes of manifest `m` and lock `l`.
pub open spec fn loaded_from(e: LoadedExtension, m: ManifestDocument, l: LockDocument) -> bool {
    &&& e.manifest_path == m.path
    &&& e.lock_path == l.path
    &&& e.manifest == m.manifest
    &&& e.lock == l.lock
    &&& e.manifest_digest.algorithm@ == "blake3-256"@
    &&& e.manifest_digest.value@ == blake3_hex(m.bytes@)
    &&& e.lock_digest.algorithm@ == "blake3-256"@
    &&& e.lock_digest.value@ == blake3_hex(l.bytes@)
    &&& strictly_ascending(string_views(e.availability_reasons@))
    &&& string_views(e.availability_reasons@).to_set()
        == availability_problems(m.manifest, e.manifest_digest, l.lock, l.probe).to_set()
}

fn key_before(a_id: &str, a_version: &str, b_id: &str, b_version: &str) -> (r: bool)
    ensures
        r == key_less((a_id@, a_version@), (b_id@, b_version@)),
{
    let by_id = compare_strings(a_id, b_id);
    if by_id != 0 {
        return by_id < 0;
    }
    compare_strings(a_version, b_version) < 0
}

fn same_key(a_id: &str, a_version: &str, b_id: &str, b_version: &str) -> (r: bool)
    ensures
        r == ((a_id@, a_version@) == (b_id@, b_version@)),
{
    compare_strings(a_id, b_id) == 0 && compare_strings(a_version, b_version) == 0
}

/// Of two different keys, one is before the other.
proof fn lemma_key_total(a: (Seq<char>, Seq<char>), b: (Seq<char>, Seq<char>))
    requires
        a != b,
    ensures
        key_less(a, b) || key_less(b, a),
{
    if a.0 != b.0 {
        lemma_chars_less_total(a.0, b.0);
    } else {
        lemma_chars_less_total(a.1, b.1);
    }
}

proof fn lemma_key_asymmetric(a: (Seq<char>, Seq<char>), b: (Seq<char>, Seq<char>))
    ensures
        !(key_less(a, b) && key_less(b, a)),
{
    lemma_chars_less_asymmetric(a.0, b.0);
    lemma_chars_less_asymmetric(a.1, b.1);
    lemma_chars_less_irreflexive(a.0);
}

fn check_manifests(ms: &Vec<ManifestDocument>) -> (r: Result<(), CatalogError>)
    ensures
        match manifest_failure_from(ms@, 0) {
            None => r is Ok,
            Some(f) => r matches Err(e) && fails_as(e, f),
        },
{
    let mut i: usize = 0;
    while i < ms.len()
        invariant
            i <= ms@.len(),
            manifest_failure_from(ms@, 0) == manifest_failure_from(ms@, i as int),
        decreases ms@.len() - i,
    {
        let m = &ms[i];
        validate_manifest(&m.path, &m.manifest)?;
        let mut j: usize = 0;
        while j < i
            invariant
                j <= i < ms@.len(),
                *m == ms@[i as int],
                manifest_problem(m.manifest) is None,
                manifest_failure_from(ms@, 0) == manifest_failure_from(ms@, i as int),
                forall|k: int| 0 <= k < j ==> manifest_key(#[trigger] ms@[k]) != manifest_key(ms@[i as int]),
            decreases i - j,
        {
            if same_key(ms[j].manifest.extension_id.as_str(), ms[j].manifest.version.as_str(),
                m.manifest.extension_id.as_str(), m.manifest.version.as_str()) {
                assert(manifest_key(ms@[j as int]) == manifest_key(ms@[i as int]));
                return Err(CatalogError::DuplicateManifest {
                    extension_id: m.manifest.extension_id.clone(),
                    version: m.manifest.version.clone(),
                });
            }
            j = j + 1;
        }
        i = i + 1;
    }
    Ok(())
}

fn check_locks(ls: &Vec<LockDocument>) -> (r: Result<(), CatalogError>)
    ensures
        match lock_failure_from(ls@, 0) {
            None => r is Ok,
            Some(f) => r matches Err(e) && fails_as(e, f),
        },
{
    let mut i: usize = 0;
    while i < ls.len()
        invariant
            i <= ls@.len(),
            lock_failure_from(ls@, 0) == lock_failure_from(ls@, i as int),
        decreases ls@.len() - i,
    {
        let l = &ls[i];
        let mut j: usize = 0;
        while j < i
            invariant
                j <= i < ls@.len(),
                *l == ls@[i as int],
                lock_failure_from(ls@, 0) == lock_failure_from(ls@, i as int),
                forall|k: int| 0 <= k < j ==> lock_key(#[trigger] ls@[k]) != lock_key(ls@[i as int]),
            decreases i - j,
        {
            if same_key(ls[j].lock.extension_id.as_str(), ls[j].lock.extension_version.as_str(),
                l.lock.extension_id.as_str(), l.lock.extension_version.as_str()) {
                assert(lock_key(ls@[j as int]) == lock_key(ls@[i as int]));
                return Err(CatalogError::DuplicateLock {
                    extension_id: l.lock.extension_id.clone(),
                    version: l.lock.extension_version.clone(),
                });
            }
            j = j + 1;
        }
        i = i + 1;
    }
    Ok(())
}

proof fn lemma_insert_manifest_at(s: Seq<ManifestDocument>, x: ManifestDocument, pos: int)
    requires
        0 <= pos <= s.len(),
        forall|j: int| pos <= j < s.len() ==> key_less(manifest_key(x), manifest_key(#[trigger] s[j])),
        pos > 0 ==> !key_less(manifest_key(x), manifest_key(s[pos - 1])),
    ensures
        insert_manifest(s, x) == s.take(pos).push(x) + s.skip(pos),
    decreases s.len(),
{
    if s.len() == 0 {
        assert(s.take(pos).push(x) + s.skip(pos) =~= seq![x]);
    } else if pos == s.len() {
        assert(s.take(pos) =~= s);
        assert(s.skip(pos) =~= Seq::<ManifestDocument>::empty());
        assert(s.take(pos).push(x) + s.skip(pos) =~= s.push(x));
    } else {
        let d = s.drop_last();
        assert(key_less(manifest_key(x), manifest_key(s[s.len() - 1])));
        lemma_insert_manifest_at(d, x, pos);
        assert(d.take(pos) =~= s.take(pos));
        assert((d.take(pos).push(x) + d.skip(pos)).push(s.last()) =~= s.take(pos).push(x) + s.skip(pos));
    }
}

fn sort_manifest_documents(ms: Vec<ManifestDocument>) -> (r: Vec<ManifestDocument>)
    ensures
        r@ == sort_manifests(ms@),
{
    let ghost original = ms@;
    let mut items = ms;
    let mut reversed: Vec<ManifestDocument> = Vec::new();
    while items.len() > 0
        invariant
            items@.len() + reversed@.len() == original.len(),
            items@ == original.take(items@.len() as int),
            forall|j: int| 0 <= j < reversed@.len() ==> reversed@[j] == original[original.len() - 1 - j],
        decreases items@.len(),
    {
        let it = items.pop().unwrap();
        proof {
            assert(items@ =~= original.take(items@.len() as int));
        }
        reversed.push(it);
    }
    let n = reversed.len();
    let mut out: Vec<ManifestDocument> = Vec::new();
    let mut k: usize = 0;
    while k < n
        invariant
            n == original.len(),
            k <= n,
            reversed@.len() == n - k,
            forall|j: int| 0 <= j < reversed@.len() ==> reversed@[j] == original[original.len() - 1 - j],
            out@ == sort_manifests(original.take(k as int)),
        decreases n - k,
    {
        let it = reversed.pop().unwrap();
        assert(it == original[k as int]);
        let mut pos = out.len();
        while pos > 0 && key_before(it.manifest.extension_id.as_str(), it.manifest.version.as_str(),
            out[pos - 1].manifest.extension_id.as_str(), out[pos - 1].manifest.version.as_str())
            invariant
                pos <= out@.len(),
                forall|j: int| pos <= j < out@.len() ==> key_less(manifest_key(it), manifest_key(#[trigger] out@[j])),
            decreases pos,
        {
            pos = pos - 1;
        }
        proof {
            lemma_insert_manifest_at(out@, it, pos as int);
            assert(original.take(k + 1).drop_last() =~= original.take(k as int));
            assert(original.take(k + 1).last() == it);
        }
        let ghost before = out@;
        out.insert(pos, it);
        assert(out@ =~= before.take(pos as int).push(original[k as int]) + before.skip(pos as int));
        k = k + 1;
    }
    assert(original.take(n as int) =~= original);
    out
}

proof fn lemma_locks_distinct_from(ls: Seq<LockDocument>, j: int)
    requires
        0 <= j,
        lock_failure_from(ls, j) is None,
    ensures
        forall|a: int, b: int| 0 <= a < b < ls.len() && j <= b ==> lock_key(#[trigger] ls[a]) != lock_key(#[trigger] ls[b]),
    decreases ls.len() - j,
{
    if j < ls.len() {
        lemma_locks_distinct_from(ls, j + 1);
        assert forall|a: int, b: int| 0 <= a < b < ls.len() && j <= b implies lock_key(#[trigger] ls[a]) != lock_key(#[trigger] ls[b]) by {
            if b == j {
                if lock_key(ls[a]) == lock_key(ls[b]) {
                    assert(exists|k: int| 0 <= k < j && lock_key(#[trigger] ls[k]) == lock_key(ls[j]));
                }
            }
        }
    }
}

proof fn lemma_lock_for_is(ls: Seq<LockDocument>, key: (Seq<char>, Seq<char>), from: int, o: int)
    requires
        0 <= from <= o < ls.len(),
        lock_key(ls[o]) == key,
        forall|a: int, b: int| 0 <= a < b < ls.len() ==> lock_key(#[trigger] ls[a]) != lock_key(#[trigger] ls[b]),
    ensures
        lock_for(ls, key, from) == o,
    decreases o - from,
{
    if from < o {
        assert(lock_key(ls[from]) != lock_key(ls[o]));
        lemma_lock_for_is(ls, key, from + 1, o);
    }
}

fn find_lock(rest: &Vec<LockDocument>, id: &str, version: &str) -> (r: Option<usize>)
    ensures
        match r {
            Some(t) => t < rest@.len() && lock_key(rest@[t as int]) == (id@, version@),
            None => forall|t: int| 0 <= t < rest@.len() ==> lock_key(#[trigger] rest@[t]) != (id@, version@),
        },
{
    let mut t: usize = 0;
    while t < rest.len()
        invariant
            t <= rest@.len(),
            forall|u: int| 0 <= u < t ==> lock_key(#[trigger] rest@[u]) != (id@, version@),
        decreases rest@.len() - t,
    {
        if same_key(rest[t].lock.extension_id.as_str(), rest[t].lock.extension_version.as_str(), id, version) {
            return Some(t);
        }
        t = t + 1;
    }
    None
}

fn find_version_twin(out: &Vec<LoadedExtension>, id: &str) -> (r: bool)
    ensures
        r == exists|q: int| 0 <= q < out@.len() && (#[trigger] out@[q]).manifest.extension_id@ == id@,
{
    let mut q: usize = 0;
    while q < out.len()
        invariant
            q <= out@.len(),
            forall|u: int| 0 <= u < q ==> (#[trigger] out@[u]).manifest.extension_id@ != id@,
        decreases out@.len() - q,
    {
        if compare_strings(out[q].manifest.extension_id.as_str(), id) == 0 {
            assert(out@[q as int].manifest.extension_id@ == id@);
            return true;
        }
        q = q + 1;
    }
    false
}

fn least_lock(rest: &Vec<LockDocument>) -> (r: usize)
    requires
        rest@.len() > 0,
    ensures
        r < rest@.len(),
        forall|t: int| 0 <= t < rest@.len() ==> !key_less(lock_key(#[trigger] rest@[t]), lock_key(rest@[r as int])),
{
    let mut best: usize = 0;
    let mut t: usize = 1;
    proof {
        lemma_key_asymmetric(lock_key(rest@[0]), lock_key(rest@[0]));
    }
    while t < rest.len()
        invariant
            1 <= t <= rest@.len(),
            best < t,
            forall|u: int| 0 <= u < t ==> !key_less(lock_key(#[trigger] rest@[u]), lock_key(rest@[best as int])),
        decreases rest@.len() - t,
    {
        if key_before(rest[t].lock.extension_id.as_str(), rest[t].lock.extension_version.as_str(),
            rest[best].lock.extension_id.as_str(), rest[best].lock.extension_version.as_str()) {
            proof {
                let nb = lock_key(rest@[t as int]);
                assert forall|u: int| 0 <= u < t + 1 implies !key_less(lock_key(#[trigger] rest@[u]), nb) by {
                    if u < t {
                        let ku = lock_key(rest@[u]);
                        let kb = lock_key(rest@[best as int]);
                        if key_less(ku, nb) {
                            lemma_key_transitive(ku, nb, kb);
                        }
                    } else {
                        lemma_key_asymmetric(nb, nb);
                    }
                }
            }
            best = t;
        }
        t = t + 1;
    }
    best
}

proof fn lemma_key_transitive(a: (Seq<char>, Seq<char>), b: (Seq<char>, Seq<char>), c: (Seq<char>, Seq<char>))
    requires
        key_less(a, b),
        key_less(b, c),
    ensures
        key_less(a, c),
{
    if chars_less(a.0, b.0) && chars_less(b.0, c.0) {
        crate::text::lemma_chars_less_transitive(a.0, b.0, c.0);
    } else if chars_less(a.0, b.0) {
    } else if chars_less(b.0, c.0) {
    } else {
        crate::text::lemma_chars_less_transitive(a.1, b.1, c.1);
    }
}

/// No manifest among the first `p` has the key of the `o`-th lock.
pub open spec fn unmatched_before(s: Seq<ManifestDocument>, ls: Seq<LockDocument>, p: int, o: int) -> bool {
    forall|q: int| 0 <= q < p ==> manifest_key(#[trigger] s[q]) != lock_key(ls[o])
}

/// Position `o` is among `origin`.
pub open spec fn still_open(origin: Seq<int>, o: int) -> bool {
    exists|t: int| 0 <= t < origin.len() && #[trigger] origin[t] == o
}

/// The bookkeeping of the locks still unmatched, after the one at `t`
/// was matched to the `p`-th manifest.
proof fn lemma_origin_step(ls: Seq<LockDocument>, s: Seq<ManifestDocument>, p: int, origin: Seq<int>,
    before: Seq<LockDocument>, after: Seq<LockDocument>, t: int)
    requires
        0 <= p < s.len(),
        0 <= t < origin.len(),
        before.len() == origin.len(),
        after == before.remove(t),
        lock_key(before[t]) == manifest_key(s[p]),
        forall|a: int, b: int| 0 <= a < b < ls.len() ==> lock_key(#[trigger] ls[a]) != lock_key(#[trigger] ls[b]),
        forall|u: int| 0 <= u < origin.len() ==> 0 <= #[trigger] origin[u] < ls.len() && before[u] == ls[origin[u]],
        forall|t1: int, t2: int| 0 <= t1 < t2 < origin.len() ==> #[trigger] origin[t1] < #[trigger] origin[t2],
        forall|u: int, q: int| 0 <= u < origin.len() && 0 <= q < p ==> manifest_key(#[trigger] s[q]) != lock_key(#[trigger] before[u]),
        forall|o: int| 0 <= o < ls.len() && #[trigger] unmatched_before(s, ls, p, o) ==> still_open(origin, o),
    ensures
        ({
            let no = origin.remove(t);
            &&& after.len() == no.len()
            &&& forall|u: int| 0 <= u < no.len() ==> 0 <= #[trigger] no[u] < ls.len() && after[u] == ls[no[u]]
            &&& forall|t1: int, t2: int| 0 <= t1 < t2 < no.len() ==> #[trigger] no[t1] < #[trigger] no[t2]
            &&& forall|u: int, q: int| 0 <= u < no.len() && 0 <= q < p + 1 ==> manifest_key(#[trigger] s[q]) != lock_key(#[trigger] after[u])
            &&& forall|o: int| 0 <= o < ls.len() && #[trigger] unmatched_before(s, ls, p + 1, o) ==> still_open(no, o)
        }),
{
    let no = origin.remove(t);
    let o_star = origin[t];
    let key = manifest_key(s[p]);
    assert forall|u: int| 0 <= u < no.len() implies 0 <= #[trigger] no[u] < ls.len() && after[u] == ls[no[u]] by {
        let w = if u < t { u } else { u + 1 };
        assert(no[u] == origin[w]);
        assert(after[u] == before[w]);
    }
    assert forall|t1: int, t2: int| 0 <= t1 < t2 < no.len() implies #[trigger] no[t1] < #[trigger] no[t2] by {
        let w1 = if t1 < t { t1 } else { t1 + 1 };
        let w2 = if t2 < t { t2 } else { t2 + 1 };
        assert(no[t1] == origin[w1]);
        assert(no[t2] == origin[w2]);
    }
    assert forall|u: int, q: int| 0 <= u < no.len() && 0 <= q < p + 1 implies manifest_key(#[trigger] s[q]) != lock_key(#[trigger] after[u]) by {
        let w = if u < t { u } else { u + 1 };
        assert(after[u] == before[w]);
        assert(before[w] == ls[origin[w]]);
        if q == p {
            if lock_key(before[w]) == key {
                assert(origin[w] != o_star);
                if origin[w] < o_star {
                    assert(lock_key(ls[origin[w]]) != lock_key(ls[o_star]));
                } else {
                    assert(lock_key(ls[o_star]) != lock_key(ls[origin[w]]));
                }
            }
        } else {
            assert(manifest_key(s[q]) != lock_key(before[w]));
        }
    }
    assert forall|o: int| 0 <= o < ls.len() && #[trigger] unmatched_before(s, ls, p + 1, o) implies still_open(no, o) by {
        assert(unmatched_before(s, ls, p, o));
        let w = choose|w: int| 0 <= w < origin.len() && #[trigger] origin[w] == o;
        assert(manifest_key(s[p]) != lock_key(ls[o]));
        assert(before[t] == ls[o_star]);
        assert(w != t);
        if w < t {
            assert(no[w] == o);
        } else {
            assert(no[w - 1] == o);
        }
    }
}

impl ExtensionCatalog {
    /// Assembles a catalog from decoded manifests and locks.
    ///
    /// Each manifest must follow the SDK rules, and no two manifests, nor two
    /// locks, may share an identifier and version. Taken in order of
    /// identifier and version, each manifest must be the only version of its
    /// extension and have a lock; a lock left without a manifest is refused,
    /// the one with the least key first. Each extension records its digests
    /// and the reasons it cannot serve.
    #[verifier::rlimit(60)]
    pub fn load(manifests: Vec<ManifestDocument>, locks: Vec<LockDocument>) -> (r: Result<Self, CatalogError>)
        ensures
            match r {
                Err(e) => load_failure(manifests@, locks@) matches Some(f) && fails_as(e, f),
                Ok(c) => load_failure(manifests@, locks@) is None
                    && c.entries().len() == sort_manifests(manifests@).len()
                    && forall|p: int| 0 <= p < c.entries().len() ==> loaded_from(#[trigger] c.entries()[p],
                        sort_manifests(manifests@)[p], locks@[lock_for(locks@, manifest_key(sort_manifests(manifests@)[p]), 0)]),
            },
    {
        check_manifests(&manifests)?;
        check_locks(&locks)?;
        let ghost ms = manifests@;
        let ghost ls = locks@;
        proof {
            lemma_locks_distinct_from(ls, 0);
        }
        let sorted = sort_manifest_documents(manifests);
        let ghost s = sorted@;
        let n = sorted.len();
        let mut stack: Vec<ManifestDocument> = Vec::new();
        let mut items = sorted;
        while items.len() > 0
            invariant
                items@.len() + stack@.len() == s.len(),
                items@ == s.take(items@.len() as int),
                forall|j: int| 0 <= j < stack@.len() ==> stack@[j] == s[s.len() - 1 - j],
            decreases items@.len(),
        {
            let it = items.pop().unwrap();
            proof {
                assert(items@ =~= s.take(items@.len() as int));
            }
            stack.push(it);
        }
        let mut rest = locks;
        let ghost mut origin: Seq<int> = Seq::new(ls.len(), |i: int| i);
        let mut out: Vec<LoadedExtension> = Vec::new();
        let mut p: usize = 0;
        proof {
            assert forall|o: int| 0 <= o < ls.len() && #[trigger] unmatched_before(s, ls, p as int, o) implies still_open(origin, o) by {
                assert(origin[o] == o);
            }
        }
        while p < n
            invariant
                ms == manifests@,
                ls == locks@,
                n == s.len(),
                s == sort_manifests(ms),
                p <= n,
                stack@.len() == n - p,
                forall|j: int| 0 <= j < stack@.len() ==> stack@[j] == s[s.len() - 1 - j],
                manifest_failure_from(ms, 0) is None,
                lock_failure_from(ls, 0) is None,
                pairing_failure_from(s, ls, 0) == pairing_failure_from(s, ls, p as int),
                forall|a: int, b: int| 0 <= a < b < ls.len() ==> lock_key(#[trigger] ls[a]) != lock_key(#[trigger] ls[b]),
                out@.len() == p,
                forall|q: int| 0 <= q < p ==> loaded_from(#[trigger] out@[q], s[q], ls[lock_for(ls, manifest_key(s[q]), 0)]),
                rest@.len() == origin.len(),
                forall|t: int| 0 <= t < origin.len() ==> 0 <= #[trigger] origin[t] < ls.len() && rest@[t] == ls[origin[t]],
                forall|t1: int, t2: int| 0 <= t1 < t2 < origin.len() ==> #[trigger] origin[t1] < #[trigger] origin[t2],
                forall|t: int, q: int| 0 <= t < origin.len() && 0 <= q < p ==> manifest_key(#[trigger] s[q]) != lock_key(#[trigger] rest@[t]),
                forall|o: int| 0 <= o < ls.len() && #[trigger] unmatched_before(s, ls, p as int, o) ==> still_open(origin, o),
            decreases n - p,
        {
            let m = stack.pop().unwrap();
            assert(m == s[p as int]);
            if find_version_twin(&out, m.manifest.extension_id.as_str()) {
                proof {
                    let q = choose|q: int| 0 <= q < out@.len() && (#[trigger] out@[q]).manifest.extension_id@ == m.manifest.extension_id@;
                    assert(out@[q].manifest == s[q].manifest);
                    assert(s[q].manifest.extension_id@ == s[p as int].manifest.extension_id@);
                }
                return Err(CatalogError::InvalidInput { path: m.path, message: owned("only one explicitly selected version of an extension may be loaded") });
            }
            assert(forall|q: int| 0 <= q < p ==> (#[trigger] s[q]).manifest.extension_id@ != s[p as int].manifest.extension_id@) by {
                assert forall|q: int| 0 <= q < p implies (#[trigger] s[q]).manifest.extension_id@ != s[p as int].manifest.extension_id@ by {
                    assert(out@[q].manifest == s[q].manifest);
                }
            }
            let ghost key = manifest_key(s[p as int]);
            let found = find_lock(&rest, m.manifest.extension_id.as_str(), m.manifest.version.as_str());
            let t = match found {
                Some(t) => t,
                None => {
                    proof {
                        assert forall|o: int| 0 <= o < ls.len() implies lock_key(#[trigger] ls[o]) != key by {
                            if lock_key(ls[o]) == key {
                                assert forall|q: int| 0 <= q < p implies manifest_key(#[trigger] s[q]) != lock_key(ls[o]) by {
                                    assert(s[q].manifest.extension_id@ != s[p as int].manifest.extension_id@);
                                }
                                assert(unmatched_before(s, ls, p as int, o));
                                let u = choose|u: int| 0 <= u < origin.len() && #[trigger] origin[u] == o;
                                assert(lock_key(rest@[u]) == key);
                            }
                        }
                        assert(!has_lock(ls, key));
                    }
                    return Err(CatalogError::MissingLock {
                        extension_id: m.manifest.extension_id.clone(),
                        version: m.manifest.version.clone(),
                    });
                },
            };
            assert(has_lock(ls, key)) by {
                assert(lock_key(ls[origin[t as int]]) == key);
            }
            let ghost o_star = origin[t as int];
            proof {
                lemma_lock_for_is(ls, key, 0, o_star);
            }
            let ghost rest_before = rest@;
            let l = rest.remove(t);
            assert(l == ls[o_star]);
            proof {
                lemma_origin_step(ls, s, p as int, origin, rest_before, rest@, t as int);
                origin = origin.remove(t as int);
            }
            let manifest_digest = Digest::blake3(m.bytes.as_slice());
            let lock_digest = Digest::blake3(l.bytes.as_slice());
            let reasons = availability_reasons(&m.manifest, &manifest_digest, &l.lock, &l.probe);
            out.push(LoadedExtension {
                manifest_path: m.path,
                lock_path: l.path,
                manifest_digest,
                lock_digest,
                manifest: m.manifest,
                lock: l.lock,
                availability_reasons: reasons,
            });
            assert(loaded_from(out@[p as int], s[p as int], ls[lock_for(ls, manifest_key(s[p as int]), 0)]));
            p = p + 1;
        }
        assert(pairing_failure_from(s, ls, n as int) is None);
        if rest.len() > 0 {
            let b = least_lock(&rest);
            proof {
                let ob = origin[b as int];
                assert(unmatched(s, ls, ob)) by {
                    assert forall|q: int| 0 <= q < s.len() implies manifest_key(#[trigger] s[q]) != lock_key(ls[ob]) by {
                        assert(rest@[b as int] == ls[ob]);
                    }
                }
                assert(least_unmatched(s, ls, ob)) by {
                    assert forall|k: int| #[trigger] unmatched(s, ls, k) implies !key_less(lock_key(ls[k]), lock_key(ls[ob])) by {
                        assert(unmatched_before(s, ls, p as int, k));
                        let u = choose|u: int| 0 <= u < origin.len() && #[trigger] origin[u] == k;
                        assert(rest@[u] == ls[k]);
                    }
                }
                let oc = choose|o: int| least_unmatched(s, ls, o);
                if oc != ob {
                    if lock_key(ls[oc]) != lock_key(ls[ob]) {
                        lemma_key_total(lock_key(ls[oc]), lock_key(ls[ob]));
                    } else if oc < ob {
                        assert(lock_key(ls[oc]) != lock_key(ls[ob]));
                    } else {
                        assert(lock_key(ls[ob]) != lock_key(ls[oc]));
                    }
                }
            }
            return Err(CatalogError::OrphanLock {
                extension_id: rest[b].lock.extension_id.clone(),
                version: rest[b].lock.extension_version.clone(),
            });
        }
        proof {
            assert forall|o: int| !least_unmatched(s, ls, o) by {
                if least_unmatched(s, ls, o) {
                    assert(unmatched_before(s, ls, p as int, o));
                    let u = choose|u: int| 0 <= u < origin.len() && #[trigger] origin[u] == o;
                }
            }
        }
        Ok(ExtensionCatalog::from_extensions(out))
    }
}

proof fn lemma_pairing_distinct_from(s: Seq<ManifestDocument>, ls: Seq<LockDocument>, p: int)
    requires
        0 <= p,
        pairing_failure_from(s, ls, p) is None,
    ensures
        forall|a: int, b: int| 0 <= a < b < s.len() && p <= b
            ==> (#[trigger] s[a]).manifest.extension_id@ != (#[trigger] s[b]).manifest.extension_id@,
        forall|b: int| p <= b < s.len() ==> has_lock(ls, manifest_key(#[trigger] s[b])),
    decreases s.len() - p,
{
    if p < s.len() {
        lemma_pairing_distinct_from(s, ls, p + 1);
    }
}

/// A catalog that loads holds one version of each extension, each with a
/// lock that admits exactly that identifier and version.
pub proof fn lemma_loaded_extensions_are_distinct(ms: Seq<ManifestDocument>, ls: Seq<LockDocument>)
    requires
        load_failure(ms, ls) is None,
    ensures
        forall|a: int, b: int| 0 <= a < b < sort_manifests(ms).len()
            ==> (#[trigger] sort_manifests(ms)[a]).manifest.extension_id@ != (#[trigger] sort_manifests(ms)[b]).manifest.extension_id@,
        forall|p: int| 0 <= p < sort_manifests(ms).len() ==> ({
            let k = lock_for(ls, manifest_key(#[trigger] sort_manifests(ms)[p]), 0);
            0 <= k < ls.len() && lock_key(ls[k]) == manifest_key(sort_manifests(ms)[p])
        }),
{
    let s = sort_manifests(ms);
    lemma_pairing_distinct_from(s, ls, 0);
    assert forall|p: int| 0 <= p < s.len() implies ({
        let k = lock_for(ls, manifest_key(#[trigger] s[p]), 0);
        0 <= k < ls.len() && lock_key(ls[k]) == manifest_key(s[p])
    }) by {
        assert(has_lock(ls, manifest_key(s[p])));
        let o = choose|o: int| 0 <= o < ls.len() && lock_key(#[trigger] ls[o]) == manifest_key(s[p]);
        lemma_lock_for_found(ls, manifest_key(s[p]), 0, o);
    }
}

proof fn lemma_lock_for_found(ls: Seq<LockDocument>, key: (Seq<char>, Seq<char>), from: int, o: int)
    requires
        0 <= from <= o < ls.len(),
        lock_key(ls[o]) == key,
    ensures
        0 <= lock_for(ls, key, from) < ls.len(),
        lock_key(ls[lock_for(ls, key, from)]) == key,
    decreases o - from,
{
    if from < o && lock_key(ls[from]) != key {
        lemma_lock_for_found(ls, key, from + 1, o);
    }
}

} // verus!
