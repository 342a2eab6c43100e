//! Exact-duplicate groups: unique filesystem objects with equal byte length
//! and equal complete content hash.
//!
//! Hard-link aliases (observations of one filesystem object) fold into one
//! member; only current evidence with a complete hash takes part; members
//! are counted as objects, never as paths.

use vstd::prelude::*;
use std::collections::HashSet;
use crate::digest::{blake3_hex, blake3_hex_of};
use crate::domain::{
    lemma_path_order, path_less, DuplicateGroup, DuplicateMember, EvidenceValidity,
    ExactDuplicateEvidence, FileObservation, NativePath, PathText,
};
use crate::filesystem::{
    ExtentSharingStatus, PhysicalReclaimability, ReclaimabilityReasonCode, ReclaimabilityStatus,
};
use crate::hashing::HASH_ALGORITHM;
use crate::json::{decimal_digits, push_decimal, push_str};
use crate::sorting::{lemma_sort_by_path_keeps, path_items_of, path_keyed, sort_by_path, spec_sort_by_path};
use crate::text::{chars_less, chars_of, compare_strings, lemma_chars_less_irreflexive, owned, string_of};

verus! {

/// The key under which observations fold into one object: the stable
/// filesystem identity when known, else the observation itself.
pub open spec fn identity_key(o: FileObservation) -> (bool, Seq<char>, Seq<char>) {
    match o.filesystem_identity {
        Some(id) => (true, id.filesystem_id@, id.file_id@),
        None => (false, o.observation_id@, Seq::empty()),
    }
}

/// `j` is the first observation with the identity of observation `i`.
pub open spec fn is_first_with_key(obs: Seq<FileObservation>, i: int, j: int) -> bool {
    &&& 0 <= j <= i < obs.len()
    &&& identity_key(obs[j]) == identity_key(obs[i])
    &&& forall|m: int| 0 <= m < j ==> identity_key(#[trigger] obs[m]) != identity_key(obs[i])
}

/// The object an observation belongs to, named by the observation id of the
/// first observation of that object.
pub open spec fn primary_id(obs: Seq<FileObservation>, i: int) -> Seq<char> {
    obs[choose|j: int| is_first_with_key(obs, i, j)].observation_id@
}

proof fn lemma_primary_id(obs: Seq<FileObservation>, i: int, j: int)
    requires
        is_first_with_key(obs, i, j),
    ensures
        primary_id(obs, i) == obs[j].observation_id@,
{
    let c = choose|c: int| is_first_with_key(obs, i, c);
    assert(is_first_with_key(obs, i, c));
    if c < j {
        assert(identity_key(obs[c]) != identity_key(obs[i]));
    } else if j < c {
        assert(identity_key(obs[j]) != identity_key(obs[i]));
    }
}

/// `x` inserted into an ordered id list, unless it is already there.
pub open spec fn insert_id(s: Seq<Seq<char>>, x: Seq<char>) -> Seq<Seq<char>>
    decreases s.len(),
{
    if s.len() == 0 {
        seq![x]
    } else if s.last() == x {
        s
    } else if chars_less(x, s.last()) {
        insert_id(s.drop_last(), x).push(s.last())
    } else {
        s.push(x)
    }
}

/// The object ids of the first `n` observations, ordered, each once.
pub open spec fn ids_upto(obs: Seq<FileObservation>, n: int) -> Seq<Seq<char>>
    decreases n,
{
    if n <= 0 {
        seq![]
    } else {
        insert_id(ids_upto(obs, n - 1), primary_id(obs, n - 1))
    }
}

/// The object ids of all observations, ordered, each once.
pub open spec fn object_ids(obs: Seq<FileObservation>) -> Seq<Seq<char>> {
    ids_upto(obs, obs.len() as int)
}

/// The text of each string.
pub open spec fn string_views(s: Seq<String>) -> Seq<Seq<char>> {
    s.map_values(|x: String| x@)
}

fn same_identity(a: &FileObservation, b: &FileObservation) -> (r: bool)
    ensures
        r == (identity_key(*a) == identity_key(*b)),
{
    match (&a.filesystem_identity, &b.filesystem_identity) {
        (Some(x), Some(y)) => compare_strings(x.filesystem_id.as_str(), y.filesystem_id.as_str()) == 0
            && compare_strings(x.file_id.as_str(), y.file_id.as_str()) == 0,
        (None, None) => compare_strings(a.observation_id.as_str(), b.observation_id.as_str()) == 0,
        _ => false,
    }
}

/// For each observation, the index of the first observation of its object.
fn primary_indices(obs: &[FileObservation]) -> (p: Vec<usize>)
    ensures
        p@.len() == obs@.len(),
        forall|i: int| 0 <= i < obs@.len() ==> is_first_with_key(obs@, i, #[trigger] p@[i] as int),
{
    let n = obs.len();
    let mut p: Vec<usize> = Vec::new();
    let mut i: usize = 0;
    while i < n
        invariant
            n == obs@.len(),
            i <= n,
            p@.len() == i,
            forall|k: int| 0 <= k < i ==> is_first_with_key(obs@, k, #[trigger] p@[k] as int),
        decreases n - i,
    {
        let mut j: usize = 0;
        while !same_identity(&obs[j], &obs[i])
            invariant
                n == obs@.len(),
                i < n,
                j <= i,
                forall|m: int| 0 <= m < j ==> identity_key(#[trigger] obs@[m]) != identity_key(obs@[i as int]),
            decreases i - j,
        {
            j = j + 1;
        }
        p.push(j);
        i = i + 1;
    }
    p
}

proof fn lemma_insert_id_at(s: Seq<Seq<char>>, x: Seq<char>, pos: int)
    requires
        0 <= pos <= s.len(),
        forall|j: int| pos <= j < s.len() ==> chars_less(x, #[trigger] s[j]),
        pos > 0 ==> !chars_less(x, s[pos - 1]),
    ensures
        pos > 0 && s[pos - 1] == x ==> insert_id(s, x) == s,
        !(pos > 0 && s[pos - 1] == x) ==> insert_id(s, x) == s.take(pos).push(x) + s.skip(pos),
    decreases s.len(),
{
    if s.len() == 0 {
        assert(s.take(pos).push(x) + s.skip(pos) =~= seq![x]);
    } else if pos == s.len() {
        assert(s.take(pos) =~= s);
        assert(s.skip(pos) =~= Seq::<Seq<char>>::empty());
        assert(s.take(pos).push(x) + s.skip(pos) =~= s.push(x));
    } else {
        let d = s.drop_last();
        assert(chars_less(x, s[s.len() - 1]));
        lemma_chars_less_irreflexive(x);
        lemma_insert_id_at(d, x, pos);
        assert(d.take(pos) =~= s.take(pos));
        if pos > 0 && s[pos - 1] == x {
            assert(d.push(s.last()) =~= s);
        } else {
            assert((d.take(pos).push(x) + d.skip(pos)).push(s.last()) =~= s.take(pos).push(x) + s.skip(pos));
        }
    }
}

/// Inserts an id into an ordered id list unless it is already there.
fn insert_id_exec(ids: &mut Vec<String>, x: String)
    ensures
        string_views(final(ids)@) == insert_id(string_views(old(ids)@), x@),
{
    let ghost s = string_views(ids@);
    let mut pos = ids.len();
    while pos > 0 && compare_strings(x.as_str(), ids[pos - 1].as_str()) < 0
        invariant
            pos <= ids@.len(),
            s == string_views(ids@),
            forall|j: int| pos <= j < s.len() ==> chars_less(x@, #[trigger] s[j]),
        decreases pos,
    {
        pos = pos - 1;
    }
    proof {
        lemma_insert_id_at(s, x@, pos as int);
    }
    if pos > 0 && compare_strings(x.as_str(), ids[pos - 1].as_str()) == 0 {
        return;
    }
    ids.insert(pos, x);
    assert(string_views(ids@) =~= s.take(pos as int).push(x@) + s.skip(pos as int));
}

/// The ordered object ids.
fn object_id_list(obs: &[FileObservation], primaries: &Vec<usize>) -> (ids: Vec<String>)
    requires
        primaries@.len() == obs@.len(),
        forall|i: int| 0 <= i < obs@.len() ==> is_first_with_key(obs@, i, #[trigger] primaries@[i] as int),
    ensures
        string_views(ids@) == object_ids(obs@),
{
    let n = obs.len();
    let mut ids: Vec<String> = Vec::new();
    let mut i: usize = 0;
    assert(string_views(ids@) =~= ids_upto(obs@, 0));
    while i < n
        invariant
            n == obs@.len(),
            primaries@.len() == n,
            forall|k: int| 0 <= k < n ==> is_first_with_key(obs@, k, #[trigger] primaries@[k] as int),
            i <= n,
            string_views(ids@) == ids_upto(obs@, i as int),
        decreases n - i,
    {
        let j = primaries[i];
        proof {
            assert(is_first_with_key(obs@, i as int, primaries@[i as int] as int));
            lemma_primary_id(obs@, i as int, j as int);
        }
        insert_id_exec(&mut ids, obs[j].observation_id.clone());
        i = i + 1;
    }
    ids
}

/// `j` is the last observation with id `x`.
pub open spec fn is_last_with_id(obs: Seq<FileObservation>, x: Seq<char>, j: int) -> bool {
    &&& 0 <= j < obs.len()
    &&& obs[j].observation_id@ == x
    &&& forall|m: int| j < m < obs.len() ==> (#[trigger] obs[m]).observation_id@ != x
}

/// The observation that speaks for object `x`: the last one with its id.
pub open spec fn representative(obs: Seq<FileObservation>, x: Seq<char>) -> usize {
    choose|j: usize| is_last_with_id(obs, x, j as int)
}

proof fn lemma_representative(obs: Seq<FileObservation>, x: Seq<char>, j: usize)
    requires
        is_last_with_id(obs, x, j as int),
    ensures
        representative(obs, x) == j,
{
    let c = representative(obs, x);
    assert(is_last_with_id(obs, x, c as int));
    if c < j {
        assert(obs[j as int].observation_id@ != x);
    } else if j < c {
        assert(obs[c as int].observation_id@ != x);
    }
}

/// Whether an observation's evidence may form exact-duplicate groups:
/// current, with a complete content hash.
pub open spec fn eligible(o: FileObservation) -> bool {
    o.evidence_validity == EvidenceValidity::Current && o.content_hash is Some
}

/// The representatives of the eligible objects among `ids`, in id order.
pub open spec fn eligible_reps(obs: Seq<FileObservation>, ids: Seq<Seq<char>>) -> Seq<usize>
    decreases ids.len(),
{
    if ids.len() == 0 {
        seq![]
    } else {
        let rest = eligible_reps(obs, ids.drop_last());
        let r = representative(obs, ids.last());
        if eligible(obs[r as int]) {
            rest.push(r)
        } else {
            rest
        }
    }
}

/// The grouping key of an observation: its length and complete hash.
pub open spec fn object_key(o: FileObservation) -> (u64, Seq<char>) {
    (o.size_bytes, o.content_hash.unwrap()@)
}

/// Key order: by length, then by hash text.
pub open spec fn key_less(a: (u64, Seq<char>), b: (u64, Seq<char>)) -> bool {
    a.0 < b.0 || (a.0 == b.0 && chars_less(a.1, b.1))
}

/// `x` inserted into an ordered key list, unless it is already there.
pub open spec fn insert_key(s: Seq<(u64, Seq<char>)>, x: (u64, Seq<char>)) -> Seq<(u64, Seq<char>)>
    decreases s.len(),
{
    if s.len() == 0 {
        seq![x]
    } else if s.last() == x {
        s
    } else if key_less(x, s.last()) {
        insert_key(s.drop_last(), x).push(s.last())
    } else {
        s.push(x)
    }
}

/// The keys of the objects `reps` stands for, ordered, each once.
pub open spec fn keys_of(obs: Seq<FileObservation>, reps: Seq<usize>) -> Seq<(u64, Seq<char>)>
    decreases reps.len(),
{
    if reps.len() == 0 {
        seq![]
    } else {
        insert_key(keys_of(obs, reps.drop_last()), object_key(obs[reps.last() as int]))
    }
}

/// The objects among `reps` with key `k`, in order.
pub open spec fn reps_with_key(obs: Seq<FileObservation>, reps: Seq<usize>, k: (u64, Seq<char>)) -> Seq<usize>
    decreases reps.len(),
{
    if reps.len() == 0 {
        seq![]
    } else {
        let rest = reps_with_key(obs, reps.drop_last(), k);
        if object_key(obs[reps.last() as int]) == k {
            rest.push(reps.last())
        } else {
            rest
        }
    }
}

/// The representatives of all eligible objects, in id order.
pub open spec fn candidate_reps(obs: Seq<FileObservation>) -> Seq<usize> {
    eligible_reps(obs, object_ids(obs))
}

/// Each observation paired with its path, for ordering by path.
pub open spec fn by_path(obs: Seq<FileObservation>, reps: Seq<usize>) -> Seq<(PathText, usize)> {
    Seq::new(reps.len(), |i: int| (obs[reps[i] as int].path@, reps[i]))
}

/// The members of the group with key `k`: its objects, ordered by the path
/// of their representatives, ties in id order.
pub open spec fn member_reps(obs: Seq<FileObservation>, k: (u64, Seq<char>)) -> Seq<usize> {
    path_items_of(spec_sort_by_path(by_path(obs, reps_with_key(obs, candidate_reps(obs), k))))
}

/// The keys of `ks` that have at least two members.
pub open spec fn keys_with_duplicates(obs: Seq<FileObservation>, ks: Seq<(u64, Seq<char>)>) -> Seq<(u64, Seq<char>)>
    decreases ks.len(),
{
    if ks.len() == 0 {
        seq![]
    } else {
        let rest = keys_with_duplicates(obs, ks.drop_last());
        if member_reps(obs, ks.last()).len() > 1 {
            rest.push(ks.last())
        } else {
            rest
        }
    }
}

/// The keys of the groups, in group order.
pub open spec fn group_keys(obs: Seq<FileObservation>) -> Seq<(u64, Seq<char>)> {
    keys_with_duplicates(obs, keys_of(obs, candidate_reps(obs)))
}

/// The observation that speaks for object `x`.
fn representative_index(obs: &[FileObservation], x: &str) -> (j: usize)
    requires
        exists|m: int| 0 <= m < obs@.len() && (#[trigger] obs@[m]).observation_id@ == x@,
    ensures
        j == representative(obs@, x@),
        is_last_with_id(obs@, x@, j as int),
{
    let mut j = obs.len();
    while j > 0 && compare_strings(obs[j - 1].observation_id.as_str(), x) != 0
        invariant
            j <= obs@.len(),
            forall|m: int| j <= m < obs@.len() ==> (#[trigger] obs@[m]).observation_id@ != x@,
        decreases j,
    {
        j = j - 1;
    }
    if j == 0 {
        let ghost m = choose|m: int| 0 <= m < obs@.len() && (#[trigger] obs@[m]).observation_id@ == x@;
        assert(obs@[m].observation_id@ != x@);
    }
    proof {
        lemma_representative(obs@, x@, (j - 1) as usize);
    }
    j - 1
}

proof fn lemma_object_ids_known(obs: Seq<FileObservation>, n: int, x: Seq<char>)
    requires
        0 <= n <= obs.len(),
        ids_upto(obs, n).contains(x),
    ensures
        exists|m: int| 0 <= m < obs.len() && (#[trigger] obs[m]).observation_id@ == x,
    decreases n,
{
    if n > 0 {
        let prev = ids_upto(obs, n - 1);
        let y = primary_id(obs, n - 1);
        lemma_insert_id_members(prev, y, x);
        if x == y {
            let i = n - 1;
            lemma_first_exists(obs, i, 0);
            let j = choose|j: int| is_first_with_key(obs, i, j);
            assert(obs[j].observation_id@ == x);
        } else {
            lemma_object_ids_known(obs, n - 1, x);
        }
    }
}

proof fn lemma_first_exists(obs: Seq<FileObservation>, i: int, start: int)
    requires
        0 <= start <= i < obs.len(),
        forall|m: int| 0 <= m < start ==> identity_key(#[trigger] obs[m]) != identity_key(obs[i]),
    ensures
        exists|j: int| is_first_with_key(obs, i, j),
    decreases i - start,
{
    if identity_key(obs[start]) == identity_key(obs[i]) {
        assert(is_first_with_key(obs, i, start));
    } else {
        lemma_first_exists(obs, i, start + 1);
    }
}

proof fn lemma_insert_id_members(s: Seq<Seq<char>>, y: Seq<char>, x: Seq<char>)
    ensures
        insert_id(s, y).contains(x) ==> (x == y || s.contains(x)),
    decreases s.len(),
{
    if s.len() > 0 && s.last() != y && chars_less(y, s.last()) {
        lemma_insert_id_members(s.drop_last(), y, x);
        if insert_id(s, y).contains(x) {
            let k = choose|k: int| 0 <= k < insert_id(s, y).len() && insert_id(s, y)[k] == x;
            if k < insert_id(s.drop_last(), y).len() {
                assert(insert_id(s.drop_last(), y).contains(x));
                if s.drop_last().contains(x) {
                    let q = choose|q: int| 0 <= q < s.drop_last().len() && s.drop_last()[q] == x;
                    assert(s[q] == x);
                }
            } else {
                assert(s[s.len() - 1] == x);
            }
        }
    } else if s.len() > 0 && s.last() != y {
        if s.push(y).contains(x) {
            let k = choose|k: int| 0 <= k < s.push(y).len() && s.push(y)[k] == x;
            if k < s.len() {
                assert(s[k] == x);
            }
        }
    } else if s.len() == 0 {
        if seq![y].contains(x) {
            assert(seq![y][0] == x);
        }
    }
}

/// The representatives of the eligible objects, in id order.
fn eligible_rep_list(obs: &[FileObservation], ids: &Vec<String>) -> (reps: Vec<usize>)
    requires
        string_views(ids@) == object_ids(obs@),
    ensures
        reps@ == candidate_reps(obs@),
        forall|i: int| 0 <= i < reps@.len() ==> (#[trigger] reps@[i]) < obs@.len() && eligible(obs@[reps@[i] as int]),
{
    let ghost all = string_views(ids@);
    let n = ids.len();
    let mut reps: Vec<usize> = Vec::new();
    let mut k: usize = 0;
    assert(all.take(0) =~= Seq::<Seq<char>>::empty());
    while k < n
        invariant
            n == ids@.len(),
            all == string_views(ids@),
            all == object_ids(obs@),
            k <= n,
            reps@ == eligible_reps(obs@, all.take(k as int)),
            forall|i: int| 0 <= i < reps@.len() ==> (#[trigger] reps@[i]) < obs@.len() && eligible(obs@[reps@[i] as int]),
        decreases n - k,
    {
        proof {
            assert(all[k as int] == ids@[k as int]@);
            assert(all.contains(ids@[k as int]@));
            lemma_object_ids_known(obs@, obs@.len() as int, ids@[k as int]@);
            assert(all.take(k + 1).drop_last() =~= all.take(k as int));
        }
        let r = representative_index(obs, ids[k].as_str());
        if obs[r].evidence_validity == EvidenceValidity::Current && obs[r].content_hash.is_some() {
            reps.push(r);
        }
        k = k + 1;
    }
    assert(all.take(n as int) =~= all);
    reps
}

/// The text of each key.
pub open spec fn key_views(s: Seq<(u64, String)>) -> Seq<(u64, Seq<char>)> {
    s.map_values(|p: (u64, String)| (p.0, p.1@))
}

proof fn lemma_insert_key_at(s: Seq<(u64, Seq<char>)>, x: (u64, Seq<char>), pos: int)
    requires
        0 <= pos <= s.len(),
        forall|j: int| pos <= j < s.len() ==> key_less(x, #[trigger] s[j]),
        pos > 0 ==> !key_less(x, s[pos - 1]),
    ensures
        pos > 0 && s[pos - 1] == x ==> insert_key(s, x) == s,
        !(pos > 0 && s[pos - 1] == x) ==> insert_key(s, x) == s.take(pos).push(x) + s.skip(pos),
    decreases s.len(),
{
    if s.len() == 0 {
        assert(s.take(pos).push(x) + s.skip(pos) =~= seq![x]);
    } else if pos == s.len() {
        assert(s.take(pos) =~= s);
        assert(s.skip(pos) =~= Seq::<(u64, Seq<char>)>::empty());
        assert(s.take(pos).push(x) + s.skip(pos) =~= s.push(x));
    } else {
        let d = s.drop_last();
        assert(key_less(x, s[s.len() - 1]));
        lemma_chars_less_irreflexive(x.1);
        lemma_insert_key_at(d, x, pos);
        assert(d.take(pos) =~= s.take(pos));
        if pos > 0 && s[pos - 1] == x {
            assert(d.push(s.last()) =~= s);
        } else {
            assert((d.take(pos).push(x) + d.skip(pos)).push(s.last()) =~= s.take(pos).push(x) + s.skip(pos));
        }
    }
}

fn key_before(a_size: u64, a_hash: &str, b_size: u64, b_hash: &str) -> (r: bool)
    ensures
        r == key_less((a_size, a_hash@), (b_size, b_hash@)),
{
    a_size < b_size || (a_size == b_size && compare_strings(a_hash, b_hash) < 0)
}

/// Inserts a key into an ordered key list unless it is already there.
fn insert_key_exec(keys: &mut Vec<(u64, String)>, size: u64, hash: String)
    ensures
        key_views(final(keys)@) == insert_key(key_views(old(keys)@), (size, hash@)),
{
    let ghost s = key_views(keys@);
    let ghost x = (size, hash@);
    let mut pos = keys.len();
    while pos > 0 && key_before(size, hash.as_str(), keys[pos - 1].0, keys[pos - 1].1.as_str())
        invariant
            pos <= keys@.len(),
            s == key_views(keys@),
            x == (size, hash@),
            forall|j: int| pos <= j < s.len() ==> key_less(x, #[trigger] s[j]),
        decreases pos,
    {
        pos = pos - 1;
    }
    proof {
        lemma_insert_key_at(s, x, pos as int);
    }
    if pos > 0 && keys[pos - 1].0 == size && compare_strings(keys[pos - 1].1.as_str(), hash.as_str()) == 0 {
        assert(s[pos - 1] == x);
        return;
    }
    keys.insert(pos, (size, hash));
    assert(key_views(keys@) =~= s.take(pos as int).push(x) + s.skip(pos as int));
}

/// The ordered keys of the eligible objects.
fn key_list(obs: &[FileObservation], reps: &Vec<usize>) -> (keys: Vec<(u64, String)>)
    requires
        forall|i: int| 0 <= i < reps@.len() ==> (#[trigger] reps@[i]) < obs@.len() && eligible(obs@[reps@[i] as int]),
    ensures
        key_views(keys@) == keys_of(obs@, reps@),
{
    let n = reps.len();
    let mut keys: Vec<(u64, String)> = Vec::new();
    let mut i: usize = 0;
    assert(key_views(keys@) =~= keys_of(obs@, reps@.take(0)));
    while i < n
        invariant
            n == reps@.len(),
            forall|q: int| 0 <= q < reps@.len() ==> (#[trigger] reps@[q]) < obs@.len() && eligible(obs@[reps@[q] as int]),
            i <= n,
            key_views(keys@) == keys_of(obs@, reps@.take(i as int)),
        decreases n - i,
    {
        let r = reps[i];
        assert(eligible(obs@[reps@[i as int] as int]));
        let hash = match &obs[r].content_hash {
            Some(h) => h.clone(),
            None => String::new(),
        };
        assert(reps@.take(i + 1).drop_last() =~= reps@.take(i as int));
        insert_key_exec(&mut keys, obs[r].size_bytes, hash);
        i = i + 1;
    }
    assert(reps@.take(n as int) =~= reps@);
    keys
}

/// The objects with key `(size, hash)`, ordered by the path of their
/// representatives.
fn members_with_key(obs: &[FileObservation], reps: &Vec<usize>, size: u64, hash: &str) -> (members: Vec<usize>)
    requires
        forall|i: int| 0 <= i < reps@.len() ==> (#[trigger] reps@[i]) < obs@.len() && eligible(obs@[reps@[i] as int]),
        reps@ == candidate_reps(obs@),
    ensures
        members@ == member_reps(obs@, (size, hash@)),
        forall|i: int| 0 <= i < members@.len() ==> (#[trigger] members@[i]) < obs@.len(),
{
    let ghost k = (size, hash@);
    let n = reps.len();
    let mut chosen: Vec<usize> = Vec::new();
    let mut i: usize = 0;
    assert(reps@.take(0) =~= Seq::<usize>::empty());
    while i < n
        invariant
            n == reps@.len(),
            forall|q: int| 0 <= q < reps@.len() ==> (#[trigger] reps@[q]) < obs@.len() && eligible(obs@[reps@[q] as int]),
            k == (size, hash@),
            i <= n,
            chosen@ == reps_with_key(obs@, reps@.take(i as int), k),
            forall|q: int| 0 <= q < chosen@.len() ==> (#[trigger] chosen@[q]) < obs@.len(),
        decreases n - i,
    {
        let r = reps[i];
        assert(eligible(obs@[reps@[i as int] as int]));
        assert(reps@.take(i + 1).drop_last() =~= reps@.take(i as int));
        let same = match &obs[r].content_hash {
            Some(h) => obs[r].size_bytes == size && compare_strings(h.as_str(), hash) == 0,
            None => false,
        };
        if same {
            chosen.push(r);
        }
        i = i + 1;
    }
    assert(reps@.take(n as int) =~= reps@);
    let mut paths: Vec<NativePath> = Vec::new();
    let mut j: usize = 0;
    while j < chosen.len()
        invariant
            j <= chosen@.len(),
            forall|q: int| 0 <= q < chosen@.len() ==> (#[trigger] chosen@[q]) < obs@.len(),
            paths@.len() == j,
            forall|q: int| 0 <= q < j ==> (#[trigger] paths@[q])@ == obs@[chosen@[q] as int].path@,
        decreases chosen@.len() - j,
    {
        paths.push(obs[chosen[j]].path.copy());
        j = j + 1;
    }
    let ghost items = chosen@;
    assert(path_keyed(paths@, items) =~= by_path(obs@, items));
    let sorted = sort_by_path(chosen, paths);
    proof {
        lemma_sorted_members_in_range(obs@, items);
    }
    sorted
}

pub(crate) proof fn lemma_sorted_members_in_range(obs: Seq<FileObservation>, items: Seq<usize>)
    requires
        forall|q: int| 0 <= q < items.len() ==> (#[trigger] items[q]) < obs.len(),
    ensures
        forall|q: int| 0 <= q < path_items_of(spec_sort_by_path(by_path(obs, items))).len() ==>
            (#[trigger] path_items_of(spec_sort_by_path(by_path(obs, items)))[q]) < obs.len(),
{
    lemma_sort_by_path_keeps(by_path(obs, items));
    assert forall|q: int| 0 <= q < path_items_of(spec_sort_by_path(by_path(obs, items))).len() implies
        (#[trigger] path_items_of(spec_sort_by_path(by_path(obs, items)))[q]) < obs.len() by {
        let s = spec_sort_by_path(by_path(obs, items));
        let b = by_path(obs, items);
        assert(s.contains(s[q]));
        assert(b.contains(s[q]));
        let w = choose|w: int| 0 <= w < b.len() && b[w] == s[q];
        assert(b[w].1 == items[w]);
    }
}

/// The observations of object `x` among the first `n`, in input order.
pub open spec fn alias_indices(obs: Seq<FileObservation>, x: Seq<char>, n: int) -> Seq<usize>
    decreases n,
{
    if n <= 0 {
        seq![]
    } else {
        let rest = alias_indices(obs, x, n - 1);
        if primary_id(obs, n - 1) == x {
            rest.push((n - 1) as usize)
        } else {
            rest
        }
    }
}

/// Every observation of object `x`, in input order.
pub open spec fn aliases_of(obs: Seq<FileObservation>, x: Seq<char>) -> Seq<usize> {
    alias_indices(obs, x, obs.len() as int)
}

/// The observations of object `x`, ordered by path.
pub open spec fn sorted_aliases(obs: Seq<FileObservation>, x: Seq<char>) -> Seq<usize> {
    path_items_of(spec_sort_by_path(by_path(obs, aliases_of(obs, x))))
}

/// The path a member is shown under: the first of its paths in path order.
pub open spec fn primary_path(obs: Seq<FileObservation>, r: usize) -> PathText {
    let s = sorted_aliases(obs, obs[r as int].observation_id@);
    if s.len() > 0 {
        obs[s[0] as int].path@
    } else {
        obs[r as int].path@
    }
}

/// The paths of the observations `s` other than `p`, in order.
pub open spec fn other_paths(obs: Seq<FileObservation>, s: Seq<usize>, p: PathText) -> Seq<PathText>
    decreases s.len(),
{
    if s.len() == 0 {
        seq![]
    } else {
        let rest = other_paths(obs, s.drop_last(), p);
        if obs[s.last() as int].path@ != p {
            rest.push(obs[s.last() as int].path@)
        } else {
            rest
        }
    }
}

/// The view of each path.
pub open spec fn path_views(s: Seq<NativePath>) -> Seq<PathText> {
    s.map_values(|p: NativePath| p@)
}

/// The member record of the object that observation `r` speaks for.
pub open spec fn member_matches(obs: Seq<FileObservation>, m: DuplicateMember, r: usize) -> bool {
    let x = obs[r as int].observation_id@;
    &&& m.observation_id@ == x
    &&& m.path@ == primary_path(obs, r)
    &&& path_views(m.alias_paths@) == other_paths(obs, sorted_aliases(obs, x), primary_path(obs, r))
}

/// The number of observed paths of the objects `reps`, saturating.
pub open spec fn path_count(obs: Seq<FileObservation>, reps: Seq<usize>) -> int
    decreases reps.len(),
{
    if reps.len() == 0 {
        0
    } else {
        vstd::math::min(
            path_count(obs, reps.drop_last()) + aliases_of(obs, obs[reps.last() as int].observation_id@).len(),
            u64::MAX as int,
        )
    }
}

pub open spec fn lacks_identity(obs: Seq<FileObservation>, reps: Seq<usize>) -> bool {
    exists|i: int| 0 <= i < reps.len() && obs[#[trigger] reps[i] as int].filesystem_identity is None
}

pub open spec fn lacks_allocation(o: FileObservation) -> bool {
    match o.storage_allocation {
        Some(a) => a.allocated_size_bytes is None,
        None => true,
    }
}

/// Whether the object of `o`, observed under `observed` paths, has more
/// hard links than were observed.
pub open spec fn has_unobserved_links(o: FileObservation, observed: int) -> bool {
    match o.filesystem_identity {
        Some(id) => match id.link_count {
            Some(lc) => lc > observed,
            None => false,
        },
        None => false,
    }
}

pub open spec fn sharing_unknown(o: FileObservation) -> bool {
    match o.storage_allocation {
        Some(a) => a.extent_sharing_status == ExtentSharingStatus::Unknown,
        None => false,
    }
}

/// How many paths of the object of observation `r` were observed.
pub open spec fn observed_paths(obs: Seq<FileObservation>, r: usize) -> int {
    aliases_of(obs, obs[r as int].observation_id@).len() as int
}

/// Why the reclaimability of the objects `reps` is uncertain, in a fixed
/// order: missing identity, missing allocation, hard links of which fewer
/// paths were observed than the object has, unknown extent sharing.
pub open spec fn reclaimability_reasons(obs: Seq<FileObservation>, reps: Seq<usize>) -> Seq<ReclaimabilityReasonCode> {
    (if lacks_identity(obs, reps) { seq![ReclaimabilityReasonCode::FilesystemIdentityUnavailable] } else { seq![] })
    + (if exists|i: int| 0 <= i < reps.len() && lacks_allocation(obs[#[trigger] reps[i] as int]) {
        seq![ReclaimabilityReasonCode::AllocationMetadataUnavailable]
    } else {
        seq![]
    })
    + (if exists|i: int| 0 <= i < reps.len() && has_unobserved_links(obs[#[trigger] reps[i] as int], observed_paths(obs, reps[i])) {
        seq![ReclaimabilityReasonCode::UnobservedHardLinks]
    } else {
        seq![]
    })
    + (if exists|i: int| 0 <= i < reps.len() && sharing_unknown(obs[#[trigger] reps[i] as int]) {
        seq![ReclaimabilityReasonCode::ExtentSharingUnknown]
    } else {
        seq![]
    })
}

/// The id of the group with key `k`: "exact-" and the first sixteen hex
/// digits of the BLAKE3 digest of "<length>:<hash>".
pub open spec fn group_id_text(k: (u64, Seq<char>)) -> Seq<char> {
    seq!['e', 'x', 'a', 'c', 't', '-'] + blake3_hex(
        vstd::utf8::encode_utf8(decimal_digits(k.0 as nat) + seq![':'] + k.1),
    ).take(16)
}

/// The group with key `k`, as `exact_groups` builds it.
pub open spec fn group_matches(obs: Seq<FileObservation>, g: DuplicateGroup, k: (u64, Seq<char>)) -> bool {
    let reps = member_reps(obs, k);
    let reasons = reclaimability_reasons(obs, reps);
    &&& g.group_id@ == group_id_text(k)
    &&& g.classification@ == "exact"@
    &&& g.evidence.algorithm@ == HASH_ALGORITHM@
    &&& g.evidence.complete_content_hash@ == k.1
    &&& g.evidence.identical_size_bytes == k.0
    &&& g.evidence.member_count == reps.len()
    &&& g.evidence.observed_path_count == path_count(obs, reps)
    &&& g.reclaimable_bytes == vstd::math::min(k.0 * (if reps.len() == 0 { 0 } else { reps.len() - 1 }), u64::MAX as int)
    &&& g.physical_reclaimability.reason_codes@ == reasons
    &&& g.physical_reclaimability.status == (if reasons.len() == 0 {
        ReclaimabilityStatus::Estimated
    } else {
        ReclaimabilityStatus::Unknown
    })
    &&& g.members@.len() == reps.len()
    &&& forall|i: int| 0 <= i < reps.len() ==> member_matches(obs, #[trigger] g.members@[i], reps[i])
}

/// Every observation of object `x`, in input order.
fn alias_list(obs: &[FileObservation], primaries: &Vec<usize>, x: &str) -> (aliases: Vec<usize>)
    requires
        primaries@.len() == obs@.len(),
        forall|i: int| 0 <= i < obs@.len() ==> is_first_with_key(obs@, i, #[trigger] primaries@[i] as int),
    ensures
        aliases@ == aliases_of(obs@, x@),
        forall|q: int| 0 <= q < aliases@.len() ==> (#[trigger] aliases@[q]) < obs@.len(),
{
    let n = obs.len();
    let mut out: Vec<usize> = Vec::new();
    let mut i: usize = 0;
    while i < n
        invariant
            n == obs@.len(),
            primaries@.len() == n,
            forall|k: int| 0 <= k < n ==> is_first_with_key(obs@, k, #[trigger] primaries@[k] as int),
            i <= n,
            out@ == alias_indices(obs@, x@, i as int),
            forall|q: int| 0 <= q < out@.len() ==> (#[trigger] out@[q]) < i,
        decreases n - i,
    {
        let j = primaries[i];
        proof {
            assert(is_first_with_key(obs@, i as int, primaries@[i as int] as int));
            lemma_primary_id(obs@, i as int, j as int);
        }
        if compare_strings(obs[j].observation_id.as_str(), x) == 0 {
            out.push(i);
        }
        i = i + 1;
    }
    out
}

/// Copies of the paths of the observations `s`.
fn paths_of(obs: &[FileObservation], s: &Vec<usize>) -> (paths: Vec<NativePath>)
    requires
        forall|q: int| 0 <= q < s@.len() ==> (#[trigger] s@[q]) < obs@.len(),
    ensures
        paths@.len() == s@.len(),
        forall|q: int| 0 <= q < s@.len() ==> (#[trigger] paths@[q])@ == obs@[s@[q] as int].path@,
{
    let mut paths: Vec<NativePath> = Vec::new();
    let mut j: usize = 0;
    while j < s.len()
        invariant
            j <= s@.len(),
            forall|q: int| 0 <= q < s@.len() ==> (#[trigger] s@[q]) < obs@.len(),
            paths@.len() == j,
            forall|q: int| 0 <= q < j ==> (#[trigger] paths@[q])@ == obs@[s@[q] as int].path@,
        decreases s@.len() - j,
    {
        paths.push(obs[s[j]].path.copy());
        j = j + 1;
    }
    paths
}

/// The member record of the object that observation `r` speaks for, and the
/// number of its observed paths.
fn build_member(obs: &[FileObservation], primaries: &Vec<usize>, r: usize) -> (result: (DuplicateMember, usize))
    requires
        r < obs@.len(),
        primaries@.len() == obs@.len(),
        forall|i: int| 0 <= i < obs@.len() ==> is_first_with_key(obs@, i, #[trigger] primaries@[i] as int),
    ensures
        member_matches(obs@, result.0, r),
        result.1 == aliases_of(obs@, obs@[r as int].observation_id@).len(),
{
    let ghost x = obs@[r as int].observation_id@;
    let aliases = alias_list(obs, primaries, obs[r].observation_id.as_str());
    let count = aliases.len();
    let ghost items = aliases@;
    let keys = paths_of(obs, &aliases);
    assert(path_keyed(keys@, items) =~= by_path(obs@, items));
    let sorted = sort_by_path(aliases, keys);
    proof {
        lemma_sorted_members_in_range(obs@, items);
    }
    let primary = if sorted.len() > 0 { obs[sorted[0]].path.copy() } else { obs[r].path.copy() };
    let mut others: Vec<NativePath> = Vec::new();
    let mut j: usize = 0;
    assert(sorted@.take(0) =~= Seq::<usize>::empty());
    while j < sorted.len()
        invariant
            j <= sorted@.len(),
            forall|q: int| 0 <= q < sorted@.len() ==> (#[trigger] sorted@[q]) < obs@.len(),
            path_views(others@) == other_paths(obs@, sorted@.take(j as int), primary@),
        decreases sorted@.len() - j,
    {
        assert(sorted@.take(j + 1).drop_last() =~= sorted@.take(j as int));
        let p = &obs[sorted[j]].path;
        if !p.same(&primary) {
            others.push(p.copy());
            assert(path_views(others@) =~= other_paths(obs@, sorted@.take(j as int), primary@).push(p@));
        }
        j = j + 1;
    }
    assert(sorted@.take(sorted@.len() as int) =~= sorted@);
    (DuplicateMember { path: primary, observation_id: obs[r].observation_id.clone(), alias_paths: others }, count)
}

/// Why the reclaimability of the objects `reps` is uncertain.
fn assess_reclaimability(obs: &[FileObservation], reps: &Vec<usize>, observed: &Vec<usize>) -> (r: PhysicalReclaimability)
    requires
        forall|q: int| 0 <= q < reps@.len() ==> (#[trigger] reps@[q]) < obs@.len(),
        observed@.len() == reps@.len(),
        forall|q: int| 0 <= q < reps@.len() ==> #[trigger] observed@[q] == observed_paths(obs@, reps@[q]),
    ensures
        r.reason_codes@ == reclaimability_reasons(obs@, reps@),
        r.status == (if reclaimability_reasons(obs@, reps@).len() == 0 {
            ReclaimabilityStatus::Estimated
        } else {
            ReclaimabilityStatus::Unknown
        }),
{
    let mut no_identity = false;
    let mut no_allocation = false;
    let mut links = false;
    let mut sharing = false;
    let mut i: usize = 0;
    while i < reps.len()
        invariant
            i <= reps@.len(),
            forall|q: int| 0 <= q < reps@.len() ==> (#[trigger] reps@[q]) < obs@.len(),
            no_identity == exists|q: int| 0 <= q < i && obs@[#[trigger] reps@[q] as int].filesystem_identity is None,
            no_allocation == exists|q: int| 0 <= q < i && lacks_allocation(obs@[#[trigger] reps@[q] as int]),
            observed@.len() == reps@.len(),
            forall|q: int| 0 <= q < reps@.len() ==> #[trigger] observed@[q] == observed_paths(obs@, reps@[q]),
            links == exists|q: int| 0 <= q < i && has_unobserved_links(obs@[#[trigger] reps@[q] as int], observed_paths(obs@, reps@[q])),
            sharing == exists|q: int| 0 <= q < i && sharing_unknown(obs@[#[trigger] reps@[q] as int]),
        decreases reps@.len() - i,
    {
        let o = &obs[reps[i]];
        if o.filesystem_identity.is_none() {
            no_identity = true;
        }
        let lacks = match &o.storage_allocation {
            Some(a) => a.allocated_size_bytes.is_none(),
            None => true,
        };
        if lacks {
            no_allocation = true;
        }
        let seen = observed[i];
        assert(seen == observed_paths(obs@, reps@[i as int]));
        let linked = match &o.filesystem_identity {
            Some(id) => match id.link_count {
                Some(lc) => lc > seen as u64,
                None => false,
            },
            None => false,
        };
        if linked {
            links = true;
        }
        let unknown = match &o.storage_allocation {
            Some(a) => a.extent_sharing_status == ExtentSharingStatus::Unknown,
            None => false,
        };
        if unknown {
            sharing = true;
        }
        i = i + 1;
    }
    let mut codes: Vec<ReclaimabilityReasonCode> = Vec::new();
    if no_identity {
        codes.push(ReclaimabilityReasonCode::FilesystemIdentityUnavailable);
    }
    if no_allocation {
        codes.push(ReclaimabilityReasonCode::AllocationMetadataUnavailable);
    }
    if links {
        codes.push(ReclaimabilityReasonCode::UnobservedHardLinks);
    }
    if sharing {
        codes.push(ReclaimabilityReasonCode::ExtentSharingUnknown);
    }
    assert(codes@ =~= reclaimability_reasons(obs@, reps@));
    if codes.len() == 0 {
        PhysicalReclaimability::estimated(Vec::new())
    } else {
        PhysicalReclaimability::unknown(codes)
    }
}

/// The id of the group with key `(size, hash)`.
fn group_id(size: u64, hash: &str) -> (id: String)
    ensures
        id@ == group_id_text((size, hash@)),
{
    let mut seed: Vec<char> = Vec::new();
    push_decimal(&mut seed, size);
    seed.push(':');
    push_str(&mut seed, hash);
    let seed_text = string_of(&seed);
    let hex = blake3_hex_of(seed_text.as_str().as_bytes());
    let digits = chars_of(hex.as_str());
    let mut out: Vec<char> = Vec::new();
    out.push('e');
    out.push('x');
    out.push('a');
    out.push('c');
    out.push('t');
    out.push('-');
    let mut i: usize = 0;
    while i < 16
        invariant
            digits@.len() == 64,
            i <= 16,
            out@ == seq!['e', 'x', 'a', 'c', 't', '-'] + digits@.take(i as int),
        decreases 16 - i,
    {
        out.push(digits[i]);
        i = i + 1;
        assert(digits@.take(i as int) =~= digits@.take(i - 1).push(digits@[i - 1]));
    }
    assert(seed@ =~= decimal_digits(size as nat) + seq![':'] + hash@);
    string_of(&out)
}

/// The group with key `(size, hash)` whose members are `members`.
fn build_group(obs: &[FileObservation], primaries: &Vec<usize>, size: u64, hash: &String, members: Vec<usize>) -> (g: DuplicateGroup)
    requires
        members@ == member_reps(obs@, (size, hash@)),
        forall|q: int| 0 <= q < members@.len() ==> (#[trigger] members@[q]) < obs@.len(),
        primaries@.len() == obs@.len(),
        forall|i: int| 0 <= i < obs@.len() ==> is_first_with_key(obs@, i, #[trigger] primaries@[i] as int),
    ensures
        group_matches(obs@, g, (size, hash@)),
{
    let ghost reps = members@;
    let mut records: Vec<DuplicateMember> = Vec::new();
    let mut observed: Vec<usize> = Vec::new();
    let mut paths: u64 = 0;
    let mut i: usize = 0;
    assert(reps.take(0) =~= Seq::<usize>::empty());
    while i < members.len()
        invariant
            reps == members@,
            forall|q: int| 0 <= q < members@.len() ==> (#[trigger] members@[q]) < obs@.len(),
            primaries@.len() == obs@.len(),
            forall|k: int| 0 <= k < obs@.len() ==> is_first_with_key(obs@, k, #[trigger] primaries@[k] as int),
            i <= members@.len(),
            records@.len() == i,
            forall|q: int| 0 <= q < i ==> member_matches(obs@, #[trigger] records@[q], reps[q]),
            observed@.len() == i,
            forall|q: int| 0 <= q < i ==> #[trigger] observed@[q] == observed_paths(obs@, reps[q]),
            paths == path_count(obs@, reps.take(i as int)),
        decreases members@.len() - i,
    {
        let (member, count) = build_member(obs, primaries, members[i]);
        records.push(member);
        observed.push(count);
        assert(reps.take(i + 1).drop_last() =~= reps.take(i as int));
        paths = paths.saturating_add(count as u64);
        i = i + 1;
    }
    assert(reps.take(members@.len() as int) =~= reps);
    let count = members.len() as u64;
    let reclaimable = match size.checked_mul(count.saturating_sub(1)) {
        Some(v) => v,
        None => u64::MAX,
    };
    let reclaimability = assess_reclaimability(obs, &members, &observed);
    DuplicateGroup {
        group_id: group_id(size, hash.as_str()),
        classification: owned("exact"),
        evidence: ExactDuplicateEvidence {
            algorithm: owned(HASH_ALGORITHM),
            complete_content_hash: hash.clone(),
            identical_size_bytes: size,
            member_count: count,
            observed_path_count: paths,
        },
        reclaimable_bytes: reclaimable,
        physical_reclaimability: reclaimability,
        members: records,
    }
}

/// Builds the exact-duplicate groups of `observations`.
///
/// Observations of one filesystem object (hard-link aliases) fold into one
/// member; only objects with current evidence and a complete hash take
/// part; objects group by length and complete hash; a group needs at least
/// two objects. Groups come in key order, members in the path order of the
/// observations that speak for them.
pub fn exact_groups(observations: &[FileObservation]) -> (groups: Vec<DuplicateGroup>)
    ensures
        groups@.len() == group_keys(observations@).len(),
        forall|i: int| 0 <= i < groups@.len() ==>
            group_matches(observations@, #[trigger] groups@[i], group_keys(observations@)[i]),
{
    let ghost obs = observations@;
    let primaries = primary_indices(observations);
    let ids = object_id_list(observations, &primaries);
    let reps = eligible_rep_list(observations, &ids);
    let keys = key_list(observations, &reps);
    let ghost ks = key_views(keys@);
    let mut groups: Vec<DuplicateGroup> = Vec::new();
    let mut q: usize = 0;
    assert(ks.take(0) =~= Seq::<(u64, Seq<char>)>::empty());
    while q < keys.len()
        invariant
            obs == observations@,
            ks == key_views(keys@),
            ks == keys_of(obs, candidate_reps(obs)),
            reps@ == candidate_reps(obs),
            forall|i: int| 0 <= i < reps@.len() ==> (#[trigger] reps@[i]) < obs.len() && eligible(obs[reps@[i] as int]),
            primaries@.len() == obs.len(),
            forall|i: int| 0 <= i < obs.len() ==> is_first_with_key(obs, i, #[trigger] primaries@[i] as int),
            q <= keys@.len(),
            groups@.len() == keys_with_duplicates(obs, ks.take(q as int)).len(),
            forall|i: int| 0 <= i < groups@.len() ==>
                group_matches(obs, #[trigger] groups@[i], keys_with_duplicates(obs, ks.take(q as int))[i]),
        decreases keys@.len() - q,
    {
        let size = keys[q].0;
        let hash = &keys[q].1;
        assert(ks[q as int] == (size, hash@));
        assert(ks.take(q + 1).drop_last() =~= ks.take(q as int));
        let members = members_with_key(observations, &reps, size, hash.as_str());
        if members.len() > 1 {
            let g = build_group(observations, &primaries, size, hash, members);
            groups.push(g);
        }
        q = q + 1;
    }
    assert(ks.take(keys@.len() as int) =~= ks);
    groups
}

proof fn lemma_keys_with_duplicates(obs: Seq<FileObservation>, ks: Seq<(u64, Seq<char>)>)
    ensures
        forall|j: int| 0 <= j < keys_with_duplicates(obs, ks).len() ==>
            member_reps(obs, #[trigger] keys_with_duplicates(obs, ks)[j]).len() > 1,
    decreases ks.len(),
{
    if ks.len() > 0 {
        let rest = keys_with_duplicates(obs, ks.drop_last());
        lemma_keys_with_duplicates(obs, ks.drop_last());
        assert forall|j: int| 0 <= j < keys_with_duplicates(obs, ks).len() implies
            member_reps(obs, #[trigger] keys_with_duplicates(obs, ks)[j]).len() > 1 by {
            if j < rest.len() {
                assert(keys_with_duplicates(obs, ks)[j] == rest[j]);
            }
        }
    }
}

proof fn lemma_reps_with_key(obs: Seq<FileObservation>, reps: Seq<usize>, k: (u64, Seq<char>))
    requires
        forall|i: int| 0 <= i < reps.len() ==> eligible(obs[#[trigger] reps[i] as int]),
    ensures
        forall|j: int| 0 <= j < reps_with_key(obs, reps, k).len() ==>
            eligible(obs[#[trigger] reps_with_key(obs, reps, k)[j] as int])
            && object_key(obs[reps_with_key(obs, reps, k)[j] as int]) == k,
    decreases reps.len(),
{
    if reps.len() > 0 {
        let d = reps.drop_last();
        assert forall|i: int| 0 <= i < d.len() implies eligible(obs[#[trigger] d[i] as int]) by {
            assert(d[i] == reps[i]);
        }
        lemma_reps_with_key(obs, d, k);
        assert(eligible(obs[reps[reps.len() - 1] as int]));
        let rest = reps_with_key(obs, d, k);
        let all = reps_with_key(obs, reps, k);
        assert forall|j: int| 0 <= j < all.len() implies
            eligible(obs[#[trigger] all[j] as int]) && object_key(obs[all[j] as int]) == k by {
            if j < rest.len() {
                assert(all[j] == rest[j]);
            }
        }
    }
}

proof fn lemma_eligible_reps(obs: Seq<FileObservation>, ids: Seq<Seq<char>>)
    ensures
        forall|j: int| 0 <= j < eligible_reps(obs, ids).len() ==> eligible(obs[#[trigger] eligible_reps(obs, ids)[j] as int]),
    decreases ids.len(),
{
    if ids.len() > 0 {
        lemma_eligible_reps(obs, ids.drop_last());
        let rest = eligible_reps(obs, ids.drop_last());
        let all = eligible_reps(obs, ids);
        assert forall|j: int| 0 <= j < all.len() implies eligible(obs[#[trigger] all[j] as int]) by {
            if j < rest.len() {
                assert(all[j] == rest[j]);
            }
        }
    }
}

/// Every group has at least two members, and each member stands for an
/// object whose evidence is current and whose length and complete hash are
/// the group's key.
pub proof fn lemma_group_members_share_key(obs: Seq<FileObservation>, i: int)
    requires
        0 <= i < group_keys(obs).len(),
    ensures
        member_reps(obs, group_keys(obs)[i]).len() >= 2,
        forall|j: int| 0 <= j < member_reps(obs, group_keys(obs)[i]).len() ==>
            eligible(obs[#[trigger] member_reps(obs, group_keys(obs)[i])[j] as int])
            && object_key(obs[member_reps(obs, group_keys(obs)[i])[j] as int]) == group_keys(obs)[i],
{
    let k = group_keys(obs)[i];
    lemma_keys_with_duplicates(obs, keys_of(obs, candidate_reps(obs)));
    lemma_eligible_reps(obs, object_ids(obs));
    lemma_reps_with_key(obs, candidate_reps(obs), k);
    let chosen = reps_with_key(obs, candidate_reps(obs), k);
    let b = by_path(obs, chosen);
    lemma_sort_by_path_keeps(b);
    let m = member_reps(obs, k);
    assert forall|j: int| 0 <= j < m.len() implies
        eligible(obs[#[trigger] m[j] as int]) && object_key(obs[m[j] as int]) == k by {
        let s = spec_sort_by_path(b);
        assert(s.contains(s[j]));
        assert(b.contains(s[j]));
        let w = choose|w: int| 0 <= w < b.len() && b[w] == s[j];
        assert(b[w].1 == chosen[w]);
    }
}


/// Whether another file has the size of file `i`: only such files can have
/// a byte-identical twin, so only they are hashed.
pub open spec fn size_repeats(sizes: Seq<u64>, i: int) -> bool {
    exists|j: int| 0 <= j < sizes.len() && j != i && #[trigger] sizes[j] == sizes[i]
}

pub open spec fn seen_before(sizes: Seq<u64>, n: int, v: u64) -> bool {
    exists|j: int| 0 <= j < n && #[trigger] sizes[j] == v
}

pub open spec fn twice_before(sizes: Seq<u64>, n: int, v: u64) -> bool {
    exists|j: int, k: int| 0 <= j < k < n && #[trigger] sizes[j] == v && #[trigger] sizes[k] == v
}

/// Which files need a complete hash: those whose size another file shares.
pub fn hash_candidates(sizes: &Vec<u64>) -> (r: Vec<bool>)
    ensures
        r@.len() == sizes@.len(),
        forall|i: int| 0 <= i < sizes@.len() ==> r@[i] == size_repeats(sizes@, i),
{
    broadcast use vstd::std_specs::hash::group_hash_axioms;
    let mut seen: HashSet<u64> = HashSet::new();
    let mut repeated: HashSet<u64> = HashSet::new();
    let mut n: usize = 0;
    while n < sizes.len()
        invariant
            n <= sizes@.len(),
            forall|v: u64| seen@.contains(v) <==> seen_before(sizes@, n as int, v),
            forall|v: u64| repeated@.contains(v) <==> twice_before(sizes@, n as int, v),
        decreases sizes@.len() - n,
    {
        let v = sizes[n];
        let fresh = seen.insert(v);
        if !fresh {
            repeated.insert(v);
        }
        proof {
            assert forall|u: u64| seen@.contains(u) <==> seen_before(sizes@, n + 1, u) by {
                if seen_before(sizes@, n + 1, u) {
                    let j = choose|j: int| 0 <= j < n + 1 && #[trigger] sizes@[j] == u;
                    if j < n {
                        assert(seen_before(sizes@, n as int, u));
                    }
                }
                if seen_before(sizes@, n as int, u) {
                    let j = choose|j: int| 0 <= j < n && #[trigger] sizes@[j] == u;
                    assert(sizes@[j] == u);
                }
                if u == v {
                    assert(sizes@[n as int] == u);
                }
            }
            assert forall|u: u64| repeated@.contains(u) <==> twice_before(sizes@, n + 1, u) by {
                if twice_before(sizes@, n + 1, u) {
                    let (j, k) = choose|j: int, k: int| 0 <= j < k < n + 1 && #[trigger] sizes@[j] == u && #[trigger] sizes@[k] == u;
                    if k < n {
                        assert(twice_before(sizes@, n as int, u));
                    } else {
                        assert(seen_before(sizes@, n as int, u));
                    }
                }
                if twice_before(sizes@, n as int, u) {
                    let (j, k) = choose|j: int, k: int| 0 <= j < k < n && #[trigger] sizes@[j] == u && #[trigger] sizes@[k] == u;
                    assert(sizes@[j] == u && sizes@[k] == u);
                }
                if u == v && !fresh {
                    let j = choose|j: int| 0 <= j < n && #[trigger] sizes@[j] == u;
                    assert(sizes@[j] == u && sizes@[n as int] == u);
                }
            }
        }
        n = n + 1;
    }
    let mut r: Vec<bool> = Vec::new();
    let mut i: usize = 0;
    while i < sizes.len()
        invariant
            i <= sizes@.len(),
            r@.len() == i,
            forall|v: u64| repeated@.contains(v) <==> twice_before(sizes@, sizes@.len() as int, v),
            forall|k: int| 0 <= k < i ==> r@[k] == size_repeats(sizes@, k),
        decreases sizes@.len() - i,
    {
        let b = repeated.contains(&sizes[i]);
        proof {
            let u = sizes@[i as int];
            if twice_before(sizes@, sizes@.len() as int, u) {
                let (j, k) = choose|j: int, k: int| 0 <= j < k < sizes@.len() && #[trigger] sizes@[j] == u && #[trigger] sizes@[k] == u;
                if j != i {
                    assert(sizes@[j] == sizes@[i as int]);
                } else {
                    assert(sizes@[k] == sizes@[i as int]);
                }
            }
            if size_repeats(sizes@, i as int) {
                let j = choose|j: int| 0 <= j < sizes@.len() && j != i && #[trigger] sizes@[j] == sizes@[i as int];
                if j < i {
                    assert(sizes@[j] == u && sizes@[i as int] == u);
                } else {
                    assert(sizes@[i as int] == u && sizes@[j] == u);
                }
            }
        }
        r.push(b);
        i = i + 1;
    }
    r
}

} // verus!
