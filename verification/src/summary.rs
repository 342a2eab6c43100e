//! The summary of a scan: counts over its observations, its exact
//! duplicate groups and its hard-link groups. Byte totals saturate.

use vstd::prelude::*;
use crate::domain::{
    DuplicateGroup, FileObservation, HardLinkGroup, MediaKind, ObservationStability, ObservationStatus, ScanSummary,
};

verus! {

pub open spec fn sat_add(a: int, b: int) -> int {
    if a + b > u64::MAX { u64::MAX as int } else { a + b }
}

pub open spec fn is_media(o: FileObservation) -> bool {
    o.media_kind == MediaKind::Image || o.media_kind == MediaKind::Video || o.media_kind == MediaKind::Audio
}

/// How many observations satisfy `p`.
pub open spec fn count_where(obs: Seq<FileObservation>, p: spec_fn(FileObservation) -> bool) -> nat
    decreases obs.len(),
{
    if obs.len() == 0 {
        0
    } else {
        count_where(obs.drop_last(), p) + if p(obs.last()) { 1nat } else { 0nat }
    }
}

/// The saturating total of the observations' sizes.
pub open spec fn total_size(obs: Seq<FileObservation>) -> int
    decreases obs.len(),
{
    if obs.len() == 0 { 0 } else { sat_add(total_size(obs.drop_last()), obs.last().size_bytes as int) }
}

pub open spec fn total_members(groups: Seq<DuplicateGroup>) -> int
    decreases groups.len(),
{
    if groups.len() == 0 { 0 } else { sat_add(total_members(groups.drop_last()), groups.last().members@.len() as int) }
}

pub open spec fn total_reclaimable(groups: Seq<DuplicateGroup>) -> int
    decreases groups.len(),
{
    if groups.len() == 0 { 0 } else { sat_add(total_reclaimable(groups.drop_last()), groups.last().reclaimable_bytes as int) }
}

/// The paths beyond the first of each hard-link group.
pub open spec fn alias_paths(links: Seq<HardLinkGroup>) -> int
    decreases links.len(),
{
    if links.len() == 0 {
        0
    } else {
        let extra = if links.last().observed_path_count > 0 { links.last().observed_path_count - 1 } else { 0 };
        sat_add(alias_paths(links.drop_last()), extra)
    }
}

/// Summarizes a scan: its files and bytes, media, unsupported and
/// unreadable files, cache hits and unstable observations; its duplicate
/// groups, their members and reclaimable bytes; and the objects behind its
/// paths once hard-link aliases are counted once.
pub fn summarize(observations: &Vec<FileObservation>, groups: &Vec<DuplicateGroup>, links: &Vec<HardLinkGroup>) -> (s: ScanSummary)
    ensures
        s.file_count == observations@.len(),
        s.total_bytes == total_size(observations@),
        s.media_files == count_where(observations@, |o: FileObservation| is_media(o)),
        s.unsupported_files == count_where(observations@, |o: FileObservation| o.status == ObservationStatus::Unsupported),
        s.unreadable_files == count_where(observations@, |o: FileObservation| o.status == ObservationStatus::Unreadable),
        s.exact_duplicate_groups == groups@.len(),
        s.exact_duplicate_files == total_members(groups@),
        s.reclaimable_bytes == total_reclaimable(groups@),
        s.cache_hits == count_where(observations@, |o: FileObservation| o.cache_hit),
        s.hard_link_alias_path_count == alias_paths(links@),
        s.unique_object_count == if observations@.len() >= alias_paths(links@) {
            observations@.len() - alias_paths(links@)
        } else {
            0
        },
        s.unstable_observation_count
            == count_where(observations@, |o: FileObservation| o.observation_stability != ObservationStability::Stable),
{
    let ghost media_p = |o: FileObservation| is_media(o);
    let ghost unsupported_p = |o: FileObservation| o.status == ObservationStatus::Unsupported;
    let ghost unreadable_p = |o: FileObservation| o.status == ObservationStatus::Unreadable;
    let ghost hit_p = |o: FileObservation| o.cache_hit;
    let ghost unstable_p = |o: FileObservation| o.observation_stability != ObservationStability::Stable;
    let mut total: u64 = 0;
    let mut media: u64 = 0;
    let mut unsupported: u64 = 0;
    let mut unreadable: u64 = 0;
    let mut hits: u64 = 0;
    let mut unstable: u64 = 0;
    let mut i: usize = 0;
    while i < observations.len()
        invariant
            media_p == (|o: FileObservation| is_media(o)),
            unsupported_p == (|o: FileObservation| o.status == ObservationStatus::Unsupported),
            unreadable_p == (|o: FileObservation| o.status == ObservationStatus::Unreadable),
            hit_p == (|o: FileObservation| o.cache_hit),
            unstable_p == (|o: FileObservation| o.observation_stability != ObservationStability::Stable),
            i <= observations@.len(),
            total == total_size(observations@.take(i as int)),
            media == count_where(observations@.take(i as int), media_p),
            unsupported == count_where(observations@.take(i as int), unsupported_p),
            unreadable == count_where(observations@.take(i as int), unreadable_p),
            hits == count_where(observations@.take(i as int), hit_p),
            unstable == count_where(observations@.take(i as int), unstable_p),
            media <= i && unsupported <= i && unreadable <= i && hits <= i && unstable <= i,
        decreases observations@.len() - i,
    {
        let o = &observations[i];
        assert(observations@.take(i + 1).drop_last() =~= observations@.take(i as int));
        assert(observations@.take(i + 1).last() == observations@[i as int]);
        total = total.saturating_add(o.size_bytes);
        match o.media_kind {
            MediaKind::Image | MediaKind::Video | MediaKind::Audio => media = media + 1,
            _ => {},
        }
        match o.status {
            ObservationStatus::Unsupported => unsupported = unsupported + 1,
            ObservationStatus::Unreadable => unreadable = unreadable + 1,
            _ => {},
        }
        if o.cache_hit {
            hits = hits + 1;
        }
        match o.observation_stability {
            ObservationStability::Stable => {},
            _ => unstable = unstable + 1,
        }
        i = i + 1;
    }
    assert(observations@.take(observations@.len() as int) =~= observations@);

    let mut members: u64 = 0;
    let mut reclaimable: u64 = 0;
    let mut g: usize = 0;
    while g < groups.len()
        invariant
            g <= groups@.len(),
            members == total_members(groups@.take(g as int)),
            reclaimable == total_reclaimable(groups@.take(g as int)),
        decreases groups@.len() - g,
    {
        assert(groups@.take(g + 1).drop_last() =~= groups@.take(g as int));
        assert(groups@.take(g + 1).last() == groups@[g as int]);
        members = members.saturating_add(groups[g].members.len() as u64);
        reclaimable = reclaimable.saturating_add(groups[g].reclaimable_bytes);
        g = g + 1;
    }
    assert(groups@.take(groups@.len() as int) =~= groups@);

    let mut aliases: u64 = 0;
    let mut k: usize = 0;
    while k < links.len()
        invariant
            k <= links@.len(),
            aliases == alias_paths(links@.take(k as int)),
        decreases links@.len() - k,
    {
        assert(links@.take(k + 1).drop_last() =~= links@.take(k as int));
        assert(links@.take(k + 1).last() == links@[k as int]);
        aliases = aliases.saturating_add(links[k].observed_path_count.saturating_sub(1));
        k = k + 1;
    }
    assert(links@.take(links@.len() as int) =~= links@);

    let files = observations.len() as u64;
    ScanSummary {
        file_count: files,
        total_bytes: total,
        media_files: media,
        unsupported_files: unsupported,
        unreadable_files: unreadable,
        exact_duplicate_groups: groups.len() as u64,
        exact_duplicate_files: members,
        reclaimable_bytes: reclaimable,
        cache_hits: hits,
        unique_object_count: files.saturating_sub(aliases),
        hard_link_alias_path_count: aliases,
        unstable_observation_count: unstable,
    }
}

} // verus!
