//! The decisions of input discovery: which inputs are accepted, which
//! directory entries are descended into, and which discovered paths are
//! still regular files.

use vstd::prelude::*;
use crate::domain::NativePath;
use crate::filesystem::FileStateSignature;
use crate::json::push_str;
use crate::text::string_of;

verus! {

/// A regular file found by discovery, with the signature it was found with.
#[derive(Debug, Clone)]
pub struct DiscoveredFile {
    pub path: NativePath,
    pub size_bytes: u64,
    pub modified_unix_ns: Option<i64>,
    pub signature: FileStateSignature,
}

/// Everything discovery found and could not find.
#[derive(Debug)]
pub struct DiscoveryResult {
    pub files: Vec<DiscoveredFile>,
    pub issues: Vec<DiscoveryIssue>,
    pub accepted_input_count: usize,
    pub interrupted: bool,
}

#[derive(Debug, Clone, Copy, PartialEq, Eq, Structural)]
pub enum DiscoveryIssueKind {
    InputUnavailable,
    InputExcludedByPolicy,
    InvalidInputType,
    TraversalIncomplete,
    PathChanged,
}

/// A problem met during discovery.
#[derive(Debug, Clone)]
pub struct DiscoveryIssue {
    pub kind: DiscoveryIssueKind,
    pub path: Option<NativePath>,
    pub message: String,
    pub os_error_kind: Option<String>,
}

/// What the metadata of an input, not following a final symbolic link,
/// says it is.
#[derive(Debug, Clone, Copy, PartialEq, Eq, Structural)]
pub struct InputKind {
    pub is_symlink: bool,
    pub is_file: bool,
    pub is_dir: bool,
}

/// Why the metadata of a path could not be read: the error's text and the
/// name of its kind.
#[derive(Debug, Clone, PartialEq, Eq)]
pub struct LookError {
    pub message: String,
    pub kind: String,
}

/// What discovery does with one input.
#[derive(Debug, Clone)]
pub enum InputDecision {
    /// Record the issue and go on with the next input.
    Skip(DiscoveryIssue),
    /// Count the input and record the file.
    AcceptFile,
    /// Count the input and walk the directory.
    AcceptDirectory,
}

/// `prefix`, then `name`, then `suffix`.
pub open spec fn framed(prefix: Seq<char>, name: Seq<char>, suffix: Seq<char>) -> Seq<char> {
    prefix + name + suffix
}

fn framed_of(prefix: &str, name: &str, suffix: &str) -> (r: String)
    ensures
        r@ == framed(prefix@, name@, suffix@),
{
    let mut t: Vec<char> = Vec::new();
    push_str(&mut t, prefix);
    push_str(&mut t, name);
    push_str(&mut t, suffix);
    assert(t@ =~= framed(prefix@, name@, suffix@));
    string_of(&t)
}

/// The issue `d` records, if any, has this kind, path, message and error
/// kind.
pub open spec fn skips_with(d: InputDecision, kind: DiscoveryIssueKind, path: NativePath, message: Seq<char>, os_kind: Option<Seq<char>>) -> bool {
    d matches InputDecision::Skip(issue) && issue.kind == kind && issue.path == Some(path) && issue.message@ == message
        && match (issue.os_error_kind, os_kind) {
            (Some(a), Some(b)) => a@ == b,
            (None, None) => true,
            _ => false,
        }
}

/// Decides what to do with the input at `path`, displayed as `shown`,
/// from what its metadata says: an unreadable input is unavailable; a
/// symbolic link is excluded while links are not followed; a regular file
/// is accepted; anything else that is not a directory is refused; a
/// directory is accepted for walking.
pub fn classify_input(path: &NativePath, shown: &str, look: &Result<InputKind, LookError>, follow_symlinks: bool) -> (d: InputDecision)
    ensures
        match look {
            Err(e) => skips_with(d, DiscoveryIssueKind::InputUnavailable, *path,
                framed("could not inspect "@, shown@, ": "@) + e.message@, Some(e.kind@)),
            Ok(k) => if k.is_symlink && !follow_symlinks {
                skips_with(d, DiscoveryIssueKind::InputExcludedByPolicy, *path,
                    framed("skipped symbolic-link input "@, shown@, " because link following is disabled"@), None)
            } else if k.is_file {
                d is AcceptFile
            } else if !k.is_dir {
                skips_with(d, DiscoveryIssueKind::InvalidInputType, *path,
                    framed("skipped non-file, non-directory input "@, shown@, ""@), None)
            } else {
                d is AcceptDirectory
            },
        },
{
    match look {
        Err(e) => {
            let mut t: Vec<char> = Vec::new();
            push_str(&mut t, "could not inspect ");
            push_str(&mut t, shown);
            push_str(&mut t, ": ");
            push_str(&mut t, e.message.as_str());
            assert(t@ =~= framed("could not inspect "@, shown@, ": "@) + e.message@);
            InputDecision::Skip(DiscoveryIssue {
                kind: DiscoveryIssueKind::InputUnavailable,
                path: Some(path.copy()),
                message: string_of(&t),
                os_error_kind: Some(e.kind.clone()),
            })
        },
        Ok(k) => {
            if k.is_symlink && !follow_symlinks {
                InputDecision::Skip(DiscoveryIssue {
                    kind: DiscoveryIssueKind::InputExcludedByPolicy,
                    path: Some(path.copy()),
                    message: framed_of("skipped symbolic-link input ", shown, " because link following is disabled"),
                    os_error_kind: None,
                })
            } else if k.is_file {
                InputDecision::AcceptFile
            } else if !k.is_dir {
                InputDecision::Skip(DiscoveryIssue {
                    kind: DiscoveryIssueKind::InvalidInputType,
                    path: Some(path.copy()),
                    message: framed_of("skipped non-file, non-directory input ", shown, ""),
                    os_error_kind: None,
                })
            } else {
                InputDecision::AcceptDirectory
            }
        },
    }
}

/// A relative path component names a hidden entry.
pub open spec fn hidden_component(c: Seq<u8>) -> bool {
    c.len() > 0 && c[0] == 46u8
}

/// Whether any of the normal components of an entry's path below the walk's
/// root names a hidden entry.
pub fn is_hidden(components: &Vec<Vec<u8>>) -> (r: bool)
    ensures
        r == exists|i: int| 0 <= i < components@.len() && hidden_component(#[trigger] components@[i]@),
{
    let mut k: usize = 0;
    while k < components.len()
        invariant
            k <= components@.len(),
            forall|i: int| 0 <= i < k ==> !hidden_component(#[trigger] components@[i]@),
        decreases components@.len() - k,
    {
        let c = &components[k];
        if c.len() > 0 && c[0] == 46u8 {
            assert(hidden_component(components@[k as int]@));
            return true;
        }
        k = k + 1;
    }
    false
}

/// What is known of a directory entry when deciding whether to descend.
#[derive(Debug, Clone, Copy, PartialEq, Eq, Structural)]
pub struct EntryFacts {
    /// The entry's depth below the root; the root itself is at depth 0.
    pub depth: usize,
    /// The entry lies inside the state directory.
    pub in_state_directory: bool,
    /// A component of the entry's path below the root is hidden.
    pub hidden: bool,
    pub is_dir: bool,
    /// The device of the entry, where its metadata could be read.
    pub device: Option<u64>,
}

/// Whether the walk descends into (and reports) an entry: the root always;
/// never the state directory; hidden entries only when asked for; and a
/// directory on another device than the root's only when crossing
/// filesystems is allowed.
pub open spec fn descends(e: EntryFacts, include_hidden: bool, cross_filesystems: bool, root_device: Option<u64>) -> bool {
    if e.depth == 0 {
        true
    } else if e.in_state_directory {
        false
    } else if !include_hidden && e.hidden {
        false
    } else if !cross_filesystems && e.is_dir && root_device is Some && e.device is Some
        && e.device->Some_0 != root_device->Some_0 {
        false
    } else {
        true
    }
}

/// Decides whether the walk descends into an entry.
pub fn should_descend(e: &EntryFacts, include_hidden: bool, cross_filesystems: bool, root_device: Option<u64>) -> (r: bool)
    ensures
        r == descends(*e, include_hidden, cross_filesystems, root_device),
{
    if e.depth == 0 {
        return true;
    }
    if e.in_state_directory {
        return false;
    }
    if !include_hidden && e.hidden {
        return false;
    }
    if !cross_filesystems && e.is_dir {
        match (root_device, e.device) {
            (Some(root), Some(device)) => {
                if device != root {
                    return false;
                }
            },
            _ => {},
        }
    }
    true
}

/// What the last look at a discovered path found.
#[derive(Debug, Clone)]
pub struct PathLook {
    pub is_file: bool,
    pub is_symlink: bool,
    pub signature: FileStateSignature,
}

/// Turns the last look at a discovered path into the file it stands for,
/// or into the issue that it changed.
pub fn classify_discovered(path: &NativePath, shown: &str, look: Result<PathLook, LookError>) -> (r: Result<DiscoveredFile, DiscoveryIssue>)
    ensures
        match look {
            Ok(l) => if l.is_file && !l.is_symlink {
                r matches Ok(f) && f.path == *path && f.size_bytes == l.signature.logical_size_bytes
                    && f.modified_unix_ns == l.signature.modified_unix_ns && f.signature == l.signature
            } else {
                r matches Err(issue) && issue.kind == DiscoveryIssueKind::PathChanged && issue.path == Some(*path)
                    && issue.message@ == framed("path stopped being a file: "@, shown@, ""@) && issue.os_error_kind is None
            },
            Err(e) => r matches Err(issue) && issue.kind == DiscoveryIssueKind::PathChanged && issue.path == Some(*path)
                && issue.message@ == framed("could not read "@, shown@, ": "@) + e.message@
                && (issue.os_error_kind matches Some(k) && k@ == e.kind@),
        },
{
    match look {
        Ok(l) => {
            if l.is_file && !l.is_symlink {
                Ok(DiscoveredFile {
                    path: path.copy(),
                    size_bytes: l.signature.logical_size_bytes,
                    modified_unix_ns: l.signature.modified_unix_ns,
                    signature: l.signature,
                })
            } else {
                Err(DiscoveryIssue {
                    kind: DiscoveryIssueKind::PathChanged,
                    path: Some(path.copy()),
                    message: framed_of("path stopped being a file: ", shown, ""),
                    os_error_kind: None,
                })
            }
        },
        Err(e) => {
            let mut t: Vec<char> = Vec::new();
            push_str(&mut t, "could not read ");
            push_str(&mut t, shown);
            push_str(&mut t, ": ");
            push_str(&mut t, e.message.as_str());
            assert(t@ =~= framed("could not read "@, shown@, ": "@) + e.message@);
            Err(DiscoveryIssue {
                kind: DiscoveryIssueKind::PathChanged,
                path: Some(path.copy()),
                message: string_of(&t),
                os_error_kind: Some(e.kind),
            })
        },
    }
}

} // verus!
