//! Classifying raw directory children into presentation-safe entries.
//!
//! A raw child carries what the operating system reported: a name that may
//! have failed to decode, the child's canonical absolute path, and a file
//! type that may be indeterminate. Classification produces an entry whose
//! navigable path is relative to the root — it reveals no component outside
//! the confinement boundary — or fails closed when the file type is unknown.

use vstd::prelude::*;
use vstd::string::*;
use crate::paths::{confined, is_confined, render_rel, render_path_rel, RootConfig};

verus! {

/// The file type the operating system reported for a child; `Unknown` when
/// it could not be determined (the child vanished mid-iteration, or the
/// query failed).
#[derive(Clone, Copy, PartialEq, Eq, Structural, Debug)]
pub enum RawKind {
    Directory,
    File,
    Unknown,
}

/// One child of a listed directory, as read from the operating system.
pub struct RawEntry {
    /// The child's name; `None` when it could not be decoded as text.
    pub name: Option<String>,
    /// The child's canonical absolute path, as components.
    pub path: Vec<String>,
    /// The reported file type.
    pub kind: RawKind,
}

pub struct RawEntryV {
    pub name: Option<Seq<char>>,
    pub path: Seq<Seq<char>>,
    pub kind: RawKind,
}

impl View for RawEntry {
    type V = RawEntryV;

    open spec fn view(&self) -> RawEntryV {
        RawEntryV { name: self.name.deep_view(), path: self.path.deep_view(), kind: self.kind }
    }
}

/// What a listing shows for each child: a display-safe name and a link-safe
/// path relative to the explorer's virtual root.
#[derive(Clone, Copy, PartialEq, Eq, Structural, Debug)]
pub enum EntryKind {
    Directory,
    File,
}

pub struct Entry {
    pub display_name: String,
    pub navigable_path: String,
    pub kind: EntryKind,
}

pub struct EntryV {
    pub display_name: Seq<char>,
    pub navigable_path: Seq<char>,
    pub kind: EntryKind,
}

impl View for Entry {
    type V = EntryV;

    open spec fn view(&self) -> EntryV {
        EntryV {
            display_name: self.display_name@,
            navigable_path: self.navigable_path@,
            kind: self.kind,
        }
    }
}

/// The display name of a child: its decoded name, or a fixed placeholder
/// when decoding failed, so the child is retained rather than dropped.
pub open spec fn spec_display_name(name: Option<Seq<char>>) -> Seq<char> {
    match name {
        Some(n) => n,
        None => "Invalid format"@,
    }
}

/// A raw child can be classified: its file type is determinate and its path
/// lies inside the root.
pub open spec fn classifiable(raw: RawEntryV, root: Seq<Seq<char>>) -> bool {
    raw.kind != RawKind::Unknown && confined(root, raw.path)
}

/// The entry a classifiable raw child maps to: the name (or placeholder),
/// the path components below the root rendered as a relative link, and the
/// reported kind.
pub open spec fn spec_entry(raw: RawEntryV, root_len: int) -> EntryV {
    EntryV {
        display_name: spec_display_name(raw.name),
        navigable_path: render_rel(raw.path.skip(root_len)),
        kind: if raw.kind == RawKind::Directory {
            EntryKind::Directory
        } else {
            EntryKind::File
        },
    }
}

/// No path leakage: a classified entry is a function of the child's name,
/// kind, and path components below the root alone. Whatever lies above the
/// root — the machine's real location of the boundary — leaves no trace in
/// the entry, so the navigable path never reveals a component outside it.
pub proof fn lemma_entry_reveals_nothing_above_root(a: RawEntryV, b: RawEntryV, root_len: int)
    requires
        a.name == b.name,
        a.kind == b.kind,
        a.path.skip(root_len) == b.path.skip(root_len),
    ensures
        spec_entry(a, root_len) == spec_entry(b, root_len),
{
}

fn display_name(name: &Option<String>) -> (r: String)
    ensures
        r@ == spec_display_name(name.deep_view()),
{
    match name {
        Some(n) => n.clone(),
        None => String::from_str("Invalid format"),
    }
}

/// Turns one raw child into a presentation-safe entry.
///
/// The navigable path is the child's canonical path taken relative to the
/// root, so it never contains a component outside the confinement boundary.
/// A child whose file type is indeterminate is not classified — the policy
/// fails closed rather than defaulting to a file — and neither is one whose
/// path does not lie inside the root; the failure carries the child's
/// display name, and the caller keeps listing the other children.
pub fn classify(raw: &RawEntry, root: &RootConfig) -> (r: Result<Entry, String>)
    ensures
        classifiable(raw@, root.components_view()) ==> (r matches Ok(e) && e@ == spec_entry(
            raw@,
            root.components_view().len() as int,
        )),
        !classifiable(raw@, root.components_view()) ==> (r matches Err(n) && n@
            == spec_display_name(raw@.name)),
{
    let name = display_name(&raw.name);
    let kind = match raw.kind {
        RawKind::Directory => EntryKind::Directory,
        RawKind::File => EntryKind::File,
        RawKind::Unknown => {
            return Err(name);
        },
    };
    if !is_confined(root.components(), &raw.path) {
        return Err(name);
    }
    let navigable_path = render_path_rel(&raw.path, root.components().len());
    Ok(Entry { display_name: name, navigable_path, kind })
}

} // verus!
