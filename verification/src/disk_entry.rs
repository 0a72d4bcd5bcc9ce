//! An entry of a recursive directory listing: a file, or a directory with
//! the listing of what it holds.

use std::path::PathBuf;
use vstd::prelude::*;

verus! {

/// One entry of a listing. A file has no `children`; a directory has them,
/// possibly none.
#[derive(Debug, PartialEq, Eq)]
pub struct DiskEntry {
    pub path: PathBuf,
    pub name: Option<String>,
    pub children: Option<Vec<DiskEntry>>,
}

/// What a `DiskEntry` holds.
pub struct EntryModel {
    pub path: PathBuf,
    pub name: Option<Seq<char>>,
    pub children: Option<Seq<EntryModel>>,
}

/// What `entry` holds, with all that is listed below it.
pub open spec fn entry_model(entry: DiskEntry) -> EntryModel
    decreases entry,
{
    EntryModel {
        path: entry.path,
        name: match entry.name {
            Some(text) => Some(text@),
            None => None,
        },
        children: match entry.children {
            Some(entries) => Some(
                Seq::new(
                    entries@.len(),
                    |i: int|
                        if 0 <= i < entries@.len() {
                            entry_model(entries@[i])
                        } else {
                            arbitrary()
                        },
                ),
            ),
            None => None,
        },
    }
}

impl View for DiskEntry {
    type V = EntryModel;

    open spec fn view(&self) -> EntryModel {
        entry_model(*self)
    }
}

/// What a listing holds, entry by entry.
pub open spec fn listing_view(entries: Seq<DiskEntry>) -> Seq<EntryModel> {
    Seq::new(entries.len(), |i: int| entries[i]@)
}

/// The view of a directory entry lists the views of its children.
pub proof fn lemma_children_view(entry: DiskEntry)
    requires
        entry.children is Some,
    ensures
        entry@.children == Some(listing_view(entry.children.unwrap()@)),
{
    assert(entry@.children.unwrap() =~= listing_view(entry.children.unwrap()@));
}

impl DiskEntry {
    /// A copy of this entry and of all that is listed below it.
    pub fn duplicate(&self) -> (r: DiskEntry)
        ensures
            r@ == self@,
        decreases self,
    {
        let name = match &self.name {
            Some(text) => Some(text.clone()),
            None => None,
        };
        let children = match &self.children {
            Some(entries) => {
                let copies = duplicate_listing(entries);
                let kept = Some(copies);
                proof {
                    lemma_children_view(*self);
                    lemma_children_view(DiskEntry { path: self.path, name: self.name, children: kept });
                }
                kept
            },
            None => None,
        };
        DiskEntry { path: self.path.clone(), name, children }
    }
}

/// A copy of a listing, entry by entry.
pub fn duplicate_listing(entries: &Vec<DiskEntry>) -> (r: Vec<DiskEntry>)
    ensures
        listing_view(r@) == listing_view(entries@),
    decreases entries,
{
    let mut r: Vec<DiskEntry> = Vec::new();
    let mut i: usize = 0;
    while i < entries.len()
        invariant
            i <= entries.len(),
            r@.len() == i,
            forall|j: int| 0 <= j < i ==> (#[trigger] r@[j])@ == entries@[j]@,
        decreases entries.len() - i,
    {
        r.push(entries[i].duplicate());
        i += 1;
    }
    assert(listing_view(r@) =~= listing_view(entries@));
    r
}

} // verus!
