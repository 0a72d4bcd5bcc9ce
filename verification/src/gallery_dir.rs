//! A node of the gallery's directory tree: a directory, the image files in
//! it and its child directories.

use crate::disk_entry::{
    duplicate_listing, lemma_children_view, listing_view, DiskEntry, EntryModel,
};
use crate::extensions::has_image_extension;
use crate::model::{
    buildable, built_dirs_upto, display_name, entry_buildable, filled, is_first_named,
    built_node, images_only, kept_files, lemma_filled_images, lemma_kept_files_push, names_of, none_named, DirModel,
};
use crate::paths::{file_name, to_text};
use std::path::PathBuf;
use vstd::prelude::*;

verus! {

/// A directory could not become a node of the tree.
#[derive(Debug, Clone, Copy, PartialEq, Eq)]
pub struct CreationError;

impl CreationError {
    /// The text of `message`.
    pub open spec fn text() -> Seq<char> {
        "The GalleryDir could not be created correctly."@
    }

    /// What a user is told of this error.
    pub fn message(&self) -> (r: String)
        ensures
            r@ == Self::text(),
    {
        "The GalleryDir could not be created correctly.".to_owned()
    }
}

/// The place of a node in the tree: the child numbers that lead to it from
/// the root. It owns nothing of the tree.
#[derive(Debug, PartialEq, Eq)]
pub struct DirRef {
    pub steps: Vec<usize>,
}

impl View for DirRef {
    type V = Seq<usize>;

    open spec fn view(&self) -> Seq<usize> {
        self.steps@
    }
}

impl DirRef {
    /// The place of the root.
    pub fn root() -> (r: DirRef)
        ensures
            r@ == Seq::<usize>::empty(),
    {
        DirRef { steps: Vec::new() }
    }

    /// The same place once more.
    pub fn duplicate(&self) -> (r: DirRef)
        ensures
            r@ == self@,
    {
        let mut steps: Vec<usize> = Vec::new();
        let mut i: usize = 0;
        while i < self.steps.len()
            invariant
                i <= self.steps.len(),
                steps@ == self.steps@.take(i as int),
            decreases self.steps.len() - i,
        {
            steps.push(self.steps[i]);
            assert(self.steps@.take(i + 1) =~= self.steps@.take(i as int).push(self.steps@[i as int]));
            i += 1;
        }
        assert(self.steps@.take(self.steps@.len() as int) =~= self.steps@);
        DirRef { steps }
    }

    /// The place of the child with the number `index` of the node at this
    /// place.
    pub fn child(&self, index: usize) -> (r: DirRef)
        ensures
            r@ == self@.push(index),
    {
        let mut r = self.duplicate();
        r.steps.push(index);
        r
    }
}

/// The view of an optional place.
pub open spec fn place_view(place: Option<DirRef>) -> Option<Seq<usize>> {
    match place {
        Some(at) => Some(at@),
        None => None,
    }
}

/// The texts of `words`, in order.
pub open spec fn texts(words: Seq<String>) -> Seq<Seq<char>> {
    Seq::new(words.len(), |i: int| words[i]@)
}

/// A node of the directory tree. It owns its children; of its parent it
/// keeps the place only.
#[derive(Debug)]
pub struct GalleryDir {
    parent: Option<DirRef>,
    directories: Vec<GalleryDir>,
    files: Vec<DiskEntry>,
    name: String,
    path: PathBuf,
}

/// What `node` holds, with all the nodes below it.
spec fn dir_model(node: GalleryDir) -> DirModel
    decreases node,
{
    DirModel {
        parent: place_view(node.parent),
        directories: Seq::new(
            node.directories@.len(),
            |i: int|
                if 0 <= i < node.directories@.len() {
                    dir_model(node.directories@[i])
                } else {
                    arbitrary()
                },
        ),
        files: listing_view(node.files@),
        name: node.name@,
        path: node.path,
    }
}

/// What a sequence of nodes holds, node by node.
pub open spec fn dirs_view(dirs: Seq<GalleryDir>) -> Seq<DirModel> {
    Seq::new(dirs.len(), |i: int| dirs[i]@)
}

impl View for GalleryDir {
    type V = DirModel;

    closed spec fn view(&self) -> DirModel {
        dir_model(*self)
    }
}

/// The name of a directory from the final segment of its path: the text of
/// the segment, `unknown` for a segment that is no text, and an error where
/// there is no segment.
pub fn name_from_segment(segment: Option<Option<String>>) -> (r: Result<String, CreationError>)
    ensures
        match segment {
            None => r is Err,
            Some(None) => r is Ok && r->Ok_0@ == "unknown"@,
            Some(Some(text)) => r is Ok && r->Ok_0@ == text@,
        },
{
    match segment {
        None => Err(CreationError),
        Some(None) => Ok("unknown".to_owned()),
        Some(Some(text)) => Ok(text),
    }
}

/// A node without files or children.
pub open spec fn empty_node(path: PathBuf, parent: Option<Seq<usize>>, name: Seq<char>) -> DirModel {
    DirModel { parent, directories: Seq::empty(), files: Seq::empty(), name, path }
}

impl GalleryDir {
    /// The view of a node, field by field.
    proof fn lemma_view(self)
        ensures
            self@.parent == place_view(self.parent),
            self@.directories == dirs_view(self.directories@),
            self@.files == listing_view(self.files@),
            self@.name == self.name@,
            self@.path == self.path,
    {
        assert(self@.directories =~= dirs_view(self.directories@));
    }

    /// A node for the directory at `path`, without files or children yet.
    /// Its name is the final segment of `path`, or `unknown` where that
    /// segment is not valid Unicode; a path without a final segment gives
    /// no node.
    pub fn new(path: PathBuf, parent: Option<DirRef>) -> (r: Result<GalleryDir, CreationError>)
        ensures
            match r {
                Ok(node) => display_name(path) is Some && node@ == empty_node(
                    path,
                    place_view(parent),
                    display_name(path).unwrap(),
                ),
                Err(_) => display_name(path) is None,
            },
    {
        let segment = match file_name(&path) {
            Some(segment) => Some(to_text(&segment)),
            None => None,
        };
        let name = match name_from_segment(segment) {
            Ok(name) => name,
            Err(e) => {
                return Err(e);
            },
        };
        let node = GalleryDir { parent, directories: Vec::new(), files: Vec::new(), name, path };
        proof {
            node.lemma_view();
            assert(node@.directories =~= Seq::empty());
            assert(node@.files =~= Seq::empty());
        }
        Ok(node)
    }

    /// The name under which this directory is shown.
    pub fn get_name(&self) -> (r: String)
        ensures
            r@ == self@.name,
    {
        proof {
            self.lemma_view();
        }
        self.name.clone()
    }

    /// The path of this directory.
    pub fn get_path(&self) -> (r: PathBuf)
        ensures
            r == self@.path,
    {
        proof {
            self.lemma_view();
        }
        self.path.clone()
    }

    /// The files of this directory, in the order in which they were added.
    pub fn get_files_json(&self) -> (r: Vec<DiskEntry>)
        ensures
            listing_view(r@) == self@.files,
    {
        proof {
            self.lemma_view();
        }
        duplicate_listing(&self.files)
    }

    /// The names of the child directories, in the order in which they were
    /// added. Nothing of what is below them.
    pub fn get_dirs_json(&self) -> (r: Vec<String>)
        ensures
            texts(r@) == names_of(self@.directories),
    {
        proof {
            self.lemma_view();
        }
        let mut names: Vec<String> = Vec::new();
        let mut i: usize = 0;
        while i < self.directories.len()
            invariant
                i <= self.directories.len(),
                names@.len() == i,
                forall|j: int| 0 <= j < i ==> (#[trigger] names@[j])@ == self.directories@[j]@.name,
            decreases self.directories.len() - i,
        {
            names.push(self.directories[i].get_name());
            i += 1;
        }
        assert(texts(names@) =~= names_of(self@.directories));
        names
    }

    /// The number of the first child that is called `name`, exactly as
    /// written; `None` where no child is.
    pub fn get_dir_by_name(&self, name: String) -> (r: Option<usize>)
        ensures
            match r {
                Some(i) => is_first_named(self@, name@, i as int),
                None => none_named(self@, name@),
            },
    {
        proof {
            self.lemma_view();
        }
        let mut i: usize = 0;
        while i < self.directories.len()
            invariant
                i <= self.directories.len(),
                self@.directories == dirs_view(self.directories@),
                forall|j: int| 0 <= j < i ==> (#[trigger] self@.directories[j]).name != name@,
            decreases self.directories.len() - i,
        {
            let child_name = self.directories[i].get_name();
            if child_name == name {
                return Some(i);
            }
            i += 1;
        }
        None
    }

    /// The child with the number `index`, where there is one.
    pub fn get_dir(&self, index: usize) -> (r: Option<&GalleryDir>)
        ensures
            match r {
                Some(child) => index < self@.directories.len() && child@
                    == self@.directories[index as int],
                None => index >= self@.directories.len(),
            },
    {
        proof {
            self.lemma_view();
        }
        if index < self.directories.len() {
            Some(&self.directories[index])
        } else {
            None
        }
    }

    /// The place of the parent; `None` for a node that has none.
    pub fn get_parent(&self) -> (r: Option<DirRef>)
        ensures
            place_view(r) == self@.parent,
    {
        proof {
            self.lemma_view();
        }
        match &self.parent {
            Some(p) => Some(p.duplicate()),
            None => None,
        }
    }

    /// Adds `file` behind the files of this node, whatever it is.
    pub fn add_file(&mut self, file: DiskEntry)
        ensures
            final(self)@ == (DirModel { files: old(self)@.files.push(file@), ..old(self)@ }),
    {
        proof {
            self.lemma_view();
        }
        self.files.push(file);
        proof {
            self.lemma_view();
            assert(self@.files =~= old(self)@.files.push(file@));
        }
    }

    /// Adds `dir` behind the children of this node.
    pub fn add_dir(&mut self, dir: GalleryDir)
        ensures
            final(self)@ == (DirModel {
                directories: old(self)@.directories.push(dir@),
                ..old(self)@
            }),
    {
        proof {
            self.lemma_view();
        }
        self.directories.push(dir);
        proof {
            self.lemma_view();
            assert(self@.directories =~= old(self)@.directories.push(dir@));
        }
    }

    /// Adds what `content` lists to this node, which stands at the place
    /// `parent`: the image files behind its files, and behind its children
    /// a node for each directory, filled in the same way with what is
    /// listed below it. Where a directory at any depth has a path without a
    /// final segment, nothing is added.
    pub fn fill(&mut self, content: Vec<DiskEntry>, parent: DirRef) -> (r: Result<
        (),
        CreationError,
    >)
        requires
            old(self)@.directories.len() + content.len() <= usize::MAX,
        ensures
            match r {
                Ok(()) => buildable(listing_view(content@)) && final(self)@ == filled(
                    old(self)@,
                    listing_view(content@),
                    parent@,
                ),
                Err(_) => !buildable(listing_view(content@)) && *final(self) == *old(self),
            },
            r is Ok && images_only(old(self)@) ==> images_only(final(self)@),
    {
        proof {
            if images_only(self@) {
                lemma_filled_images(self@, listing_view(content@), parent@);
            }
        }
        self.fill_from(&content, &parent)
    }

    /// `fill`, on a listing that it only reads.
    fn fill_from(&mut self, content: &Vec<DiskEntry>, here: &DirRef) -> (r: Result<
        (),
        CreationError,
    >)
        requires
            old(self)@.directories.len() + content.len() <= usize::MAX,
        ensures
            match r {
                Ok(()) => buildable(listing_view(content@)) && final(self)@ == filled(
                    old(self)@,
                    listing_view(content@),
                    here@,
                ),
                Err(_) => !buildable(listing_view(content@)) && *final(self) == *old(self),
            },
        decreases content,
    {
        let ghost model = listing_view(content@);
        proof {
            self.lemma_view();
        }
        let first = self.directories.len();
        let mut new_files: Vec<DiskEntry> = Vec::new();
        let mut new_dirs: Vec<GalleryDir> = Vec::new();
        let mut i: usize = 0;
        assert(model.take(0) =~= Seq::empty());
        assert(kept_files(Seq::<EntryModel>::empty()) =~= Seq::empty()) by {
            reveal(Seq::filter);
        }
        while i < content.len()
            invariant
                i <= content.len(),
                *self == *old(self),
                model == listing_view(content@),
                first + content@.len() <= usize::MAX,
                forall|j: int| 0 <= j < i ==> entry_buildable(#[trigger] model[j]),
                listing_view(new_files@) == kept_files(model.take(i as int)),
                dirs_view(new_dirs@) == built_dirs_upto(model, i as nat, here@, first as nat),
                new_dirs@.len() <= i,
            decreases content.len() - i,
        {
            let entry = &content[i];
            assert(model[i as int] == entry@);
            assert(model.take(i + 1) =~= model.take(i as int).push(entry@));
            proof {
                lemma_kept_files_push(model.take(i as int), entry@);
            }
            match &entry.children {
                None => {
                    if has_image_extension(&entry.path) {
                        let copy = entry.duplicate();
                        let ghost before = new_files@;
                        new_files.push(copy);
                        assert(listing_view(new_files@) =~= listing_view(before).push(entry@));
                    }
                },
                Some(below) => {
                    let ghost below_model = listing_view(below@);
                    proof {
                        lemma_children_view(*entry);
                    }
                    let mut child = match GalleryDir::new(
                        entry.path.clone(),
                        Some(here.duplicate()),
                    ) {
                        Ok(node) => node,
                        Err(e) => {
                            return Err(e);
                        },
                    };
                    let spot = here.child(first + new_dirs.len());
                    match child.fill_from(below, &spot) {
                        Ok(()) => {},
                        Err(e) => {
                            proof {
                                let j = choose|j: int|
                                    0 <= j < below_model.len() && !entry_buildable(
                                        #[trigger] below_model[j],
                                    );
                                if entry_buildable(entry@) {
                                    assert(entry_buildable(entry@.children.unwrap()[j]));
                                }
                            }
                            return Err(e);
                        },
                    }
                    let ghost before = new_dirs@;
                    assert(child@.directories =~= built_dirs_upto(
                        below_model,
                        below_model.len(),
                        spot@,
                        0,
                    ));
                    assert(child@.files =~= kept_files(below_model));
                    assert(child@ == built_node(entry@.path, Some(here@), spot@, below_model));
                    new_dirs.push(child);
                    assert(dirs_view(new_dirs@) =~= dirs_view(before).push(child@));
                },
            }
            i += 1;
        }
        assert(model.take(content@.len() as int) =~= model);
        let ghost files_before = self.files@;
        let ghost dirs_before = self.directories@;
        let ghost files_added = new_files@;
        let ghost dirs_added = new_dirs@;
        self.files.append(&mut new_files);
        self.directories.append(&mut new_dirs);
        proof {
            self.lemma_view();
            assert(listing_view(self.files@) =~= listing_view(files_before) + listing_view(
                files_added,
            ));
            assert(dirs_view(self.directories@) =~= dirs_view(dirs_before) + dirs_view(
                dirs_added,
            ));
        }
        Ok(())
    }
}

} // verus!
