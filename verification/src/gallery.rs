//! A gallery: the tree of one directory and a cursor at the node that is
//! being looked at.

use crate::disk_entry::{listing_view, DiskEntry};
use crate::gallery_dir::{texts, CreationError, DirRef, GalleryDir};
use crate::model::{
    after_child, after_parent, buildable, built_node, display_name, is_first_named, keeps,
    lemma_after_child_is_first, lemma_built_node_sound, lemma_child_keeps_sound,
    lemma_first_named, lemma_node_at_images, lemma_node_at_linked, lemma_node_at_prefix,
    lemma_parent_keeps_sound, node_at, shown_at, sound, DirModel, ViewModel,
};
use std::path::PathBuf;
use vstd::prelude::*;

verus! {

/// There is nothing to show: no node is where the cursor points.
#[derive(Debug, Clone, Copy, PartialEq, Eq)]
pub struct JSONError;

impl JSONError {
    /// The text of `message`.
    pub open spec fn text() -> Seq<char> {
        "The Gallery could not be converted to JSON."@
    }

    /// What a user is told of this error.
    pub fn message(&self) -> (r: String)
        ensures
            r@ == Self::text(),
    {
        "The Gallery could not be converted to JSON.".to_owned()
    }
}

/// The cursor could not go where it was sent.
#[derive(Debug, Clone, Copy, PartialEq, Eq)]
pub struct NavError;

impl NavError {
    /// The text of `message`.
    pub open spec fn text() -> Seq<char> {
        "The Gallery could not navigate to the requested directory."@
    }

    /// What a user is told of this error.
    pub fn message(&self) -> (r: String)
        ensures
            r@ == Self::text(),
    {
        "The Gallery could not navigate to the requested directory.".to_owned()
    }
}

/// Why the cursor did not move: no node is where it points, or there is no
/// node where it was sent.
#[derive(Debug, Clone, Copy, PartialEq, Eq)]
pub enum ExploreError {
    NoTree(JSONError),
    Navigation(NavError),
}

impl ExploreError {
    /// The text of `message`.
    pub open spec fn text(self) -> Seq<char> {
        match self {
            ExploreError::NoTree(_) => JSONError::text(),
            ExploreError::Navigation(_) => NavError::text(),
        }
    }

    /// What a user is told of this error.
    pub fn message(&self) -> (r: String)
        ensures
            r@ == self.text(),
    {
        match self {
            ExploreError::NoTree(e) => e.message(),
            ExploreError::Navigation(e) => e.message(),
        }
    }
}

/// What is shown of one directory: its name and path, its files, and the
/// names of its child directories.
#[derive(Debug, PartialEq, Eq)]
pub struct DirView {
    pub name: String,
    pub path: PathBuf,
    pub files: Vec<DiskEntry>,
    pub directories: Vec<String>,
}

impl View for DirView {
    type V = ViewModel;

    open spec fn view(&self) -> ViewModel {
        ViewModel {
            name: self.name@,
            path: self.path,
            files: listing_view(self.files@),
            directories: texts(self.directories@),
        }
    }
}

/// The tree of one directory, and the place of the node that is being
/// looked at.
#[derive(Debug)]
pub struct Gallery {
    root: GalleryDir,
    current_dir: DirRef,
}

impl Gallery {
    /// The tree.
    pub closed spec fn root(&self) -> DirModel {
        self.root@
    }

    /// The place of the cursor.
    pub closed spec fn cursor(&self) -> Seq<usize> {
        self.current_dir@
    }

    /// The root has no parent, the nodes are linked, the files are images
    /// and the cursor is at a node.
    pub open spec fn wf(&self) -> bool {
        sound(self.root(), self.cursor())
    }

    /// The gallery of the directory at `path`, of which `dir_content` is the
    /// recursive listing, with the cursor at the root. There is none where
    /// `path`, or the path of a directory listed at any depth, has no final
    /// segment.
    pub fn new(path: PathBuf, dir_content: Vec<DiskEntry>) -> (r: Result<Gallery, CreationError>)
        ensures
            match r {
                Ok(gallery) => {
                    &&& display_name(path) is Some
                    &&& buildable(listing_view(dir_content@))
                    &&& gallery.root() == built_node(
                        path,
                        None,
                        Seq::empty(),
                        listing_view(dir_content@),
                    )
                    &&& gallery.cursor() == Seq::<usize>::empty()
                    &&& gallery.wf()
                },
                Err(_) => display_name(path) is None || !buildable(listing_view(dir_content@)),
            },
    {
        let mut root = match GalleryDir::new(path, None) {
            Ok(node) => node,
            Err(e) => {
                return Err(e);
            },
        };
        let ghost content = listing_view(dir_content@);
        match root.fill(dir_content, DirRef::root()) {
            Ok(()) => {},
            Err(e) => {
                return Err(e);
            },
        }
        proof {
            let built = built_node(path, None, Seq::empty(), content);
            assert(root@.directories =~= built.directories);
            assert(root@.files =~= built.files);
            lemma_built_node_sound(path, None, Seq::empty(), content);
        }
        Ok(Gallery { root, current_dir: DirRef::root() })
    }

    /// The node at the cursor, where there is one.
    fn resolve(&self) -> (r: Option<&GalleryDir>)
        ensures
            match r {
                Some(node) => node_at(self.root(), self.cursor()) == Some(node@),
                None => node_at(self.root(), self.cursor()) is None,
            },
    {
        let ghost at = self.current_dir@;
        let mut node = &self.root;
        let mut k: usize = 0;
        while k < self.current_dir.steps.len()
            invariant
                k <= self.current_dir.steps.len(),
                at == self.current_dir@,
                node_at(self.root@, at.take(k as int)) == Some(node@),
            decreases self.current_dir.steps.len() - k,
        {
            assert(at.take(k + 1).drop_last() =~= at.take(k as int));
            match node.get_dir(self.current_dir.steps[k]) {
                Some(child) => {
                    node = child;
                },
                None => {
                    proof {
                        if node_at(self.root@, at) is Some {
                            lemma_node_at_prefix(self.root@, at, k + 1);
                        }
                    }
                    return None;
                },
            }
            k += 1;
        }
        assert(at.take(at.len() as int) =~= at);
        Some(node)
    }

    /// What is shown of the node at the cursor: its name, its path, its
    /// files and the names of its children.
    pub fn current_dir_as_json(&self) -> (r: Result<DirView, JSONError>)
        ensures
            match r {
                Ok(view) => {
                    &&& shown_at(self.root(), self.cursor()) == Some(view@)
                    &&& self.wf() ==> forall|i: int|
                        0 <= i < view@.files.len() ==> keeps(#[trigger] view@.files[i])
                },
                Err(_) => shown_at(self.root(), self.cursor()) is None,
            },
            self.wf() ==> r is Ok,
    {
        proof {
            if self.wf() {
                lemma_node_at_images(self.root(), self.cursor());
            }
        }
        match self.resolve() {
            Some(node) => Ok(
                DirView {
                    name: node.get_name(),
                    path: node.get_path(),
                    files: node.get_files_json(),
                    directories: node.get_dirs_json(),
                },
            ),
            None => Err(JSONError),
        }
    }

    /// Moves the cursor down to the first child called `name` of the node
    /// that it is at. Where no node is at the cursor, or that node has no
    /// such child, nothing changes, and the error tells which of the two.
    pub fn explore_child_dir(&mut self, name: String) -> (r: Result<(), ExploreError>)
        ensures
            final(self).root() == old(self).root(),
            match r {
                Ok(()) => {
                    &&& after_child(old(self).root(), old(self).cursor(), name@) == Some(
                        final(self).cursor(),
                    )
                    &&& final(self).cursor().drop_last() == old(self).cursor()
                    &&& is_first_named(
                        node_at(old(self).root(), old(self).cursor()).unwrap(),
                        name@,
                        final(self).cursor().last() as int,
                    )
                },
                Err(e) => {
                    &&& *final(self) == *old(self)
                    &&& after_child(old(self).root(), old(self).cursor(), name@) is None
                    &&& e is NoTree <==> node_at(old(self).root(), old(self).cursor()) is None
                },
            },
            old(self).wf() ==> final(self).wf(),
            old(self).wf() ==> !(r matches Err(ExploreError::NoTree(_))),
    {
        let found = match self.resolve() {
            Some(node) => {
                let found = node.get_dir_by_name(name);
                proof {
                    if let Some(i) = found {
                        lemma_first_named(node@, name@, i);
                    }
                }
                found
            },
            None => {
                return Err(ExploreError::NoTree(JSONError));
            },
        };
        match found {
            Some(i) => {
                proof {
                    lemma_after_child_is_first(self.root(), self.cursor(), name@);
                    if self.wf() {
                        lemma_child_keeps_sound(self.root(), self.cursor(), name@);
                    }
                }
                self.current_dir.steps.push(i);
                Ok(())
            },
            None => Err(ExploreError::Navigation(NavError)),
        }
    }

    /// Moves the cursor up to the parent of the node that it is at. Where
    /// no node is at the cursor, or that node has no parent, as the root,
    /// nothing changes, and the error tells which of the two.
    pub fn explore_parent_dir(&mut self) -> (r: Result<(), ExploreError>)
        ensures
            final(self).root() == old(self).root(),
            match r {
                Ok(()) => after_parent(old(self).root(), old(self).cursor()) == Some(
                    final(self).cursor(),
                ),
                Err(e) => {
                    &&& *final(self) == *old(self)
                    &&& after_parent(old(self).root(), old(self).cursor()) is None
                    &&& e is NoTree <==> node_at(old(self).root(), old(self).cursor()) is None
                },
            },
            old(self).wf() ==> final(self).wf(),
            old(self).wf() ==> !(r matches Err(ExploreError::NoTree(_))),
            old(self).wf() ==> (r is Err <==> old(self).cursor().len() == 0),
    {
        let parent = match self.resolve() {
            Some(node) => node.get_parent(),
            None => {
                return Err(ExploreError::NoTree(JSONError));
            },
        };
        proof {
            if self.wf() {
                lemma_node_at_linked(self.root(), self.cursor());
                if self.cursor().len() == 0 {
                    assert(self.cursor() =~= Seq::empty());
                }
            }
        }
        match parent {
            Some(place) => {
                proof {
                    if self.wf() {
                        lemma_parent_keeps_sound(self.root(), self.cursor());
                    }
                }
                self.current_dir = place;
                Ok(())
            },
            None => Err(ExploreError::Navigation(NavError)),
        }
    }
}

} // verus!
