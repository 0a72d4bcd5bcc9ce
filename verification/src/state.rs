//! The state that the commands of a gallery work on: no gallery yet, or the
//! gallery that was opened last.

use crate::disk_entry::{listing_view, DiskEntry};
use crate::gallery::{DirView, Gallery, JSONError, NavError};
use crate::gallery_dir::CreationError;
use crate::model::{
    after_child, after_parent, buildable, built_node, display_name, node_at, reopened, shown_at,
    DirModel, Loaded,
};
use std::path::PathBuf;
use vstd::prelude::*;

verus! {

/// No gallery, or one.
#[derive(Debug)]
pub enum GalleryStateValue {
    Nil,
    Gallery(Gallery),
}

impl GalleryStateValue {
    /// The tree of the gallery, where there is one.
    pub open spec fn root(&self) -> Option<DirModel> {
        match self {
            GalleryStateValue::Nil => None,
            GalleryStateValue::Gallery(gallery) => Some(gallery.root()),
        }
    }

    /// The place of the cursor, where there is a gallery.
    pub open spec fn cursor(&self) -> Option<Seq<usize>> {
        match self {
            GalleryStateValue::Nil => None,
            GalleryStateValue::Gallery(gallery) => Some(gallery.cursor()),
        }
    }

    /// The tree and the cursor of the gallery, where there is one.
    pub open spec fn model(&self) -> Loaded {
        match self {
            GalleryStateValue::Nil => None,
            GalleryStateValue::Gallery(gallery) => Some((gallery.root(), gallery.cursor())),
        }
    }

    /// The gallery, where there is one, is sound.
    pub open spec fn wf(&self) -> bool {
        match self {
            GalleryStateValue::Nil => true,
            GalleryStateValue::Gallery(gallery) => gallery.wf(),
        }
    }

    /// The state before any directory was opened.
    pub fn new() -> (r: GalleryStateValue)
        ensures
            r is Nil,
            r.wf(),
    {
        GalleryStateValue::Nil
    }
}

/// Opens the directory at `path` as the root of a new gallery, with the
/// cursor at the root. `scan` is what reading the directory recursively
/// gave: its listing, or the reason why it could not be read, which is
/// handed back as it is. The new gallery takes the place of the old one
/// only when all of it could be made; otherwise the state stays as it was.
pub fn cache_root(
    path: PathBuf,
    scan: Result<Vec<DiskEntry>, String>,
    state: &mut GalleryStateValue,
) -> (r: Result<(), String>)
    ensures
        match scan {
            Err(reason) => r == Err::<(), String>(reason) && *final(state) == *old(state),
            Ok(content) => if display_name(path) is Some && buildable(listing_view(content@)) {
                &&& r is Ok
                &&& final(state).root() == Some(
                    built_node(path, None, Seq::empty(), listing_view(content@)),
                )
                &&& final(state).cursor() == Some(Seq::<usize>::empty())
                &&& final(state).wf()
            } else {
                &&& r is Err
                &&& r->Err_0@ == CreationError::text()
                &&& *final(state) == *old(state)
            },
        },
        final(state).model() == reopened(
            old(state).model(),
            path,
            match scan {
                Ok(content) => Some(listing_view(content@)),
                Err(_) => None,
            },
        ),
{
    let content = match scan {
        Ok(content) => content,
        Err(reason) => {
            return Err(reason);
        },
    };
    match Gallery::new(path, content) {
        Ok(gallery) => {
            *state = GalleryStateValue::Gallery(gallery);
            Ok(())
        },
        Err(e) => Err(e.message()),
    }
}

/// What is shown of the directory at the cursor. Before any directory was
/// opened there is nothing to show.
pub fn get_current_dir_data(state: &GalleryStateValue) -> (r: Result<DirView, String>)
    ensures
        match *state {
            GalleryStateValue::Nil => r is Err && r->Err_0@ == JSONError::text(),
            GalleryStateValue::Gallery(gallery) => match shown_at(
                gallery.root(),
                gallery.cursor(),
            ) {
                Some(view) => r is Ok && r->Ok_0@ == view,
                None => r is Err && r->Err_0@ == JSONError::text(),
            },
        },
{
    match state {
        GalleryStateValue::Nil => Err(JSONError.message()),
        GalleryStateValue::Gallery(gallery) => match gallery.current_dir_as_json() {
            Ok(view) => Ok(view),
            Err(e) => Err(e.message()),
        },
    }
}

/// Moves the cursor down to the first child called `name`. Where it fails
/// the state stays as it was: with nothing to show, as before any directory
/// was opened, and where the directory at the cursor has no child of that
/// name.
pub fn navigate_to_child_dir(name: String, state: &mut GalleryStateValue) -> (r: Result<
    (),
    String,
>)
    ensures
        final(state).root() == old(state).root(),
        old(state).wf() ==> final(state).wf(),
        match *old(state) {
            GalleryStateValue::Nil => {
                &&& r is Err
                &&& r->Err_0@ == JSONError::text()
                &&& *final(state) == *old(state)
            },
            GalleryStateValue::Gallery(gallery) => match after_child(
                gallery.root(),
                gallery.cursor(),
                name@,
            ) {
                Some(place) => r is Ok && final(state).cursor() == Some(place),
                None => {
                    &&& r is Err
                    &&& r->Err_0@ == if node_at(gallery.root(), gallery.cursor()) is Some {
                        NavError::text()
                    } else {
                        JSONError::text()
                    }
                    &&& *final(state) == *old(state)
                },
            },
        },
{
    match state {
        GalleryStateValue::Nil => Err(JSONError.message()),
        GalleryStateValue::Gallery(gallery) => match gallery.explore_child_dir(name) {
            Ok(()) => Ok(()),
            Err(e) => Err(e.message()),
        },
    }
}

/// Moves the cursor up to the parent of the directory that it is at. Where
/// it fails the state stays as it was: with nothing to show, as before any
/// directory was opened, and where the cursor is at a directory without a
/// parent, as the root.
pub fn navigate_to_parent_dir(state: &mut GalleryStateValue) -> (r: Result<(), String>)
    ensures
        final(state).root() == old(state).root(),
        old(state).wf() ==> final(state).wf(),
        match *old(state) {
            GalleryStateValue::Nil => {
                &&& r is Err
                &&& r->Err_0@ == JSONError::text()
                &&& *final(state) == *old(state)
            },
            GalleryStateValue::Gallery(gallery) => match after_parent(
                gallery.root(),
                gallery.cursor(),
            ) {
                Some(place) => r is Ok && final(state).cursor() == Some(place),
                None => {
                    &&& r is Err
                    &&& r->Err_0@ == if node_at(gallery.root(), gallery.cursor()) is Some {
                        NavError::text()
                    } else {
                        JSONError::text()
                    }
                    &&& *final(state) == *old(state)
                },
            },
        },
{
    match state {
        GalleryStateValue::Nil => Err(JSONError.message()),
        GalleryStateValue::Gallery(gallery) => match gallery.explore_parent_dir() {
            Ok(()) => Ok(()),
            Err(e) => Err(e.message()),
        },
    }
}

} // verus!
