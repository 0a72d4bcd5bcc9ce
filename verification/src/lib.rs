//! An in-memory snapshot of a directory tree of image files, with a cursor
//! that moves between a directory, its children and its parent.

pub mod disk_entry;
pub mod extensions;
pub mod gallery;
pub mod gallery_dir;
pub mod model;
pub mod paths;
pub mod state;
