use directogallery::disk_entry::{duplicate_listing, DiskEntry};
use directogallery::gallery_dir::{name_from_segment, CreationError, DirRef, GalleryDir};
use std::path::PathBuf;

fn leaf(path: &str) -> DiskEntry {
    let name = PathBuf::from(path).file_name().map(|n| n.to_string_lossy().into_owned());
    DiskEntry { path: PathBuf::from(path), name, children: None }
}

fn folder(path: &str, children: Vec<DiskEntry>) -> DiskEntry {
    let name = PathBuf::from(path).file_name().map(|n| n.to_string_lossy().into_owned());
    DiskEntry { path: PathBuf::from(path), name, children: Some(children) }
}

#[test]
fn a_new_node_is_named_by_the_final_segment() {
    let node = GalleryDir::new(PathBuf::from("/home/user/pictures"), None).unwrap();
    assert_eq!(node.get_name(), "pictures");
    assert_eq!(node.get_path(), PathBuf::from("/home/user/pictures"));
    assert!(node.get_parent().is_none());
    assert!(node.get_files_json().is_empty());
    assert!(node.get_dirs_json().is_empty());
}

#[test]
fn a_trailing_separator_does_not_change_the_name() {
    let node = GalleryDir::new(PathBuf::from("pictures/"), None).unwrap();
    assert_eq!(node.get_name(), "pictures");
}

#[test]
fn a_path_without_final_segment_gives_no_node() {
    assert_eq!(GalleryDir::new(PathBuf::from("/"), None).err(), Some(CreationError));
    assert_eq!(GalleryDir::new(PathBuf::from("/pictures/.."), None).err(), Some(CreationError));
    assert_eq!(GalleryDir::new(PathBuf::from(""), None).err(), Some(CreationError));
}

#[test]
fn a_new_node_keeps_the_parent_it_was_given() {
    let parent = DirRef { steps: vec![2, 0] };
    let node = GalleryDir::new(PathBuf::from("a/b"), Some(parent.duplicate())).unwrap();
    assert_eq!(node.get_parent(), Some(parent));
}

#[test]
fn places_are_made_step_by_step() {
    let root = DirRef::root();
    assert_eq!(root.steps, Vec::<usize>::new());
    let below = root.child(3).child(1);
    assert_eq!(below.steps, vec![3, 1]);
    assert_eq!(below.duplicate(), below);
}

#[test]
fn fill_keeps_image_files_in_order() {
    let mut node = GalleryDir::new(PathBuf::from("/g"), None).unwrap();
    let content = vec![
        leaf("/g/b.png"),
        leaf("/g/notes.txt"),
        leaf("/g/a.JPG"),
        leaf("/g/Makefile"),
        leaf("/g/c.svg"),
    ];
    assert_eq!(node.fill(content, DirRef::root()), Ok(()));
    assert_eq!(
        node.get_files_json(),
        vec![leaf("/g/b.png"), leaf("/g/a.JPG"), leaf("/g/c.svg")]
    );
    assert!(node.get_dirs_json().is_empty());
}

#[test]
fn fill_makes_a_child_for_each_directory() {
    let mut node = GalleryDir::new(PathBuf::from("/g"), None).unwrap();
    let content = vec![
        folder("/g/one", vec![leaf("/g/one/x.gif"), leaf("/g/one/x.doc")]),
        leaf("/g/top.webp"),
        folder("/g/two", vec![folder("/g/two/deep", vec![leaf("/g/two/deep/y.jpe")])]),
        folder("/g/empty", vec![]),
    ];
    assert_eq!(node.fill(content, DirRef::root()), Ok(()));
    assert_eq!(node.get_dirs_json(), vec!["one", "two", "empty"]);
    assert_eq!(node.get_files_json(), vec![leaf("/g/top.webp")]);

    let one = node.get_dir(0).unwrap();
    assert_eq!(one.get_name(), "one");
    assert_eq!(one.get_path(), PathBuf::from("/g/one"));
    assert_eq!(one.get_files_json(), vec![leaf("/g/one/x.gif")]);
    assert_eq!(one.get_parent(), Some(DirRef::root()));

    let two = node.get_dir(1).unwrap();
    assert!(two.get_files_json().is_empty());
    assert_eq!(two.get_dirs_json(), vec!["deep"]);
    let deep = two.get_dir(0).unwrap();
    assert_eq!(deep.get_files_json(), vec![leaf("/g/two/deep/y.jpe")]);
    assert_eq!(deep.get_parent(), Some(DirRef { steps: vec![1] }));

    let empty = node.get_dir(2).unwrap();
    assert!(empty.get_files_json().is_empty());
    assert!(empty.get_dirs_json().is_empty());
    assert!(node.get_dir(3).is_none());
}

#[test]
fn fill_adds_behind_what_is_there() {
    let mut node = GalleryDir::new(PathBuf::from("/g"), None).unwrap();
    node.add_file(leaf("/g/first.png"));
    node.add_dir(GalleryDir::new(PathBuf::from("/g/old"), Some(DirRef::root())).unwrap());
    let content = vec![folder("/g/new", vec![folder("/g/new/in", vec![])]), leaf("/g/second.png")];
    assert_eq!(node.fill(content, DirRef::root()), Ok(()));
    assert_eq!(node.get_files_json(), vec![leaf("/g/first.png"), leaf("/g/second.png")]);
    assert_eq!(node.get_dirs_json(), vec!["old", "new"]);
    let inner = node.get_dir(1).unwrap().get_dir(0).unwrap();
    assert_eq!(inner.get_parent(), Some(DirRef { steps: vec![1] }));
}

#[test]
fn fill_that_fails_changes_nothing() {
    let mut node = GalleryDir::new(PathBuf::from("/g"), None).unwrap();
    node.add_file(leaf("/g/first.png"));
    let content = vec![
        leaf("/g/second.png"),
        folder("/g/fine", vec![]),
        folder("/g/outer", vec![leaf("/g/outer/z.png"), folder("/g/outer/..", vec![])]),
    ];
    assert_eq!(node.fill(content, DirRef::root()), Err(CreationError));
    assert_eq!(node.get_files_json(), vec![leaf("/g/first.png")]);
    assert!(node.get_dirs_json().is_empty());
}

#[test]
fn a_file_without_final_segment_is_no_error() {
    let mut node = GalleryDir::new(PathBuf::from("/g"), None).unwrap();
    let odd = DiskEntry { path: PathBuf::from("/g/.."), name: None, children: None };
    assert_eq!(node.fill(vec![odd], DirRef::root()), Ok(()));
    assert!(node.get_files_json().is_empty());
}

#[test]
fn add_file_takes_any_entry() {
    let mut node = GalleryDir::new(PathBuf::from("/g"), None).unwrap();
    node.add_file(leaf("/g/notes.txt"));
    node.add_file(folder("/g/sub", vec![leaf("/g/sub/a.png")]));
    assert_eq!(
        node.get_files_json(),
        vec![leaf("/g/notes.txt"), folder("/g/sub", vec![leaf("/g/sub/a.png")])]
    );
}

#[test]
fn lookup_returns_the_first_child_of_a_name() {
    let mut node = GalleryDir::new(PathBuf::from("/g"), None).unwrap();
    node.add_dir(GalleryDir::new(PathBuf::from("/g/a"), Some(DirRef::root())).unwrap());
    node.add_dir(GalleryDir::new(PathBuf::from("/g/twin"), Some(DirRef::root())).unwrap());
    node.add_dir(GalleryDir::new(PathBuf::from("/elsewhere/twin"), Some(DirRef::root())).unwrap());
    assert_eq!(node.get_dir_by_name("twin".to_string()), Some(1));
    assert_eq!(node.get_dir_by_name("a".to_string()), Some(0));
    assert_eq!(node.get_dir_by_name("Twin".to_string()), None);
    assert_eq!(node.get_dir_by_name("missing".to_string()), None);
    assert_eq!(node.get_dir_by_name("".to_string()), None);
}

#[test]
fn a_listing_is_copied_with_all_below_it() {
    let listing = vec![folder("/g/one", vec![leaf("/g/one/x.gif")]), leaf("/g/y.png")];
    assert_eq!(duplicate_listing(&listing), listing);
    assert_eq!(listing[0].duplicate(), listing[0]);
}

#[test]
fn creation_error_has_its_message() {
    assert_eq!(CreationError.message(), "The GalleryDir could not be created correctly.");
}

#[test]
fn the_name_follows_the_segment() {
    assert_eq!(name_from_segment(None), Err(CreationError));
    assert_eq!(name_from_segment(Some(None)), Ok("unknown".to_string()));
    assert_eq!(name_from_segment(Some(Some("pics".to_string()))), Ok("pics".to_string()));
    assert_eq!(name_from_segment(Some(Some(String::new()))), Ok(String::new()));
    assert_eq!(name_from_segment(Some(Some("unknown".to_string()))), Ok("unknown".to_string()));
}

#[test]
fn a_segment_that_is_no_text_is_called_unknown() {
    // On Unix a path is any bytes; these end in two that are no UTF-8.
    let mut odd = PathBuf::new().into_os_string();
    assert!(odd.is_empty());
    odd = serde_json::from_str("{\"Unix\":[47,103,47,255,254]}").unwrap();
    let path = PathBuf::from(odd);
    assert!(path.to_str().is_none());
    let node = GalleryDir::new(path.clone(), None).unwrap();
    assert_eq!(node.get_name(), "unknown");
    assert_eq!(node.get_path(), path);

    let mut parent = GalleryDir::new(PathBuf::from("/g"), None).unwrap();
    let listing = vec![DiskEntry { path: path.clone(), name: None, children: Some(vec![]) }];
    assert_eq!(parent.fill(listing, DirRef::root()), Ok(()));
    assert_eq!(parent.get_dirs_json(), vec!["unknown"]);
    assert_eq!(parent.get_dir(0).unwrap().get_path(), path);
}
