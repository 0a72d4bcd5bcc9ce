use directogallery::disk_entry::DiskEntry;
use directogallery::state::{
    cache_root, get_current_dir_data, navigate_to_child_dir, navigate_to_parent_dir,
    GalleryStateValue,
};
use std::path::PathBuf;

const NO_TREE: &str = "The Gallery could not be converted to JSON.";
const NO_WAY: &str = "The Gallery could not navigate to the requested directory.";
const NO_NODE: &str = "The GalleryDir could not be created correctly.";

fn picture(path: &str) -> DiskEntry {
    let name = PathBuf::from(path).file_name().map(|n| n.to_string_lossy().into_owned());
    DiskEntry { path: PathBuf::from(path), name, children: None }
}

fn directory(path: &str, children: Vec<DiskEntry>) -> DiskEntry {
    let name = PathBuf::from(path).file_name().map(|n| n.to_string_lossy().into_owned());
    DiskEntry { path: PathBuf::from(path), name, children: Some(children) }
}

fn first_listing() -> Vec<DiskEntry> {
    vec![
        picture("/a/one.png"),
        directory("/a/inner", vec![picture("/a/inner/two.png")]),
    ]
}

#[test]
fn before_opening_every_other_command_fails() {
    let mut state = GalleryStateValue::new();
    assert_eq!(get_current_dir_data(&state), Err(NO_TREE.to_string()));
    assert_eq!(navigate_to_child_dir("inner".to_string(), &mut state), Err(NO_TREE.to_string()));
    assert_eq!(navigate_to_parent_dir(&mut state), Err(NO_TREE.to_string()));
    assert!(matches!(state, GalleryStateValue::Nil));
}

#[test]
fn a_failed_scan_is_handed_back_and_changes_nothing() {
    let mut state = GalleryStateValue::new();
    let reason = "No such file or directory (os error 2)".to_string();
    assert_eq!(cache_root(PathBuf::from("/a"), Err(reason.clone()), &mut state), Err(reason.clone()));
    assert!(matches!(state, GalleryStateValue::Nil));

    assert_eq!(cache_root(PathBuf::from("/a"), Ok(first_listing()), &mut state), Ok(()));
    navigate_to_child_dir("inner".to_string(), &mut state).unwrap();
    let before = get_current_dir_data(&state).unwrap();
    assert_eq!(cache_root(PathBuf::from("/b"), Err(reason.clone()), &mut state), Err(reason));
    assert_eq!(get_current_dir_data(&state).unwrap(), before);
}

#[test]
fn a_listing_that_cannot_be_built_changes_nothing() {
    let mut state = GalleryStateValue::new();
    assert_eq!(cache_root(PathBuf::from("/a"), Ok(first_listing()), &mut state), Ok(()));
    navigate_to_child_dir("inner".to_string(), &mut state).unwrap();
    let before = get_current_dir_data(&state).unwrap();

    let broken = vec![picture("/b/x.png"), directory("/b/..", vec![])];
    assert_eq!(cache_root(PathBuf::from("/b"), Ok(broken), &mut state), Err(NO_NODE.to_string()));
    assert_eq!(get_current_dir_data(&state).unwrap(), before);
    assert_eq!(cache_root(PathBuf::from("/"), Ok(vec![]), &mut state), Err(NO_NODE.to_string()));
    assert_eq!(get_current_dir_data(&state).unwrap(), before);
}

#[test]
fn opening_again_replaces_the_gallery() {
    let mut state = GalleryStateValue::new();
    assert_eq!(cache_root(PathBuf::from("/a"), Ok(first_listing()), &mut state), Ok(()));
    assert_eq!(navigate_to_child_dir("inner".to_string(), &mut state), Ok(()));
    assert_eq!(get_current_dir_data(&state).unwrap().name, "inner");

    let second = vec![directory("/b/other", vec![]), picture("/b/three.gif")];
    assert_eq!(cache_root(PathBuf::from("/b"), Ok(second), &mut state), Ok(()));
    let view = get_current_dir_data(&state).unwrap();
    assert_eq!(view.name, "b");
    assert_eq!(view.path, PathBuf::from("/b"));
    assert_eq!(view.files, vec![picture("/b/three.gif")]);
    assert_eq!(view.directories, vec!["other"]);
    assert_eq!(navigate_to_parent_dir(&mut state), Err(NO_WAY.to_string()));
    assert_eq!(navigate_to_child_dir("inner".to_string(), &mut state), Err(NO_WAY.to_string()));
    assert_eq!(get_current_dir_data(&state).unwrap(), view);
}

#[test]
fn commands_move_the_cursor_of_the_open_gallery() {
    let mut state = GalleryStateValue::new();
    assert_eq!(cache_root(PathBuf::from("/a"), Ok(first_listing()), &mut state), Ok(()));
    let top = get_current_dir_data(&state).unwrap();
    assert_eq!(top.name, "a");
    assert_eq!(top.files, vec![picture("/a/one.png")]);
    assert_eq!(top.directories, vec!["inner"]);
    assert_eq!(navigate_to_child_dir("nowhere".to_string(), &mut state), Err(NO_WAY.to_string()));
    assert_eq!(get_current_dir_data(&state).unwrap(), top);
    assert_eq!(navigate_to_child_dir("inner".to_string(), &mut state), Ok(()));
    assert_eq!(get_current_dir_data(&state).unwrap().files, vec![picture("/a/inner/two.png")]);
    assert_eq!(navigate_to_parent_dir(&mut state), Ok(()));
    assert_eq!(get_current_dir_data(&state).unwrap(), top);
    assert_eq!(navigate_to_parent_dir(&mut state), Err(NO_WAY.to_string()));
    assert_eq!(get_current_dir_data(&state).unwrap(), top);
}
