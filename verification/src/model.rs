//! The tree of a gallery as a mathematical value, and the tree that a
//! listing gives.

use crate::disk_entry::EntryModel;
use crate::extensions::{is_image_extension, is_image_path};
use crate::paths::{encoded_bytes_of, extension_of, file_name_of, text_of};
use std::path::PathBuf;
use vstd::prelude::*;

verus! {

/// What a directory node holds. `parent` is the place of the node's parent:
/// the child numbers that lead to it from the root.
pub struct DirModel {
    pub parent: Option<Seq<usize>>,
    pub directories: Seq<DirModel>,
    pub files: Seq<EntryModel>,
    pub name: Seq<char>,
    pub path: PathBuf,
}

/// The name under which the directory at `path` is shown: its final
/// segment, or `unknown` where that segment is not valid Unicode. A path
/// without a final segment has none.
pub open spec fn display_name(path: PathBuf) -> Option<Seq<char>> {
    match file_name_of(path) {
        Some(segment) => match text_of(segment) {
            Some(text) => Some(text),
            None => Some("unknown"@),
        },
        None => None,
    }
}

/// `display_name`, with the empty name for a path that has none.
pub open spec fn shown_name(path: PathBuf) -> Seq<char> {
    match display_name(path) {
        Some(text) => text,
        None => Seq::empty(),
    }
}

/// An entry that a node keeps among its files: a file with the extension
/// of an image.
pub open spec fn keeps(entry: EntryModel) -> bool {
    entry.children is None && is_image_path(entry.path)
}

/// The entries of `content` that a node keeps among its files, in order.
pub open spec fn kept_files(content: Seq<EntryModel>) -> Seq<EntryModel> {
    content.filter(|entry: EntryModel| keeps(entry))
}

/// A directory entry can become a node when it has a name, and so has every
/// directory listed below it. A file entry always can be dealt with.
pub open spec fn entry_buildable(entry: EntryModel) -> bool
    decreases entry,
{
    match entry.children {
        Some(below) => display_name(entry.path) is Some && forall|i: int|
            0 <= i < below.len() ==> entry_buildable(#[trigger] below[i]),
        None => true,
    }
}

/// A listing of which every entry can be dealt with.
pub open spec fn buildable(content: Seq<EntryModel>) -> bool {
    forall|i: int| 0 <= i < content.len() ==> entry_buildable(#[trigger] content[i])
}

/// The node for the directory at `path`, with the given parent, that stands
/// at the place `here` and holds what `content` lists.
pub open spec fn built_node(
    path: PathBuf,
    parent: Option<Seq<usize>>,
    here: Seq<usize>,
    content: Seq<EntryModel>,
) -> DirModel
    decreases content, content.len() + 1,
{
    DirModel {
        parent,
        directories: built_dirs_upto(content, content.len(), here, 0),
        files: kept_files(content),
        name: shown_name(path),
        path,
    }
}

/// The nodes for the directories among the first `k` entries of `content`,
/// in order. They are the children of the node at `here`, which has `first`
/// children before them.
pub open spec fn built_dirs_upto(
    content: Seq<EntryModel>,
    k: nat,
    here: Seq<usize>,
    first: nat,
) -> Seq<DirModel>
    decreases content, k,
{
    if k == 0 || k > content.len() {
        Seq::empty()
    } else {
        let before = built_dirs_upto(content, (k - 1) as nat, here, first);
        let entry = content[k - 1];
        match entry.children {
            Some(below) => before.push(
                built_node(
                    entry.path,
                    Some(here),
                    here.push((first + before.len()) as usize),
                    below,
                ),
            ),
            None => before,
        }
    }
}

/// The nodes for all the directories of `content`.
pub open spec fn built_dirs(content: Seq<EntryModel>, here: Seq<usize>, first: nat) -> Seq<
    DirModel,
> {
    built_dirs_upto(content, content.len(), here, first)
}

/// `node` after `content` was added to it, where `node` stands at `here`.
pub open spec fn filled(node: DirModel, content: Seq<EntryModel>, here: Seq<usize>) -> DirModel {
    DirModel {
        parent: node.parent,
        directories: node.directories + built_dirs(content, here, node.directories.len()),
        files: node.files + kept_files(content),
        name: node.name,
        path: node.path,
    }
}

/// The names of `dirs`, in order.
pub open spec fn names_of(dirs: Seq<DirModel>) -> Seq<Seq<char>> {
    Seq::new(dirs.len(), |i: int| dirs[i].name)
}

/// `i` is the number of the first child of `node` that is called `name`.
pub open spec fn is_first_named(node: DirModel, name: Seq<char>, i: int) -> bool {
    &&& 0 <= i < node.directories.len()
    &&& node.directories[i].name == name
    &&& forall|j: int| 0 <= j < i ==> (#[trigger] node.directories[j]).name != name
}

/// No child of `node` is called `name`.
pub open spec fn none_named(node: DirModel, name: Seq<char>) -> bool {
    forall|j: int| 0 <= j < node.directories.len() ==> (#[trigger] node.directories[j]).name != name
}

/// The number of the first child of `node` that is called `name`; `None`
/// where no child has the name.
pub open spec fn first_named(node: DirModel, name: Seq<char>) -> Option<usize> {
    if exists|i: usize| is_first_named(node, name, i as int) {
        Some(choose|i: usize| is_first_named(node, name, i as int))
    } else {
        None
    }
}

/// Every file in `node` and below it is a file with the extension of an
/// image.
pub open spec fn images_only(node: DirModel) -> bool
    decreases node,
{
    &&& forall|i: int| 0 <= i < node.files.len() ==> keeps(#[trigger] node.files[i])
    &&& forall|j: int|
        0 <= j < node.directories.len() ==> images_only(#[trigger] node.directories[j])
}

/// Below `node`, which stands at `here`, every node names as its parent the
/// place of the node that holds it.
pub open spec fn linked(node: DirModel, here: Seq<usize>) -> bool
    decreases node,
{
    forall|j: int|
        0 <= j < node.directories.len() ==> {
            &&& (#[trigger] node.directories[j]).parent == Some(here)
            &&& linked(node.directories[j], here.push(j as usize))
        }
}

/// The node at the place `at` in the tree of `root`, if there is one.
pub open spec fn node_at(root: DirModel, at: Seq<usize>) -> Option<DirModel>
    decreases at.len(),
{
    if at.len() == 0 {
        Some(root)
    } else {
        match node_at(root, at.drop_last()) {
            Some(above) => if at.last() < above.directories.len() {
                Some(above.directories[at.last() as int])
            } else {
                None
            },
            None => None,
        }
    }
}

/// A file is among the kept ones of a listing with one more entry when it
/// is that entry and kept, or was among them before.
pub proof fn lemma_kept_files_push(content: Seq<EntryModel>, entry: EntryModel)
    ensures
        kept_files(content.push(entry)) == if keeps(entry) {
            kept_files(content).push(entry)
        } else {
            kept_files(content)
        },
{
    reveal(Seq::filter);
    assert(content.push(entry).drop_last() =~= content);
}

/// Every kept file is a file with the extension of an image.
pub proof fn lemma_kept_files_are_images(content: Seq<EntryModel>)
    ensures
        forall|i: int| 0 <= i < kept_files(content).len() ==> keeps(#[trigger] kept_files(content)[i]),
{
    let pred = |entry: EntryModel| keeps(entry);
    assert forall|i: int| 0 <= i < kept_files(content).len() implies keeps(
        #[trigger] kept_files(content)[i],
    ) by {
        content.lemma_filter_pred(pred, i);
    }
}

/// The nodes that a listing gives hold images only, name the node at `here`
/// as their parent, and are linked below.
pub proof fn lemma_built_dirs_sound(content: Seq<EntryModel>, k: nat, here: Seq<usize>, first: nat)
    requires
        k <= content.len(),
    ensures
        built_dirs_upto(content, k, here, first).len() <= k,
        forall|j: int|
            0 <= j < built_dirs_upto(content, k, here, first).len() ==> {
                let node = #[trigger] built_dirs_upto(content, k, here, first)[j];
                &&& node.parent == Some(here)
                &&& images_only(node)
                &&& linked(node, here.push((first + j) as usize))
            },
    decreases content, k,
{
    if k > 0 {
        lemma_built_dirs_sound(content, (k - 1) as nat, here, first);
        let before = built_dirs_upto(content, (k - 1) as nat, here, first);
        let entry = content[k - 1];
        if let Some(below) = entry.children {
            let spot = here.push((first + before.len()) as usize);
            lemma_built_node_sound(entry.path, Some(here), spot, below);
        }
    }
}

/// The node that a listing gives holds images only and is linked below.
pub proof fn lemma_built_node_sound(
    path: PathBuf,
    parent: Option<Seq<usize>>,
    here: Seq<usize>,
    content: Seq<EntryModel>,
)
    ensures
        images_only(built_node(path, parent, here, content)),
        linked(built_node(path, parent, here, content), here),
    decreases content, content.len() + 1,
{
    lemma_built_dirs_sound(content, content.len(), here, 0);
    lemma_kept_files_are_images(content);
}

/// Going down from a node that is there, to a child that it has, leads to
/// that child.
pub proof fn lemma_node_at_child(root: DirModel, at: Seq<usize>, i: usize)
    requires
        node_at(root, at) is Some,
        i < node_at(root, at).unwrap().directories.len(),
    ensures
        node_at(root, at.push(i)) == Some(node_at(root, at).unwrap().directories[i as int]),
{
    assert(at.push(i).drop_last() =~= at);
}

/// In a linked tree, the node at a place is linked below that place; below
/// the root it names the place above it as its parent, and a node is there.
pub proof fn lemma_node_at_linked(root: DirModel, at: Seq<usize>)
    requires
        linked(root, Seq::empty()),
        node_at(root, at) is Some,
    ensures
        linked(node_at(root, at).unwrap(), at),
        at.len() > 0 ==> node_at(root, at).unwrap().parent == Some(at.drop_last()),
        at.len() > 0 ==> node_at(root, at.drop_last()) is Some,
    decreases at.len(),
{
    if at.len() > 0 {
        lemma_node_at_linked(root, at.drop_last());
        let above = node_at(root, at.drop_last()).unwrap();
        let j = at.last() as int;
        assert(at.drop_last().push(j as usize) =~= at);
        assert(linked(above.directories[j], at.drop_last().push(j as usize)));
    } else {
        assert(at =~= Seq::empty());
    }
}

/// Where a tree holds images only, so does every node of it: each of its
/// files is a file with the extension of an image.
pub proof fn lemma_node_at_images(root: DirModel, at: Seq<usize>)
    requires
        images_only(root),
        node_at(root, at) is Some,
    ensures
        images_only(node_at(root, at).unwrap()),
        forall|i: int|
            0 <= i < node_at(root, at).unwrap().files.len() ==> keeps(
                #[trigger] node_at(root, at).unwrap().files[i],
            ),
    decreases at.len(),
{
    if at.len() > 0 {
        lemma_node_at_images(root, at.drop_last());
        let above = node_at(root, at.drop_last()).unwrap();
        assert(images_only(above.directories[at.last() as int]));
    }
}

/// Where a node is at a place, a node is at every place on the way to it.
pub proof fn lemma_node_at_prefix(root: DirModel, at: Seq<usize>, k: int)
    requires
        0 <= k <= at.len(),
        node_at(root, at) is Some,
    ensures
        node_at(root, at.take(k)) is Some,
    decreases at.len(),
{
    if k == at.len() {
        assert(at.take(k) =~= at);
    } else {
        assert(at.drop_last().take(k) =~= at.take(k));
        lemma_node_at_prefix(root, at.drop_last(), k);
    }
}

/// The first child with a name is the only number that `is_first_named`
/// holds of.
pub proof fn lemma_first_named(node: DirModel, name: Seq<char>, i: usize)
    requires
        is_first_named(node, name, i as int),
    ensures
        first_named(node, name) == Some(i),
{
    let other = choose|j: usize| is_first_named(node, name, j as int);
    if other < i {
        assert(node.directories[other as int].name != name);
    }
    if i < other {
        assert(node.directories[i as int].name != name);
    }
}

/// A step down, where there is one, leads to the first child of the name.
pub proof fn lemma_after_child_is_first(root: DirModel, at: Seq<usize>, name: Seq<char>)
    requires
        after_child(root, at, name) is Some,
    ensures
        node_at(root, at) is Some,
        after_child(root, at, name).unwrap().drop_last() == at,
        is_first_named(
            node_at(root, at).unwrap(),
            name,
            after_child(root, at, name).unwrap().last() as int,
        ),
        node_at(root, after_child(root, at, name).unwrap()) == Some(
            node_at(root, at).unwrap().directories[after_child(root, at, name).unwrap().last() as int],
        ),
{
    let node = node_at(root, at).unwrap();
    let i = first_named(node, name).unwrap();
    assert(at.push(i).drop_last() =~= at);
    lemma_node_at_child(root, at, i);
}

/// What is shown of one directory: its name and path, its files, and the
/// names of its children.
pub struct ViewModel {
    pub name: Seq<char>,
    pub path: PathBuf,
    pub files: Seq<EntryModel>,
    pub directories: Seq<Seq<char>>,
}

/// What is shown of `node`. Of its children only the names.
pub open spec fn shown(node: DirModel) -> ViewModel {
    ViewModel {
        name: node.name,
        path: node.path,
        files: node.files,
        directories: names_of(node.directories),
    }
}

/// What is shown with the cursor at `at`; `None` where no node is there.
pub open spec fn shown_at(root: DirModel, at: Seq<usize>) -> Option<ViewModel> {
    match node_at(root, at) {
        Some(node) => Some(shown(node)),
        None => None,
    }
}

/// Where the cursor goes from `at` on the way down to the child called
/// `name`: to the first child of that name. `None` where no node is at `at`
/// or none of its children has the name.
pub open spec fn after_child(root: DirModel, at: Seq<usize>, name: Seq<char>) -> Option<
    Seq<usize>,
> {
    match node_at(root, at) {
        Some(node) => match first_named(node, name) {
            Some(i) => Some(at.push(i)),
            None => None,
        },
        None => None,
    }
}

/// Where the cursor goes from `at` on the way up: to the parent that the
/// node names. `None` where no node is at `at` or the node has no parent.
pub open spec fn after_parent(root: DirModel, at: Seq<usize>) -> Option<Seq<usize>> {
    match node_at(root, at) {
        Some(node) => node.parent,
        None => None,
    }
}

/// A tree with a cursor as a gallery keeps them: the root has no parent,
/// the nodes are linked, the files are images, and the cursor is at a node.
pub open spec fn sound(root: DirModel, at: Seq<usize>) -> bool {
    &&& root.parent is None
    &&& linked(root, Seq::empty())
    &&& images_only(root)
    &&& node_at(root, at) is Some
}

/// A step down keeps a sound gallery sound.
pub proof fn lemma_child_keeps_sound(root: DirModel, at: Seq<usize>, name: Seq<char>)
    requires
        sound(root, at),
        after_child(root, at, name) is Some,
    ensures
        sound(root, after_child(root, at, name).unwrap()),
{
    lemma_after_child_is_first(root, at, name);
}

/// A step up keeps a sound gallery sound.
pub proof fn lemma_parent_keeps_sound(root: DirModel, at: Seq<usize>)
    requires
        sound(root, at),
        after_parent(root, at) is Some,
    ensures
        sound(root, after_parent(root, at).unwrap()),
        at.len() > 0,
        after_parent(root, at).unwrap() == at.drop_last(),
{
    lemma_node_at_linked(root, at);
}

/// Down to a child and straight up again leads back: the cursor is where it
/// was, and so the same name, path, files and child names are shown.
pub proof fn lemma_child_then_parent(root: DirModel, at: Seq<usize>, name: Seq<char>)
    requires
        sound(root, at),
        after_child(root, at, name) is Some,
    ensures
        after_parent(root, after_child(root, at, name).unwrap()) == Some(at),
        shown_at(root, after_parent(root, after_child(root, at, name).unwrap()).unwrap())
            == shown_at(root, at),
{
    lemma_child_keeps_sound(root, at, name);
    let below = after_child(root, at, name).unwrap();
    lemma_node_at_linked(root, below);
    assert(below.drop_last() =~= at);
}

/// At the root there is no way up.
pub proof fn lemma_no_parent_at_root(root: DirModel)
    requires
        root.parent is None,
    ensures
        after_parent(root, Seq::empty()) is None,
{
}

/// There is no way down to a name that no child of the current node has.
pub proof fn lemma_no_child_without_name(root: DirModel, at: Seq<usize>, name: Seq<char>)
    requires
        node_at(root, at) is Some,
        none_named(node_at(root, at).unwrap(), name),
    ensures
        after_child(root, at, name) is None,
{
}

/// Every file shown, wherever the cursor stands in a sound gallery, has an
/// extension, and one of the allowed ones whatever its case.
pub proof fn lemma_shown_files_are_images(root: DirModel, at: Seq<usize>)
    requires
        sound(root, at),
    ensures
        forall|i: int|
            0 <= i < shown_at(root, at).unwrap().files.len() ==> {
                let file = #[trigger] shown_at(root, at).unwrap().files[i];
                &&& file.children is None
                &&& extension_of(file.path) is Some
                &&& is_image_extension(encoded_bytes_of(extension_of(file.path).unwrap()))
            },
{
    lemma_node_at_images(root, at);
}

/// The gallery that a listing of the directory at `path` gives is sound,
/// and with the cursor at the root it shows that path, the final segment of
/// it as the name, the image files of the listing and the names of its
/// directories.
pub proof fn lemma_opened_shows_root(path: PathBuf, content: Seq<EntryModel>)
    requires
        display_name(path) is Some,
    ensures
        sound(built_node(path, None, Seq::empty(), content), Seq::empty()),
        shown_at(built_node(path, None, Seq::empty(), content), Seq::empty()) == Some(
            ViewModel {
                name: display_name(path).unwrap(),
                path,
                files: kept_files(content),
                directories: names_of(built_dirs(content, Seq::empty(), 0)),
            },
        ),
        text_of(file_name_of(path).unwrap()) matches Some(segment) ==> shown_at(
            built_node(path, None, Seq::empty(), content),
            Seq::empty(),
        ).unwrap().name == segment,
{
    lemma_built_node_sound(path, None, Seq::empty(), content);
}

/// Filling keeps images only: where every file of `node` is a file with
/// the extension of an image, so is every file of the node after
/// `content` was added, and every file at any depth below each child that
/// was added. Where that held below the children that were there, it holds
/// of the whole node.
pub proof fn lemma_filled_images(node: DirModel, content: Seq<EntryModel>, here: Seq<usize>)
    requires
        forall|i: int| 0 <= i < node.files.len() ==> keeps(#[trigger] node.files[i]),
    ensures
        forall|i: int|
            0 <= i < filled(node, content, here).files.len() ==> keeps(
                #[trigger] filled(node, content, here).files[i],
            ),
        forall|j: int|
            node.directories.len() <= j < filled(node, content, here).directories.len()
                ==> images_only(#[trigger] filled(node, content, here).directories[j]),
        images_only(node) ==> images_only(filled(node, content, here)),
{
    lemma_kept_files_are_images(content);
    lemma_built_dirs_sound(content, content.len(), here, node.directories.len());
    let after = filled(node, content, here);
    let added = built_dirs(content, here, node.directories.len());
    assert forall|j: int| node.directories.len() <= j < after.directories.len() implies images_only(
        #[trigger] after.directories[j],
    ) by {
        assert(after.directories[j] == added[j - node.directories.len()]);
    }
    if images_only(node) {
        assert forall|j: int| 0 <= j < after.directories.len() implies images_only(
            #[trigger] after.directories[j],
        ) by {
            if j < node.directories.len() {
                assert(after.directories[j] == node.directories[j]);
            }
        }
    }
}

/// The tree and the cursor of a gallery, or `None` where there is no
/// gallery.
pub type Loaded = Option<(DirModel, Seq<usize>)>;

/// What opening the directory at `path` makes of a state: the gallery of
/// that path and of the listing, with the cursor at the root, where the
/// directory could be read and all of it can become nodes; else the state
/// as it was. `scan` is the listing, `None` where the directory could not
/// be read.
pub open spec fn reopened(before: Loaded, path: PathBuf, scan: Option<Seq<EntryModel>>) -> Loaded {
    match scan {
        Some(content) => if display_name(path) is Some && buildable(content) {
            Some((built_node(path, None, Seq::empty(), content), Seq::empty()))
        } else {
            before
        },
        None => before,
    }
}

/// Opening a directory whose path has a final segment, with a listing in
/// which every directory has one, replaces whatever was there: the new
/// state is made of the new path and listing alone, whichever gallery was
/// open before and wherever its cursor stood. The cursor is at the new
/// root, which has no parent and shows the new path.
pub proof fn lemma_reopening_replaces(
    first: Loaded,
    second: Loaded,
    path: PathBuf,
    content: Seq<EntryModel>,
)
    requires
        display_name(path) is Some,
        buildable(content),
    ensures
        reopened(first, path, Some(content)) == reopened(second, path, Some(content)),
        reopened(first, path, Some(content)) matches Some((root, at)) && {
            &&& root == built_node(path, None, Seq::empty(), content)
            &&& at == Seq::<usize>::empty()
            &&& node_at(root, at) == Some(root)
            &&& root.parent is None
            &&& root.path == path
            &&& sound(root, at)
        },
{
    lemma_opened_shows_root(path, content);
}

} // verus!
