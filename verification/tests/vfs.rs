use lib::fs::vfs::{directory_nodes, NodeInternals, Vfs};
use lib::fs::{DirEntryContent, NodeType};

/// A tree whose root is the mount point of file system 0, with a directory
/// "dev" (only "..") and a file "a.txt".
fn small_tree() -> Vfs {
    let root = NodeInternals {
        node_type: NodeType::MountPoint(0),
        name: b"/".to_vec(),
        id_in_fs: Some(2),
        parent: None,
        maybe_children: None,
    };
    let mut vfs = Vfs { nodes: vec![root] };
    vfs.set_children(
        0,
        vec![
            (NodeType::Dir, b"dev".to_vec(), Some(11)),
            (NodeType::RegularFile, b"a.txt".to_vec(), Some(12)),
        ],
    );
    vfs.set_children(1, vec![(NodeType::Dir, b"..".to_vec(), Some(2))]);
    vfs
}

#[test]
fn children_are_found_by_name_and_position() {
    let vfs = small_tree();
    assert_eq!(vfs.children(0), vec![1, 2]);
    assert_eq!(vfs.child(0, 1), 2);
    assert_eq!(vfs.child_named(0, b"dev"), Some(1));
    assert_eq!(vfs.child_named(0, b"a.txt"), Some(2));
    assert_eq!(vfs.child_named(0, b"nothing"), None);
    assert_eq!(vfs.nodes[2].parent, Some(0));
    assert_eq!(vfs.nodes[2].id_in_fs, Some(12));
    assert!(vfs.has_parent(2));
    assert!(!vfs.has_parent(0));
}

#[test]
fn only_dot_dot_is_no_children() {
    let vfs = small_tree();
    assert!(vfs.has_children(0));
    assert!(!vfs.has_children(1));
}

#[test]
fn nodes_lie_on_the_file_system_of_their_mount_point() {
    let vfs = small_tree();
    assert!(vfs.is_mount_point(0));
    assert!(!vfs.is_mount_point(2));
    assert_eq!(vfs.mount_point(2), 0);
    assert_eq!(vfs.mount_point(3), 0);
    assert_eq!(vfs.fs(2), 0);
}

#[test]
fn mounting_on_an_empty_directory() {
    let mut vfs = small_tree();
    let c = vfs.mount_on_child(
        0,
        b"dev",
        1,
        Some(1),
        vec![
            (NodeType::BlockDevice, b"blk0".to_vec(), Some(0)),
            (NodeType::CharDevice, b"chr0".to_vec(), Some(1)),
        ],
    );
    assert_eq!(c, 1);
    assert_eq!(vfs.nodes[1].node_type, NodeType::MountPoint(1));
    assert_eq!(vfs.nodes[1].name, b"dev".to_vec());
    assert_eq!(vfs.nodes[1].id_in_fs, Some(1));
    // The mount point stands where the directory was: under the root.
    assert_eq!(vfs.nodes[1].parent, Some(0));
    let kids = vfs.children(1);
    assert_eq!(vfs.nodes[kids[0]].parent, Some(1));
    assert_eq!(kids.len(), 2);
    assert_eq!(vfs.nodes[kids[0]].name, b"blk0".to_vec());
    assert_eq!(vfs.nodes[kids[1]].node_type, NodeType::CharDevice);
    assert_eq!(vfs.mount_point(kids[0]), 1);
    assert_eq!(vfs.fs(kids[1]), 1);
    // The rest of the tree still lies on file system 0.
    assert_eq!(vfs.fs(2), 0);
    assert!(vfs.has_children(1));
}

#[test]
fn directory_entries_become_nodes() {
    let entries = vec![
        (2, b"..".to_vec(), DirEntryContent::Directory),
        (5, b".".to_vec(), DirEntryContent::Directory),
        (12, b"a".to_vec(), DirEntryContent::RegularFile),
        (13, b"sub".to_vec(), DirEntryContent::Directory),
        (14, b"x".to_vec(), DirEntryContent::Unknown),
    ];
    let nodes = directory_nodes(entries.clone());
    assert_eq!(
        nodes,
        vec![
            (NodeType::RegularFile, b"a".to_vec(), Some(12)),
            (NodeType::Dir, b"sub".to_vec(), Some(13)),
        ]
    );
    let mut vfs = small_tree();
    let before = vfs.nodes.len();
    vfs.fill_children(1, entries);
    assert_eq!(vfs.children(1), vec![before, before + 1]);
    assert_eq!(vfs.nodes[before + 1].name, b"sub".to_vec());
    assert_eq!(vfs.nodes[before + 1].parent, Some(1));
    assert_eq!(vfs.child_named(1, b"a"), Some(before));
}

#[test]
fn paths_are_followed_component_by_component() {
    let vfs = small_tree();
    assert_eq!(vfs.path(0, b"/dev"), Some(1));
    assert_eq!(vfs.path(0, b"a.txt"), Some(2));
    assert_eq!(vfs.path(0, b"//dev//"), Some(1));
    assert_eq!(vfs.path(0, b"/dev/.."), Some(3));
    assert_eq!(vfs.path(0, b"/"), Some(0));
    assert_eq!(vfs.path(0, b""), Some(0));
    assert_eq!(vfs.path(0, b"/nope"), None);
    // A regular file has no children to search.
    assert_eq!(vfs.path(0, b"/a.txt/x"), None);
    // ".." itself is not searched.
    assert_eq!(vfs.path(0, b"/dev/../x"), None);
}

#[test]
fn children_are_read_once_and_kept() {
    let mut vfs = small_tree();
    let before = vfs.nodes.len();
    vfs.fill_children(1, vec![(12, b"a".to_vec(), DirEntryContent::RegularFile)]);
    assert!(!vfs.needs_read(1));
    assert!(vfs.needs_read(before));
    let first = vfs.children(1);
    vfs.fill_children(before + 0, vec![]);
    assert!(!vfs.needs_read(before));
    assert_eq!(vfs.children(1), first);
    assert_eq!(vfs.children(1), vfs.children(1));
}
