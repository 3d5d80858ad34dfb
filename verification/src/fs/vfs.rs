use vstd::prelude::*;

use super::{DirEntryContent, NodeType};

verus! {

/// A node of the file system tree: what it is, its name, which file it is
/// on its file system, its parent and, once read, its children.  Nodes
/// refer to each other by their index in the [`Vfs`].
pub struct NodeInternals {
    pub node_type: NodeType,
    pub name: Vec<u8>,
    pub id_in_fs: Option<usize>,
    pub parent: Option<usize>,
    pub maybe_children: Option<Vec<usize>>,
}

/// The name "..".
pub open spec fn dot_dot() -> Seq<u8> {
    seq![0x2eu8, 0x2eu8]
}

/// A node's parent, if it has one, is among the first `n` nodes.
pub open spec fn parent_ok(node: NodeInternals, n: nat) -> bool {
    match node.parent {
        Some(p) => p < n,
        None => true,
    }
}

/// A directory entry as a file system lists it: which file, its name,
/// and what it is.
pub type DirListing = (usize, Vec<u8>, DirEntryContent);

/// A node to add to the tree: what it is, its name, and which file it is.
pub type NewNode = (NodeType, Vec<u8>, Option<usize>);

/// Whether a directory entry becomes a node of the tree: regular files and
/// directories other than "." and "..".
pub open spec fn keeps_entry(e: DirListing) -> bool {
    e.2 is RegularFile || (e.2 is Directory && e.1@ != seq![0x2eu8] && e.1@ != dot_dot())
}

/// The node that a kept directory entry becomes.
pub open spec fn entry_node(e: DirListing) -> NewNode {
    (if e.2 is RegularFile { NodeType::RegularFile } else { NodeType::Dir }, e.1, Some(e.0))
}

/// The nodes that the entries of a directory become, in order.
pub open spec fn tree_entries(s: Seq<DirListing>) -> Seq<NewNode>
    decreases s.len(),
{
    if s.len() == 0 {
        Seq::empty()
    } else {
        let rest = tree_entries(s.drop_last());
        if keeps_entry(s.last()) {
            rest.push(entry_node(s.last()))
        } else {
            rest
        }
    }
}

/// The file system tree, as a table of nodes.
pub struct Vfs {
    pub nodes: Vec<NodeInternals>,
}

/// The first mount point met going up from node `i`, in at most `fuel`
/// steps.
pub open spec fn mount_point_of(nodes: Seq<NodeInternals>, i: int, fuel: nat) -> Option<int>
    decreases fuel,
{
    if fuel == 0 || i < 0 || i >= nodes.len() {
        None
    } else if nodes[i].node_type is MountPoint {
        Some(i)
    } else {
        match nodes[i].parent {
            Some(p) => mount_point_of(nodes, p as int, (fuel - 1) as nat),
            None => None,
        }
    }
}

/// The children of node `i`, by index.
pub open spec fn children_of(nodes: Seq<NodeInternals>, i: int) -> Seq<usize> {
    match nodes[i].maybe_children {
        Some(c) => c@,
        None => Seq::empty(),
    }
}

/// Every node of `before` other than node `i` is the same in `after`.
pub open spec fn others_kept(before: Seq<NodeInternals>, after: Seq<NodeInternals>, i: int) -> bool {
    &&& before.len() <= after.len()
    &&& forall|j: int| 0 <= j < before.len() && j != i ==> #[trigger] after[j] == before[j]
}

/// Children are read from the file system once: after node `i`'s children
/// have been read in, filling in the children of any other node leaves
/// them as they are, so asking for them again gives the same nodes and
/// needs no read.
pub proof fn lemma_children_read_once(before: Seq<NodeInternals>, after: Seq<NodeInternals>, i: int, j: int)
    requires
        0 <= i < before.len(),
        before[i].maybe_children is Some,
        i != j,
        others_kept(before, after, j),
    ensures
        after[i].maybe_children is Some,
        children_of(after, i) == children_of(before, i),
{
}

/// Whether node `i` has children other than "..".
pub open spec fn has_children_of(nodes: Seq<NodeInternals>, i: int) -> bool {
    let kids = children_of(nodes, i);
    kids.len() > 1 || (kids.len() == 1 && nodes[kids[0] as int].name@ != dot_dot())
}

/// The position, from `start` on, of the first of `kids` whose node is
/// named `name`.
pub open spec fn first_named_from(nodes: Seq<NodeInternals>, kids: Seq<usize>, name: Seq<u8>, start: int) -> Option<int>
    decreases kids.len() - start,
{
    if start < 0 || start >= kids.len() {
        None
    } else if nodes[kids[start] as int].name@ == name {
        Some(start)
    } else {
        first_named_from(nodes, kids, name, start + 1)
    }
}

/// The position of the first of `kids` whose node is named `name`.
pub open spec fn first_named(nodes: Seq<NodeInternals>, kids: Seq<usize>, name: Seq<u8>) -> Option<int> {
    first_named_from(nodes, kids, name, 0)
}

/// The child that the search by name finds is named so, and no child
/// before it is.
pub proof fn lemma_first_named_is_first(nodes: Seq<NodeInternals>, kids: Seq<usize>, name: Seq<u8>)
    requires
        first_named(nodes, kids, name) is Some,
    ensures
        0 <= first_named(nodes, kids, name)->Some_0 < kids.len(),
        nodes[kids[first_named(nodes, kids, name)->Some_0] as int].name@ == name,
        forall|j: int|
            0 <= j < first_named(nodes, kids, name)->Some_0 ==> #[trigger] nodes[kids[j] as int].name@ != name,
{
    lemma_first_named_in_range(nodes, kids, name, 0);
    lemma_first_named_skips(nodes, kids, name, 0);
}

/// Every child from `start` up to the one found is named otherwise.
proof fn lemma_first_named_skips(nodes: Seq<NodeInternals>, kids: Seq<usize>, name: Seq<u8>, start: int)
    requires
        0 <= start,
        first_named_from(nodes, kids, name, start) is Some,
    ensures
        forall|j: int|
            start <= j < first_named_from(nodes, kids, name, start)->Some_0 ==> #[trigger] nodes[kids[j] as int].name@
                != name,
    decreases kids.len() - start,
{
    if nodes[kids[start] as int].name@ != name {
        lemma_first_named_skips(nodes, kids, name, start + 1);
    }
}

proof fn lemma_first_named_in_range(nodes: Seq<NodeInternals>, kids: Seq<usize>, name: Seq<u8>, start: int)
    requires
        first_named_from(nodes, kids, name, start) is Some,
    ensures
        start <= first_named_from(nodes, kids, name, start)->Some_0 < kids.len(),
        0 <= start,
        nodes[kids[first_named_from(nodes, kids, name, start)->Some_0] as int].name@ == name,
    decreases kids.len() - start,
{
    if !(nodes[kids[start] as int].name@ == name) {
        lemma_first_named_in_range(nodes, kids, name, start + 1);
    }
}

fn bytes_eq(a: &[u8], b: &[u8]) -> (r: bool)
    ensures
        r == (a@ == b@),
{
    if a.len() != b.len() {
        return false;
    }
    let mut i: usize = 0;
    while i < a.len()
        invariant
            i <= a@.len() == b@.len(),
            forall|k: int| 0 <= k < i ==> a@[k] == b@[k],
        decreases a@.len() - i,
    {
        if a[i] != b[i] {
            return false;
        }
        i = i + 1;
    }
    assert(a@ =~= b@);
    true
}

proof fn lemma_tree_entries_len(s: Seq<DirListing>)
    ensures
        tree_entries(s).len() <= s.len(),
    decreases s.len(),
{
    if s.len() > 0 {
        lemma_tree_entries_len(s.drop_last());
    }
}

/// The nodes that the entries of a directory become.
pub fn directory_nodes(entries: Vec<DirListing>) -> (r: Vec<NewNode>)
    ensures
        r@ == tree_entries(entries@),
{
    let ghost e0 = entries@;
    let mut entries = entries;
    let mut out: Vec<NewNode> = Vec::new();
    let n = entries.len();
    let mut k: usize = 0;
    while k < n
        invariant
            n == e0.len(),
            k <= n,
            entries@ == e0.subrange(k as int, n as int),
            out@ == tree_entries(e0.take(k as int)),
        decreases n - k,
    {
        let (id, name, content) = entries.remove(0);
        proof {
            assert(e0.subrange(k as int, n as int)[0] == e0[k as int]);
            assert(entries@ =~= e0.subrange(k + 1, n as int));
            assert(e0.take(k + 1).drop_last() =~= e0.take(k as int));
            assert(e0.take(k + 1).last() == e0[k as int]);
        }
        let dot: [u8; 1] = [0x2e];
        let dd: [u8; 2] = [0x2e, 0x2e];
        proof {
            assert(dot@ =~= seq![0x2eu8]);
            assert(dd@ =~= dot_dot());
        }
        match content {
            DirEntryContent::RegularFile => {
                out.push((NodeType::RegularFile, name, Some(id)));
            },
            DirEntryContent::Directory => {
                if !bytes_eq(name.as_slice(), dot.as_slice()) && !bytes_eq(name.as_slice(), dd.as_slice()) {
                    out.push((NodeType::Dir, name, Some(id)));
                }
            },
            DirEntryContent::Unknown => {},
        }
        k = k + 1;
    }
    assert(e0.take(n as int) =~= e0);
    out
}

/// Where the path component that starts at `start` ends: at the next '/'
/// or at the end of the path.
pub open spec fn component_end(p: Seq<u8>, start: int) -> int
    decreases p.len() - start,
{
    if start < 0 || start >= p.len() {
        p.len() as int
    } else if p[start] == 0x2Fu8 {
        start
    } else {
        component_end(p, start + 1)
    }
}

/// Whether node `i` is a directory or a mount point whose children have
/// been read, so that its children can be searched.
pub open spec fn searchable(nodes: Seq<NodeInternals>, i: int) -> bool {
    &&& 0 <= i < nodes.len()
    &&& (nodes[i].node_type is Dir || nodes[i].node_type is MountPoint)
    &&& nodes[i].name@ != dot_dot()
    &&& nodes[i].maybe_children is Some
}

/// The node that the rest of path `p`, from `start` on, leads to from node
/// `cur`: '/' separates components, and each component names a child of the
/// node before it.  `None` when a component is not found or a node on the
/// way cannot be searched.
pub open spec fn walk_path(nodes: Seq<NodeInternals>, cur: int, p: Seq<u8>, start: int) -> Option<int>
    decreases p.len() - start, 1int,
{
    if start < 0 || start >= p.len() {
        Some(cur)
    } else if p[start] == 0x2Fu8 {
        walk_path(nodes, cur, p, start + 1)
    } else {
        walk_component(nodes, cur, p, start)
    }
}

/// One step of [`walk_path`] at a component that starts at `start`.
pub open spec fn walk_component(nodes: Seq<NodeInternals>, cur: int, p: Seq<u8>, start: int) -> Option<int>
    decreases p.len() - start, 0int,
{
    if !(0 <= start < p.len()) || !searchable(nodes, cur) {
        None
    } else {
        let end = component_end(p, start);
        let kids = children_of(nodes, cur);
        match first_named(nodes, kids, p.subrange(start, end)) {
            Some(k) => if start < end <= p.len() {
                walk_path(nodes, kids[k] as int, p, end)
            } else {
                None
            },
            None => None,
        }
    }
}

proof fn lemma_component_end(p: Seq<u8>, start: int)
    requires
        0 <= start <= p.len(),
    ensures
        start <= component_end(p, start) <= p.len(),
        forall|k: int| start <= k < component_end(p, start) ==> p[k] != 0x2Fu8,
        component_end(p, start) < p.len() ==> p[component_end(p, start)] == 0x2Fu8,
    decreases p.len() - start,
{
    if start < p.len() && p[start] != 0x2Fu8 {
        lemma_component_end(p, start + 1);
    }
}

/// The search for a mount point from a mount point finds that node at
/// once.
pub proof fn lemma_mount_point_of_itself(nodes: Seq<NodeInternals>, i: int, fuel: nat)
    requires
        0 <= i < nodes.len(),
        fuel > 0,
        nodes[i].node_type is MountPoint,
    ensures
        mount_point_of(nodes, i, fuel) == Some(i),
{
}

/// What the search for a mount point finds is a mount point of the table.
proof fn lemma_mount_point_found(nodes: Seq<NodeInternals>, i: int, fuel: nat)
    requires
        mount_point_of(nodes, i, fuel) is Some,
    ensures
        0 <= mount_point_of(nodes, i, fuel)->Some_0 < nodes.len(),
        nodes[mount_point_of(nodes, i, fuel)->Some_0].node_type is MountPoint,
    decreases fuel,
{
    if !(nodes[i].node_type is MountPoint) {
        lemma_mount_point_found(nodes, nodes[i].parent->Some_0 as int, (fuel - 1) as nat);
    }
}

impl Vfs {
    /// Every parent and child index names a node.
    pub open spec fn wf(&self) -> bool {
        &&& forall|i: int| 0 <= i < self.nodes@.len() ==> parent_ok(#[trigger] self.nodes@[i], self.nodes@.len())
        &&& forall|i: int, k: int|
            0 <= i < self.nodes@.len() && 0 <= k < children_of(self.nodes@, i).len() ==> #[trigger] children_of(
                self.nodes@,
                i,
            )[k] < self.nodes@.len()
    }

    pub fn is_mount_point(&self, i: usize) -> (r: bool)
        requires
            i < self.nodes@.len(),
        ensures
            r == (self.nodes@[i as int].node_type is MountPoint),
    {
        match self.nodes[i].node_type {
            NodeType::MountPoint(_) => true,
            _ => false,
        }
    }

    pub fn has_parent(&self, i: usize) -> (r: bool)
        requires
            i < self.nodes@.len(),
        ensures
            r == (self.nodes@[i as int].parent is Some),
    {
        self.nodes[i].parent.is_some()
    }

    /// The first mount point among node `i` and its ancestors; there must
    /// be one.
    pub fn mount_point(&self, i: usize) -> (r: usize)
        requires
            self.wf(),
            mount_point_of(self.nodes@, i as int, self.nodes@.len() as nat) is Some,
        ensures
            mount_point_of(self.nodes@, i as int, self.nodes@.len() as nat) == Some(r as int),
    {
        let ghost target = mount_point_of(self.nodes@, i as int, self.nodes@.len() as nat);
        let mut cur = i;
        let mut fuel = self.nodes.len();
        loop
            invariant
                self.wf(),
                target == mount_point_of(self.nodes@, cur as int, fuel as nat),
                target == mount_point_of(self.nodes@, i as int, self.nodes@.len() as nat),
                target is Some,
            decreases fuel,
        {
            if self.is_mount_point(cur) {
                assert(mount_point_of(self.nodes@, cur as int, fuel as nat) == Some(cur as int));
                return cur;
            }
            let p = self.nodes[cur].parent.unwrap();
            cur = p;
            fuel = fuel - 1;
        }
    }

    /// The mountable file system that node `i` lies on: that of its mount
    /// point.
    pub fn fs(&self, i: usize) -> (r: usize)
        requires
            self.wf(),
            mount_point_of(self.nodes@, i as int, self.nodes@.len() as nat) is Some,
        ensures
            ({
                let mp = mount_point_of(self.nodes@, i as int, self.nodes@.len() as nat)->Some_0;
                self.nodes@[mp].node_type == NodeType::MountPoint(r)
            }),
    {
        let mp = self.mount_point(i);
        proof {
            lemma_mount_point_found(self.nodes@, i as int, self.nodes@.len() as nat);
        }
        match self.nodes[mp].node_type {
            NodeType::MountPoint(m) => m,
            _ => 0,
        }
    }

    /// The children of node `i`, a directory or mount point not named ".."
    /// whose children have been read.
    pub fn children(&self, i: usize) -> (r: Vec<usize>)
        requires
            i < self.nodes@.len(),
            self.nodes@[i as int].node_type is Dir || self.nodes@[i as int].node_type is MountPoint,
            self.nodes@[i as int].name@ != dot_dot(),
            self.nodes@[i as int].maybe_children is Some,
        ensures
            r@ == children_of(self.nodes@, i as int),
    {
        match &self.nodes[i].maybe_children {
            Some(c) => c.clone(),
            None => Vec::new(),
        }
    }

    /// Whether the children of node `i` still have to be read from its file
    /// system: they are read once, and kept from then on.
    pub fn needs_read(&self, i: usize) -> (r: bool)
        requires
            i < self.nodes@.len(),
        ensures
            r == (self.nodes@[i as int].maybe_children is None),
    {
        self.nodes[i].maybe_children.is_none()
    }

    /// Records the children read from the file system for node `i`: each
    /// becomes a node whose parent is `i`.
    pub fn set_children(&mut self, i: usize, read: Vec<(NodeType, Vec<u8>, Option<usize>)>)
        requires
            old(self).wf(),
            i < old(self).nodes@.len(),
            old(self).nodes@.len() + read@.len() <= usize::MAX,
        ensures
            final(self).wf(),
            final(self).nodes@.len() == old(self).nodes@.len() + read@.len(),
            children_of(final(self).nodes@, i as int) == Seq::new(read@.len(), |k: int| (old(self).nodes@.len() + k) as usize),
            forall|k: int| 0 <= k < read@.len() ==> {
                let n = #[trigger] final(self).nodes@[old(self).nodes@.len() + k];
                &&& n.node_type == read@[k].0
                &&& n.name@ == read@[k].1@
                &&& n.id_in_fs == read@[k].2
                &&& n.parent == Some(i)
                &&& n.maybe_children is None
            },
            forall|j: int| 0 <= j < old(self).nodes@.len() && j != i ==> #[trigger] final(self).nodes@[j] == old(self).nodes@[j],
            final(self).nodes@[i as int].maybe_children is Some,
            final(self).nodes@[i as int].node_type == old(self).nodes@[i as int].node_type,
            final(self).nodes@[i as int].name@ == old(self).nodes@[i as int].name@,
            final(self).nodes@[i as int].id_in_fs == old(self).nodes@[i as int].id_in_fs,
            final(self).nodes@[i as int].parent == old(self).nodes@[i as int].parent,
    {
        let base = self.nodes.len();
        let mut kids: Vec<usize> = Vec::new();
        let mut read = read;
        let n = read.len();
        let ghost r0 = read@;
        let ghost old_nodes = self.nodes@;
        let mut k: usize = 0;
        while k < n
            invariant
                n == r0.len(),
                base == old_nodes.len(),
                base + n <= usize::MAX,
                k <= n,
                read@ == r0.subrange(k as int, n as int),
                self.nodes@.len() == base + k,
                i < base,
                forall|j: int| 0 <= j < base ==> #[trigger] self.nodes@[j] == old_nodes[j],
                kids@ == Seq::new(k as nat, |m: int| (base + m) as usize),
                forall|m: int| 0 <= m < k ==> {
                    let nd = #[trigger] self.nodes@[base + m];
                    &&& nd.node_type == r0[m].0
                    &&& nd.name@ == r0[m].1@
                    &&& nd.id_in_fs == r0[m].2
                    &&& nd.parent == Some(i)
                    &&& nd.maybe_children is None
                },
            decreases n - k,
        {
            let (t, name, id) = read.remove(0);
            assert(r0.subrange(k as int, n as int)[0] == r0[k as int]);
            assert(read@ =~= r0.subrange(k + 1, n as int));
            self.nodes.push(NodeInternals { node_type: t, name, id_in_fs: id, parent: Some(i), maybe_children: None });
            kids.push(base + k);
            assert(kids@ =~= Seq::new((k + 1) as nat, |m: int| (base + m) as usize));
            k = k + 1;
        }
        let node_type = self.nodes[i].node_type;
        let name = self.nodes[i].name.clone();
        let id_in_fs = self.nodes[i].id_in_fs;
        let parent = self.nodes[i].parent;
        let ghost mid = self.nodes@;
        let ghost kids_seq = kids@;
        self.nodes.set(i, NodeInternals { node_type, name, id_in_fs, parent, maybe_children: Some(kids) });
        proof {
            let nodes = self.nodes@;
            assert(nodes.len() == base + n);
            assert forall|j: int| 0 <= j < nodes.len() implies parent_ok(#[trigger] nodes[j], nodes.len()) by {
                if j < base {
                    assert(parent_ok(old_nodes[j], base as nat));
                    if j != i {
                        assert(nodes[j] == old_nodes[j]);
                    }
                } else {
                    let m = j - base;
                    assert(mid[base + m].parent == Some(i));
                }
            }
            assert forall|j: int, m: int|
                0 <= j < nodes.len() && 0 <= m < children_of(nodes, j).len() implies #[trigger] children_of(
                nodes,
                j,
            )[m] < nodes.len() by {
                if j == i {
                    assert(children_of(nodes, j) == kids_seq);
                } else if j < base {
                    assert(nodes[j] == old_nodes[j]);
                    assert(children_of(old_nodes, j)[m] < base);
                } else {
                    let q = j - base;
                    assert(mid[base + q].maybe_children is None);
                }
            }
        }
    }

    /// Child `nth` of node `i`.
    pub fn child(&self, i: usize, nth: usize) -> (r: usize)
        requires
            i < self.nodes@.len(),
            self.nodes@[i as int].node_type is Dir || self.nodes@[i as int].node_type is MountPoint,
            self.nodes@[i as int].name@ != dot_dot(),
            self.nodes@[i as int].maybe_children is Some,
            nth < children_of(self.nodes@, i as int).len(),
        ensures
            r == children_of(self.nodes@, i as int)[nth as int],
    {
        let kids = self.children(i);
        kids[nth]
    }

    /// The first child of node `i` named `name`.
    pub fn child_named(&self, i: usize, name: &[u8]) -> (r: Option<usize>)
        requires
            self.wf(),
            i < self.nodes@.len(),
            self.nodes@[i as int].node_type is Dir || self.nodes@[i as int].node_type is MountPoint,
            self.nodes@[i as int].name@ != dot_dot(),
            self.nodes@[i as int].maybe_children is Some,
        ensures
            ({
                let kids = children_of(self.nodes@, i as int);
                match first_named(self.nodes@, kids, name@) {
                    Some(k) => r == Some(kids[k]),
                    None => r is None,
                }
            }),
    {
        let kids = self.children(i);
        let ghost ks = kids@;
        let mut k: usize = 0;
        while k < kids.len()
            invariant
                self.wf(),
                i < self.nodes@.len(),
                ks == kids@,
                ks == children_of(self.nodes@, i as int),
                k <= ks.len(),
                first_named(self.nodes@, ks, name@) == first_named_from(self.nodes@, ks, name@, k as int),
            decreases ks.len() - k,
        {
            let c = kids[k];
            assert(c < self.nodes@.len());
            if bytes_eq(self.nodes[c].name.as_slice(), name) {
                return Some(c);
            }
            k = k + 1;
        }
        None
    }

    /// Whether node `i` has children other than "..".
    pub fn has_children(&self, i: usize) -> (r: bool)
        requires
            self.wf(),
            i < self.nodes@.len(),
            self.nodes@[i as int].node_type is Dir || self.nodes@[i as int].node_type is MountPoint,
            self.nodes@[i as int].name@ != dot_dot(),
            self.nodes@[i as int].maybe_children is Some,
        ensures
            r == has_children_of(self.nodes@, i as int),
    {
        let kids = self.children(i);
        if kids.len() == 1 {
            let c = kids[0];
            let dd: [u8; 2] = [0x2e, 0x2e];
            assert(dd@ =~= dot_dot());
            !bytes_eq(self.nodes[c].name.as_slice(), dd.as_slice())
        } else {
            kids.len() > 1
        }
    }

    /// Mounts the file system `m` on the child of node `i` named
    /// `child_name`, an empty directory: the child becomes a mount point
    /// whose file-system id is that of the mounted root directory and whose
    /// children are the entries read from that root directory.  Like the
    /// child directory it replaces, the mount point has node `i` as its
    /// parent.
    pub fn mount_on_child(
        &mut self,
        i: usize,
        child_name: &[u8],
        m: usize,
        root_id: Option<usize>,
        root_entries: Vec<(NodeType, Vec<u8>, Option<usize>)>,
    ) -> (c: usize)
        requires
            old(self).wf(),
            i < old(self).nodes@.len(),
            old(self).nodes@[i as int].node_type is Dir || old(self).nodes@[i as int].node_type is MountPoint,
            old(self).nodes@[i as int].name@ != dot_dot(),
            old(self).nodes@[i as int].maybe_children is Some,
            old(self).nodes@.len() + root_entries@.len() <= usize::MAX,
            ({
                let kids = children_of(old(self).nodes@, i as int);
                match first_named(old(self).nodes@, kids, child_name@) {
                    Some(k) => {
                        let ch = old(self).nodes@[kids[k] as int];
                        &&& ch.node_type == NodeType::Dir
                        &&& ch.name@ != dot_dot()
                        &&& ch.maybe_children is Some
                        &&& !has_children_of(old(self).nodes@, kids[k] as int)
                    },
                    None => false,
                }
            }),
        ensures
            final(self).wf(),
            ({
                let kids = children_of(old(self).nodes@, i as int);
                c == kids[first_named(old(self).nodes@, kids, child_name@)->Some_0]
            }),
            final(self).nodes@.len() == old(self).nodes@.len() + root_entries@.len(),
            final(self).nodes@[c as int].node_type == NodeType::MountPoint(m),
            final(self).nodes@[c as int].name@ == child_name@,
            final(self).nodes@[c as int].id_in_fs == root_id,
            final(self).nodes@[c as int].parent == Some(i),
            children_of(final(self).nodes@, c as int) == Seq::new(
                root_entries@.len(),
                |k: int| (old(self).nodes@.len() + k) as usize,
            ),
            forall|k: int| 0 <= k < root_entries@.len() ==> {
                let n = #[trigger] final(self).nodes@[old(self).nodes@.len() + k];
                &&& n.node_type == root_entries@[k].0
                &&& n.name@ == root_entries@[k].1@
                &&& n.id_in_fs == root_entries@[k].2
                &&& n.parent == Some(c)
                &&& n.maybe_children is None
            },
            forall|j: int|
                0 <= j < old(self).nodes@.len() && j != c ==> #[trigger] final(self).nodes@[j] == old(self).nodes@[j],
            forall|k: int|
                0 <= k < root_entries@.len() && !(root_entries@[k].0 is MountPoint) ==> #[trigger] mount_point_of(
                    final(self).nodes@,
                    old(self).nodes@.len() + k,
                    final(self).nodes@.len() as nat,
                ) == Some(c as int),
    {
        let found = self.child_named(i, child_name);
        proof {
            lemma_first_named_in_range(
                self.nodes@,
                children_of(self.nodes@, i as int),
                child_name@,
                0,
            );
        }
        let c = match found {
            Some(c) => c,
            None => i,
        };
        let name = self.nodes[c].name.clone();
        let ghost before = self.nodes@;
        self.nodes.set(
            c,
            NodeInternals {
                node_type: NodeType::MountPoint(m),
                name,
                id_in_fs: root_id,
                parent: Some(i),
                maybe_children: None,
            },
        );
        proof {
            let nodes = self.nodes@;
            assert forall|j: int| 0 <= j < nodes.len() implies parent_ok(#[trigger] nodes[j], nodes.len()) by {
                if j != c {
                    assert(nodes[j] == before[j]);
                    assert(parent_ok(before[j], before.len()));
                }
            }
            assert forall|j: int, q: int|
                0 <= j < nodes.len() && 0 <= q < children_of(nodes, j).len() implies #[trigger] children_of(
                nodes,
                j,
            )[q] < nodes.len() by {
                assert(nodes[j] == before[j]);
                assert(children_of(before, j)[q] < before.len());
            }
        }
        let ghost entries = root_entries@;
        let ghost base = self.nodes@.len();
        self.set_children(c, root_entries);
        proof {
            let nodes = self.nodes@;
            assert forall|k: int|
                0 <= k < entries.len() && !(entries[k].0 is MountPoint) implies #[trigger] mount_point_of(
                nodes,
                base + k,
                nodes.len() as nat,
            ) == Some(c as int) by {
                assert(nodes[base + k].parent == Some(c));
                assert(mount_point_of(nodes, c as int, (nodes.len() - 1) as nat) == Some(c as int));
            }
        }
        c
    }

    /// Fills in the children of node `i` from the entries of its directory:
    /// regular files and directories become nodes under `i`; unknown
    /// entries, "." and ".." are left out.
    pub fn fill_children(&mut self, i: usize, entries: Vec<DirListing>)
        requires
            old(self).wf(),
            i < old(self).nodes@.len(),
            old(self).nodes@.len() + entries@.len() <= usize::MAX,
        ensures
            final(self).wf(),
            ({
                let kept = tree_entries(entries@);
                &&& final(self).nodes@.len() == old(self).nodes@.len() + kept.len()
                &&& children_of(final(self).nodes@, i as int) == Seq::new(
                    kept.len(),
                    |k: int| (old(self).nodes@.len() + k) as usize,
                )
                &&& forall|k: int| 0 <= k < kept.len() ==> {
                    let n = #[trigger] final(self).nodes@[old(self).nodes@.len() + k];
                    &&& n.node_type == kept[k].0
                    &&& n.name@ == kept[k].1@
                    &&& n.id_in_fs == kept[k].2
                    &&& n.parent == Some(i)
                    &&& n.maybe_children is None
                }
            }),
            final(self).nodes@[i as int].maybe_children is Some,
            final(self).nodes@[i as int].node_type == old(self).nodes@[i as int].node_type,
            final(self).nodes@[i as int].name@ == old(self).nodes@[i as int].name@,
            final(self).nodes@[i as int].id_in_fs == old(self).nodes@[i as int].id_in_fs,
            final(self).nodes@[i as int].parent == old(self).nodes@[i as int].parent,
            others_kept(old(self).nodes@, final(self).nodes@, i as int),
    {
        let kept = directory_nodes(entries);
        proof {
            lemma_tree_entries_len(entries@);
        }
        self.set_children(i, kept);
    }

    /// The node that `path` leads to from node `from`, following one child
    /// per component.
    pub fn path(&self, from: usize, path: &[u8]) -> (r: Option<usize>)
        requires
            self.wf(),
            from < self.nodes@.len(),
        ensures
            r == match walk_path(self.nodes@, from as int, path@, 0) {
                Some(n) => Some(n as usize),
                None => None::<usize>,
            },
            r matches Some(n) ==> n < self.nodes@.len(),
    {
        let n = path.len();
        let mut cur = from;
        let mut i: usize = 0;
        while i < n
            invariant
                self.wf(),
                n == path@.len(),
                i <= n,
                cur < self.nodes@.len(),
                walk_path(self.nodes@, from as int, path@, 0) == walk_path(self.nodes@, cur as int, path@, i as int),
            decreases n - i,
        {
            if path[i] == 0x2F {
                i = i + 1;
                continue;
            }
            let ghost gi = i as int;
            let mut comp: Vec<u8> = Vec::new();
            let mut j = i;
            while j < n && path[j] != 0x2F
                invariant
                    n == path@.len(),
                    0 <= gi <= j <= n,
                    comp@ == path@.subrange(gi, j as int),
                    forall|k: int| gi <= k < j ==> path@[k] != 0x2Fu8,
                decreases n - j,
            {
                let b = path[j];
                proof {
                    assert(j < n);
                    assert(b == path@[j as int]);
                    assert(path@.subrange(gi, j + 1) =~= path@.subrange(gi, j as int).push(b));
                }
                comp.push(b);
                j = j + 1;
            }
            proof {
                lemma_component_end(path@, gi);
                if component_end(path@, gi) < j {
                    assert(path@[component_end(path@, gi)] != 0x2Fu8);
                }
                if j < component_end(path@, gi) {
                    assert(path@[j as int] != 0x2Fu8);
                }
                assert(component_end(path@, gi) == j);
            }
            proof {
                assert(walk_path(self.nodes@, cur as int, path@, i as int) == walk_component(
                    self.nodes@,
                    cur as int,
                    path@,
                    i as int,
                ));
            }
            let searchable = match self.nodes[cur].node_type {
                NodeType::Dir | NodeType::MountPoint(_) => true,
                _ => false,
            };
            let dd: [u8; 2] = [0x2e, 0x2e];
            assert(dd@ =~= dot_dot());
            if !searchable || bytes_eq(self.nodes[cur].name.as_slice(), dd.as_slice())
                || self.nodes[cur].maybe_children.is_none() {
                return None;
            }
            match self.child_named(cur, comp.as_slice()) {
                Some(c) => {
                    proof {
                        lemma_first_named_in_range(self.nodes@, children_of(self.nodes@, cur as int), comp@, 0);
                    }
                    cur = c;
                    i = j;
                },
                None => {
                    return None;
                },
            }
        }
        Some(cur)
    }
}

} // verus!
