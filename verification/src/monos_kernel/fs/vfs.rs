use super::fat16::dir_entry::{dir_list_ok, dir_listing, entry_view, Fat16DirEntry};
use super::fat16::file::Fat16File;
use super::fat16::Fat16Fs;
use super::path::{first_slash, lemma_first_slash, Path};
use vstd::prelude::*;

verus! {

/// What a node of the file system tree is.
#[derive(Debug, Clone, Copy, PartialEq, Eq, Structural)]
pub enum VFSNodeType {
    Directory,
    File { size: usize },
}

/// Why a file system cannot be mounted on a node.
#[derive(Debug, Clone, Copy, PartialEq, Eq, Structural)]
pub enum MountError {
    NotADirectory,
    NotEmpty,
}

/// Why a node cannot be opened.
#[derive(Debug, Clone, Copy, PartialEq, Eq, Structural)]
pub enum OpenError {
    NotFound,
    NotAFile,
}

/// Why a file cannot be closed.
#[derive(Debug, Clone, Copy, PartialEq, Eq, Structural)]
pub enum CloseError {
    NotOpen,
    InUse,
}

/// Why a node cannot be created.
#[derive(Debug, Clone, Copy, PartialEq, Eq, Structural)]
pub enum CreateError {
    ReadOnly,
    AlreadyExists,
    NotADirectory,
}

/// Why a node cannot be renamed.
#[derive(Debug, Clone, Copy, PartialEq, Eq, Structural)]
pub enum RenameError {
    ReadOnly,
    AlreadyExists,
    InUse,
}

/// Why a node cannot be removed.
#[derive(Debug, Clone, Copy, PartialEq, Eq, Structural)]
pub enum RemoveError {
    ReadOnly,
    InUse,
}

/// An open file: its name, its size, the position of the next read, and the data its
/// file system keeps for it.
pub struct File {
    pub name: String,
    pub size: usize,
    pub pos: usize,
    pub data: Fat16File,
}


/// A directory entry as the tree keeps it: its name, attributes, first cluster and size.
pub struct Fat16NodeEntry {
    pub name: String,
    pub attributes: u8,
    pub first_cluster: u16,
    pub size: u32,
}

/// What a FAT16 file system keeps for a node: its root directory, or an entry found in a
/// directory.
pub enum Fat16NodeData {
    RootDir,
    Node(Fat16NodeEntry),
}

/// The file system a node belongs to, by its place among the mounted ones, and what that
/// file system keeps for the node.
pub struct FSData {
    pub fs: usize,
    pub data: Fat16NodeData,
}

/// A node of the tree: its name and kind, its parent and children (by their places in
/// the tree), and the file system data of a node that belongs to one.
pub struct VFSNode {
    pub name: String,
    pub node_type: VFSNodeType,
    pub parent: Option<usize>,
    pub children: Vec<usize>,
    pub fs: Option<FSData>,
}

/// The file system tree: its nodes, the root first, and the mounted file systems.
pub struct VFS {
    pub nodes: Vec<VFSNode>,
    pub filesystems: Vec<Fat16Fs>,
}

/// A node as plain values. Its file system data is the file system's place and the
/// entry it keeps (none for a root directory).
#[verifier::ext_equal]
pub struct NodeView {
    pub name: Seq<char>,
    pub node_type: VFSNodeType,
    pub parent: Option<usize>,
    pub children: Seq<usize>,
    pub fs: Option<(usize, Option<(Seq<char>, u8, u16, u32)>)>,
}

#[verifier::ext_equal]
pub struct VFSView {
    pub nodes: Seq<NodeView>,
    pub fss: Seq<Fat16Fs>,
}

pub open spec fn node_view(n: VFSNode) -> NodeView {
    NodeView {
        name: n.name@,
        node_type: n.node_type,
        parent: n.parent,
        children: n.children@,
        fs: fs_view(n.fs),
    }
}

/// File system data as plain values.
pub open spec fn fs_view(fs: Option<FSData>) -> Option<(usize, Option<(Seq<char>, u8, u16, u32)>)> {
    match fs {
        None => None,
        Some(d) => Some(
            (
                d.fs,
                match d.data {
                    Fat16NodeData::RootDir => None,
                    Fat16NodeData::Node(e) => Some((e.name@, e.attributes, e.first_cluster, e.size)),
                },
            ),
        ),
    }
}

impl View for VFS {
    type V = VFSView;

    open spec fn view(&self) -> VFSView {
        VFSView { nodes: self.nodes@.map_values(|n: VFSNode| node_view(n)), fss: self.filesystems@ }
    }
}

/// The tree is well formed: it has a root, and every child, parent and file system a
/// node names exists; there is room for more nodes.
pub open spec fn tree_wf(v: VFSView) -> bool {
    &&& v.nodes.len() >= 1
    &&& v.nodes.len() < usize::MAX
    &&& forall|i: int, j: int|
        0 <= i < v.nodes.len() && 0 <= j < v.nodes[i].children.len() ==> #[trigger] v.nodes[i].children[j]
            < v.nodes.len()
    &&& forall|i: int|
        0 <= i < v.nodes.len() ==> (#[trigger] v.nodes[i].parent matches Some(p) ==> p < v.nodes.len())
    &&& forall|i: int|
        0 <= i < v.nodes.len() ==> (#[trigger] v.nodes[i].fs matches Some(d) ==> d.0 < v.fss.len())
}

/// The kind of node an entry makes: a directory, or a file of its size.
pub open spec fn entry_node_type(e: (Seq<char>, u8, u16, u32)) -> VFSNodeType {
    if e.1 & 0x10 != 0 {
        VFSNodeType::Directory
    } else {
        VFSNodeType::File { size: e.3 as usize }
    }
}

/// The first sector of the data of a directory entry.
pub open spec fn entry_sector(fs: Fat16Fs, e: (Seq<char>, u8, u16, u32)) -> int {
    fs.first_data_sector + (e.2 - 2) * fs.sectors_per_cluster
}

/// The entries listing a node gives: those of the root directory, of the directory an
/// entry stands for, or none for a file.
pub open spec fn node_listing(fs: Fat16Fs, data: Option<(Seq<char>, u8, u16, u32)>) -> Seq<(Seq<char>, u8, u16, u32)> {
    match data {
        None => dir_listing(&fs, fs.first_root_sector, 0),
        Some(e) => if e.1 & 0x10 != 0 {
            dir_listing(&fs, entry_sector(fs, e) as u32, 0)
        } else {
            seq![]
        },
    }
}

/// The node made for an entry listed under `parent`.
pub open spec fn listed_node(parent: int, fsi: usize, e: (Seq<char>, u8, u16, u32)) -> NodeView {
    NodeView {
        name: e.0,
        node_type: entry_node_type(e),
        parent: Some(parent as usize),
        children: seq![],
        fs: Some((fsi, Some(e))),
    }
}

/// The tree after listing `node`: a node of a file system gets as children new nodes for
/// the entries its file system lists, in order (the old children stay in the tree,
/// detached); other nodes are left as they are.
pub open spec fn spec_list(v: VFSView, node: int) -> VFSView {
    match v.nodes[node].fs {
        None => v,
        Some((fsi, data)) => {
            let entries = node_listing(v.fss[fsi as int], data);
            let n0 = v.nodes.len();
            VFSView {
                nodes: v.nodes.update(
                    node,
                    NodeView { children: Seq::new(entries.len(), |k: int| (n0 + k) as usize), ..v.nodes[node] },
                ) + Seq::new(entries.len(), |k: int| listed_node(node, fsi, entries[k])),
                fss: v.fss,
            }
        },
    }
}

/// Listing `node` can be done: its file system's walk through the directory can be made
/// and the new nodes fit.
pub open spec fn list_ok(v: VFSView, node: int) -> bool {
    &&& tree_wf(v)
    &&& 0 <= node < v.nodes.len()
    &&& match v.nodes[node].fs {
        None => true,
        Some((fsi, data)) => {
            let fs = v.fss[fsi as int];
            &&& match data {
                None => dir_list_ok(&fs, fs.first_root_sector, 0),
                Some(e) => e.1 & 0x10 != 0 ==> {
                    &&& e.2 >= 2
                    &&& entry_sector(fs, e) <= u32::MAX
                    &&& dir_list_ok(&fs, entry_sector(fs, e) as u32, 0)
                },
            }
            &&& v.nodes.len() + node_listing(fs, data).len() < usize::MAX
        },
    }
}

/// The first of `kids` whose node is named `name`.
pub open spec fn find_named(nodes: Seq<NodeView>, kids: Seq<usize>, name: Seq<char>) -> Option<usize>
    decreases kids.len(),
{
    if kids.len() == 0 {
        None
    } else if nodes[kids[0] as int].name == name {
        Some(kids[0])
    } else {
        find_named(nodes, kids.drop_first(), name)
    }
}

/// Looking `path` up from `node`: the node is listed, then the path's first part names a
/// child to go on from, or the whole path names the child found. Gives the tree after
/// the listings and the node found.
pub open spec fn spec_get(v: VFSView, node: int, path: Seq<char>) -> (VFSView, Option<usize>)
    decreases path.len(),
{
    let v1 = spec_list(v, node);
    let kids = v1.nodes[node].children;
    match first_slash(path) {
        Some(i) => {
            proof {
                lemma_first_slash(path);
            }
            match find_named(v1.nodes, kids, path.take(i)) {
                Some(c) => spec_get(v1, c as int, path.skip(i + 1)),
                None => (v1, None),
            }
        },
        None => (v1, find_named(v1.nodes, kids, path)),
    }
}

/// Every listing a lookup makes can be done.
pub open spec fn get_ok(v: VFSView, node: int, path: Seq<char>) -> bool
    decreases path.len(),
{
    &&& list_ok(v, node)
    &&& {
        let v1 = spec_list(v, node);
        let kids = v1.nodes[node].children;
        match first_slash(path) {
            Some(i) => {
                proof {
                    lemma_first_slash(path);
                }
                match find_named(v1.nodes, kids, path.take(i)) {
                    Some(c) => get_ok(v1, c as int, path.skip(i + 1)),
                    None => true,
                }
            },
            None => true,
        }
    }
}

/// The part of a path after its last `/`.
pub open spec fn last_part(path: Seq<char>) -> Seq<char>
    decreases path.len(),
{
    match first_slash(path) {
        Some(i) => {
            proof {
                lemma_first_slash(path);
            }
            last_part(path.skip(i + 1))
        },
        None => path,
    }
}

/// The child found by name is one of the children and has that name.
pub proof fn lemma_find_named(nodes: Seq<NodeView>, kids: Seq<usize>, name: Seq<char>)
    ensures
        match find_named(nodes, kids, name) {
            Some(c) => kids.contains(c) && nodes[c as int].name == name,
            None => forall|j: int| 0 <= j < kids.len() ==> nodes[#[trigger] kids[j] as int].name != name,
        },
    decreases kids.len(),
{
    if kids.len() > 0 {
        lemma_find_named(nodes, kids.drop_first(), name);
        if nodes[kids[0] as int].name != name {
            match find_named(nodes, kids.drop_first(), name) {
                Some(c) => {
                    let j = choose|j: int| 0 <= j < kids.drop_first().len() && kids.drop_first()[j] == c;
                    assert(kids[j + 1] == c);
                },
                None => {
                    assert forall|j: int| 0 <= j < kids.len() implies nodes[#[trigger] kids[j] as int].name
                        != name by {
                        if j > 0 {
                            assert(kids[j] == kids.drop_first()[j - 1]);
                        }
                    }
                },
            }
        } else {
            assert(kids[0] == kids[0]);
        }
    }
}

/// Listing a node keeps the names of the nodes there were.
pub proof fn lemma_list_keeps_names(v: VFSView, node: int, other: int)
    requires
        0 <= node < v.nodes.len(),
        0 <= other < v.nodes.len(),
    ensures
        spec_list(v, node).nodes.len() >= v.nodes.len(),
        spec_list(v, node).nodes[other].name == v.nodes[other].name,
{
}

/// Looking a path up gives, if anything, a node named as the path's last part.
pub proof fn lemma_get_finds_name(v: VFSView, node: int, path: Seq<char>)
    requires
        get_ok(v, node, path),
    ensures
        spec_get(v, node, path).1 matches Some(c) ==> spec_get(v, node, path).0.nodes[c as int].name
            == last_part(path),
    decreases path.len(),
{
    lemma_first_slash(path);
    let v1 = spec_list(v, node);
    let kids = v1.nodes[node].children;
    match first_slash(path) {
        Some(i) => {
            lemma_find_named(v1.nodes, kids, path.take(i));
            match find_named(v1.nodes, kids, path.take(i)) {
                Some(c) => {
                    lemma_get_finds_name(v1, c as int, path.skip(i + 1));
                },
                None => {},
            }
        },
        None => {
            lemma_find_named(v1.nodes, kids, path);
        },
    }
}

/// Whether two texts are the same.
fn str_eq(a: &str, b: &str) -> (r: bool)
    ensures
        r == (a@ == b@),
{
    let n = a.unicode_len();
    if n != b.unicode_len() {
        return false;
    }
    let mut i: usize = 0;
    while i < n
        invariant
            n == a@.len(),
            n == b@.len(),
            i <= n,
            forall|j: int| 0 <= j < i ==> a@[j] == b@[j],
        decreases n - i,
    {
        if a.get_char(i) != b.get_char(i) {
            return false;
        }
        i = i + 1;
    }
    assert(a@ =~= b@);
    true
}

impl VFS {
    /// A tree of a lone root directory `/`.
    pub fn new() -> (r: VFS)
        ensures
            r@.nodes.len() == 1,
            r@.nodes[0].name == seq!['/'],
            r@.nodes[0].node_type == VFSNodeType::Directory,
            r@.nodes[0].parent is None,
            r@.nodes[0].children.len() == 0,
            r@.nodes[0].fs is None,
            r@.fss.len() == 0,
            tree_wf(r@),
    {
        let root = VFSNode {
            name: String::from_str("/"),
            node_type: VFSNodeType::Directory,
            parent: None,
            children: Vec::new(),
            fs: None,
        };
        proof {
            reveal_strlit("/");
        }
        let mut nodes: Vec<VFSNode> = Vec::new();
        nodes.push(root);
        let r = VFS { nodes, filesystems: Vec::new() };
        assert(r@.nodes[0].name =~= seq!['/']);
        r
    }

    /// The first child of `node` named `name`.
    pub fn find_child(&self, node: usize, name: &str) -> (r: Option<usize>)
        requires
            tree_wf(self@),
            node < self@.nodes.len(),
        ensures
            r == find_named(self@.nodes, self@.nodes[node as int].children, name@),
    {
        let kids = &self.nodes[node].children;
        let ghost all = kids@;
        let mut i: usize = 0;
        assert(all.skip(0) =~= all);
        while i < kids.len()
            invariant
                tree_wf(self@),
                node < self@.nodes.len(),
                kids@ == all,
                all == self@.nodes[node as int].children,
                i <= all.len(),
                find_named(self@.nodes, all, name@) == find_named(self@.nodes, all.skip(i as int), name@),
            decreases all.len() - i,
        {
            let c = kids[i];
            proof {
                assert(all.skip(i as int).drop_first() =~= all.skip(i + 1));
                assert(self@.nodes[node as int].children[i as int] == c);
            }
            if str_eq(self.nodes[c].name.as_str(), name) {
                return Some(c);
            }
            i = i + 1;
        }
        assert(all.skip(i as int).len() == 0);
        None
    }

    /// Lists a node of a file system again: its children become new nodes for the entries
    /// its file system lists; a node of no file system is left as it is.
    pub fn list(&mut self, node: usize)
        requires
            list_ok(old(self)@, node as int),
        ensures
            final(self)@ == spec_list(old(self)@, node as int),
            tree_wf(final(self)@),
    {
        let ghost v = self@;
        let (fsi, entries) = match &self.nodes[node].fs {
            None => {
                return;
            },
            Some(d) => {
                assert(self@.nodes[node as int].fs == Some((d.fs, node_data_view(d.data))));
                (d.fs, self.filesystems[d.fs].list_entries(&d.data))
            },
        };
        let ghost want = entries@.map_values(|e: Fat16NodeEntry| node_entry_view(e));
        let ghost data = v.nodes[node as int].fs->Some_0.1;
        assert(want == node_listing(v.fss[fsi as int], data));
        let n0 = self.nodes.len();
        self.nodes[node].children.clear();
        proof {
            assert(self@.nodes[node as int].children =~= Seq::<usize>::empty());
            assert forall|j: int| 0 <= j < n0 && j != node implies self@.nodes[j] == v.nodes[j] by {}
            assert(self@.nodes[node as int] =~= NodeView {
                children: Seq::new(0, |j: int| (n0 + j) as usize),
                ..v.nodes[node as int]
            });
            assert forall|i: int, j: int|
                0 <= i < self@.nodes.len() && 0 <= j < self@.nodes[i].children.len() implies #[trigger] self@.nodes[i].children[j]
                < self@.nodes.len() by {
                if i != node {
                    assert(self@.nodes[i] == v.nodes[i]);
                }
            }
            assert forall|i: int| 0 <= i < self@.nodes.len() implies (#[trigger] self@.nodes[i].parent matches Some(p)
                ==> p < self@.nodes.len()) by {
                if i != node {
                    assert(self@.nodes[i] == v.nodes[i]);
                }
            }
            assert forall|i: int| 0 <= i < self@.nodes.len() implies (#[trigger] self@.nodes[i].fs matches Some(d) ==> d.0
                < self@.fss.len()) by {
                if i != node {
                    assert(self@.nodes[i] == v.nodes[i]);
                }
            }
        }
        let mut k: usize = 0;
        while k < entries.len()
            invariant
                tree_wf(self@),
                self@.fss == v.fss,
                tree_wf(v),
                node < n0,
                n0 == v.nodes.len(),
                fsi < v.fss.len(),
                v.nodes[node as int].fs == Some((fsi, data)),
                want == entries@.map_values(|e: Fat16NodeEntry| node_entry_view(e)),
                want == node_listing(v.fss[fsi as int], data),
                n0 + want.len() < usize::MAX,
                k <= want.len(),
                self@.nodes.len() == n0 + k,
                forall|j: int| 0 <= j < n0 && j != node ==> self@.nodes[j] == v.nodes[j],
                self@.nodes[node as int] == (NodeView {
                    children: Seq::new(k as nat, |j: int| (n0 + j) as usize),
                    ..v.nodes[node as int]
                }),
                forall|j: int| 0 <= j < k ==> self@.nodes[n0 + j] == listed_node(node as int, fsi, want[j]),
            decreases want.len() - k,
        {
            let e = &entries[k];
            assert(node_entry_view(*e) == want[k as int]);
            let node_type = if e.attributes & 0x10 != 0 {
                VFSNodeType::Directory
            } else {
                VFSNodeType::File { size: e.size as usize }
            };
            let data_k = FSData {
                fs: fsi,
                data: Fat16NodeData::Node(
                    Fat16NodeEntry {
                        name: e.name.clone(),
                        attributes: e.attributes,
                        first_cluster: e.first_cluster,
                        size: e.size,
                    },
                ),
            };
            let ghost before = self@;
            let idx = self.add_child(node, e.name.clone(), node_type, Some(data_k));
            proof {
                assert(idx == n0 + k);
                assert(self@.nodes[n0 + k] == listed_node(node as int, fsi, want[k as int]));
                assert(Seq::new((k + 1) as nat, |j: int| (n0 + j) as usize) =~= Seq::new(
                    k as nat,
                    |j: int| (n0 + j) as usize,
                ).push(idx));
                assert(self@.nodes[node as int] =~= NodeView {
                    children: Seq::new((k + 1) as nat, |j: int| (n0 + j) as usize),
                    ..v.nodes[node as int]
                });
                assert forall|j: int| 0 <= j < k + 1 implies self@.nodes[n0 + j] == listed_node(
                    node as int,
                    fsi,
                    want[j],
                ) by {
                    if j < k {
                        assert(before.nodes[n0 + j] == listed_node(node as int, fsi, want[j]));
                    }
                }
            }
            k = k + 1;
        }
        proof {
            let target = spec_list(v, node as int);
            assert(target.nodes.len() == self@.nodes.len());
            assert forall|j: int| 0 <= j < self@.nodes.len() implies self@.nodes[j] == target.nodes[j] by {
                if j >= n0 {
                    assert(self@.nodes[n0 + (j - n0)] == listed_node(node as int, fsi, want[j - n0]));
                }
            }
            assert(self@.nodes =~= target.nodes);
        }
    }

    /// Looks `path` up from `node`, listing each node on the way (see `spec_get`).
    pub fn get_from(&mut self, node: usize, path: Path<'_>) -> (r: Option<usize>)
        requires
            get_ok(old(self)@, node as int, path.0@),
        ensures
            (final(self)@, r) == spec_get(old(self)@, node as int, path.0@),
            tree_wf(final(self)@),
        decreases path.0@.len(),
    {
        proof {
            lemma_first_slash(path.0@);
        }
        self.list(node);
        match path.enter() {
            Some((current, rest)) => {
                match self.find_child(node, current.as_str()) {
                    Some(c) => self.get_from(c, rest),
                    None => None,
                }
            },
            None => self.find_child(node, path.as_str()),
        }
    }

    /// Looks `path` up from the root.
    pub fn get(&mut self, path: Path<'_>) -> (r: Option<usize>)
        requires
            get_ok(old(self)@, 0, path.0@),
        ensures
            (final(self)@, r) == spec_get(old(self)@, 0, path.0@),
            tree_wf(final(self)@),
    {
        self.get_from(0, path)
    }

    /// Opens the file a node stands for: a node that is no file cannot be opened, nor one
    /// of no file system; the file starts at its beginning, before any read.
    pub fn open(&self, node: usize) -> (r: Result<File, OpenError>)
        requires
            node < self@.nodes.len(),
        ensures
            ({
                let n = self@.nodes[node as int];
                if !(n.node_type is File) {
                    r == Err::<File, OpenError>(OpenError::NotAFile)
                } else {
                    match n.fs {
                        None => r == Err::<File, OpenError>(OpenError::NotFound),
                        Some((_, None)) => r == Err::<File, OpenError>(OpenError::NotAFile),
                        Some((_, Some(e))) => r matches Ok(f) && f.name@ == e.0 && f.size == e.3
                            && f.pos == 0 && f.data.first_cluster == e.2
                            && f.data.current_cluster.spec_load() is None,
                    }
                }
            }),
    {
        let n = &self.nodes[node];
        let is_file = match n.node_type {
            VFSNodeType::File { .. } => true,
            VFSNodeType::Directory => false,
        };
        if !is_file {
            return Err(OpenError::NotAFile);
        }
        match &n.fs {
            None => Err(OpenError::NotFound),
            Some(d) => match &d.data {
                Fat16NodeData::RootDir => Err(OpenError::NotAFile),
                Fat16NodeData::Node(e) => Ok(Fat16File::new(e.name.clone(), e.size, e.first_cluster)),
            },
        }
    }

    /// Mounts a file system on a directory without children: the directory becomes the
    /// file system's root directory.
    pub fn mount(&mut self, node: usize, fs: Fat16Fs) -> (r: Result<(), MountError>)
        requires
            tree_wf(old(self)@),
            node < old(self)@.nodes.len(),
        ensures
            !(old(self)@.nodes[node as int].node_type is Directory) ==> r == Err::<(), MountError>(
                MountError::NotADirectory,
            ) && final(self)@ == old(self)@,
            old(self)@.nodes[node as int].node_type is Directory && old(self)@.nodes[node as int].children.len()
                > 0 ==> r == Err::<(), MountError>(MountError::NotEmpty) && final(self)@ == old(self)@,
            old(self)@.nodes[node as int].node_type is Directory && old(self)@.nodes[node as int].children.len()
                == 0 ==> r is Ok && final(self)@ == (VFSView {
                nodes: old(self)@.nodes.update(
                    node as int,
                    NodeView { fs: Some((old(self)@.fss.len() as usize, None)), ..old(self)@.nodes[node as int] },
                ),
                fss: old(self)@.fss.push(fs),
            }),
            tree_wf(final(self)@),
    {
        let is_dir = match self.nodes[node].node_type {
            VFSNodeType::Directory => true,
            VFSNodeType::File { .. } => false,
        };
        if !is_dir {
            return Err(MountError::NotADirectory);
        }
        if self.nodes[node].children.len() > 0 {
            return Err(MountError::NotEmpty);
        }
        let ghost v = self@;
        self.nodes[node].fs = None;
        let idx = self.filesystems.len();
        self.filesystems.push(fs);
        self.nodes[node].fs = Some(FSData { fs: idx, data: Fat16NodeData::RootDir });
        proof {
            let want = VFSView {
                nodes: v.nodes.update(node as int, NodeView { fs: Some((v.fss.len() as usize, None)), ..v.nodes[node as int] }),
                fss: v.fss.push(fs),
            };
            assert(self@.nodes[node as int] =~= want.nodes[node as int]);
            assert(self@.nodes =~= want.nodes);
            assert(self@.fss =~= want.fss);
            assert forall|i: int, j: int|
                0 <= i < self@.nodes.len() && 0 <= j < self@.nodes[i].children.len() implies #[trigger] self@.nodes[i].children[j]
                < self@.nodes.len() by {
                if i != node {
                    assert(self@.nodes[i] == v.nodes[i]);
                }
            }
            assert forall|i: int| 0 <= i < self@.nodes.len() implies (#[trigger] self@.nodes[i].parent matches Some(p)
                ==> p < self@.nodes.len()) by {
                if i != node {
                    assert(self@.nodes[i] == v.nodes[i]);
                }
            }
            assert forall|i: int| 0 <= i < self@.nodes.len() implies (#[trigger] self@.nodes[i].fs matches Some(d) ==> d.0
                < self@.fss.len()) by {
                if i != node {
                    assert(self@.nodes[i] == v.nodes[i]);
                }
            }
        }
        Ok(())
    }

    /// Adds a node under `parent` and gives its place.
    pub fn add_child(&mut self, parent: usize, name: String, node_type: VFSNodeType, fs: Option<FSData>) -> (r: usize)
        requires
            tree_wf(old(self)@),
            parent < old(self)@.nodes.len(),
            old(self)@.nodes.len() + 1 < usize::MAX,
            fs matches Some(d) ==> d.fs < old(self)@.fss.len(),
        ensures
            r == old(self)@.nodes.len(),
            final(self)@.nodes == old(self)@.nodes.update(
                parent as int,
                NodeView {
                    children: old(self)@.nodes[parent as int].children.push(r),
                    ..old(self)@.nodes[parent as int]
                },
            ).push(NodeView { name: name@, node_type, parent: Some(parent), children: seq![], fs: fs_view(fs) }),
            final(self)@.fss == old(self)@.fss,
            tree_wf(final(self)@),
    {
        let idx = self.nodes.len();
        let child = VFSNode { name, node_type, parent: Some(parent), children: Vec::new(), fs };
        let ghost cv = node_view(child);
        assert(cv == NodeView { name: name@, node_type, parent: Some(parent), children: seq![], fs: fs_view(fs) });
        self.nodes.push(child);
        self.nodes[parent].children.push(idx);
        proof {
            let want = old(self)@.nodes.update(
                parent as int,
                NodeView {
                    children: old(self)@.nodes[parent as int].children.push(idx),
                    ..old(self)@.nodes[parent as int]
                },
            ).push(cv);
            assert(self@.nodes =~= want);
        }
        idx
    }
}

impl VFSNode {
    pub fn name(&self) -> (r: &str)
        ensures
            r@ == self.name@,
    {
        self.name.as_str()
    }

    pub fn is_directory(&self) -> (r: bool)
        ensures
            r == (self.node_type is Directory),
    {
        match self.node_type {
            VFSNodeType::Directory => true,
            VFSNodeType::File { .. } => false,
        }
    }

    pub fn is_file(&self) -> (r: bool)
        ensures
            r == (self.node_type is File),
    {
        match self.node_type {
            VFSNodeType::Directory => false,
            VFSNodeType::File { .. } => true,
        }
    }

    pub fn parent(&self) -> (r: Option<usize>)
        ensures
            r == self.parent,
    {
        self.parent
    }
}

impl VFS {
    /// The children of a node, after listing it again.
    pub fn children(&mut self, node: usize) -> (r: Vec<usize>)
        requires
            list_ok(old(self)@, node as int),
        ensures
            final(self)@ == spec_list(old(self)@, node as int),
            r@ == final(self)@.nodes[node as int].children,
    {
        self.list(node);
        self.nodes[node].children.clone()
    }
}

/// An entry kept in the tree as plain values.
pub open spec fn node_entry_view(e: Fat16NodeEntry) -> (Seq<char>, u8, u16, u32) {
    (e.name@, e.attributes, e.first_cluster, e.size)
}

/// The data a node keeps, as the entry it holds (none for a root directory).
pub open spec fn node_data_view(d: Fat16NodeData) -> Option<(Seq<char>, u8, u16, u32)> {
    match d {
        Fat16NodeData::RootDir => None,
        Fat16NodeData::Node(e) => Some(node_entry_view(e)),
    }
}

/// The directory walk for a node's data can be made.
pub open spec fn data_list_ok(fs: Fat16Fs, data: Option<(Seq<char>, u8, u16, u32)>) -> bool {
    match data {
        None => dir_list_ok(&fs, fs.first_root_sector, 0),
        Some(e) => e.1 & 0x10 != 0 ==> {
            &&& e.2 >= 2
            &&& entry_sector(fs, e) <= u32::MAX
            &&& dir_list_ok(&fs, entry_sector(fs, e) as u32, 0)
        },
    }
}

impl Fat16Fs {
    /// The entries under a node of this file system: those of the root directory, or of
    /// the directory an entry stands for; none for a file.
    pub fn list_entries(&self, data: &Fat16NodeData) -> (r: Vec<Fat16NodeEntry>)
        requires
            data_list_ok(*self, node_data_view(*data)),
        ensures
            r@.map_values(|e: Fat16NodeEntry| node_entry_view(e)) == node_listing(*self, node_data_view(*data)),
    {
        let entries = match data {
            Fat16NodeData::RootDir => {
                let mut it = self.iter_root_dir();
                it.collect_entries()
            },
            Fat16NodeData::Node(e) => {
                let entry = Fat16DirEntry {
                    name: e.name.clone(),
                    attributes: e.attributes,
                    first_cluster: e.first_cluster,
                    size: e.size,
                    fs: self,
                };
                match entry.iter() {
                    Some(mut it) => it.collect_entries(),
                    None => {
                        let empty: Vec<Fat16NodeEntry> = Vec::new();
                        assert(empty@.map_values(|e: Fat16NodeEntry| node_entry_view(e)) =~= node_listing(
                            *self,
                            node_data_view(*data),
                        ));
                        return empty;
                    },
                }
            },
        };
        let ghost want = node_listing(*self, node_data_view(*data));
        assert(entries@.map_values(|e: Fat16DirEntry| entry_view(e)) == want);
        let mut out: Vec<Fat16NodeEntry> = Vec::new();
        let mut i: usize = 0;
        while i < entries.len()
            invariant
                i <= entries@.len(),
                entries@.map_values(|e: Fat16DirEntry| entry_view(e)) == want,
                out@.len() == i,
                forall|j: int| 0 <= j < i ==> node_entry_view(#[trigger] out@[j]) == want[j],
            decreases entries@.len() - i,
        {
            let e = &entries[i];
            assert(entry_view(entries@[i as int]) == want[i as int]);
            out.push(Fat16NodeEntry {
                name: e.name.clone(),
                attributes: e.attributes,
                first_cluster: e.first_cluster,
                size: e.size,
            });
            i = i + 1;
        }
        assert(out@.map_values(|e: Fat16NodeEntry| node_entry_view(e)) =~= want);
        out
    }
}

} // verus!
