//! An in-memory virtual filesystem: logical paths mapped to directories or to
//! files, each file with its bytes and its load metadata.

use crate::text::spec_texts;
use vstd::prelude::*;
use vstd::string::*;

verus! {

/// Names a native loader that the host has registered. The host keeps the
/// function itself; the filesystem only records which one belongs to a path.
#[derive(Debug, Clone, Copy, PartialEq, Eq)]
pub struct NativeLoader {
    pub id: u64,
}

/// Load metadata of one file.
#[derive(Debug, Clone, Copy, PartialEq, Eq)]
pub struct VfsMetadata {
    /// The native loader to run when the file is required, if it has one.
    pub require: Option<NativeLoader>,
    /// Whether the file has been required already.
    pub already_required: bool,
}

impl VfsMetadata {
    /// Metadata of a file that has no native loader and was never required.
    pub open spec fn spec_new() -> VfsMetadata {
        VfsMetadata { require: None, already_required: false }
    }

    /// This metadata with `already_required` set.
    pub open spec fn spec_mark_required(self) -> VfsMetadata {
        VfsMetadata { require: self.require, already_required: true }
    }

    /// Metadata of a file that has no native loader and was never required.
    #[verifier::when_used_as_spec(spec_new)]
    pub fn new() -> (metadata: VfsMetadata)
        ensures
            metadata == VfsMetadata::spec_new(),
    {
        VfsMetadata { require: None, already_required: false }
    }

    /// This metadata with `loader` as its native loader.
    pub fn with_require(self, loader: NativeLoader) -> (metadata: VfsMetadata)
        ensures
            metadata == (VfsMetadata { require: Some(loader), already_required: self.already_required }),
    {
        VfsMetadata { require: Some(loader), already_required: self.already_required }
    }

    /// This metadata with `already_required` set. The flag is never cleared.
    #[verifier::when_used_as_spec(spec_mark_required)]
    pub fn mark_required(self) -> (metadata: VfsMetadata)
        ensures
            metadata == self.spec_mark_required(),
    {
        VfsMetadata { require: self.require, already_required: true }
    }

    /// Whether the file has been required already.
    pub fn is_already_required(&self) -> (required: bool)
        ensures
            required == self.already_required,
    {
        self.already_required
    }

    /// Whether a native loader is registered for the file.
    pub fn has_native_loader(&self) -> (has: bool)
        ensures
            has == self.require.is_some(),
    {
        self.require.is_some()
    }
}

/// Why a filesystem operation was refused.
#[derive(Debug, Clone, Copy, PartialEq, Eq)]
pub enum VfsError {
    /// The path does not name a file.
    NotFound,
    /// The path names a directory where a file was expected.
    IsDirectory,
    /// The path names a file where a directory was expected.
    IsFile,
}

/// Text of the error `NotFound`.
pub const NOT_FOUND: &'static str = "entity not found";

/// Text of the error `IsDirectory`.
pub const IS_DIRECTORY: &'static str = "is a directory";

/// Text of the error `IsFile`.
pub const IS_FILE: &'static str = "is a file";

impl VfsError {
    /// The text that describes the error.
    pub open spec fn spec_message(self) -> Seq<char> {
        match self {
            VfsError::NotFound => NOT_FOUND@,
            VfsError::IsDirectory => IS_DIRECTORY@,
            VfsError::IsFile => IS_FILE@,
        }
    }

    /// The text that describes the error.
    pub fn message(&self) -> (text: String)
        ensures
            text@ == self.spec_message(),
    {
        match self {
            VfsError::NotFound => String::from_str(NOT_FOUND),
            VfsError::IsDirectory => String::from_str(IS_DIRECTORY),
            VfsError::IsFile => String::from_str(IS_FILE),
        }
    }
}

/// What the filesystem holds at one path.
pub enum NodeView {
    Directory,
    File { content: Seq<u8>, metadata: Option<VfsMetadata> },
}

#[derive(Debug)]
struct Node {
    path: String,
    directory: bool,
    content: Vec<u8>,
    metadata: Option<VfsMetadata>,
}

impl Node {
    spec fn view(self) -> NodeView {
        if self.directory {
            NodeView::Directory
        } else {
            NodeView::File { content: self.content@, metadata: self.metadata }
        }
    }
}

/// The virtual filesystem. Its view is a map from each path that exists to
/// what the path holds.
#[derive(Debug)]
pub struct Vfs {
    nodes: Vec<Node>,
}

spec fn at(nodes: Seq<Node>, i: int, path: Seq<char>) -> bool {
    0 <= i < nodes.len() && nodes[i].path@ == path
}

spec fn distinct_paths(nodes: Seq<Node>) -> bool {
    forall|i: int, j: int|
        0 <= i < nodes.len() && 0 <= j < nodes.len() && i != j ==> #[trigger] nodes[i].path@
            != #[trigger] nodes[j].path@
}

spec fn as_map(nodes: Seq<Node>) -> Map<Seq<char>, NodeView> {
    Map::new(
        |path: Seq<char>| exists|i: int| at(nodes, i, path),
        |path: Seq<char>| nodes[choose|i: int| at(nodes, i, path)].view(),
    )
}

proof fn lemma_node_at(nodes: Seq<Node>, i: int)
    requires
        distinct_paths(nodes),
        0 <= i < nodes.len(),
    ensures
        as_map(nodes).contains_key(nodes[i].path@),
        as_map(nodes)[nodes[i].path@] == nodes[i].view(),
{
    let path = nodes[i].path@;
    assert(at(nodes, i, path));
    let j = choose|j: int| at(nodes, j, path);
    assert(at(nodes, j, path));
    assert(j == i);
}

proof fn lemma_absent(nodes: Seq<Node>, path: Seq<char>)
    requires
        forall|i: int| 0 <= i < nodes.len() ==> (#[trigger] nodes[i]).path@ != path,
    ensures
        !as_map(nodes).contains_key(path),
{
    assert forall|i: int| !at(nodes, i, path) by {
        if 0 <= i < nodes.len() {
            assert(nodes[i].path@ != path);
        }
    }
}

proof fn lemma_replace(nodes: Seq<Node>, i: int, node: Node)
    requires
        distinct_paths(nodes),
        0 <= i < nodes.len(),
        node.path@ == nodes[i].path@,
    ensures
        distinct_paths(nodes.update(i, node)),
        as_map(nodes.update(i, node)) == as_map(nodes).insert(node.path@, node.view()),
{
    let after = nodes.update(i, node);
    assert forall|a: int, b: int| 0 <= a < after.len() && 0 <= b < after.len() && a != b implies #[trigger] after[a].path@
        != #[trigger] after[b].path@ by {
        assert(after[a].path@ == nodes[a].path@);
        assert(after[b].path@ == nodes[b].path@);
    }
    assert forall|path: Seq<char>| #[trigger]
        as_map(after).contains_key(path) == as_map(nodes).insert(
            node.path@,
            node.view(),
        ).contains_key(path) by {
        if as_map(after).contains_key(path) {
            let j = choose|j: int| at(after, j, path);
            assert(at(nodes, j, path));
        }
        if as_map(nodes).contains_key(path) {
            let j = choose|j: int| at(nodes, j, path);
            assert(at(after, j, path));
        }
        if path == node.path@ {
            assert(at(after, i, path));
        }
    }
    assert forall|path: Seq<char>| #[trigger] as_map(after).contains_key(path) implies as_map(after)[path]
        == as_map(nodes).insert(node.path@, node.view())[path] by {
        let j = choose|j: int| at(after, j, path);
        lemma_node_at(after, j);
        if j != i {
            lemma_node_at(nodes, j);
        }
    }
    assert(as_map(after) =~= as_map(nodes).insert(node.path@, node.view()));
}

proof fn lemma_append(nodes: Seq<Node>, node: Node)
    requires
        distinct_paths(nodes),
        !as_map(nodes).contains_key(node.path@),
    ensures
        distinct_paths(nodes.push(node)),
        as_map(nodes.push(node)) == as_map(nodes).insert(node.path@, node.view()),
{
    let after = nodes.push(node);
    let last = nodes.len() as int;
    assert forall|a: int, b: int| 0 <= a < after.len() && 0 <= b < after.len() && a != b implies #[trigger] after[a].path@
        != #[trigger] after[b].path@ by {
        if a < last {
            assert(at(nodes, a, nodes[a].path@));
        }
        if b < last {
            assert(at(nodes, b, nodes[b].path@));
        }
    }
    assert forall|path: Seq<char>| #[trigger]
        as_map(after).contains_key(path) == as_map(nodes).insert(
            node.path@,
            node.view(),
        ).contains_key(path) by {
        if as_map(after).contains_key(path) {
            let j = choose|j: int| at(after, j, path);
            if j < last {
                assert(at(nodes, j, path));
            }
        }
        if as_map(nodes).contains_key(path) {
            let j = choose|j: int| at(nodes, j, path);
            assert(at(after, j, path));
        }
        if path == node.path@ {
            assert(at(after, last, path));
        }
    }
    assert forall|path: Seq<char>| #[trigger] as_map(after).contains_key(path) implies as_map(after)[path]
        == as_map(nodes).insert(node.path@, node.view())[path] by {
        let j = choose|j: int| at(after, j, path);
        lemma_node_at(after, j);
        if j < last {
            lemma_node_at(nodes, j);
        }
    }
    assert(as_map(after) =~= as_map(nodes).insert(node.path@, node.view()));
}

/// Whether `path` names a file in the filesystem `files`.
pub open spec fn spec_is_file(files: Map<Seq<char>, NodeView>, path: Seq<char>) -> bool {
    files.contains_key(path) && files[path] is File
}

/// Whether `path` names a directory in the filesystem `files`.
pub open spec fn spec_is_dir(files: Map<Seq<char>, NodeView>, path: Seq<char>) -> bool {
    files.contains_key(path) && files[path] is Directory
}

/// The metadata that a lookup of `path` yields: that of the file, or none
/// where the path is no file or the file has none yet.
pub open spec fn spec_metadata(files: Map<Seq<char>, NodeView>, path: Seq<char>) -> Option<
    VfsMetadata,
> {
    if spec_is_file(files, path) {
        files[path]->metadata
    } else {
        None
    }
}

/// The filesystem `files` after the metadata of the file at `path` has been
/// replaced by `metadata`.
pub open spec fn spec_set_metadata(
    files: Map<Seq<char>, NodeView>,
    path: Seq<char>,
    metadata: VfsMetadata,
) -> Map<Seq<char>, NodeView> {
    files.insert(path, NodeView::File { content: files[path]->content, metadata: Some(metadata) })
}

/// The filesystem `files` after `content` has been written to `path`. A file
/// that existed keeps its metadata.
pub open spec fn spec_write_file(
    files: Map<Seq<char>, NodeView>,
    path: Seq<char>,
    content: Seq<u8>,
) -> Map<Seq<char>, NodeView> {
    files.insert(path, NodeView::File { content, metadata: spec_metadata(files, path) })
}

impl View for Vfs {
    type V = Map<Seq<char>, NodeView>;

    closed spec fn view(&self) -> Map<Seq<char>, NodeView> {
        as_map(self.nodes@)
    }
}

impl Vfs {
    #[verifier::type_invariant]
    spec fn distinct(self) -> bool {
        distinct_paths(self.nodes@)
    }

    /// An empty filesystem.
    pub fn new() -> (vfs: Vfs)
        ensures
            vfs@ == Map::<Seq<char>, NodeView>::empty(),
    {
        let vfs = Vfs { nodes: Vec::new() };
        assert(vfs@ =~= Map::<Seq<char>, NodeView>::empty()) by {
            assert forall|path: Seq<char>| !as_map(vfs.nodes@).contains_key(path) by {
                lemma_absent(vfs.nodes@, path);
            }
        }
        vfs
    }

    fn take_nodes(&mut self) -> (nodes: Vec<Node>)
        ensures
            nodes@ == old(self).nodes@,
    {
        let mut taken = Vfs { nodes: Vec::new() };
        core::mem::swap(self, &mut taken);
        taken.nodes
    }

    fn find(&self, path: &String) -> (found: Option<usize>)
        ensures
            match found {
                Some(i) => i < self.nodes@.len() && self.nodes@[i as int].path@ == path@
                    && self@.contains_key(path@) && self@[path@] == self.nodes@[i as int].view(),
                None => !self@.contains_key(path@),
            },
    {
        proof {
            use_type_invariant(self);
        }
        let mut i: usize = 0;
        while i < self.nodes.len()
            invariant
                i <= self.nodes@.len(),
                distinct_paths(self.nodes@),
                forall|j: int| 0 <= j < i ==> (#[trigger] self.nodes@[j]).path@ != path@,
            decreases self.nodes@.len() - i,
        {
            if self.nodes[i].path == *path {
                proof {
                    lemma_node_at(self.nodes@, i as int);
                }
                return Some(i);
            }
            i += 1;
        }
        proof {
            lemma_absent(self.nodes@, path@);
        }
        None
    }

    /// Whether `path` names a file.
    pub fn is_file(&self, path: &str) -> (file: bool)
        ensures
            file == spec_is_file(self@, path@),
    {
        let key = String::from_str(path);
        match self.find(&key) {
            Some(i) => !self.nodes[i].directory,
            None => false,
        }
    }

    /// Whether `path` names a directory.
    pub fn is_dir(&self, path: &str) -> (dir: bool)
        ensures
            dir == spec_is_dir(self@, path@),
    {
        let key = String::from_str(path);
        match self.find(&key) {
            Some(i) => self.nodes[i].directory,
            None => false,
        }
    }

    /// The bytes of the file at `path`; `NotFound` where the path names no
    /// file.
    pub fn read_file(&self, path: &str) -> (content: Result<Vec<u8>, VfsError>)
        ensures
            match content {
                Ok(bytes) => spec_is_file(self@, path@) && bytes@ == self@[path@]->content,
                Err(error) => !spec_is_file(self@, path@) && error == VfsError::NotFound,
            },
    {
        let key = String::from_str(path);
        match self.find(&key) {
            Some(i) => {
                if self.nodes[i].directory {
                    Err(VfsError::NotFound)
                } else {
                    Ok(self.nodes[i].content.clone())
                }
            },
            None => Err(VfsError::NotFound),
        }
    }

    /// The metadata of the file at `path`, if the path names a file and the
    /// file has metadata.
    pub fn metadata(&self, path: &str) -> (metadata: Option<VfsMetadata>)
        ensures
            metadata == spec_metadata(self@, path@),
    {
        let key = String::from_str(path);
        match self.find(&key) {
            Some(i) => {
                if self.nodes[i].directory {
                    None
                } else {
                    self.nodes[i].metadata
                }
            },
            None => None,
        }
    }

    /// Replaces the metadata of the file at `path`. Refused with `NotFound`,
    /// and nothing changed, where the path names no file.
    pub fn set_metadata(&mut self, path: &str, metadata: VfsMetadata) -> (done: Result<
        (),
        VfsError,
    >)
        ensures
            match done {
                Ok(_) => spec_is_file(old(self)@, path@) && final(self)@ == spec_set_metadata(
                    old(self)@,
                    path@,
                    metadata,
                ),
                Err(error) => !spec_is_file(old(self)@, path@) && error == VfsError::NotFound
                    && final(self)@ == old(self)@,
            },
    {
        proof {
            use_type_invariant(&*self);
        }
        let key = String::from_str(path);
        match self.find(&key) {
            Some(i) => {
                if self.nodes[i].directory {
                    Err(VfsError::NotFound)
                } else {
                    let content = self.nodes[i].content.clone();
                    let node = Node { path: key, directory: false, content, metadata: Some(metadata) };
                    proof {
                        lemma_replace(self.nodes@, i as int, node);
                    }
                    let mut nodes = self.take_nodes();
                    nodes.set(i, node);
                    *self = Vfs { nodes };
                    Ok(())
                }
            },
            None => Err(VfsError::NotFound),
        }
    }

    /// Writes `content` to the file at `path`, creating the file where the
    /// path is free. An existing file keeps its metadata. Refused with
    /// `IsDirectory`, and nothing changed, where the path names a directory.
    pub fn write_file(&mut self, path: &str, content: Vec<u8>) -> (done: Result<(), VfsError>)
        ensures
            match done {
                Ok(_) => !spec_is_dir(old(self)@, path@) && final(self)@ == spec_write_file(
                    old(self)@,
                    path@,
                    content@,
                ),
                Err(error) => spec_is_dir(old(self)@, path@) && error == VfsError::IsDirectory
                    && final(self)@ == old(self)@,
            },
    {
        proof {
            use_type_invariant(&*self);
        }
        let key = String::from_str(path);
        match self.find(&key) {
            Some(i) => {
                if self.nodes[i].directory {
                    Err(VfsError::IsDirectory)
                } else {
                    let metadata = self.nodes[i].metadata;
                    let node = Node { path: key, directory: false, content, metadata };
                    proof {
                        lemma_replace(self.nodes@, i as int, node);
                    }
                    let mut nodes = self.take_nodes();
                    nodes.set(i, node);
                    *self = Vfs { nodes };
                    Ok(())
                }
            },
            None => {
                let node = Node { path: key, directory: false, content, metadata: None };
                proof {
                    lemma_append(self.nodes@, node);
                }
                let mut nodes = self.take_nodes();
                nodes.push(node);
                *self = Vfs { nodes };
                Ok(())
            },
        }
    }

    /// Makes `path` a directory. Nothing changes where it already is one.
    /// Refused with `IsFile`, and nothing changed, where the path names a
    /// file.
    pub fn create_dir(&mut self, path: &str) -> (done: Result<(), VfsError>)
        ensures
            match done {
                Ok(_) => !spec_is_file(old(self)@, path@) && final(self)@ == old(self)@.insert(
                    path@,
                    NodeView::Directory,
                ),
                Err(error) => spec_is_file(old(self)@, path@) && error == VfsError::IsFile
                    && final(self)@ == old(self)@,
            },
    {
        proof {
            use_type_invariant(&*self);
        }
        let key = String::from_str(path);
        match self.find(&key) {
            Some(i) => {
                if self.nodes[i].directory {
                    assert(self@ =~= self@.insert(path@, NodeView::Directory));
                    Ok(())
                } else {
                    Err(VfsError::IsFile)
                }
            },
            None => {
                let node = Node { path: key, directory: true, content: Vec::new(), metadata: None };
                proof {
                    lemma_append(self.nodes@, node);
                }
                let mut nodes = self.take_nodes();
                nodes.push(node);
                *self = Vfs { nodes };
                Ok(())
            },
        }
    }
}

/// Whether `directory` is `path` itself or one of the directories above it:
/// a beginning of `path`, not empty, that ends where `path` ends or where a
/// separator follows.
pub open spec fn spec_is_ancestor(path: Seq<char>, directory: Seq<char>) -> bool {
    &&& 0 < directory.len() <= path.len()
    &&& path.take(directory.len() as int) == directory
    &&& directory.len() == path.len() || path[directory.len() as int] == '/'
}

/// Whether a file stands where `path` or a directory above it would have
/// to be.
pub open spec fn spec_is_blocked(files: Map<Seq<char>, NodeView>, path: Seq<char>) -> bool {
    exists|directory: Seq<char>|
        #[trigger] spec_is_ancestor(path, directory) && spec_is_file(files, directory)
}

/// The filesystem `files` after `path` and every directory above it have
/// been made directories.
pub open spec fn spec_create_dir_all(files: Map<Seq<char>, NodeView>, path: Seq<char>) -> Map<
    Seq<char>,
    NodeView,
> {
    Map::new(
        |at: Seq<char>| files.contains_key(at) || spec_is_ancestor(path, at),
        |at: Seq<char>|
            if spec_is_ancestor(path, at) {
                NodeView::Directory
            } else {
                files[at]
            },
    )
}

spec fn with_directories(files: Map<Seq<char>, NodeView>, directories: Seq<Seq<char>>) -> Map<
    Seq<char>,
    NodeView,
> {
    Map::new(
        |at: Seq<char>| files.contains_key(at) || directories.contains(at),
        |at: Seq<char>|
            if directories.contains(at) {
                NodeView::Directory
            } else {
                files[at]
            },
    )
}

/// `path` and the directories above it, the outermost first.
pub fn ancestors(path: &str) -> (directories: Vec<String>)
    ensures
        forall|k: int|
            0 <= k < directories@.len() ==> spec_is_ancestor(
                path@,
                #[trigger] spec_texts(directories@)[k],
            ),
        forall|directory: Seq<char>| #[trigger]
            spec_is_ancestor(path@, directory) ==> spec_texts(directories@).contains(directory),
        forall|k: int, l: int|
            0 <= k < l < directories@.len() ==> spec_texts(directories@)[k].len() < spec_texts(
                directories@,
            )[l].len(),
{
    let length = path.unicode_len();
    let mut directories: Vec<String> = Vec::new();
    let mut i: usize = 0;
    while i < length
        invariant
            i <= length,
            length == path@.len(),
            forall|k: int|
                0 <= k < directories@.len() ==> spec_is_ancestor(
                    path@,
                    #[trigger] spec_texts(directories@)[k],
                ),
            forall|directory: Seq<char>| #[trigger]
                spec_is_ancestor(path@, directory) && directory.len() <= i ==> spec_texts(
                    directories@,
                ).contains(directory),
            forall|k: int|
                0 <= k < directories@.len() ==> (#[trigger] spec_texts(directories@)[k]).len() <= i,
            forall|k: int, l: int|
                0 <= k < l < directories@.len() ==> spec_texts(directories@)[k].len() < spec_texts(
                    directories@,
                )[l].len(),
        decreases length - i,
    {
        i += 1;
        let ends = if i == length {
            true
        } else {
            path.get_char(i) == '/'
        };
        if ends {
            let ghost before = spec_texts(directories@);
            let directory = String::from_str(path.substring_char(0, i));
            directories.push(directory);
            proof {
                let after = spec_texts(directories@);
                assert(after =~= before.push(path@.take(i as int)));
                assert(path@.subrange(0, i as int) =~= path@.take(i as int));
                assert forall|k: int| 0 <= k < after.len() implies spec_is_ancestor(
                    path@,
                    #[trigger] after[k],
                ) by {
                    if k < before.len() {
                        assert(after[k] == before[k]);
                    } else {
                        assert(path@.take(i as int).len() == i);
                        assert(path@.take(path@.take(i as int).len() as int) =~= path@.take(
                            i as int,
                        ));
                    }
                }
                assert forall|directory: Seq<char>| #[trigger]
                    spec_is_ancestor(path@, directory) && directory.len()
                        <= i implies after.contains(directory) by {
                    if directory.len() < i {
                        assert(before.contains(directory));
                        let k = choose|k: int| 0 <= k < before.len() && before[k] == directory;
                        assert(after[k] == directory);
                    } else {
                        assert(after[after.len() - 1] == directory);
                    }
                }
            }
        } else {
            assert forall|directory: Seq<char>| #[trigger]
                spec_is_ancestor(path@, directory) && directory.len() <= i implies spec_texts(
                directories@,
            ).contains(directory) by {
                assert(directory.len() != i);
            }
        }
    }
    directories
}

impl Vfs {
    /// Makes `path` and every directory above it a directory. What is a
    /// directory already stays one.
    ///
    /// Refused with `IsFile`, and nothing changed, where `path` or a
    /// directory above it is a file.
    pub fn create_dir_all(&mut self, path: &str) -> (done: Result<(), VfsError>)
        ensures
            match done {
                Ok(_) => !spec_is_blocked(old(self)@, path@) && final(self)@
                    == spec_create_dir_all(old(self)@, path@),
                Err(error) => spec_is_blocked(old(self)@, path@) && error == VfsError::IsFile
                    && final(self)@ == old(self)@,
            },
    {
        let directories = ancestors(path);
        let ghost wanted = spec_texts(directories@);
        let mut i: usize = 0;
        while i < directories.len()
            invariant
                i <= directories@.len(),
                wanted == spec_texts(directories@),
                self@ == old(self)@,
                forall|k: int| 0 <= k < i ==> !spec_is_file(self@, #[trigger] wanted[k]),
                forall|k: int| 0 <= k < wanted.len() ==> spec_is_ancestor(path@, #[trigger] wanted[k]),
            decreases directories@.len() - i,
        {
            assert(wanted[i as int] == directories@[i as int]@);
            if self.is_file(directories[i].as_str()) {
                assert(spec_is_ancestor(path@, wanted[i as int]));
                return Err(VfsError::IsFile);
            }
            i += 1;
        }
        assert(!spec_is_blocked(self@, path@)) by {
            if spec_is_blocked(self@, path@) {
                let directory = choose|directory: Seq<char>| #[trigger]
                    spec_is_ancestor(path@, directory) && spec_is_file(self@, directory);
                assert(wanted.contains(directory));
                let k = choose|k: int| 0 <= k < wanted.len() && wanted[k] == directory;
                assert(!spec_is_file(self@, wanted[k]));
            }
        }
        let mut j: usize = 0;
        assert(self@ =~= with_directories(old(self)@, wanted.take(0)));
        while j < directories.len()
            invariant
                j <= directories@.len(),
                wanted == spec_texts(directories@),
                forall|k: int| 0 <= k < wanted.len() ==> !spec_is_file(old(self)@, #[trigger] wanted[k]),
                self@ == with_directories(old(self)@, wanted.take(j as int)),
            decreases directories@.len() - j,
        {
            proof {
                assert(wanted[j as int] == directories@[j as int]@);
                assert(!spec_is_file(old(self)@, wanted[j as int]));
                assert(!spec_is_file(self@, wanted[j as int]));
            }
            let ghost before = self@;
            match self.create_dir(directories[j].as_str()) {
                Ok(_) => {},
                Err(_) => {},
            }
            proof {
                let made = wanted.take(j as int);
                let more = wanted.take(j + 1);
                assert(more =~= made.push(wanted[j as int]));
                assert forall|at: Seq<char>| more.contains(at) <==> (made.contains(at) || at
                    == wanted[j as int]) by {
                    if made.contains(at) {
                        let k = choose|k: int| 0 <= k < made.len() && made[k] == at;
                        assert(more[k] == at);
                    }
                    if at == wanted[j as int] {
                        assert(more[j as int] == at);
                    }
                    if more.contains(at) {
                        let k = choose|k: int| 0 <= k < more.len() && more[k] == at;
                        if k < j {
                            assert(made[k] == at);
                        }
                    }
                }
                assert(self@ =~= with_directories(old(self)@, more));
            }
            j += 1;
        }
        proof {
            assert(wanted.take(directories@.len() as int) =~= wanted);
            assert forall|at: Seq<char>| wanted.contains(at) <==> spec_is_ancestor(path@, at) by {
                if wanted.contains(at) {
                    let k = choose|k: int| 0 <= k < wanted.len() && wanted[k] == at;
                    assert(spec_is_ancestor(path@, wanted[k]));
                }
            }
            assert(self@ =~= spec_create_dir_all(old(self)@, path@));
        }
        Ok(())
    }
}

} // verus!
