//! The inode table and the calls of the directory protocol.
//!
//! The table is built once, from the documents that the store knows at that
//! time: a directory for each, with its six files, all listed under the
//! root. After that it is only read. Contents are not kept in the table: a
//! read asks the store for them.

use std::collections::HashMap;
use vstd::prelude::*;
use vstd::string::StringExecFns;
use crate::decimal::decimal_string;
use crate::fs::file::{inode_num, lemma_inode_parts, XkcdDir, XkcdFile};
use crate::fs::table::{
    content_answer, dir_attr, dir_entry, doc_children, doc_files, doc_inode, dot_entries,
    empty_table, file_attr, file_content, file_entry, file_inode, find_child, getattr_answer,
    inode_wf, lemma_children_bound, lemma_extends_twice, lemma_with_document, lemma_with_files,
    listing, listing_from, lookup_answer, meta_content, read_target, read_window, readdir_answer,
    root_children, root_with, table_extends, table_wf, with_document, with_documents, with_files,
    DirEntryView,
    DirectoryView, INodeKindView, INodeView,
};
use crate::storage::Storage;
use crate::xkcd::{Xkcd, XkcdView};

verus! {

broadcast use vstd::std_specs::hash::group_hash_axioms;

/// The inode number of the root directory.
pub const ROOT_INO: u64 = 1;

/// For how many seconds the kernel may keep an answer.
pub const TTL_SECONDS: u64 = 60;

/// Why a call of the directory protocol fails.
#[derive(Debug, Clone, Copy, PartialEq, Eq, Structural)]
pub enum FsError {
    /// There is no such entry, or its content could not be had.
    NotFound,
    /// The entry is a directory and was asked for as a file.
    IsDirectory,
}

/// The two kinds of entry.
#[derive(Debug, Clone, Copy, PartialEq, Eq, Structural)]
pub enum FileType {
    Directory,
    RegularFile,
}

/// The attributes of an entry. Times are seconds of the Unix epoch.
#[derive(Debug, Clone, Copy, PartialEq, Eq, Structural)]
pub struct FileAttr {
    pub ino: u64,
    pub size: u64,
    pub blocks: u64,
    pub atime: i64,
    pub mtime: i64,
    pub ctime: i64,
    pub crtime: i64,
    pub kind: FileType,
    pub perm: u16,
    pub nlink: u32,
    pub uid: u32,
    pub gid: u32,
    pub rdev: u32,
    pub flags: u32,
    pub blksize: u32,
}

/// The children of a directory as plain values.
pub open spec fn children_view(children: Seq<(String, u64)>) -> Seq<(Seq<char>, u64)> {
    Seq::new(children.len(), |i: int| (children[i].0@, children[i].1))
}

struct Directory {
    children: Vec<(String, u64)>,
    parent: Option<u64>,
}

enum INodeKind {
    Directory(Directory),
    File(XkcdFile),
}

/// An entry of the table: its attributes and what it is.
pub struct INode {
    attrs: FileAttr,
    kind: INodeKind,
}

impl View for INode {
    type V = INodeView;

    closed spec fn view(&self) -> INodeView {
        INodeView {
            attrs: self.attrs,
            kind: match self.kind {
                INodeKind::Directory(dir) => INodeKindView::Directory(
                    DirectoryView { children: children_view(dir.children@), parent: dir.parent },
                ),
                INodeKind::File(file) => INodeKindView::File(file),
            },
        }
    }
}

impl INode {
    /// A directory without children.
    fn dir(ino: u64, parent: Option<u64>, time: i64) -> (node: INode)
        ensures
            node@ == (INodeView {
                attrs: dir_attr(ino, time),
                kind: INodeKindView::Directory(
                    DirectoryView { children: Seq::empty(), parent },
                ),
            }),
    {
        let node = INode {
            attrs: FileAttr {
                ino,
                size: 0,
                blocks: 0,
                atime: time,
                mtime: time,
                ctime: time,
                crtime: time,
                kind: FileType::Directory,
                perm: 0o555,
                nlink: 2,
                uid: 1000,
                gid: 10,
                rdev: 0,
                flags: 0,
                blksize: 512,
            },
            kind: INodeKind::Directory(Directory { children: Vec::new(), parent }),
        };
        assert(children_view(Seq::<(String, u64)>::empty()) =~= Seq::empty());
        node
    }
}

/// The projection of a store of documents as a directory tree.
pub struct XkcdFS<S: Storage> {
    inodes: HashMap<u64, INode>,
    ttl: u64,
    storage: S,
}

/// The table as plain values.
pub closed spec fn table_view(inodes: Map<u64, INode>) -> Map<u64, INodeView> {
    Map::new(|ino: u64| inodes.contains_key(ino), |ino: u64| inodes[ino]@)
}

impl<S: Storage> View for XkcdFS<S> {
    type V = Map<u64, INodeView>;

    closed spec fn view(&self) -> Map<u64, INodeView> {
        table_view(self.inodes@)
    }
}

fn find_in(children: &Vec<(String, u64)>, name: &String) -> (found: Option<u64>)
    ensures
        found == find_child(children_view(children@), name@),
{
    let ghost all = children_view(children@);
    assert(all.skip(0) =~= all);
    let mut i: usize = 0;
    while i < children.len()
        invariant
            0 <= i <= children.len(),
            all == children_view(children@),
            find_child(all, name@) == find_child(all.skip(i as int), name@),
        decreases children.len() - i,
    {
        let ghost rest = all.skip(i as int);
        assert(rest[0] == all[i as int]);
        assert(rest.drop_first() =~= all.skip(i + 1));
        if children[i].0 == *name {
            return Some(children[i].1);
        }
        i = i + 1;
    }
    assert(all.skip(i as int).len() == 0);
    None
}

impl<S: Storage> XkcdFS<S> {
    /// The tree is well formed.
    pub open spec fn wf(&self) -> bool {
        table_wf(self@)
    }

    /// The store that the tree reads from.
    pub closed spec fn store(&self) -> S {
        self.storage
    }

    /// For how many seconds the kernel may keep an answer of this tree.
    pub closed spec fn spec_ttl(&self) -> u64 {
        self.ttl
    }

    /// A tree over `xkcd_storage` that holds the root alone.
    pub fn new(xkcd_storage: S) -> (fs: Self)
        ensures
            fs@ == empty_table(),
            fs.wf(),
            fs.store() == xkcd_storage,
            fs.spec_ttl() == TTL_SECONDS,
    {
        let mut inodes: HashMap<u64, INode> = HashMap::new();
        inodes.insert(ROOT_INO, INode::dir(ROOT_INO, None, 0));
        let fs = XkcdFS { inodes, ttl: TTL_SECONDS, storage: xkcd_storage };
        assert(fs@ =~= empty_table());
        fs
    }

    /// For how many seconds the kernel may keep an answer of this tree.
    pub fn ttl(&self) -> (secs: u64)
        ensures
            secs == self.spec_ttl(),
    {
        self.ttl
    }

    /// The attributes of the child `name` of the directory `parent`.
    pub fn lookup(&self, parent: u64, name: &str) -> (answer: Result<FileAttr, FsError>)
        ensures
            answer == lookup_answer(self@, parent, name@),
    {
        let name = String::from_str(name);
        match self.inodes.get(&parent) {
            None => Err(FsError::NotFound),
            Some(node) => match &node.kind {
                INodeKind::File(_) => Err(FsError::NotFound),
                INodeKind::Directory(dir) => match find_in(&dir.children, &name) {
                    None => Err(FsError::NotFound),
                    Some(ino) => match self.inodes.get(&ino) {
                        None => Err(FsError::NotFound),
                        Some(child) => Ok(child.attrs),
                    },
                },
            },
        }
    }

    /// The attributes of the entry `ino`.
    pub fn getattr(&self, ino: u64) -> (answer: Result<FileAttr, FsError>)
        ensures
            answer == getattr_answer(self@, ino),
    {
        match self.inodes.get(&ino) {
            None => Err(FsError::NotFound),
            Some(node) => Ok(node.attrs),
        }
    }
}

/// What the store returned for an image, as plain values.
pub open spec fn image_view(image: Option<Vec<u8>>) -> Option<Seq<u8>> {
    match image {
        Some(data) => Some(data@),
        None => None,
    }
}

/// What the store returned for the metadata, as plain values.
pub open spec fn meta_view(meta: Option<Xkcd>) -> Option<XkcdView> {
    match meta {
        Some(m) => Some(m@),
        None => None,
    }
}

/// The answer to a read as plain values.
pub open spec fn bytes_view(answer: Result<Vec<u8>, FsError>) -> Result<Seq<u8>, FsError> {
    match answer {
        Ok(bytes) => Ok(bytes@),
        Err(e) => Err(e),
    }
}

/// The part of `data` that a read gives.
pub fn window(data: &Vec<u8>, offset: i64, size: u32, attr_size: u64) -> (bytes: Vec<u8>)
    ensures
        bytes@ == read_window(data@, offset as int, size as int, attr_size as int),
{
    if offset < 0 {
        return Vec::new();
    }
    let start: u64 = offset as u64;
    let mut end: u64 = start + size as u64;
    if end > attr_size {
        end = attr_size;
    }
    let len: usize = data.len();
    if end > len as u64 {
        end = len as u64;
    }
    if start >= end {
        return Vec::new();
    }
    let part = vstd::slice::slice_subrange(data.as_slice(), start as usize, end as usize);
    vstd::slice::slice_to_vec(part)
}

/// The bytes of one of the five text files of a document.
pub fn file_bytes(file: &XkcdFile, meta: &Xkcd) -> (bytes: Vec<u8>)
    ensures
        bytes@ == file_content(*file, meta@),
{
    match file {
        XkcdFile::Num(_) => decimal_string(meta.num).as_str().as_bytes_vec(),
        XkcdFile::Title(_) => meta.title.as_str().as_bytes_vec(),
        XkcdFile::Image(_) => Vec::new(),
        XkcdFile::Alt(_) => meta.alt.as_str().as_bytes_vec(),
        XkcdFile::Transcript(_) => meta.transcript.as_str().as_bytes_vec(),
        XkcdFile::ReleaseDate(_) => meta.release_date.to_text().as_str().as_bytes_vec(),
    }
}

/// The answer to a read of an image file, given what the store returned for
/// the image.
pub fn image_reply(image: Option<Vec<u8>>, offset: i64, size: u32, attr_size: u64) -> (answer:
    Result<Vec<u8>, FsError>)
    ensures
        bytes_view(answer) == content_answer(
            image_view(image),
            offset as int,
            size as int,
            attr_size as int,
        ),
{
    match image {
        Some(data) => Ok(window(&data, offset, size, attr_size)),
        None => Err(FsError::NotFound),
    }
}

/// The answer to a read of one of the five text files, given what the store
/// returned for the metadata.
pub fn meta_reply(
    meta: Option<Xkcd>,
    file: &XkcdFile,
    offset: i64,
    size: u32,
    attr_size: u64,
) -> (answer: Result<Vec<u8>, FsError>)
    ensures
        bytes_view(answer) == content_answer(
            meta_content(*file, meta_view(meta)),
            offset as int,
            size as int,
            attr_size as int,
        ),
{
    match meta {
        Some(m) => {
            let data = file_bytes(file, &m);
            Ok(window(&data, offset, size, attr_size))
        },
        None => Err(FsError::NotFound),
    }
}

/// One line of a directory listing. `offset` is what a later listing is
/// asked with to go on behind this entry.
#[derive(Debug, PartialEq, Eq)]
pub struct DirEntry {
    pub ino: u64,
    pub offset: i64,
    pub kind: FileType,
    pub name: String,
}

impl Clone for DirEntry {
    fn clone(&self) -> (copy: DirEntry)
        ensures
            copy == *self,
    {
        DirEntry { ino: self.ino, offset: self.offset, kind: self.kind, name: self.name.clone() }
    }
}

impl View for DirEntry {
    type V = DirEntryView;

    open spec fn view(&self) -> DirEntryView {
        DirEntryView { ino: self.ino, offset: self.offset, kind: self.kind, name: self.name@ }
    }
}

/// A listing as plain values.
pub open spec fn entries_view(entries: Seq<DirEntry>) -> Seq<DirEntryView> {
    Seq::new(entries.len(), |i: int| entries[i]@)
}

/// The answer to a listing as plain values.
pub open spec fn listing_view(answer: Result<Vec<DirEntry>, FsError>) -> Result<
    Seq<DirEntryView>,
    FsError,
> {
    match answer {
        Ok(entries) => Ok(entries_view(entries@)),
        Err(e) => Err(e),
    }
}

impl<S: Storage> XkcdFS<S> {
    /// Which file a read of `ino` is about, with the size that its
    /// attributes give.
    pub fn read_file(&self, ino: u64) -> (target: Result<(XkcdFile, u64), FsError>)
        ensures
            match target {
                Ok((file, size)) => read_target(self@, ino) == Ok::<XkcdFile, FsError>(file) && size
                    == self@[ino].attrs.size,
                Err(e) => read_target(self@, ino) == Err::<XkcdFile, FsError>(e),
            },
    {
        match self.inodes.get(&ino) {
            None => Err(FsError::NotFound),
            Some(node) => match &node.kind {
                INodeKind::Directory(_) => Err(FsError::IsDirectory),
                INodeKind::File(file) => Ok((*file, node.attrs.size)),
            },
        }
    }

    /// Reads up to `size` bytes at `offset` from the file `ino`. The content
    /// is asked of the store: the image for an image file, the metadata for
    /// the others. The answer is what `image_reply` or `meta_reply` makes
    /// of what the store returned, whatever that was.
    pub fn read(&self, ino: u64, offset: i64, size: u32) -> (answer: Result<Vec<u8>, FsError>)
        ensures
            match read_target(self@, ino) {
                Err(e) => answer == Err::<Vec<u8>, FsError>(e),
                Ok(XkcdFile::Image(_)) => exists|image: Option<Seq<u8>>|
                    bytes_view(answer) == #[trigger] content_answer(
                        image,
                        offset as int,
                        size as int,
                        self@[ino].attrs.size as int,
                    ),
                Ok(file) => exists|meta: Option<XkcdView>|
                    bytes_view(answer) == content_answer(
                        #[trigger] meta_content(file, meta),
                        offset as int,
                        size as int,
                        self@[ino].attrs.size as int,
                    ),
            },
            answer matches Ok(bytes) ==> {
                &&& bytes.len() <= size
                &&& bytes.len() == 0 || 0 <= offset && offset + bytes.len()
                    <= self@[ino].attrs.size
            },
    {
        match self.read_file(ino) {
            Err(e) => Err(e),
            Ok((file, attr_size)) => match file {
                XkcdFile::Image(num) => {
                    let image = self.storage.get_image(num);
                    let ghost seen = image_view(image);
                    let answer = image_reply(image, offset, size, attr_size);
                    assert(bytes_view(answer) == content_answer(
                        seen,
                        offset as int,
                        size as int,
                        attr_size as int,
                    ));
                    answer
                },
                _ => {
                    let meta = self.storage.get_meta(file.document());
                    let ghost seen = meta_view(meta);
                    let answer = meta_reply(meta, &file, offset, size, attr_size);
                    assert(bytes_view(answer) == content_answer(
                        meta_content(file, seen),
                        offset as int,
                        size as int,
                        attr_size as int,
                    ));
                    answer
                },
            },
        }
    }

    /// Lists the directory `ino` from the place `offset` on: all of it for
    /// an offset of zero, and what follows an entry for that entry's offset.
    pub fn readdir(&self, ino: u64, offset: i64) -> (answer: Result<Vec<DirEntry>, FsError>)
        requires
            self.wf(),
        ensures
            listing_view(answer) == readdir_answer(self@, ino, offset as int),
    {
        let node = match self.inodes.get(&ino) {
            None => { return Err(FsError::NotFound); },
            Some(node) => node,
        };
        let dir = match &node.kind {
            INodeKind::File(_) => { return Err(FsError::NotFound); },
            INodeKind::Directory(dir) => dir,
        };
        proof {
            lemma_children_bound(self@, ino);
            reveal_strlit(".");
            reveal_strlit("..");
            assert("."@ =~= seq!['.']);
            assert(".."@ =~= seq!['.', '.']);
        }
        let ghost dir_view = self@[ino].kind->Directory_0;
        let ghost all = listing(self@, ino, dir_view);
        let ghost dots = dot_entries(ino, dir.parent);
        let mut entries: Vec<DirEntry> = Vec::new();
        let first: u64 = if offset <= 0 {
            0
        } else {
            offset as u64
        };
        if first == 0 {
            entries.push(
                DirEntry {
                    ino,
                    offset: 1,
                    kind: FileType::Directory,
                    name: String::from_str("."),
                },
            );
        }
        let base: u64 = match dir.parent {
            Some(parent) => {
                if first <= 1 {
                    entries.push(
                        DirEntry {
                            ino: parent,
                            offset: 2,
                            kind: FileType::Directory,
                            name: String::from_str(".."),
                        },
                    );
                }
                2
            },
            None => 1,
        };
        let count: usize = dir.children.len();
        let mut i: usize = if first > base {
            if first - base >= count as u64 {
                count
            } else {
                (first - base) as usize
            }
        } else {
            0
        };
        let ghost from: int = if first as int >= all.len() {
            all.len() as int
        } else {
            first as int
        };
        assert(self@[ino] == node@);
        assert(dir_view.children == children_view(dir.children@));
        assert(dir_view.parent == dir.parent);
        assert(all.len() == base + count);
        assert(entries_view(entries@) =~= all.subrange(from, base as int + i as int)) by {
            let had = entries_view(entries@);
            let want = all.subrange(from, base as int + i as int);
            assert(had.len() == want.len());
            assert forall|k: int| 0 <= k < had.len() implies had[k] == want[k] by {
                assert(want[k] == dots[from + k]);
            }
        }
        while i < count
            invariant
                0 <= i <= count,
                count == dir.children.len(),
                count <= 0x1_0000_0000,
                base == dots.len(),
                1 <= base <= 2,
                self.wf(),
                self.inodes@.contains_key(ino),
                self@.contains_key(ino),
                self@[ino].kind == INodeKindView::Directory(dir_view),
                dir_view.children == children_view(dir.children@),
                dir_view.parent == dir.parent,
                dots == dot_entries(ino, dir.parent),
                all == listing(self@, ino, dir_view),
                all.len() == base + count,
                0 <= from <= base + i,
                entries_view(entries@) =~= all.subrange(from, base as int + i as int),
            decreases count - i,
        {
            let child = &dir.children[i];
            assert(dir_view.children[i as int] == (child.0@, child.1));
            assert(self@.contains_key(child.1)) by {
                if ino == ROOT_INO {
                    assert(root_children(self@)[i as int] == dir_view.children[i as int]);
                } else {
                    assert(inode_wf(self@, ino, self@[ino]));
                    let file = doc_files(inode_num(ino))[i as int];
                    assert(dir_view.children[i as int] == file_entry(file));
                }
            }
            let kind = match self.inodes.get(&child.1) {
                Some(node) => match &node.kind {
                    INodeKind::Directory(_) => FileType::Directory,
                    INodeKind::File(_) => FileType::RegularFile,
                },
                None => FileType::RegularFile,
            };
            let entry = DirEntry {
                ino: child.1,
                offset: (base + i as u64 + 1) as i64,
                kind,
                name: child.0.clone(),
            };
            assert(entry@ == all[base as int + i as int]);
            let ghost before = entries_view(entries@);
            entries.push(entry);
            assert(entries_view(entries@) =~= before.push(entry@));
            i = i + 1;
        }
        assert(entries_view(entries@) =~= listing_from(all, offset as int));
        Ok(entries)
    }
}

/// The attributes of a file.
fn init_file_attr(ino: u64, time: i64, size: u64) -> (attrs: FileAttr)
    ensures
        attrs == file_attr(ino, time, size),
{
    FileAttr {
        ino,
        size,
        blocks: 0,
        atime: time,
        mtime: time,
        ctime: time,
        crtime: time,
        kind: FileType::RegularFile,
        perm: 0o444,
        nlink: 2,
        uid: 1000,
        gid: 10,
        rdev: 0,
        flags: 0,
        blksize: 512,
    }
}

/// The attributes and the name of one file of a document. `image_size` is
/// what the store said of the length of the document's image.
fn init_meta_file(meta: &Xkcd, file: &XkcdFile, image_size: Option<u64>) -> (made: (
    FileAttr,
    String,
))
    ensures
        made.0 == file_inode(*file, meta@, image_size).attrs,
        made.1@ == file.spec_name(),
{
    let file_ino = file.inode();
    let time = meta.release_date_as_timestamp();
    let size: u64 = match file {
        XkcdFile::Num(_) => decimal_string(meta.num).as_str().as_bytes().len() as u64,
        XkcdFile::Title(_) => meta.title.as_str().as_bytes().len() as u64,
        XkcdFile::Image(_) => match image_size {
            Some(size) => size,
            None => 0,
        },
        XkcdFile::Alt(_) => meta.alt.as_str().as_bytes().len() as u64,
        XkcdFile::Transcript(_) => meta.transcript.as_str().as_bytes().len() as u64,
        XkcdFile::ReleaseDate(_) => meta.release_date.to_text().as_str().as_bytes().len() as u64,
    };
    (init_file_attr(file_ino, time, size), file.name())
}

/// The six files of a document, in listing order, each with its
/// attributes and its name.
fn init_meta_files(meta: &Xkcd, image_size: Option<u64>) -> (made: Vec<(XkcdFile, FileAttr, String)>)
    ensures
        made.len() == 6,
        forall|k: int|
            0 <= k < 6 ==> {
                let entry = #[trigger] made[k];
                &&& entry.0 == doc_files(meta.num)[k]
                &&& entry.1 == file_inode(entry.0, meta@, image_size).attrs
                &&& entry.2@ == entry.0.spec_name()
            },
{
    let files = [
        XkcdFile::Image(meta.num),
        XkcdFile::Num(meta.num),
        XkcdFile::Title(meta.num),
        XkcdFile::Alt(meta.num),
        XkcdFile::Transcript(meta.num),
        XkcdFile::ReleaseDate(meta.num),
    ];
    let mut made: Vec<(XkcdFile, FileAttr, String)> = Vec::new();
    let mut i: usize = 0;
    while i < 6
        invariant
            0 <= i <= 6,
            made.len() == i,
            files@ =~= doc_files(meta.num),
            forall|k: int|
                0 <= k < i ==> {
                    let entry = #[trigger] made[k];
                    &&& entry.0 == doc_files(meta.num)[k]
                    &&& entry.1 == file_inode(entry.0, meta@, image_size).attrs
                    &&& entry.2@ == entry.0.spec_name()
                },
        decreases 6 - i,
    {
        let file = files[i];
        let (attrs, name) = init_meta_file(meta, &file, image_size);
        made.push((file, attrs, name));
        i = i + 1;
    }
    made
}

/// Adds the six files of a document to the table and lists them in
/// `children`.
fn init_dir_contents(
    inodes: &mut HashMap<u64, INode>,
    meta: &Xkcd,
    image_size: Option<u64>,
    children: &mut Vec<(String, u64)>,
)
    requires
        old(children)@.len() == 0,
    ensures
        table_view(final(inodes)@) == with_files(table_view(old(inodes)@), meta@, image_size, 6),
        children_view(final(children)@) == doc_children(meta.num),
{
    let meta_files = init_meta_files(meta, image_size);
    let ghost start = table_view(inodes@);
    let mut i: usize = 0;
    while i < 6
        invariant
            0 <= i <= 6,
            meta_files.len() == 6,
            forall|k: int|
                0 <= k < 6 ==> {
                    let entry = #[trigger] meta_files[k];
                    &&& entry.0 == doc_files(meta.num)[k]
                    &&& entry.1 == file_inode(entry.0, meta@, image_size).attrs
                    &&& entry.2@ == entry.0.spec_name()
                },
            table_view(inodes@) == with_files(start, meta@, image_size, i as int),
            children.len() == i,
            forall|k: int|
                0 <= k < i ==> #[trigger] children_view(children@)[k] == doc_children(
                    meta.num,
                )[k],
        decreases 6 - i,
    {
        let entry = &meta_files[i];
        let file = entry.0;
        let attrs = entry.1;
        let name = entry.2.clone();
        let ghost before = inodes@;
        let ghost had = children_view(children@);
        let node = INode { attrs, kind: INodeKind::File(file) };
        assert(node@ == file_inode(file, meta@, image_size));
        children.push((name, attrs.ino));
        inodes.insert(attrs.ino, node);
        assert(table_view(inodes@) =~= table_view(before).insert(attrs.ino, node@));
        assert(children_view(children@) =~= had.push(file_entry(file)));
        i = i + 1;
    }
    assert(children_view(children@) =~= doc_children(meta.num));
}

impl<S: Storage> XkcdFS<S> {
    /// Adds the document with the metadata `meta` to the tree: a directory
    /// with its six files, listed last in the root. `image_size` is what the
    /// store said of the length of the document's image. A document that
    /// the tree already has is left as it is.
    pub fn init_dir(&mut self, meta: &Xkcd, image_size: Option<u64>)
        requires
            old(self).wf(),
        ensures
            final(self)@ == with_document(old(self)@, meta@, image_size),
            final(self).wf(),
            final(self).store() == old(self).store(),
            final(self).spec_ttl() == old(self).spec_ttl(),
    {
        let dir = XkcdDir::Dir(meta.num);
        let ino = dir.inode();
        proof {
            lemma_with_document(self@, meta@, image_size);
            lemma_inode_parts(meta.num, 2);
        }
        if self.inodes.contains_key(&ino) {
            return ;
        }
        let ghost start = self@;
        let mut children: Vec<(String, u64)> = Vec::new();
        init_dir_contents(&mut self.inodes, meta, image_size, &mut children);
        let ghost files = self@;
        let time = meta.release_date_as_timestamp();
        let mut node = INode::dir(ino, Some(ROOT_INO), time);
        node.kind = INodeKind::Directory(Directory { children, parent: Some(ROOT_INO) });
        assert(node@ == doc_inode(meta@));
        self.inodes.insert(ino, node);
        assert(self@ =~= files.insert(ino, doc_inode(meta@)));
        proof {
            lemma_with_files(start, meta@, image_size, 6);
        }
        let ghost listed = self@;
        assert(listed.contains_key(ROOT_INO) && listed[ROOT_INO] == start[ROOT_INO]);
        let ghost held = self.inodes@;
        match self.inodes.remove(&ROOT_INO) {
            Some(root) => {
                assert(root == held[ROOT_INO]);
                assert(root@ == start[ROOT_INO]);
                let attrs = root.attrs;
                match root.kind {
                    INodeKind::Directory(root_dir) => {
                        let mut list = root_dir.children;
                        let ghost had = children_view(list@);
                        assert(had == root_children(start));
                        list.push((dir.name(), ino));
                        assert(children_view(list@) =~= had.push(dir_entry(meta.num)));
                        let root = INode {
                            attrs,
                            kind: INodeKind::Directory(
                                Directory { children: list, parent: root_dir.parent },
                            ),
                        };
                        assert(root@ == root_with(start, dir_entry(meta.num)));
                        self.inodes.insert(ROOT_INO, root);
                        assert(self@ =~= listed.insert(
                            ROOT_INO,
                            root_with(start, dir_entry(meta.num)),
                        ));
                    },
                    INodeKind::File(file) => {
                        assert(false);
                    },
                }
            },
            None => {
                assert(false);
            },
        }
    }

    /// Builds the tree from what the store knows now: asks it for the ids
    /// it holds, then for the metadata and the image length of each, and
    /// adds each document that it gave metadata for, in that order, as
    /// `init_dir` says. What was in the tree stays. It never fails.
    pub fn init(&mut self) -> (done: Result<(), i32>)
        requires
            old(self).wf(),
        ensures
            done is Ok,
            final(self).wf(),
            exists|docs: Seq<(XkcdView, Option<u64>)>|
                final(self)@ == #[trigger] with_documents(old(self)@, docs),
            table_extends(old(self)@, final(self)@),
            final(self).store() == old(self).store(),
            final(self).spec_ttl() == old(self).spec_ttl(),
    {
        let ids = self.storage.get_stored_ids();
        proof {
            assert(root_children(self@).take(root_children(self@).len() as int) =~= root_children(
                self@,
            ));
        }
        let ghost mut docs: Seq<(XkcdView, Option<u64>)> = Seq::empty();
        let mut i: usize = 0;
        while i < ids.len()
            invariant
                0 <= i <= ids.len(),
                self.wf(),
                old(self).wf(),
                self@ == with_documents(old(self)@, docs),
                table_extends(old(self)@, self@),
                self.store() == old(self).store(),
                self.spec_ttl() == old(self).spec_ttl(),
            decreases ids.len() - i,
        {
            let id = ids[i];
            match self.storage.get_meta(id) {
                Some(meta) => {
                    let image_size = self.storage.get_image_size(meta.num);
                    let ghost before = self@;
                    self.init_dir(&meta, image_size);
                    proof {
                        lemma_with_document(before, meta@, image_size);
                        lemma_extends_twice(old(self)@, before, self@);
                        let more = docs.push((meta@, image_size));
                        assert(more.drop_last() =~= docs);
                        docs = more;
                    }
                },
                None => {},
            }
            i = i + 1;
        }
        Ok(())
    }
}

} // verus!
