//! The inode table as a mathematical value, and what holds of it.
//!
//! A table maps inode numbers to entries. This module says what a
//! well-formed table is, what each call of the directory protocol answers
//! from a table, and what a table becomes when a document is added. It holds
//! no executable code: the tree in `xkcd_fs` is proved against it.

use vstd::prelude::*;
use vstd::utf8::encode_utf8;
use crate::decimal::{decimal, digit_count, lemma_decimal_ascii, lemma_decimal_injective};
use crate::fs::file::{inode_num, lemma_inode_parts, XkcdDir, XkcdFile};
use crate::fs::xkcd_fs::{FileAttr, FileType, FsError, ROOT_INO};
use crate::xkcd::XkcdView;

verus! {

/// The attributes of a directory: empty, readable and searchable by all.
pub open spec fn dir_attr(ino: u64, time: i64) -> FileAttr {
    FileAttr {
        ino,
        size: 0,
        blocks: 0,
        atime: time,
        mtime: time,
        ctime: time,
        crtime: time,
        kind: FileType::Directory,
        perm: 0o555,
        nlink: 2,
        uid: 1000,
        gid: 10,
        rdev: 0,
        flags: 0,
        blksize: 512,
    }
}

/// The attributes of a file of the given size: readable by all.
pub open spec fn file_attr(ino: u64, time: i64, size: u64) -> FileAttr {
    FileAttr {
        ino,
        size,
        blocks: 0,
        atime: time,
        mtime: time,
        ctime: time,
        crtime: time,
        kind: FileType::RegularFile,
        perm: 0o444,
        nlink: 2,
        uid: 1000,
        gid: 10,
        rdev: 0,
        flags: 0,
        blksize: 512,
    }
}

/// A directory as plain values: its children by name, in listing order, and
/// its parent.
pub struct DirectoryView {
    pub children: Seq<(Seq<char>, u64)>,
    pub parent: Option<u64>,
}

/// What an entry is, as plain values.
pub enum INodeKindView {
    Directory(DirectoryView),
    File(XkcdFile),
}

/// An entry of the table as plain values.
pub struct INodeView {
    pub attrs: FileAttr,
    pub kind: INodeKindView,
}

/// The entry that names a file in its document's directory.
pub open spec fn file_entry(file: XkcdFile) -> (Seq<char>, u64) {
    (file.spec_name(), file.spec_inode() as u64)
}

/// The entry that names a document's directory in the root.
pub open spec fn dir_entry(num: u32) -> (Seq<char>, u64) {
    (XkcdDir::Dir(num).spec_name(), XkcdDir::Dir(num).spec_inode() as u64)
}

/// The six files of document `num`, in listing order.
pub open spec fn doc_files(num: u32) -> Seq<XkcdFile> {
    seq![
        XkcdFile::Image(num),
        XkcdFile::Num(num),
        XkcdFile::Title(num),
        XkcdFile::Alt(num),
        XkcdFile::Transcript(num),
        XkcdFile::ReleaseDate(num),
    ]
}

/// The children of document `num`'s directory: its six files, in listing
/// order.
pub open spec fn doc_children(num: u32) -> Seq<(Seq<char>, u64)> {
    Seq::new(6, |i: int| file_entry(doc_files(num)[i]))
}

/// The children of the root of table `t`; none where it has no root.
pub open spec fn root_children(t: Map<u64, INodeView>) -> Seq<(Seq<char>, u64)> {
    if t.contains_key(ROOT_INO) {
        match t[ROOT_INO].kind {
            INodeKindView::Directory(root) => root.children,
            INodeKindView::File(_) => Seq::empty(),
        }
    } else {
        Seq::empty()
    }
}

/// What holds of the entry `node` under the inode number `ino` in a
/// well-formed table `t`.
pub open spec fn inode_wf(t: Map<u64, INodeView>, ino: u64, node: INodeView) -> bool {
    &&& node.attrs.ino == ino
    &&& match node.kind {
        INodeKindView::Directory(dir) => {
            &&& node.attrs.kind == FileType::Directory
            &&& ino != ROOT_INO ==> {
                &&& ino == XkcdDir::Dir(inode_num(ino)).spec_inode()
                &&& dir.parent == Some(ROOT_INO)
                &&& dir.children == doc_children(inode_num(ino))
                &&& forall|k: int|
                    0 <= k < 6 ==> {
                        let file = #[trigger] doc_files(inode_num(ino))[k];
                        &&& t.contains_key(file.spec_inode() as u64)
                        &&& t[file.spec_inode() as u64].kind == INodeKindView::File(file)
                    }
                &&& exists|i: int|
                    0 <= i < root_children(t).len() && (#[trigger] root_children(t)[i]).1 == ino
            }
        },
        INodeKindView::File(file) => {
            &&& node.attrs.kind == FileType::RegularFile
            &&& ino == file.spec_inode()
            &&& t.contains_key(XkcdDir::Dir(file.num()).spec_inode() as u64)
            &&& t[XkcdDir::Dir(file.num()).spec_inode() as u64].kind is Directory
        },
    }
}

/// A well-formed table. It has a root without a parent. The root lists
/// directories of documents, each once. Each of them is in the table with
/// the root as its parent, lists the six files of its document, and is
/// listed by the root. Each file is in the table under its own inode number,
/// beside the directory of its document.
pub open spec fn table_wf(t: Map<u64, INodeView>) -> bool {
    &&& t.contains_key(ROOT_INO)
    &&& t[ROOT_INO].kind matches INodeKindView::Directory(root)
    &&& root.parent is None
    &&& forall|i: int|
        0 <= i < root.children.len() ==> {
            let child = #[trigger] root.children[i];
            &&& child == dir_entry(inode_num(child.1))
            &&& t.contains_key(child.1)
            &&& t[child.1].kind is Directory
        }
    &&& forall|i: int, j: int|
        0 <= i < j < root.children.len() ==> (#[trigger] root.children[i]).1
            != (#[trigger] root.children[j]).1
    &&& forall|ino: u64| t.contains_key(ino) ==> inode_wf(t, ino, #[trigger] t[ino])
}

/// The inode of the first child called `name`, if there is one.
pub open spec fn find_child(children: Seq<(Seq<char>, u64)>, name: Seq<char>) -> Option<u64>
    decreases children.len(),
{
    if children.len() == 0 {
        None
    } else if children[0].0 == name {
        Some(children[0].1)
    } else {
        find_child(children.drop_first(), name)
    }
}

/// What a lookup of `name` in the directory `parent` of table `t` answers:
/// the attributes of the child of that name, and not-found where `parent`
/// is unknown or a file, or has no such child.
pub open spec fn lookup_answer(t: Map<u64, INodeView>, parent: u64, name: Seq<char>) -> Result<
    FileAttr,
    FsError,
> {
    if !t.contains_key(parent) {
        Err(FsError::NotFound)
    } else {
        match t[parent].kind {
            INodeKindView::File(_) => Err(FsError::NotFound),
            INodeKindView::Directory(dir) => match find_child(dir.children, name) {
                Some(ino) => if t.contains_key(ino) {
                    Ok(t[ino].attrs)
                } else {
                    Err(FsError::NotFound)
                },
                None => Err(FsError::NotFound),
            },
        }
    }
}

/// What an attribute query for `ino` answers in table `t`.
pub open spec fn getattr_answer(t: Map<u64, INodeView>, ino: u64) -> Result<FileAttr, FsError> {
    if t.contains_key(ino) {
        Ok(t[ino].attrs)
    } else {
        Err(FsError::NotFound)
    }
}

/// The table of the tree before anything is added: the root alone, without
/// children, dated at the start of the Unix epoch.
pub open spec fn empty_table() -> Map<u64, INodeView> {
    Map::empty().insert(
        ROOT_INO,
        INodeView {
            attrs: dir_attr(ROOT_INO, 0),
            kind: INodeKindView::Directory(
                DirectoryView { children: Seq::empty(), parent: None },
            ),
        },
    )
}

/// The bytes of the file `file` of a document with the metadata `meta`: the
/// UTF-8 encoding of the number, of the text or of the date. The image is
/// not part of the metadata, so its file has none here.
pub open spec fn file_content(file: XkcdFile, meta: XkcdView) -> Seq<u8> {
    match file {
        XkcdFile::Num(_) => encode_utf8(decimal(meta.num as nat)),
        XkcdFile::Title(_) => encode_utf8(meta.title),
        XkcdFile::Image(_) => Seq::empty(),
        XkcdFile::Alt(_) => encode_utf8(meta.alt),
        XkcdFile::Transcript(_) => encode_utf8(meta.transcript),
        XkcdFile::ReleaseDate(_) => encode_utf8(meta.release_date.text()),
    }
}

/// The part of `data` that a read of `size` bytes at `offset` gives from a
/// file whose attributes say `attr_size`: the bytes from `offset` up to
/// `offset + size`, as far as they lie below `attr_size` and within `data`.
/// Nothing where that is empty, and nothing for an offset below zero.
pub open spec fn read_window(data: Seq<u8>, offset: int, size: int, attr_size: int) -> Seq<u8> {
    let wanted = if offset + size <= attr_size {
        offset + size
    } else {
        attr_size
    };
    let end = if wanted <= data.len() {
        wanted
    } else {
        data.len() as int
    };
    if 0 <= offset < end {
        data.subrange(offset, end)
    } else {
        Seq::empty()
    }
}

/// What a read answers once the content is there or known to be missing.
pub open spec fn content_answer(
    content: Option<Seq<u8>>,
    offset: int,
    size: int,
    attr_size: int,
) -> Result<Seq<u8>, FsError> {
    match content {
        Some(data) => Ok(read_window(data, offset, size, attr_size)),
        None => Err(FsError::NotFound),
    }
}

/// The content of the file `file` given what the store returned for the
/// metadata of its document.
pub open spec fn meta_content(file: XkcdFile, meta: Option<XkcdView>) -> Option<Seq<u8>> {
    match meta {
        Some(m) => Some(file_content(file, m)),
        None => None,
    }
}

/// Which file a read of `ino` is about in table `t`: not-found for an
/// unknown inode, is-a-directory for a directory.
pub open spec fn read_target(t: Map<u64, INodeView>, ino: u64) -> Result<XkcdFile, FsError> {
    if !t.contains_key(ino) {
        Err(FsError::NotFound)
    } else {
        match t[ino].kind {
            INodeKindView::Directory(_) => Err(FsError::IsDirectory),
            INodeKindView::File(file) => Ok(file),
        }
    }
}

/// A read that starts at or behind the end of the content gives no bytes;
/// one that reaches beyond the end gives what is left; any other gives the
/// bytes asked for.
pub proof fn lemma_read_clamped(data: Seq<u8>, offset: int, size: int)
    requires
        0 <= offset,
        0 <= size,
    ensures
        offset >= data.len() ==> read_window(data, offset, size, data.len() as int) == Seq::<
            u8,
        >::empty(),
        offset <= data.len() && offset + size >= data.len() ==> read_window(
            data,
            offset,
            size,
            data.len() as int,
        ) == data.skip(offset),
        offset + size <= data.len() ==> read_window(data, offset, size, data.len() as int)
            == data.subrange(offset, offset + size),
        read_window(data, offset, size, data.len() as int).len() <= size,
{
    let window = read_window(data, offset, size, data.len() as int);
    if offset <= data.len() && offset + size >= data.len() {
        assert(window =~= data.skip(offset));
    }
    if offset + size <= data.len() {
        assert(window =~= data.subrange(offset, offset + size));
    }
}

/// One line of a directory listing as plain values.
pub struct DirEntryView {
    pub ino: u64,
    pub offset: i64,
    pub kind: FileType,
    pub name: Seq<char>,
}

/// The kind of the entry `ino` of table `t`.
pub open spec fn kind_of(t: Map<u64, INodeView>, ino: u64) -> FileType {
    match t[ino].kind {
        INodeKindView::Directory(_) => FileType::Directory,
        INodeKindView::File(_) => FileType::RegularFile,
    }
}

/// The entries that stand before the children in a listing of the
/// directory `ino`: `.` for itself and, where it has a parent, `..` for
/// that.
pub open spec fn dot_entries(ino: u64, parent: Option<u64>) -> Seq<DirEntryView> {
    let this = DirEntryView { ino, offset: 1, kind: FileType::Directory, name: seq!['.'] };
    match parent {
        Some(p) => seq![
            this,
            DirEntryView { ino: p, offset: 2, kind: FileType::Directory, name: seq!['.', '.'] },
        ],
        None => seq![this],
    }
}

/// The whole listing of the directory `ino` of table `t`, whose entry is
/// `dir`: the dot entries, then the children in their order. Each entry's
/// offset is its place in the listing, counted from one.
pub open spec fn listing(t: Map<u64, INodeView>, ino: u64, dir: DirectoryView) -> Seq<
    DirEntryView,
> {
    let dots = dot_entries(ino, dir.parent);
    dots + Seq::new(
        dir.children.len(),
        |i: int|
            DirEntryView {
                ino: dir.children[i].1,
                offset: (dots.len() + i + 1) as i64,
                kind: kind_of(t, dir.children[i].1),
                name: dir.children[i].0,
            },
    )
}

/// What is left of a listing from the place `offset` on. An offset below
/// zero counts as zero.
pub open spec fn listing_from(all: Seq<DirEntryView>, offset: int) -> Seq<DirEntryView> {
    if offset <= 0 {
        all
    } else if offset >= all.len() {
        Seq::empty()
    } else {
        all.skip(offset)
    }
}

/// What a listing of `ino` from `offset` on answers in table `t`: not-found
/// for an unknown inode and for a file.
pub open spec fn readdir_answer(t: Map<u64, INodeView>, ino: u64, offset: int) -> Result<
    Seq<DirEntryView>,
    FsError,
> {
    if !t.contains_key(ino) {
        Err(FsError::NotFound)
    } else {
        match t[ino].kind {
            INodeKindView::File(_) => Err(FsError::NotFound),
            INodeKindView::Directory(dir) => Ok(listing_from(listing(t, ino, dir), offset)),
        }
    }
}

/// A directory of a well-formed table has at most 2^32 children.
pub proof fn lemma_children_bound(t: Map<u64, INodeView>, ino: u64)
    requires
        table_wf(t),
        t.contains_key(ino),
        t[ino].kind is Directory,
    ensures
        t[ino].kind->Directory_0.children.len() <= 0x1_0000_0000,
{
    if ino == ROOT_INO {
        let children = root_children(t);
        let nums = Seq::new(children.len(), |i: int| inode_num(children[i].1) as int);
        assert forall|i: int, j: int| 0 <= i < nums.len() && 0 <= j < nums.len() && i != j implies nums[i] != nums[j] by {
            let a = children[i];
            let b = children[j];
            assert(a == dir_entry(inode_num(a.1)));
            assert(b == dir_entry(inode_num(b.1)));
            if i < j {
                assert(children[i].1 != children[j].1);
            } else {
                assert(children[j].1 != children[i].1);
            }
        }
        nums.unique_seq_to_set();
        vstd::set_lib::lemma_int_range(0, 0x1_0000_0000);
        assert(nums.to_set().subset_of(vstd::set_lib::set_int_range(0, 0x1_0000_0000))) by {
            assert forall|n: int| nums.to_set().contains(n) implies vstd::set_lib::set_int_range(
                0,
                0x1_0000_0000,
            ).contains(n) by {
                let i = choose|i: int| 0 <= i < nums.len() && nums[i] == n;
                assert(nums[i] == inode_num(children[i].1) as int);
            }
        }
        vstd::set_lib::lemma_len_subset(
            nums.to_set(),
            vstd::set_lib::set_int_range(0, 0x1_0000_0000),
        );
    } else {
        assert(inode_wf(t, ino, t[ino]));
    }
}

/// A listing that is taken up again behind the entries already had goes on
/// exactly where it stopped: what a listing from `offset` gives is its first
/// `taken` entries and then what a listing from the offset of the last of
/// them gives.
pub proof fn lemma_listing_resumes(all: Seq<DirEntryView>, offset: int, taken: int)
    requires
        0 <= offset,
        0 < taken <= listing_from(all, offset).len(),
        forall|i: int| 0 <= i < all.len() ==> (#[trigger] all[i]).offset == i + 1,
    ensures
        listing_from(all, 0) == all,
        listing_from(all, offset)[taken - 1].offset == offset + taken,
        listing_from(all, offset) == listing_from(all, offset).take(taken) + listing_from(
            all,
            listing_from(all, offset)[taken - 1].offset as int,
        ),
{
    let rest = listing_from(all, offset);
    assert(rest[taken - 1] == all[offset + taken - 1]);
    assert(rest =~= rest.take(taken) + listing_from(all, offset + taken));
}

/// In a well-formed table each entry of a listing has its place in the
/// listing, counted from one, as its offset.
pub proof fn lemma_listing_offsets(t: Map<u64, INodeView>, ino: u64)
    requires
        table_wf(t),
        t.contains_key(ino),
        t[ino].kind is Directory,
    ensures
        forall|i: int|
            0 <= i < listing(t, ino, t[ino].kind->Directory_0).len() ==> (#[trigger] listing(
                t,
                ino,
                t[ino].kind->Directory_0,
            )[i]).offset == i + 1,
{
    lemma_children_bound(t, ino);
}

/// The listing of the directory of document `num` in a well-formed table:
/// `.`, `..` and the six files of the document, each once, as files, under
/// their names and inode numbers.
pub proof fn lemma_doc_listing(t: Map<u64, INodeView>, num: u32)
    requires
        table_wf(t),
        t.contains_key(XkcdDir::Dir(num).spec_inode() as u64),
    ensures
        ({
            let ino = XkcdDir::Dir(num).spec_inode() as u64;
            let all = listing(t, ino, t[ino].kind->Directory_0);
            &&& t[ino].kind is Directory
            &&& all.len() == 8
            &&& all[0] == (DirEntryView {
                ino,
                offset: 1,
                kind: FileType::Directory,
                name: seq!['.'],
            })
            &&& all[1] == (DirEntryView {
                ino: ROOT_INO,
                offset: 2,
                kind: FileType::Directory,
                name: seq!['.', '.'],
            })
            &&& forall|k: int|
                0 <= k < 6 ==> #[trigger] all[k + 2] == (DirEntryView {
                    ino: doc_files(num)[k].spec_inode() as u64,
                    offset: (k + 3) as i64,
                    kind: FileType::RegularFile,
                    name: doc_files(num)[k].spec_name(),
                })
            &&& forall|i: int, j: int|
                0 <= i < j < 8 ==> (#[trigger] all[i]).name != (#[trigger] all[j]).name
        }),
{
    let ino = XkcdDir::Dir(num).spec_inode() as u64;
    lemma_inode_parts(num, 2);
    assert(inode_wf(t, ino, t[ino]));
    assert(ino != ROOT_INO);
    assert(inode_num(ino) == num);
    assert(t[ino].kind is Directory) by {
        if t[ino].kind is File {
            let file = t[ino].kind->File_0;
            assert(ino == file.spec_inode());
            lemma_inode_parts(file.num(), file.tag());
        }
    }
    let dir = t[ino].kind->Directory_0;
    let all = listing(t, ino, dir);
    assert(dir.children == doc_children(num));
    assert forall|k: int| 0 <= k < 6 implies #[trigger] all[k + 2] == (DirEntryView {
        ino: doc_files(num)[k].spec_inode() as u64,
        offset: (k + 3) as i64,
        kind: FileType::RegularFile,
        name: doc_files(num)[k].spec_name(),
    }) by {
        let file = doc_files(num)[k];
        assert(t[file.spec_inode() as u64].kind == INodeKindView::File(file));
        assert(dir.children[k] == file_entry(file));
    }
    assert forall|i: int, j: int| 0 <= i < j < 8 implies (#[trigger] all[i]).name != (
    #[trigger] all[j]).name by {
        lemma_doc_names_differ(num, i, j);
        if i >= 2 {
            assert(all[i] == all[(i - 2) + 2]);
        }
        if j >= 2 {
            assert(all[j] == all[(j - 2) + 2]);
        }
    }
}

/// The name at place `i` of the listing of a document's directory.
pub open spec fn doc_listing_name(num: u32, i: int) -> Seq<char> {
    if i == 0 {
        seq!['.']
    } else if i == 1 {
        seq!['.', '.']
    } else {
        doc_files(num)[i - 2].spec_name()
    }
}

/// No two places of the listing of a document's directory have the same
/// name.
pub proof fn lemma_doc_names_differ(num: u32, i: int, j: int)
    requires
        0 <= i < j < 8,
    ensures
        doc_listing_name(num, i) != doc_listing_name(num, j),
{
    let a = doc_listing_name(num, i);
    let b = doc_listing_name(num, j);
    let stem = seq!['x', 'k', 'c', 'd', '_'] + decimal(num as nat);
    if j >= 2 {
        let g = doc_files(num)[j - 2];
        assert(b == stem + g.extension());
        assert(b[0] == 'x');
        assert(b.len() == stem.len() + g.extension().len());
        if i >= 2 {
            let f = doc_files(num)[i - 2];
            assert(a == stem + f.extension());
            assert(a.len() == stem.len() + f.extension().len());
            if a == b {
                assert(f.extension().len() == g.extension().len());
                assert(a[stem.len() as int + 1] == f.extension()[1]);
                assert(b[stem.len() as int + 1] == g.extension()[1]);
            }
        } else {
            assert(a[0] == '.');
        }
    } else {
        assert(a.len() == 1);
        assert(b.len() == 2);
    }
}

/// A child whose name no earlier child has is the one that a search for
/// its name finds.
pub proof fn lemma_find_child(children: Seq<(Seq<char>, u64)>, i: int)
    requires
        0 <= i < children.len(),
        forall|j: int| 0 <= j < i ==> (#[trigger] children[j]).0 != children[i].0,
    ensures
        find_child(children, children[i].0) == Some(children[i].1),
    decreases i,
{
    if i > 0 {
        let rest = children.drop_first();
        assert(rest[i - 1] == children[i]);
        assert forall|j: int| 0 <= j < i - 1 implies (#[trigger] rest[j]).0 != rest[i - 1].0 by {
            assert(rest[j] == children[j + 1]);
        }
        lemma_find_child(rest, i - 1);
        assert(children[0].0 != children[i].0);
    }
}

/// A search for a name that no child has finds nothing.
pub proof fn lemma_find_no_child(children: Seq<(Seq<char>, u64)>, name: Seq<char>)
    requires
        forall|j: int| 0 <= j < children.len() ==> (#[trigger] children[j]).0 != name,
    ensures
        find_child(children, name) is None,
    decreases children.len(),
{
    if children.len() > 0 {
        let rest = children.drop_first();
        assert forall|j: int| 0 <= j < rest.len() implies (#[trigger] rest[j]).0 != name by {
            assert(rest[j] == children[j + 1]);
        }
        lemma_find_no_child(rest, name);
        assert(children[0].0 != name);
    }
}

/// In a well-formed table a lookup finds each file of a document under its
/// name in the document's directory, and finds the directory under its name
/// in the root.
pub proof fn lemma_lookup_document(t: Map<u64, INodeView>, num: u32, k: int)
    requires
        table_wf(t),
        t.contains_key(XkcdDir::Dir(num).spec_inode() as u64),
        0 <= k < 6,
    ensures
        lookup_answer(
            t,
            XkcdDir::Dir(num).spec_inode() as u64,
            doc_files(num)[k].spec_name(),
        ) == Ok::<FileAttr, FsError>(t[doc_files(num)[k].spec_inode() as u64].attrs),
        t[doc_files(num)[k].spec_inode() as u64].kind == INodeKindView::File(doc_files(num)[k]),
        lookup_answer(t, ROOT_INO, XkcdDir::Dir(num).spec_name()) == Ok::<FileAttr, FsError>(
            t[XkcdDir::Dir(num).spec_inode() as u64].attrs,
        ),
{
    let ino = XkcdDir::Dir(num).spec_inode() as u64;
    lemma_doc_listing(t, num);
    lemma_inode_parts(num, 2);
    assert(inode_wf(t, ino, t[ino]));
    let dir = t[ino].kind->Directory_0;
    let file = doc_files(num)[k];
    assert(dir.children == doc_children(num));
    assert(dir.children[k] == file_entry(file));
    assert forall|j: int| 0 <= j < k implies (#[trigger] dir.children[j]).0
        != dir.children[k].0 by {
        lemma_doc_names_differ(num, j + 2, k + 2);
        assert(dir.children[j] == file_entry(doc_files(num)[j]));
    }
    lemma_find_child(dir.children, k);
    assert(t.contains_key(file.spec_inode() as u64));

    let listed = root_children(t);
    let i = choose|i: int| 0 <= i < listed.len() && (#[trigger] listed[i]).1 == ino;
    assert(listed[i] == dir_entry(inode_num(listed[i].1)));
    assert forall|j: int| 0 <= j < i implies (#[trigger] listed[j]).0 != listed[i].0 by {
        let other = inode_num(listed[j].1);
        assert(listed[j] == dir_entry(other));
        assert(listed[j].1 != listed[i].1);
        if listed[j].0 == listed[i].0 {
            let stem = seq!['x', 'k', 'c', 'd', '_'];
            assert(decimal(other as nat) =~= (stem + decimal(other as nat)).skip(5));
            assert(decimal(num as nat) =~= (stem + decimal(num as nat)).skip(5));
            lemma_decimal_injective(other as nat, num as nat);
        }
    }
    lemma_find_child(listed, i);
}

/// The size that the attributes of a text file give is the length of what
/// a read of the whole file gives. For the number file that is the number of
/// decimal digits of the document's id.
pub proof fn lemma_file_sizes(file: XkcdFile, meta: XkcdView, image_size: Option<u64>)
    requires
        !(file is Image),
    ensures
        file_size(file, meta, image_size) == file_content(file, meta).len(),
        read_window(
            file_content(file, meta),
            0,
            file_size(file, meta, image_size),
            file_size(file, meta, image_size),
        ) == file_content(file, meta),
        file is Num ==> file_size(file, meta, image_size) == digit_count(meta.num as nat),
{
    let content = file_content(file, meta);
    lemma_read_clamped(content, 0, content.len() as int);
    assert(content.skip(0) =~= content);
    lemma_decimal_ascii(meta.num as nat);
}

/// The size that the attributes of the file `file` give: for the image what
/// the store says its length is, and zero while the store does not know it;
/// for the others the length of their content.
pub open spec fn file_size(file: XkcdFile, meta: XkcdView, image_size: Option<u64>) -> int {
    match file {
        XkcdFile::Image(_) => match image_size {
            Some(size) => size as int,
            None => 0,
        },
        _ => file_content(file, meta).len() as int,
    }
}

/// The entry of the file `file` of a document with the metadata `meta`. The
/// file is dated at the start of the release date.
pub open spec fn file_inode(file: XkcdFile, meta: XkcdView, image_size: Option<u64>) -> INodeView {
    INodeView {
        attrs: file_attr(
            file.spec_inode() as u64,
            meta.release_date.timestamp() as i64,
            file_size(file, meta, image_size) as u64,
        ),
        kind: INodeKindView::File(file),
    }
}

/// The entry of the directory of a document with the metadata `meta`, dated
/// like its files.
pub open spec fn doc_inode(meta: XkcdView) -> INodeView {
    INodeView {
        attrs: dir_attr(
            XkcdDir::Dir(meta.num).spec_inode() as u64,
            meta.release_date.timestamp() as i64,
        ),
        kind: INodeKindView::Directory(
            DirectoryView { children: doc_children(meta.num), parent: Some(ROOT_INO) },
        ),
    }
}

/// Table `t` with the first `count` files of the document added.
pub open spec fn with_files(
    t: Map<u64, INodeView>,
    meta: XkcdView,
    image_size: Option<u64>,
    count: int,
) -> Map<u64, INodeView>
    decreases count,
{
    if count <= 0 {
        t
    } else {
        let file = doc_files(meta.num)[count - 1];
        with_files(t, meta, image_size, count - 1).insert(
            file.spec_inode() as u64,
            file_inode(file, meta, image_size),
        )
    }
}

/// The root of table `t` with one more child at the end.
pub open spec fn root_with(t: Map<u64, INodeView>, child: (Seq<char>, u64)) -> INodeView {
    INodeView {
        attrs: t[ROOT_INO].attrs,
        kind: INodeKindView::Directory(
            DirectoryView { children: root_children(t).push(child), parent: None },
        ),
    }
}

/// Table `t` after the document with the metadata `meta` is added: its six
/// files and its directory are new entries, and the root lists the
/// directory last. A document whose directory the table already has
/// changes nothing.
pub open spec fn with_document(
    t: Map<u64, INodeView>,
    meta: XkcdView,
    image_size: Option<u64>,
) -> Map<u64, INodeView> {
    if t.contains_key(XkcdDir::Dir(meta.num).spec_inode() as u64) {
        t
    } else {
        with_files(t, meta, image_size, 6).insert(
            XkcdDir::Dir(meta.num).spec_inode() as u64,
            doc_inode(meta),
        ).insert(ROOT_INO, root_with(t, dir_entry(meta.num)))
    }
}

/// Table `t` after the documents `docs` are added one after the other, each
/// with what the store said of the length of its image.
pub open spec fn with_documents(
    t: Map<u64, INodeView>,
    docs: Seq<(XkcdView, Option<u64>)>,
) -> Map<u64, INodeView>
    decreases docs.len(),
{
    if docs.len() == 0 {
        t
    } else {
        with_document(with_documents(t, docs.drop_last()), docs.last().0, docs.last().1)
    }
}

/// Table `b` holds all that table `a` holds, unchanged but for the root,
/// which lists what it listed in `a` and then what is new.
pub open spec fn table_extends(a: Map<u64, INodeView>, b: Map<u64, INodeView>) -> bool {
    &&& forall|ino: u64| #[trigger] a.contains_key(ino) ==> b.contains_key(ino)
    &&& forall|ino: u64| #[trigger] a.contains_key(ino) && ino != ROOT_INO ==> b[ino] == a[ino]
    &&& b[ROOT_INO].attrs == a[ROOT_INO].attrs
    &&& root_children(a).len() <= root_children(b).len()
    &&& root_children(b).take(root_children(a).len() as int) == root_children(a)
}

/// The files of a document whose directory a well-formed table lacks are
/// not in the table either. Adding them changes no entry that was there.
pub proof fn lemma_with_files(
    t: Map<u64, INodeView>,
    meta: XkcdView,
    image_size: Option<u64>,
    count: int,
)
    requires
        table_wf(t),
        !t.contains_key(XkcdDir::Dir(meta.num).spec_inode() as u64),
        0 <= count <= 6,
    ensures
        forall|k: int|
            0 <= k < 6 ==> !t.contains_key(
                (#[trigger] doc_files(meta.num)[k]).spec_inode() as u64,
            ),
        forall|ino: u64|
            #[trigger] with_files(t, meta, image_size, count).contains_key(ino) <==> t.contains_key(
                ino,
            ) || exists|k: int|
                0 <= k < count && ino == (#[trigger] doc_files(meta.num)[k]).spec_inode(),
        forall|ino: u64|
            t.contains_key(ino) ==> #[trigger] with_files(t, meta, image_size, count)[ino]
                == t[ino],
        forall|k: int|
            0 <= k < count ==> with_files(t, meta, image_size, count)[(#[trigger] doc_files(
                meta.num,
            )[k]).spec_inode() as u64] == file_inode(doc_files(meta.num)[k], meta, image_size),
    decreases count,
{
    let num = meta.num;
    assert forall|k: int| 0 <= k < 6 implies !t.contains_key(
        (#[trigger] doc_files(num)[k]).spec_inode() as u64,
    ) by {
        let file = doc_files(num)[k];
        let ino = file.spec_inode() as u64;
        lemma_inode_parts(num, file.tag());
        if t.contains_key(ino) {
            assert(inode_wf(t, ino, t[ino]));
            match t[ino].kind {
                INodeKindView::Directory(dir) => {
                    if ino != ROOT_INO {
                        lemma_inode_parts(inode_num(ino), 2);
                    }
                },
                INodeKindView::File(other) => {
                    lemma_inode_parts(other.num(), other.tag());
                    assert(other.num() == num);
                },
            }
        }
    }
    if count > 0 {
        lemma_with_files(t, meta, image_size, count - 1);
        let before = with_files(t, meta, image_size, count - 1);
        let after = with_files(t, meta, image_size, count);
        let last = doc_files(num)[count - 1];
        lemma_inode_parts(num, last.tag());
        assert forall|ino: u64| #[trigger] after.contains_key(ino) <==> t.contains_key(ino)
            || exists|k: int|
            0 <= k < count && ino == (#[trigger] doc_files(num)[k]).spec_inode() by {
            if after.contains_key(ino) && !t.contains_key(ino) {
                if ino == last.spec_inode() as u64 {
                    assert(ino == doc_files(num)[count - 1].spec_inode());
                } else {
                    assert(before.contains_key(ino));
                    let k = choose|k: int|
                        0 <= k < count - 1 && ino == (#[trigger] doc_files(num)[k]).spec_inode();
                    assert(0 <= k < count && ino == doc_files(num)[k].spec_inode());
                }
            }
            if exists|k: int|
                0 <= k < count && ino == (#[trigger] doc_files(num)[k]).spec_inode() {
                let k = choose|k: int|
                    0 <= k < count && ino == (#[trigger] doc_files(num)[k]).spec_inode();
                if k < count - 1 {
                    assert(before.contains_key(ino));
                }
            }
        }
        assert forall|k: int| 0 <= k < count implies after[(#[trigger] doc_files(
            num,
        )[k]).spec_inode() as u64] == file_inode(doc_files(num)[k], meta, image_size) by {
            let file = doc_files(num)[k];
            lemma_inode_parts(num, file.tag());
            if k < count - 1 {
                assert(file.tag() != last.tag());
            }
        }
    }
}

/// Adding a document keeps a table well formed and changes nothing that
/// was there, but for the root's list. A document that is new to the table
/// is there afterwards with its directory and its six files, each with the
/// attributes that the metadata gives, and is the last in the root's list.
pub proof fn lemma_with_document(t: Map<u64, INodeView>, meta: XkcdView, image_size: Option<u64>)
    requires
        table_wf(t),
    ensures
        table_wf(with_document(t, meta, image_size)),
        table_extends(t, with_document(t, meta, image_size)),
        with_document(t, meta, image_size).contains_key(
            XkcdDir::Dir(meta.num).spec_inode() as u64,
        ),
        !t.contains_key(XkcdDir::Dir(meta.num).spec_inode() as u64) ==> {
            let after = with_document(t, meta, image_size);
            &&& after[XkcdDir::Dir(meta.num).spec_inode() as u64] == doc_inode(meta)
            &&& root_children(after) == root_children(t).push(dir_entry(meta.num))
            &&& forall|k: int|
                0 <= k < 6 ==> after[(#[trigger] doc_files(meta.num)[k]).spec_inode() as u64]
                    == file_inode(doc_files(meta.num)[k], meta, image_size)
        },
{
    let num = meta.num;
    let dir_ino = XkcdDir::Dir(num).spec_inode() as u64;
    let after = with_document(t, meta, image_size);
    lemma_inode_parts(num, 2);
    if t.contains_key(dir_ino) {
        assert(root_children(t).take(root_children(t).len() as int) =~= root_children(t));
    } else {
        lemma_with_files(t, meta, image_size, 6);
        let files = with_files(t, meta, image_size, 6);
        let old_children = root_children(t);
        let new_children = old_children.push(dir_entry(num));
        assert(root_children(after) == new_children);
        assert(new_children.take(old_children.len() as int) =~= old_children);
        assert forall|k: int| 0 <= k < 6 implies {
            let file = #[trigger] doc_files(num)[k];
            &&& after.contains_key(file.spec_inode() as u64)
            &&& after[file.spec_inode() as u64] == file_inode(file, meta, image_size)
            &&& file.spec_inode() as u64 != ROOT_INO
            &&& file.spec_inode() as u64 != dir_ino
        } by {
            let file = doc_files(num)[k];
            lemma_inode_parts(num, file.tag());
            assert(files.contains_key(file.spec_inode() as u64));
        }
        assert forall|ino: u64| #[trigger] t.contains_key(ino) implies after.contains_key(ino) by {
            assert(files.contains_key(ino));
        }
        assert forall|ino: u64| #[trigger] t.contains_key(ino) && ino != ROOT_INO implies after[ino]
            == t[ino] by {
            assert(files[ino] == t[ino]);
        }
        assert forall|i: int| 0 <= i < new_children.len() implies {
            let child = #[trigger] new_children[i];
            &&& child == dir_entry(inode_num(child.1))
            &&& after.contains_key(child.1)
            &&& after[child.1].kind is Directory
        } by {
            if i < old_children.len() {
                let child = old_children[i];
                assert(new_children[i] == child);
                assert(t.contains_key(child.1));
                assert(child.1 != ROOT_INO) by {
                    lemma_inode_parts(inode_num(child.1), 2);
                }
            }
        }
        assert forall|i: int, j: int| 0 <= i < j < new_children.len() implies (
        #[trigger] new_children[i]).1 != (#[trigger] new_children[j]).1 by {
            if j < old_children.len() {
                assert(old_children[i].1 != old_children[j].1);
            } else {
                assert(t.contains_key(old_children[i].1));
            }
        }
        assert forall|ino: u64| after.contains_key(ino) implies inode_wf(
            after,
            ino,
            #[trigger] after[ino],
        ) by {
            if ino == ROOT_INO {
            } else if ino == dir_ino {
                assert(new_children[old_children.len() as int].1 == ino);
                assert forall|k: int| 0 <= k < 6 implies {
                    let file = #[trigger] doc_files(inode_num(ino))[k];
                    &&& after.contains_key(file.spec_inode() as u64)
                    &&& after[file.spec_inode() as u64].kind == INodeKindView::File(file)
                } by {
                    let file = doc_files(num)[k];
                    assert(after[file.spec_inode() as u64] == file_inode(file, meta, image_size));
                }
            } else if t.contains_key(ino) {
                assert(inode_wf(t, ino, t[ino]));
                assert(after[ino] == t[ino]);
                match t[ino].kind {
                    INodeKindView::Directory(dir) => {
                        assert forall|k: int| 0 <= k < 6 implies {
                            let file = #[trigger] doc_files(inode_num(ino))[k];
                            &&& after.contains_key(file.spec_inode() as u64)
                            &&& after[file.spec_inode() as u64].kind == INodeKindView::File(file)
                        } by {
                            let file = doc_files(inode_num(ino))[k];
                            assert(t.contains_key(file.spec_inode() as u64));
                            lemma_inode_parts(inode_num(ino), file.tag());
                        }
                        let i = choose|i: int|
                            0 <= i < old_children.len() && (#[trigger] old_children[i]).1 == ino;
                        assert(new_children[i].1 == ino);
                    },
                    INodeKindView::File(file) => {
                        let home = XkcdDir::Dir(file.num()).spec_inode() as u64;
                        assert(t.contains_key(home));
                        lemma_inode_parts(file.num(), 2);
                        assert(after[home] == t[home]);
                    },
                }
            } else {
                assert(files.contains_key(ino));
                let k = choose|k: int|
                    0 <= k < 6 && ino == (#[trigger] doc_files(num)[k]).spec_inode();
                let file = doc_files(num)[k];
                assert(after[ino] == file_inode(file, meta, image_size));
            }
        }
    }
}

/// Extending a table twice extends it.
pub proof fn lemma_extends_twice(
    a: Map<u64, INodeView>,
    b: Map<u64, INodeView>,
    c: Map<u64, INodeView>,
)
    requires
        table_extends(a, b),
        table_extends(b, c),
        a.contains_key(ROOT_INO),
    ensures
        table_extends(a, c),
{
    let n = root_children(a).len() as int;
    let m = root_children(b).len() as int;
    assert(root_children(c).take(n) =~= root_children(c).take(m).take(n));
    assert forall|ino: u64| #[trigger] a.contains_key(ino) && ino != ROOT_INO implies c[ino]
        == a[ino] by {
        assert(b.contains_key(ino));
    }
    assert forall|ino: u64| #[trigger] a.contains_key(ino) implies c.contains_key(ino) by {
        assert(b.contains_key(ino));
    }
}

} // verus!
