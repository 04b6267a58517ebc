//! Entry kinds, their inode numbers and their names.
//!
//! An inode number packs the document id into the upper 32 bits and a small
//! tag into the lower ones: 1 for the root, 2 for a document's directory and
//! 3 to 8 for its six files. 

use vstd::prelude::*;
use vstd::string::StringExecFns;
use crate::decimal::{decimal, push_decimal};

verus! {

/// One of the six files of a document, with the document's id.
#[derive(Debug, Clone, Copy, PartialEq, Eq, Structural)]
pub enum XkcdFile {
    Num(u32),
    Title(u32),
    Image(u32),
    Alt(u32),
    Transcript(u32),
    ReleaseDate(u32),
}

/// A directory: the root, or that of one document.
#[derive(Debug, Clone, Copy, PartialEq, Eq, Structural)]
pub enum XkcdDir {
    Root,
    Dir(u32),
}

/// The inode number made of a document id and a tag.
pub open spec fn packed_inode(num: u32, tag: int) -> int {
    num as int * 0x1_0000_0000 + tag
}

/// The document id that an inode number carries.
pub open spec fn inode_num(ino: u64) -> u32 {
    (ino as int / 0x1_0000_0000) as u32
}

/// The tag that an inode number carries.
pub open spec fn inode_tag(ino: u64) -> int {
    ino as int % 0x1_0000_0000
}

proof fn lemma_pack(num: u32, tag: u64)
    requires
        tag < 16,
    ensures
        ((num as u64) << 32) | tag == packed_inode(num, tag as int),
{
    assert(((num as u64) << 32) | tag == (num as u64) * 0x1_0000_0000 + tag) by (bit_vector)
        requires
            tag < 16,
    ;
}

fn pack(num: u32, tag: u64) -> (ino: u64)
    requires
        tag < 16,
    ensures
        ino == packed_inode(num, tag as int),
{
    proof {
        lemma_pack(num, tag);
    }
    ((num as u64) << 32) | tag
}

impl XkcdDir {
    /// The tag of this kind of directory.
    pub open spec fn tag(self) -> int {
        match self {
            XkcdDir::Root => 1,
            XkcdDir::Dir(_) => 2,
        }
    }

    /// The document id of the directory: 0 for the root.
    pub open spec fn num(self) -> u32 {
        match self {
            XkcdDir::Root => 0,
            XkcdDir::Dir(num) => num,
        }
    }

    /// The inode number of the directory.
    pub open spec fn spec_inode(self) -> int {
        packed_inode(self.num(), self.tag())
    }

    /// The name of the directory.
    pub open spec fn spec_name(self) -> Seq<char> {
        match self {
            XkcdDir::Root => seq!['.'],
            XkcdDir::Dir(num) => seq!['x', 'k', 'c', 'd', '_'] + decimal(num as nat),
        }
    }

    pub fn inode(&self) -> (ino: u64)
        ensures
            ino == self.spec_inode(),
    {
        match self {
            XkcdDir::Root => 1,
            XkcdDir::Dir(num) => pack(*num, 2),
        }
    }

    pub fn name(&self) -> (name: String)
        ensures
            name@ == self.spec_name(),
    {
        proof {
            reveal_strlit(".");
            reveal_strlit("xkcd_");
        }
        match self {
            XkcdDir::Root => {
                let name = String::from_str(".");
                assert(name@ =~= self.spec_name());
                name
            },
            XkcdDir::Dir(num) => {
                let mut name = String::from_str("xkcd_");
                push_decimal(&mut name, *num);
                assert(name@ =~= self.spec_name());
                name
            },
        }
    }
}

impl XkcdFile {
    /// The tag of this kind of file.
    pub open spec fn tag(self) -> int {
        match self {
            XkcdFile::Num(_) => 3,
            XkcdFile::Title(_) => 4,
            XkcdFile::Image(_) => 5,
            XkcdFile::Alt(_) => 6,
            XkcdFile::Transcript(_) => 7,
            XkcdFile::ReleaseDate(_) => 8,
        }
    }

    /// The id of the document that owns the file.
    pub open spec fn num(self) -> u32 {
        match self {
            XkcdFile::Num(num) => num,
            XkcdFile::Title(num) => num,
            XkcdFile::Image(num) => num,
            XkcdFile::Alt(num) => num,
            XkcdFile::Transcript(num) => num,
            XkcdFile::ReleaseDate(num) => num,
        }
    }

    /// The part of the name behind the document id.
    pub open spec fn extension(self) -> Seq<char> {
        match self {
            XkcdFile::Num(_) => seq!['.', 'n', 'u', 'm'],
            XkcdFile::Title(_) => seq!['.', 't', 'i', 't', 'l', 'e'],
            XkcdFile::Image(_) => seq!['.', 'p', 'n', 'g'],
            XkcdFile::Alt(_) => seq!['.', 'a', 'l', 't'],
            XkcdFile::Transcript(_) => seq!['.', 't', 'r', 'a', 'n', 's', 'c', 'r', 'i', 'p', 't'],
            XkcdFile::ReleaseDate(_) => seq![
                '.', 'r', 'e', 'l', 'e', 'a', 's', 'e', '_', 'd', 'a', 't', 'e',
            ],
        }
    }

    /// The inode number of the file.
    pub open spec fn spec_inode(self) -> int {
        packed_inode(self.num(), self.tag())
    }

    /// The name of the file.
    pub open spec fn spec_name(self) -> Seq<char> {
        seq!['x', 'k', 'c', 'd', '_'] + decimal(self.num() as nat) + self.extension()
    }

    /// The id of the document that owns the file.
    pub fn document(&self) -> (num: u32)
        ensures
            num == self.num(),
    {
        match self {
            XkcdFile::Num(num) => *num,
            XkcdFile::Title(num) => *num,
            XkcdFile::Image(num) => *num,
            XkcdFile::Alt(num) => *num,
            XkcdFile::Transcript(num) => *num,
            XkcdFile::ReleaseDate(num) => *num,
        }
    }

    pub fn name(&self) -> (name: String)
        ensures
            name@ == self.spec_name(),
    {
        proof {
            reveal_strlit("xkcd_");
            reveal_strlit(".num");
            reveal_strlit(".title");
            reveal_strlit(".png");
            reveal_strlit(".alt");
            reveal_strlit(".transcript");
            reveal_strlit(".release_date");
        }
        let mut name = String::from_str("xkcd_");
        push_decimal(&mut name, self.document());
        let extension = match self {
            XkcdFile::Num(_) => ".num",
            XkcdFile::Title(_) => ".title",
            XkcdFile::Image(_) => ".png",
            XkcdFile::Alt(_) => ".alt",
            XkcdFile::Transcript(_) => ".transcript",
            XkcdFile::ReleaseDate(_) => ".release_date",
        };
        assert(extension@ =~= self.extension());
        name.append(extension);
        assert(name@ =~= self.spec_name());
        name
    }

    pub fn inode(&self) -> (ino: u64)
        ensures
            ino == self.spec_inode(),
    {
        match self {
            XkcdFile::Num(num) => pack(*num, 3),
            XkcdFile::Title(num) => pack(*num, 4),
            XkcdFile::Image(num) => pack(*num, 5),
            XkcdFile::Alt(num) => pack(*num, 6),
            XkcdFile::Transcript(num) => pack(*num, 7),
            XkcdFile::ReleaseDate(num) => pack(*num, 8),
        }
    }
}

/// Two files with the same inode number are the same file.
pub proof fn lemma_file_inode_injective(a: XkcdFile, b: XkcdFile)
    requires
        a.spec_inode() == b.spec_inode(),
    ensures
        a == b,
{
}

/// Two directories with the same inode number are the same directory.
pub proof fn lemma_dir_inode_injective(a: XkcdDir, b: XkcdDir)
    requires
        a.spec_inode() == b.spec_inode(),
    ensures
        a == b,
{
}

/// No file shares its inode number with a directory; in particular none has
/// the root's.
pub proof fn lemma_file_dir_inodes_differ(file: XkcdFile, dir: XkcdDir)
    ensures
        file.spec_inode() != dir.spec_inode(),
        file.spec_inode() != 1,
{
}

/// Only the root has the root's inode number.
pub proof fn lemma_root_inode_reserved(dir: XkcdDir)
    ensures
        dir.spec_inode() == 1 <==> dir == XkcdDir::Root,
        XkcdDir::Root.spec_inode() == 1,
{
}

/// An inode number gives back the document id and the tag it was made of.
pub proof fn lemma_inode_parts(num: u32, tag: int)
    requires
        0 <= tag < 16,
    ensures
        0 <= packed_inode(num, tag) <= u64::MAX,
        inode_num(packed_inode(num, tag) as u64) == num,
        inode_tag(packed_inode(num, tag) as u64) == tag,
{
}

} // verus!
