//! The filesystem: what each request on a path is answered with.
//!
//! Every request first resolves its path to a node, so that all of them
//! agree on what exists: the root is a directory, a path of one segment that
//! is a colour file name is a regular file, and nothing else is there.

use crate::attr::{directory_attr, file_attr, FileAttr, FileType};
use crate::attr::{
    DIR_BLOCKS, DIR_NLINK, DIR_PERM, DIR_SIZE, FILE_BLOCKS, FILE_NLINK, FILE_PERM,
};
use crate::clock::{now, Timestamp};
use crate::color::{
    color_from_str, color_of, is_color_name, lemma_names_hold_no_separator, parse_name, Color,
};
use crate::encode::{encode, encoded};
use crate::path::{
    classify, is_absolute, lemma_root_shape, lemma_single_segment, segments, shape_of, PathClass,
    PathShape, SEPARATOR,
};
use crate::window::{read_window, window};
use vstd::prelude::*;

verus! {

/// Why a request fails.
#[derive(Clone, Copy, Debug, PartialEq, Eq, Structural)]
pub enum FsError {
    /// Nothing exists at the path.
    NotFound,
    /// The path is the root directory, which cannot be read as a file.
    IsDirectory,
}

/// What exists at a path.
#[derive(Clone, Copy, Debug, PartialEq, Eq, Structural)]
pub enum Node {
    /// The root directory.
    Directory,
    /// The file of a colour.
    RegularFile(Color),
    /// Nothing.
    Absent,
}

/// The node at `path`.
pub open spec fn node_at(path: Seq<char>) -> Node {
    match shape_of(path) {
        PathShape::Root => Node::Directory,
        PathShape::CandidateFile(name) => match parse_name(name) {
            Ok(color) => Node::RegularFile(color),
            Err(_) => Node::Absent,
        },
        PathShape::Invalid => Node::Absent,
    }
}

/// Resolves `path` to the node it names.
pub fn resolve(path: &str) -> (node: Node)
    ensures
        node == node_at(path@),
{
    match classify(path) {
        PathClass::Root => Node::Directory,
        PathClass::CandidateFile(name) => match color_from_str(name) {
            Ok(color) => Node::RegularFile(color),
            Err(_) => Node::Absent,
        },
        PathClass::Invalid => Node::Absent,
    }
}

/// How long an answer about attributes may be kept by the one who asked.
pub open spec fn attr_ttl() -> Timestamp {
    Timestamp { sec: 1, nsec: 0 }
}

/// The filesystem's fixed configuration: the moment it started, which
/// stamps every node, and the identity that owns every node.
#[derive(Clone, Copy, Debug, PartialEq, Eq, Structural)]
pub struct ColorFs {
    pub init_time: Timestamp,
    pub uid: u32,
    pub gid: u32,
}

impl ColorFs {
    /// What `getattr` answers for `path`.
    pub open spec fn attributes(&self, path: Seq<char>) -> Result<(Timestamp, FileAttr), FsError> {
        match node_at(path) {
            Node::Directory => Ok(
                (attr_ttl(), directory_attr(self.init_time, self.uid, self.gid)),
            ),
            Node::RegularFile(color) => Ok(
                (
                    attr_ttl(),
                    file_attr(encoded(color).len() as u64, self.init_time, self.uid, self.gid),
                ),
            ),
            Node::Absent => Err(FsError::NotFound),
        }
    }

    /// What `read` answers for `size` bytes at `offset` of `path`.
    pub open spec fn content(path: Seq<char>, offset: u64, size: u32) -> Result<Seq<u8>, FsError> {
        match node_at(path) {
            Node::Directory => Err(FsError::IsDirectory),
            Node::RegularFile(color) => Ok(window(encoded(color), offset as int, size as int)),
            Node::Absent => Err(FsError::NotFound),
        }
    }

    /// A filesystem owned by `uid` and `gid` that starts now.
    pub fn new(uid: u32, gid: u32) -> (fs: ColorFs)
        ensures
            fs.uid == uid,
            fs.gid == gid,
            fs.init_time.is_normal(),
    {
        ColorFs::starting_at(now(), uid, gid)
    }

    /// A filesystem owned by `uid` and `gid` that started at `init_time`.
    pub fn starting_at(init_time: Timestamp, uid: u32, gid: u32) -> (fs: ColorFs)
        ensures
            fs == (ColorFs { init_time, uid, gid }),
    {
        ColorFs { init_time, uid, gid }
    }

    /// Prepares the filesystem for requests. There is nothing to prepare.
    pub fn init(&self) -> (result: Result<(), FsError>)
        ensures
            result is Ok,
    {
        Ok(())
    }

    /// Opens a directory, which only the root is. The answer is a handle
    /// and flags, both zero.
    pub fn opendir(&self, path: &str, _flags: u32) -> (result: Result<(u64, u32), FsError>)
        ensures
            result == if shape_of(path@) is Root {
                Ok::<(u64, u32), FsError>((0u64, 0u32))
            } else {
                Err::<(u64, u32), FsError>(FsError::NotFound)
            },
    {
        match classify(path) {
            PathClass::Root => Ok((0, 0)),
            _ => Err(FsError::NotFound),
        }
    }

    /// Reports the attributes of the node at `path`, with the time for
    /// which they stay valid. A colour file is as large as its encoding.
    pub fn getattr(&self, path: &str, _fh: Option<u64>) -> (result: Result<
        (Timestamp, FileAttr),
        FsError,
    >)
        ensures
            result == self.attributes(path@),
            node_at(path@) matches Node::RegularFile(color) ==> result.unwrap().1.size
                == encoded(color).len(),
    {
        let ttl = Timestamp { sec: 1, nsec: 0 };
        let at = self.init_time;
        match resolve(path) {
            Node::Directory => Ok(
                (
                    ttl,
                    FileAttr {
                        size: DIR_SIZE,
                        blocks: DIR_BLOCKS,
                        atime: at,
                        mtime: at,
                        ctime: at,
                        crtime: at,
                        kind: FileType::Directory,
                        perm: DIR_PERM,
                        nlink: DIR_NLINK,
                        uid: self.uid,
                        gid: self.gid,
                        rdev: 0,
                        flags: 0,
                    },
                ),
            ),
            Node::RegularFile(color) => {
                let size = encode(color).len() as u64;
                Ok(
                    (
                        ttl,
                        FileAttr {
                            size,
                            blocks: FILE_BLOCKS,
                            atime: at,
                            mtime: at,
                            ctime: at,
                            crtime: at,
                            kind: FileType::RegularFile,
                            perm: FILE_PERM,
                            nlink: FILE_NLINK,
                            uid: self.uid,
                            gid: self.gid,
                            rdev: 0,
                            flags: 0,
                        },
                    ),
                )
            },
            Node::Absent => Err(FsError::NotFound),
        }
    }

    /// Reads up to `size` bytes at `offset` of the file at `path`: that
    /// window of the file's encoding, which is made anew for each request.
    pub fn read(&self, path: &str, _fh: u64, offset: u64, size: u32) -> (result: Result<
        Vec<u8>,
        FsError,
    >)
        ensures
            match result {
                Ok(bytes) => ColorFs::content(path@, offset, size) == Ok::<Seq<u8>, FsError>(
                    bytes@,
                ),
                Err(e) => ColorFs::content(path@, offset, size) == Err::<Seq<u8>, FsError>(e),
            },
    {
        match resolve(path) {
            Node::Directory => Err(FsError::IsDirectory),
            Node::RegularFile(color) => {
                let image = encode(color);
                Ok(read_window(&image, offset, size))
            },
            Node::Absent => Err(FsError::NotFound),
        }
    }
}

/// The root path names the directory.
pub proof fn lemma_root_is_the_directory()
    ensures
        node_at(seq![SEPARATOR]) == Node::Directory,
{
    lemma_root_shape();
}

/// The separator followed by a colour file name names the file of the
/// colour that the name denotes.
pub proof fn lemma_color_name_is_a_file(name: Seq<char>)
    requires
        is_color_name(name),
    ensures
        node_at(seq![SEPARATOR] + name) == Node::RegularFile(color_of(name)),
{
    lemma_names_hold_no_separator(name);
    lemma_single_segment(name);
}

/// The root always reports a directory, and a colour file always reports a
/// regular file whose size is the length of its colour's encoding (as far
/// as a size can count).
pub proof fn lemma_attributes_by_kind(fs: ColorFs, name: Seq<char>)
    requires
        is_color_name(name),
    ensures
        fs.attributes(seq![SEPARATOR]) is Ok,
        fs.attributes(seq![SEPARATOR]).unwrap().1.kind == FileType::Directory,
        fs.attributes(seq![SEPARATOR] + name) is Ok,
        fs.attributes(seq![SEPARATOR] + name).unwrap().1.kind == FileType::RegularFile,
        fs.attributes(seq![SEPARATOR] + name).unwrap().1.size == encoded(color_of(name)).len() as u64,
{
    lemma_root_is_the_directory();
    lemma_color_name_is_a_file(name);
}

/// A read of a colour file is a window of its colour's encoding, whatever
/// the offset and the size; past the end it is empty and no error.
pub proof fn lemma_read_is_a_window(name: Seq<char>, offset: u64, size: u32)
    requires
        is_color_name(name),
    ensures
        ColorFs::content(seq![SEPARATOR] + name, offset, size) == Ok::<Seq<u8>, FsError>(
            window(encoded(color_of(name)), offset as int, size as int),
        ),
        offset >= encoded(color_of(name)).len() ==> ColorFs::content(
            seq![SEPARATOR] + name,
            offset,
            size,
        ) == Ok::<Seq<u8>, FsError>(Seq::empty()),
{
    lemma_color_name_is_a_file(name);
}

/// The requests agree on what exists: attributes are refused exactly where
/// a read finds nothing, and a read is refused as a directory exactly where
/// the attributes are those of one.
pub proof fn lemma_requests_agree(fs: ColorFs, path: Seq<char>, offset: u64, size: u32)
    ensures
        fs.attributes(path) is Err <==> ColorFs::content(path, offset, size) == Err::<
            Seq<u8>,
            FsError,
        >(FsError::NotFound),
        fs.attributes(path) is Err ==> fs.attributes(path) == Err::<(Timestamp, FileAttr), FsError>(
            FsError::NotFound,
        ),
        ColorFs::content(path, offset, size) == Err::<Seq<u8>, FsError>(FsError::IsDirectory)
            <==> fs.attributes(path) is Ok && fs.attributes(path).unwrap().1.kind
            == FileType::Directory,
{
}

/// A path that is relative, or has more than one segment, names nothing.
pub proof fn lemma_other_paths_are_absent(path: Seq<char>)
    requires
        !is_absolute(path) || segments(path).len() >= 2,
    ensures
        node_at(path) == Node::Absent,
{
}

} // verus!
