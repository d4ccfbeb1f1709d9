//! The attributes that the filesystem reports for its nodes.

use crate::clock::Timestamp;
use vstd::prelude::*;

verus! {

/// The kinds of node that exist here.
#[derive(Clone, Copy, Debug, PartialEq, Eq, Structural)]
pub enum FileType {
    Directory,
    RegularFile,
}

/// The attributes of one node.
#[derive(Clone, Copy, Debug, PartialEq, Eq, Structural)]
pub struct FileAttr {
    /// Size in bytes.
    pub size: u64,
    /// Size in blocks.
    pub blocks: u64,
    /// Time of last access.
    pub atime: Timestamp,
    /// Time of last modification.
    pub mtime: Timestamp,
    /// Time of last change of the attributes.
    pub ctime: Timestamp,
    /// Time of creation.
    pub crtime: Timestamp,
    /// Kind of node.
    pub kind: FileType,
    /// Permission bits.
    pub perm: u16,
    /// Number of hard links.
    pub nlink: u32,
    /// Owning user.
    pub uid: u32,
    /// Owning group.
    pub gid: u32,
    /// Device number, for special files.
    pub rdev: u32,
    /// Platform flags.
    pub flags: u32,
}

/// Size reported for the root directory.
pub const DIR_SIZE: u64 = 4096;

/// Blocks reported for the root directory.
pub const DIR_BLOCKS: u64 = 8;

/// Permissions of the root directory: all for the owner, none for others.
pub const DIR_PERM: u16 = 0o700;

/// Links to the root directory.
pub const DIR_NLINK: u32 = 2;

/// Blocks reported for a colour file.
pub const FILE_BLOCKS: u64 = 1;

/// Permissions of a colour file: the owner may read it.
pub const FILE_PERM: u16 = 0o400;

/// Links to a colour file.
pub const FILE_NLINK: u32 = 0;

/// The attributes of the root directory of a filesystem that started at
/// `at` and belongs to `uid` and `gid`.
pub open spec fn directory_attr(at: Timestamp, uid: u32, gid: u32) -> FileAttr {
    FileAttr {
        size: DIR_SIZE,
        blocks: DIR_BLOCKS,
        atime: at,
        mtime: at,
        ctime: at,
        crtime: at,
        kind: FileType::Directory,
        perm: DIR_PERM,
        nlink: DIR_NLINK,
        uid,
        gid,
        rdev: 0,
        flags: 0,
    }
}

/// The attributes of a colour file of `size` bytes in such a filesystem.
pub open spec fn file_attr(size: u64, at: Timestamp, uid: u32, gid: u32) -> FileAttr {
    FileAttr {
        size,
        blocks: FILE_BLOCKS,
        atime: at,
        mtime: at,
        ctime: at,
        crtime: at,
        kind: FileType::RegularFile,
        perm: FILE_PERM,
        nlink: FILE_NLINK,
        uid,
        gid,
        rdev: 0,
        flags: 0,
    }
}

} // verus!
