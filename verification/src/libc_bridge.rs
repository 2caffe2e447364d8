//! File attributes: the portable record that is reported for a file, and how
//! it is made from what the operating system reports.

use vstd::prelude::*;

verus! {

/// The bits of a file mode that hold the kind of the file.
pub const S_IFMT: u32 = 0xF000;

pub const S_IFIFO: u32 = 0x1000;

pub const S_IFCHR: u32 = 0x2000;

pub const S_IFDIR: u32 = 0x4000;

pub const S_IFBLK: u32 = 0x6000;

pub const S_IFREG: u32 = 0x8000;

pub const S_IFLNK: u32 = 0xA000;

pub const S_IFSOCK: u32 = 0xC000;

/// The bits of a file mode that hold the permissions.
pub const PERMISSIONS: u32 = 0xFFF;

pub const DT_FIFO: u8 = 1;

pub const DT_CHR: u8 = 2;

pub const DT_DIR: u8 = 4;

pub const DT_BLK: u8 = 6;

pub const DT_REG: u8 = 8;

pub const DT_LNK: u8 = 10;

pub const DT_SOCK: u8 = 12;

/// The error reported for an argument that makes no sense.
pub const EINVAL: i32 = 22;

/// The error reported when something went wrong underneath.
pub const EIO: i32 = 5;

/// The error reported for an attempt to write.
pub const EROFS: i32 = 30;

/// The kind of a file.
#[derive(Clone, Copy, Debug, PartialEq, Eq, Structural)]
pub enum FileType {
    NamedPipe,
    CharDevice,
    BlockDevice,
    Directory,
    RegularFile,
    Symlink,
    Socket,
}

/// A point in time: seconds and nanoseconds.
#[derive(Clone, Copy, Debug, PartialEq, Eq, Structural)]
pub struct Timespec {
    pub sec: i64,
    pub nsec: i32,
}

/// The attributes reported for a file.
#[derive(Clone, Copy, Debug, PartialEq, Eq, Structural)]
pub struct FileAttr {
    /// Size in bytes.
    pub size: u64,
    /// Size in blocks.
    pub blocks: u64,
    /// Time of last access.
    pub atime: Timespec,
    /// Time of last modification.
    pub mtime: Timespec,
    /// Time of last change of the attributes.
    pub ctime: Timespec,
    /// Time of creation.
    pub crtime: Timespec,
    /// Kind of file.
    pub kind: FileType,
    /// Permissions.
    pub perm: u16,
    /// Number of hard links.
    pub nlink: u32,
    /// Owner.
    pub uid: u32,
    /// Group.
    pub gid: u32,
    /// Device number, for a device file.
    pub rdev: u32,
    /// Flags.
    pub flags: u32,
}

/// What the operating system reports of a file.
#[derive(Clone, Copy, Debug, PartialEq, Eq, Structural)]
pub struct Stat {
    pub st_mode: u32,
    pub st_size: i64,
    pub st_blocks: i64,
    pub st_atime: i64,
    pub st_atime_nsec: i64,
    pub st_mtime: i64,
    pub st_mtime_nsec: i64,
    pub st_ctime: i64,
    pub st_ctime_nsec: i64,
    pub st_nlink: u64,
    pub st_uid: u32,
    pub st_gid: u32,
    pub st_rdev: u64,
}

/// The kind of file that a mode stands for, if it stands for one.
pub open spec fn file_type_of(mode: u32) -> Option<FileType> {
    if mode & S_IFMT == S_IFDIR {
        Some(FileType::Directory)
    } else if mode & S_IFMT == S_IFREG {
        Some(FileType::RegularFile)
    } else if mode & S_IFMT == S_IFLNK {
        Some(FileType::Symlink)
    } else if mode & S_IFMT == S_IFBLK {
        Some(FileType::BlockDevice)
    } else if mode & S_IFMT == S_IFCHR {
        Some(FileType::CharDevice)
    } else if mode & S_IFMT == S_IFIFO {
        Some(FileType::NamedPipe)
    } else if mode & S_IFMT == S_IFSOCK {
        Some(FileType::Socket)
    } else {
        None
    }
}

/// The kind of file that a directory entry of type `d_type` is, where the
/// directory tells it. A socket is listed as a named pipe.
pub open spec fn entry_type_of(d_type: u8) -> Option<FileType> {
    if d_type == DT_DIR {
        Some(FileType::Directory)
    } else if d_type == DT_REG {
        Some(FileType::RegularFile)
    } else if d_type == DT_LNK {
        Some(FileType::Symlink)
    } else if d_type == DT_BLK {
        Some(FileType::BlockDevice)
    } else if d_type == DT_CHR {
        Some(FileType::CharDevice)
    } else if d_type == DT_FIFO || d_type == DT_SOCK {
        Some(FileType::NamedPipe)
    } else {
        None
    }
}

/// The attributes that stand for what the operating system reported: the
/// kind and the permissions are taken out of the mode, every number is cut to
/// the width of its field, the time of creation and the flags are zero.
pub open spec fn attr_of(stat: Stat) -> FileAttr {
    FileAttr {
        size: stat.st_size as u64,
        blocks: stat.st_blocks as u64,
        atime: Timespec { sec: stat.st_atime, nsec: stat.st_atime_nsec as i32 },
        mtime: Timespec { sec: stat.st_mtime, nsec: stat.st_mtime_nsec as i32 },
        ctime: Timespec { sec: stat.st_ctime, nsec: stat.st_ctime_nsec as i32 },
        crtime: Timespec { sec: 0, nsec: 0 },
        kind: file_type_of(stat.st_mode).unwrap(),
        perm: (stat.st_mode & PERMISSIONS) as u16,
        nlink: stat.st_nlink as u32,
        uid: stat.st_uid,
        gid: stat.st_gid,
        rdev: stat.st_rdev as u32,
        flags: 0,
    }
}

/// The attributes reported for a projected file: the size and the number of
/// blocks are those of the cached file, which is what is read; everything
/// else is that of the source file.
pub open spec fn merged(cache: FileAttr, source: FileAttr) -> FileAttr {
    FileAttr { size: cache.size, blocks: cache.blocks, ..source }
}

/// The kind of file that `mode` stands for, if it stands for one.
pub fn type_of_mode(mode: u32) -> (r: Option<FileType>)
    ensures
        r == file_type_of(mode),
{
    let kind = mode & S_IFMT;
    if kind == S_IFDIR {
        Some(FileType::Directory)
    } else if kind == S_IFREG {
        Some(FileType::RegularFile)
    } else if kind == S_IFLNK {
        Some(FileType::Symlink)
    } else if kind == S_IFBLK {
        Some(FileType::BlockDevice)
    } else if kind == S_IFCHR {
        Some(FileType::CharDevice)
    } else if kind == S_IFIFO {
        Some(FileType::NamedPipe)
    } else if kind == S_IFSOCK {
        Some(FileType::Socket)
    } else {
        None
    }
}

/// The kind of file that `mode` stands for.
pub fn mode_to_filetype(mode: u32) -> (r: FileType)
    requires
        file_type_of(mode).is_some(),
    ensures
        r == file_type_of(mode).unwrap(),
{
    match type_of_mode(mode) {
        Some(kind) => kind,
        None => FileType::RegularFile,
    }
}

/// The kind of file that a directory entry of type `d_type` is, where the
/// directory tells it.
pub fn type_of_entry(d_type: u8) -> (r: Option<FileType>)
    ensures
        r == entry_type_of(d_type),
{
    if d_type == DT_DIR {
        Some(FileType::Directory)
    } else if d_type == DT_REG {
        Some(FileType::RegularFile)
    } else if d_type == DT_LNK {
        Some(FileType::Symlink)
    } else if d_type == DT_BLK {
        Some(FileType::BlockDevice)
    } else if d_type == DT_CHR {
        Some(FileType::CharDevice)
    } else if d_type == DT_FIFO || d_type == DT_SOCK {
        Some(FileType::NamedPipe)
    } else {
        None
    }
}

/// Makes the attributes to report from what the operating system reported.
pub fn stat_to_fuse(stat: Stat) -> (r: FileAttr)
    requires
        file_type_of(stat.st_mode).is_some(),
    ensures
        r == attr_of(stat),
{
    let kind = mode_to_filetype(stat.st_mode);
    let mode: u32 = stat.st_mode;
    let bits: u32 = mode & PERMISSIONS;
    assert(bits <= 0xFFF) by (bit_vector)
        requires
            bits == mode & 0xFFF,
    ;
    FileAttr {
        size: #[verifier::truncate] (stat.st_size as u64),
        blocks: #[verifier::truncate] (stat.st_blocks as u64),
        atime: Timespec {
            sec: stat.st_atime,
            nsec: #[verifier::truncate] (stat.st_atime_nsec as i32),
        },
        mtime: Timespec {
            sec: stat.st_mtime,
            nsec: #[verifier::truncate] (stat.st_mtime_nsec as i32),
        },
        ctime: Timespec {
            sec: stat.st_ctime,
            nsec: #[verifier::truncate] (stat.st_ctime_nsec as i32),
        },
        crtime: Timespec { sec: 0, nsec: 0 },
        kind,
        perm: bits as u16,
        nlink: #[verifier::truncate] (stat.st_nlink as u32),
        uid: stat.st_uid,
        gid: stat.st_gid,
        rdev: #[verifier::truncate] (stat.st_rdev as u32),
        flags: 0,
    }
}

/// The attributes to report for a projected file, from those of its cached
/// file and those of its source file.
pub fn merge_attr(cache: FileAttr, source: FileAttr) -> (r: FileAttr)
    ensures
        r == merged(cache, source),
        r.size == cache.size,
        r.blocks == cache.blocks,
        r.atime == source.atime,
        r.mtime == source.mtime,
        r.ctime == source.ctime,
        r.crtime == source.crtime,
        r.kind == source.kind,
        r.perm == source.perm,
        r.nlink == source.nlink,
        r.uid == source.uid,
        r.gid == source.gid,
        r.rdev == source.rdev,
        r.flags == source.flags,
{
    let mut r = source;
    r.size = cache.size;
    r.blocks = cache.blocks;
    r
}

/// How long the kernel may keep reported attributes: one second.
pub fn ttl() -> (r: Timespec)
    ensures
        r == (Timespec { sec: 1, nsec: 0 }),
{
    Timespec { sec: 1, nsec: 0 }
}

} // verus!
