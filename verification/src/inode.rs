//! Inode records: the two on-disk widths decoded into one canonical
//! in-memory representation.
//!
//! The original format keeps 128-byte records with 32-bit block pointers and
//! timestamps; the newer one 256-byte records with the 64-bit equivalents.
//! The width distinction stops here: everything above works on the uniform
//! record.

use vstd::prelude::*;

use crate::bytes::{le16, le32, le64, read_le16, read_le32, read_le64};
use crate::superblock::{NDADDR, NIADDR};

verus! {

/// An inode number. Inode 0 is a reserved marker that never resolves to a
/// record; the root directory has a well-known number.
#[derive(Clone, Copy, Debug, PartialEq, Eq, Structural)]
pub struct InodeNum(pub u64);

impl InodeNum {
    /// The well-known root-directory inode number.
    pub fn root() -> (r: InodeNum)
        ensures
            r.0 == 2,
    {
        InodeNum(2)
    }
}

/// The closed set of file types an inode record can carry.
#[derive(Clone, Copy, Debug, PartialEq, Eq, Structural)]
pub enum InodeType {
    RegularFile,
    Directory,
    Symlink,
    CharDevice,
    BlockDevice,
    Fifo,
    Socket,
    Unknown,
}

/// The externally visible projection of an inode record.
#[derive(Clone, Copy, Debug, PartialEq, Eq, Structural)]
pub struct InodeAttr {
    /// Size of the file in bytes.
    pub size: u64,
    /// File type taken from the mode field.
    pub kind: InodeType,
    /// Permission bits, the mode without its type nibble.
    pub perm: u16,
    /// Link count.
    pub nlink: u16,
    pub uid: u32,
    pub gid: u32,
    /// Access, modification and change times, seconds as stored on disk.
    pub atime: u64,
    pub mtime: u64,
    pub ctime: u64,
}

/// The canonical in-memory inode record.
pub(crate) struct Inode {
    pub mode: u16,
    pub nlink: u16,
    pub size: u64,
    pub uid: u32,
    pub gid: u32,
    pub atime: u64,
    pub mtime: u64,
    pub ctime: u64,
    /// The direct block pointers, always 12 of them.
    pub db: Vec<u64>,
    /// The indirect block pointers, one per indirection level.
    pub ib: Vec<u64>,
}

/// The file type selected by code `c`: the type nibble of a mode field, or a
/// directory entry's type byte, which uses the same encoding.
pub open spec fn kind_from_code(c: nat) -> InodeType {
    if c == 1 {
        InodeType::Fifo
    } else if c == 2 {
        InodeType::CharDevice
    } else if c == 4 {
        InodeType::Directory
    } else if c == 6 {
        InodeType::BlockDevice
    } else if c == 8 {
        InodeType::RegularFile
    } else if c == 10 {
        InodeType::Symlink
    } else if c == 12 {
        InodeType::Socket
    } else {
        InodeType::Unknown
    }
}

/// The file type encoded in a mode field.
pub open spec fn kind_from_mode(mode: nat) -> InodeType {
    kind_from_code(mode / 4096)
}

pub fn kind_of_code(c: u8) -> (r: InodeType)
    ensures
        r == kind_from_code(c as nat),
{
    if c == 1 {
        InodeType::Fifo
    } else if c == 2 {
        InodeType::CharDevice
    } else if c == 4 {
        InodeType::Directory
    } else if c == 6 {
        InodeType::BlockDevice
    } else if c == 8 {
        InodeType::RegularFile
    } else if c == 10 {
        InodeType::Symlink
    } else if c == 12 {
        InodeType::Socket
    } else {
        InodeType::Unknown
    }
}

pub fn kind_of_mode(mode: u16) -> (r: InodeType)
    ensures
        r == kind_from_mode(mode as nat),
{
    let c = mode / 4096;
    if c > 255 {
        InodeType::Unknown
    } else {
        kind_of_code(c as u8)
    }
}

/// Mode field of the record whose first byte sits at `base` in `s`.
pub open spec fn ino_mode(s: Seq<u8>, base: int) -> nat {
    le16(s, base)
}

pub open spec fn ino_nlink(s: Seq<u8>, base: int) -> nat {
    le16(s, base + 2)
}

/// Declared size in bytes; a 64-bit field in both record widths.
pub open spec fn ino_size(s: Seq<u8>, base: int, ufs2: bool) -> nat {
    if ufs2 {
        le64(s, base + 16)
    } else {
        le64(s, base + 8)
    }
}

pub open spec fn ino_uid(s: Seq<u8>, base: int, ufs2: bool) -> nat {
    if ufs2 {
        le32(s, base + 4)
    } else {
        le32(s, base + 112)
    }
}

pub open spec fn ino_gid(s: Seq<u8>, base: int, ufs2: bool) -> nat {
    if ufs2 {
        le32(s, base + 8)
    } else {
        le32(s, base + 116)
    }
}

pub open spec fn ino_atime(s: Seq<u8>, base: int, ufs2: bool) -> nat {
    if ufs2 {
        le64(s, base + 32)
    } else {
        le32(s, base + 16)
    }
}

pub open spec fn ino_mtime(s: Seq<u8>, base: int, ufs2: bool) -> nat {
    if ufs2 {
        le64(s, base + 40)
    } else {
        le32(s, base + 24)
    }
}

pub open spec fn ino_ctime(s: Seq<u8>, base: int, ufs2: bool) -> nat {
    if ufs2 {
        le64(s, base + 48)
    } else {
        le32(s, base + 32)
    }
}

/// Direct block pointer `i` of the record; a fragment address, zero for a
/// hole.
pub open spec fn ino_db(s: Seq<u8>, base: int, ufs2: bool, i: int) -> nat {
    if ufs2 {
        le64(s, base + 112 + 8 * i)
    } else {
        le32(s, base + 40 + 4 * i)
    }
}

/// Indirect block pointer for indirection level `i + 1`.
pub open spec fn ino_ib(s: Seq<u8>, base: int, ufs2: bool, i: int) -> nat {
    if ufs2 {
        le64(s, base + 208 + 8 * i)
    } else {
        le32(s, base + 88 + 4 * i)
    }
}

/// Byte offset of the inline symlink target area within the record: the
/// space the direct and indirect pointers normally occupy.
pub open spec fn ino_inline_off(ufs2: bool) -> int {
    if ufs2 {
        112
    } else {
        40
    }
}

/// Inline-storage threshold of a fast symlink: the size of the pointer area.
pub open spec fn inline_threshold(ufs2: bool) -> nat {
    if ufs2 {
        120
    } else {
        60
    }
}

impl Inode {
    /// The decoded record matches the raw record bytes `s[base..]`.
    pub(crate) open spec fn matches(&self, s: Seq<u8>, base: int, ufs2: bool) -> bool {
        &&& self.mode as nat == ino_mode(s, base)
        &&& self.nlink as nat == ino_nlink(s, base)
        &&& self.size as nat == ino_size(s, base, ufs2)
        &&& self.uid as nat == ino_uid(s, base, ufs2)
        &&& self.gid as nat == ino_gid(s, base, ufs2)
        &&& self.atime as nat == ino_atime(s, base, ufs2)
        &&& self.mtime as nat == ino_mtime(s, base, ufs2)
        &&& self.ctime as nat == ino_ctime(s, base, ufs2)
        &&& self.db@.len() == 12
        &&& self.ib@.len() == 3
        &&& forall|i: int| 0 <= i < 12 ==> #[trigger] self.db@[i] as nat == ino_db(s, base, ufs2, i)
        &&& forall|i: int| 0 <= i < 3 ==> #[trigger] self.ib@[i] as nat == ino_ib(s, base, ufs2, i)
    }

    /// The attribute projection of the record.
    pub(crate) fn attr(&self) -> (r: InodeAttr)
        ensures
            r.size == self.size,
            r.kind == kind_from_mode(self.mode as nat),
            r.perm as nat == self.mode as nat % 4096,
            r.nlink == self.nlink,
            r.uid == self.uid,
            r.gid == self.gid,
            r.atime == self.atime,
            r.mtime == self.mtime,
            r.ctime == self.ctime,
    {
        InodeAttr {
            size: self.size,
            kind: kind_of_mode(self.mode),
            perm: self.mode % 4096,
            nlink: self.nlink,
            uid: self.uid,
            gid: self.gid,
            atime: self.atime,
            mtime: self.mtime,
            ctime: self.ctime,
        }
    }
}

/// Decodes one inode record from its raw bytes, branching on the volume's
/// record width.
pub(crate) fn decode_inode(rec: &Vec<u8>, ufs2: bool) -> (r: Inode)
    requires
        rec.len() == if ufs2 {
            256int
        } else {
            128int
        },
    ensures
        r.matches(rec@, 0, ufs2),
{
    let mode = read_le16(rec, 0);
    let nlink = read_le16(rec, 2);
    let size = if ufs2 {
        read_le64(rec, 16)
    } else {
        read_le64(rec, 8)
    };
    let uid = if ufs2 {
        read_le32(rec, 4)
    } else {
        read_le32(rec, 112)
    };
    let gid = if ufs2 {
        read_le32(rec, 8)
    } else {
        read_le32(rec, 116)
    };
    let atime = if ufs2 {
        read_le64(rec, 32)
    } else {
        read_le32(rec, 16) as u64
    };
    let mtime = if ufs2 {
        read_le64(rec, 40)
    } else {
        read_le32(rec, 24) as u64
    };
    let ctime = if ufs2 {
        read_le64(rec, 48)
    } else {
        read_le32(rec, 32) as u64
    };
    let mut db: Vec<u64> = Vec::new();
    let mut i: usize = 0;
    while i < NDADDR
        invariant
            i <= 12,
            rec.len() == if ufs2 {
                256int
            } else {
                128int
            },
            db@.len() == i,
            forall|j: int| 0 <= j < i ==> #[trigger] db@[j] as nat == ino_db(rec@, 0, ufs2, j),
        decreases 12 - i,
    {
        let p = if ufs2 {
            read_le64(rec, 112 + 8 * i)
        } else {
            read_le32(rec, 40 + 4 * i) as u64
        };
        db.push(p);
        i = i + 1;
    }
    let mut ib: Vec<u64> = Vec::new();
    let mut i: usize = 0;
    while i < NIADDR
        invariant
            i <= 3,
            rec.len() == if ufs2 {
                256int
            } else {
                128int
            },
            ib@.len() == i,
            forall|j: int| 0 <= j < i ==> #[trigger] ib@[j] as nat == ino_ib(rec@, 0, ufs2, j),
        decreases 3 - i,
    {
        let p = if ufs2 {
            read_le64(rec, 208 + 8 * i)
        } else {
            read_le32(rec, 88 + 4 * i) as u64
        };
        ib.push(p);
        i = i + 1;
    }
    Inode { mode, nlink, size, uid, gid, atime, mtime, ctime, db, ib }
}

} // verus!
