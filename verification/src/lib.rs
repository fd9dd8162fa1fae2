//! Read-only decoder for the UFS/FFS on-disk format.
//!
//! The crate opens a raw disk image held in memory, locates and validates one
//! of the two historical superblock positions, and exposes file, directory and
//! symlink access by inode number: attribute lookup, bounded data reads with
//! sparse-hole zero fill, directory iteration and name lookup, and symlink
//! target materialization.

pub mod backend;
pub mod blockreader;
pub mod bytes;
pub mod dir;
pub mod error;
pub mod inode;
pub mod resolve;
pub mod superblock;
pub mod ufs;

pub use crate::backend::Backend;
pub use crate::blockreader::BlockReader;
pub use crate::dir::DirEntry;
pub use crate::error::UfsError;
pub use crate::inode::{InodeAttr, InodeNum, InodeType};
pub use crate::superblock::Superblock;
pub use crate::ufs::{Info, Ufs};
