//! End-to-end tests over crafted in-memory volume images (newer layout:
//! superblock at 65536, 256-byte inode records, 64-bit pointers).

use rufs::{Backend, InodeNum, InodeType, Ufs, UfsError};

const SB: usize = 65536;
const FSIZE: u64 = 512;
const BSIZE: u64 = 512;
const VOL_FRAGS: u64 = 2048;
const IBLKNO: u64 = 160;
const IPG: u64 = 16;
const ITABLE: usize = (IBLKNO * FSIZE) as usize;

fn w16(b: &mut [u8], off: usize, v: u16) {
    b[off..off + 2].copy_from_slice(&v.to_le_bytes());
}

fn w32(b: &mut [u8], off: usize, v: u32) {
    b[off..off + 4].copy_from_slice(&v.to_le_bytes());
}

fn w64(b: &mut [u8], off: usize, v: u64) {
    b[off..off + 8].copy_from_slice(&v.to_le_bytes());
}

/// A fresh image with a valid modern superblock: one cylinder group,
/// sixteen inodes, inode table at fragment 160.
fn base_image() -> Vec<u8> {
    let mut b = vec![0u8; (VOL_FRAGS * FSIZE) as usize];
    w32(&mut b, SB + 16, IBLKNO as u32); // inode-table offset in frags
    w32(&mut b, SB + 24, 0); // group placement correction
    w32(&mut b, SB + 28, 0); // its mask
    w32(&mut b, SB + 44, 1); // number of groups
    w32(&mut b, SB + 48, BSIZE as u32);
    w32(&mut b, SB + 52, FSIZE as u32);
    w32(&mut b, SB + 56, 1); // fragments per block
    w32(&mut b, SB + 184, IPG as u32);
    w32(&mut b, SB + 188, VOL_FRAGS as u32); // frags per group
    w64(&mut b, SB + 1080, VOL_FRAGS); // volume size in frags
    w32(&mut b, SB + 1372, 0x19540119); // newer magic
    b
}

fn ino_off(inr: u64) -> usize {
    ITABLE + (inr as usize) * 256
}

fn set_inode(b: &mut [u8], inr: u64, mode: u16, size: u64) {
    let o = ino_off(inr);
    w16(b, o, mode);
    w16(b, o + 2, 1); // link count
    w64(b, o + 16, size);
}

fn set_db(b: &mut [u8], inr: u64, i: usize, frag: u64) {
    w64(b, ino_off(inr) + 112 + 8 * i, frag);
}

fn set_ib(b: &mut [u8], inr: u64, i: usize, frag: u64) {
    w64(b, ino_off(inr) + 208 + 8 * i, frag);
}

/// Writes one directory entry at `pos`, returning the next cursor position.
fn dirent(b: &mut [u8], pos: usize, ino: u32, typ: u8, name: &[u8], reclen: u16) -> usize {
    w32(b, pos, ino);
    w16(b, pos + 4, reclen);
    b[pos + 6] = typ;
    b[pos + 7] = name.len() as u8;
    b[pos + 8..pos + 8 + name.len()].copy_from_slice(name);
    pos + reclen as usize
}

fn open_vol(img: Vec<u8>) -> Ufs {
    Ufs::open(Backend::new(img), true, false).expect("volume should open")
}

/// Builds the directory tree `/a/b`, a sparse file, an indirect-span file
/// and two symlinks used by most tests below.
///   inode 2: root directory (entries ".", "..", deleted slot, "a", "f",
///            "sparse", "big", "ln", "lnlong")
///   inode 3: directory "a" (entries ".", "..", "b")
///   inode 4: regular file "b" (content "hello")
///   inode 5: sparse file: data, hole, data
///   inode 6: thirteen-block file crossing the direct span
///   inode 7: fast symlink "../x"
///   inode 8: long symlink (130 bytes) stored in a data block
///   inode 9: regular file "f" (empty)
fn tree_image() -> Vec<u8> {
    let mut b = base_image();
    // root directory, one block at frag 200
    set_inode(&mut b, 2, 0o040_755, BSIZE);
    set_db(&mut b, 2, 0, 200);
    let d = (200 * FSIZE) as usize;
    let mut p = d;
    p = dirent(&mut b, p, 2, 4, b".", 12);
    p = dirent(&mut b, p, 2, 4, b"..", 12);
    p = dirent(&mut b, p, 0, 8, b"gone", 16); // deleted slot
    p = dirent(&mut b, p, 3, 4, b"a", 12);
    p = dirent(&mut b, p, 9, 8, b"f", 12);
    p = dirent(&mut b, p, 5, 8, b"sparse", 16);
    p = dirent(&mut b, p, 6, 8, b"big", 12);
    p = dirent(&mut b, p, 7, 10, b"ln", 12);
    let used = (p - d) as u16;
    dirent(&mut b, p, 8, 10, b"lnlong", 512 - used);
    // directory "a", one block at frag 201
    set_inode(&mut b, 3, 0o040_755, BSIZE);
    set_db(&mut b, 3, 0, 201);
    let d = (201 * FSIZE) as usize;
    let mut p = d;
    p = dirent(&mut b, p, 3, 4, b".", 12);
    p = dirent(&mut b, p, 2, 4, b"..", 12);
    let used = (p - d) as u16;
    dirent(&mut b, p, 4, 8, b"b", 512 - used);
    // file "b"
    set_inode(&mut b, 4, 0o100_644, 5);
    set_db(&mut b, 4, 0, 202);
    b[(202 * FSIZE) as usize..(202 * FSIZE) as usize + 5].copy_from_slice(b"hello");
    // sparse file: block 0 = 0xAA, block 1 = hole, block 2 = 0xBB
    set_inode(&mut b, 5, 0o100_644, 3 * BSIZE);
    set_db(&mut b, 5, 0, 203);
    set_db(&mut b, 5, 2, 204);
    for i in 0..BSIZE as usize {
        b[(203 * FSIZE) as usize + i] = 0xAA;
        b[(204 * FSIZE) as usize + i] = 0xBB;
    }
    // thirteen-block file: direct blocks at frags 210..222, block 12 through
    // the single-indirect block at frag 230
    set_inode(&mut b, 6, 0o100_644, 13 * BSIZE);
    for i in 0..12 {
        set_db(&mut b, 6, i, 210 + i as u64);
        for j in 0..BSIZE as usize {
            b[((210 + i as u64) * FSIZE) as usize + j] = i as u8;
        }
    }
    set_ib(&mut b, 6, 0, 230);
    w64(&mut b, (230 * FSIZE) as usize, 222);
    for j in 0..BSIZE as usize {
        b[(222 * FSIZE) as usize + j] = 12;
    }
    // fast symlink: target inline in the pointer area
    set_inode(&mut b, 7, 0o120_777, 4);
    let o = ino_off(7) + 112;
    b[o..o + 4].copy_from_slice(b"../x");
    // long symlink: 130-byte target in a data block
    set_inode(&mut b, 8, 0o120_777, 130);
    set_db(&mut b, 8, 0, 231);
    for j in 0..130 {
        b[(231 * FSIZE) as usize + j] = b'a' + (j % 26) as u8;
    }
    // empty regular file "f"
    set_inode(&mut b, 9, 0o100_600, 0);
    b
}

#[test]
fn open_reports_geometry() {
    let fs = open_vol(tree_image());
    let info = fs.info();
    assert!(info.ufs2);
    assert_eq!(info.blocksize, BSIZE);
    assert_eq!(info.fragsize, FSIZE);
    assert_eq!(info.inode_count, IPG);
    assert_eq!(info.group_count, 1);
    assert_eq!(info.volume_frags, VOL_FRAGS);
}

#[test]
fn attr_succeeds_for_every_valid_inode() {
    let fs = open_vol(tree_image());
    for n in 1..IPG {
        let attr = fs.inode_attr(InodeNum(n));
        assert!(attr.is_ok(), "inode {} should resolve", n);
    }
    let root = fs.inode_attr(InodeNum(2)).unwrap();
    assert_eq!(root.kind, InodeType::Directory);
    assert_eq!(root.size, BSIZE);
    assert_eq!(root.perm, 0o755);
    let file = fs.inode_attr(InodeNum(4)).unwrap();
    assert_eq!(file.kind, InodeType::RegularFile);
    assert_eq!(file.size, 5);
}

#[test]
fn attr_fails_outside_valid_range() {
    let fs = open_vol(tree_image());
    assert_eq!(fs.inode_attr(InodeNum(0)), Err(UfsError::NotFound));
    assert_eq!(fs.inode_attr(InodeNum(IPG)), Err(UfsError::NotFound));
    assert_eq!(fs.inode_attr(InodeNum(10_000)), Err(UfsError::NotFound));
}

#[test]
fn hole_reads_back_as_zeros() {
    let fs = open_vol(tree_image());
    let mut buf = vec![0xFFu8; 3 * BSIZE as usize];
    let n = fs.inode_read(InodeNum(5), 0, &mut buf).unwrap();
    assert_eq!(n, 3 * BSIZE);
    assert!(buf[..512].iter().all(|&x| x == 0xAA));
    assert!(buf[512..1024].iter().all(|&x| x == 0x00));
    assert!(buf[1024..].iter().all(|&x| x == 0xBB));
}

#[test]
fn read_crosses_direct_to_indirect_boundary() {
    let fs = open_vol(tree_image());
    // whole file byte-for-byte
    let mut all = vec![0u8; 13 * BSIZE as usize];
    let n = fs.inode_read(InodeNum(6), 0, &mut all).unwrap();
    assert_eq!(n, 13 * BSIZE);
    for blk in 0..13usize {
        assert!(
            all[blk * 512..(blk + 1) * 512].iter().all(|&x| x == blk as u8),
            "block {} content",
            blk
        );
    }
    // a read straddling the boundary between direct and indirect spans
    let mut cross = vec![0u8; 512];
    let n = fs.inode_read(InodeNum(6), 12 * BSIZE - 256, &mut cross).unwrap();
    assert_eq!(n, 512);
    assert!(cross[..256].iter().all(|&x| x == 11));
    assert!(cross[256..].iter().all(|&x| x == 12));
}

#[test]
fn read_stops_at_declared_size() {
    let fs = open_vol(tree_image());
    let mut buf = vec![0x55u8; 64];
    let n = fs.inode_read(InodeNum(4), 0, &mut buf).unwrap();
    assert_eq!(n, 5);
    assert_eq!(&buf[..5], b"hello");
    assert!(buf[5..].iter().all(|&x| x == 0x55), "tail untouched");
    let n = fs.inode_read(InodeNum(4), 7, &mut buf).unwrap();
    assert_eq!(n, 0);
}

#[test]
fn lookup_walks_two_levels() {
    let fs = open_vol(tree_image());
    assert_eq!(InodeNum::root(), InodeNum(2));
    let a = fs.dir_lookup(InodeNum::root(), b"a").unwrap();
    assert_eq!(a, InodeNum(3));
    let b = fs.dir_lookup(a, b"b").unwrap();
    assert_eq!(b, InodeNum(4));
    assert_eq!(fs.dir_lookup(InodeNum(2), b"missing"), Err(UfsError::NotFound));
}

#[test]
fn path_lookup_resolves_absolute_paths() {
    let fs = open_vol(tree_image());
    assert_eq!(fs.path_lookup(b"/a/b").unwrap(), InodeNum(4));
    assert_eq!(fs.path_lookup(b"/").unwrap(), InodeNum(2));
    assert_eq!(fs.path_lookup(b"//a//b/").unwrap(), InodeNum(4));
    assert_eq!(fs.path_lookup(b"a/b"), Err(UfsError::InvalidInput));
    assert_eq!(fs.path_lookup(b""), Err(UfsError::InvalidInput));
    assert_eq!(fs.path_lookup(b"/nope"), Err(UfsError::NotFound));
}

#[test]
fn symlink_short_target_is_inline() {
    let fs = open_vol(tree_image());
    let t = fs.symlink_read(InodeNum(7)).unwrap();
    assert_eq!(&t, b"../x");
}

#[test]
fn symlink_long_target_comes_from_data_blocks() {
    let fs = open_vol(tree_image());
    let t = fs.symlink_read(InodeNum(8)).unwrap();
    assert_eq!(t.len(), 130);
    for (j, &x) in t.iter().enumerate() {
        assert_eq!(x, b'a' + (j % 26) as u8);
    }
}

#[test]
fn symlink_read_rejects_non_symlinks() {
    let fs = open_vol(tree_image());
    assert_eq!(fs.symlink_read(InodeNum(4)), Err(UfsError::InvalidInput));
    assert_eq!(fs.symlink_read(InodeNum(0)), Err(UfsError::NotFound));
}

#[test]
fn dir_iter_skips_deleted_and_keeps_dot_entries() {
    let fs = open_vol(tree_image());
    let entries = fs.dir_iter(InodeNum(2)).unwrap();
    let names: Vec<Vec<u8>> = entries.iter().map(|e| e.name.clone()).collect();
    assert_eq!(names[0], b".");
    assert_eq!(names[1], b"..");
    assert!(names.iter().all(|n| n != b"gone"), "deleted slot must not surface");
    assert!(names.iter().any(|n| n == b"a"));
    assert!(entries.iter().all(|e| e.inr != InodeNum(0)));
    let a = entries.iter().find(|e| e.name == b"a").unwrap();
    assert_eq!(a.kind, InodeType::Directory);
    assert_eq!(a.inr, InodeNum(3));
}

#[test]
fn dir_iter_rejects_non_directories() {
    let fs = open_vol(tree_image());
    assert_eq!(fs.dir_iter(InodeNum(4)).unwrap_err(), UfsError::InvalidInput);
}

#[test]
fn corrupt_directory_record_is_refused() {
    let mut img = tree_image();
    // overrun: first record of the root directory claims 1024 bytes
    let d = (200 * FSIZE) as usize;
    w16(&mut img, d + 4, 1024);
    let fs = open_vol(img);
    assert_eq!(fs.dir_iter(InodeNum(2)).unwrap_err(), UfsError::Corrupt);
    assert_eq!(fs.dir_lookup(InodeNum(2), b"a").unwrap_err(), UfsError::Corrupt);
}

#[test]
fn pointer_outside_volume_is_io_error() {
    let mut img = tree_image();
    let fs = {
        set_db(&mut img, 4, 0, VOL_FRAGS + 17);
        open_vol(img)
    };
    let mut buf = vec![0u8; 5];
    assert_eq!(fs.inode_read(InodeNum(4), 0, &mut buf).unwrap_err(), UfsError::Io);
}

#[test]
fn corrupted_magic_at_both_offsets_fails_open() {
    let mut img = tree_image();
    w32(&mut img, SB + 1372, 0xDEAD_BEEF);
    w32(&mut img, 8192 + 1372, 0xDEAD_BEEF);
    let e = Ufs::open(Backend::new(img.clone()), true, false).unwrap_err();
    assert_eq!(e, UfsError::Corrupt);
    let e = Ufs::open(Backend::new(img), true, true).unwrap_err();
    assert_eq!(e, UfsError::Corrupt);
}

#[test]
fn open_rejects_bad_geometry() {
    let mut img = tree_image();
    w32(&mut img, SB + 48, 511); // block size below the floor
    assert_eq!(Ufs::open(Backend::new(img), true, false).unwrap_err(), UfsError::Corrupt);
    let mut img = tree_image();
    w32(&mut img, SB + 56, 3); // fragments per block not a power of two
    assert_eq!(Ufs::open(Backend::new(img), true, false).unwrap_err(), UfsError::Corrupt);
    let mut img = tree_image();
    w64(&mut img, SB + 1080, VOL_FRAGS * 2); // volume larger than the image
    assert_eq!(Ufs::open(Backend::new(img), true, false).unwrap_err(), UfsError::Corrupt);
}

#[test]
fn empty_file_reads_nothing() {
    let fs = open_vol(tree_image());
    let attr = fs.inode_attr(InodeNum(9)).unwrap();
    assert_eq!(attr.size, 0);
    let mut buf = vec![0x77u8; 8];
    let n = fs.inode_read(InodeNum(9), 0, &mut buf).unwrap();
    assert_eq!(n, 0);
    assert!(buf.iter().all(|&x| x == 0x77));
}

#[test]
fn lookup_in_invalid_inode_is_not_found() {
    let fs = open_vol(tree_image());
    assert_eq!(fs.dir_lookup(InodeNum(0), b"a"), Err(UfsError::NotFound));
    assert_eq!(fs.dir_lookup(InodeNum(9999), b"a"), Err(UfsError::NotFound));
}
