//! Tests over the original-format layout: superblock at byte 8192,
//! 128-byte inode records, 32-bit block pointers, 60-byte inline symlinks.

use rufs::{Backend, InodeNum, InodeType, Ufs, UfsError};

const SB: usize = 8192;
const FSIZE: u64 = 512;
const VOL_FRAGS: u64 = 64;
const IBLKNO: u64 = 32;
const IPG: u64 = 8;
const ITABLE: usize = (IBLKNO * FSIZE) as usize;

fn w16(b: &mut [u8], off: usize, v: u16) {
    b[off..off + 2].copy_from_slice(&v.to_le_bytes());
}

fn w32(b: &mut [u8], off: usize, v: u32) {
    b[off..off + 4].copy_from_slice(&v.to_le_bytes());
}

fn w64(b: &mut [u8], off: usize, v: u64) {
    b[off..off + 8].copy_from_slice(&v.to_le_bytes());
}

fn ino_off(inr: u64) -> usize {
    ITABLE + (inr as usize) * 128
}

fn base_image() -> Vec<u8> {
    let mut b = vec![0u8; (VOL_FRAGS * FSIZE) as usize];
    w32(&mut b, SB + 16, IBLKNO as u32);
    w32(&mut b, SB + 24, 0);
    w32(&mut b, SB + 28, 0);
    w32(&mut b, SB + 36, VOL_FRAGS as u32); // volume size, legacy field
    w32(&mut b, SB + 44, 1);
    w32(&mut b, SB + 48, 512);
    w32(&mut b, SB + 52, 512);
    w32(&mut b, SB + 56, 1);
    w32(&mut b, SB + 184, IPG as u32);
    w32(&mut b, SB + 188, VOL_FRAGS as u32);
    w32(&mut b, SB + 1372, 0x011954); // original magic
    b
}

fn dirent(b: &mut [u8], pos: usize, ino: u32, typ: u8, name: &[u8], reclen: u16) -> usize {
    w32(b, pos, ino);
    w16(b, pos + 4, reclen);
    b[pos + 6] = typ;
    b[pos + 7] = name.len() as u8;
    b[pos + 8..pos + 8 + name.len()].copy_from_slice(name);
    pos + reclen as usize
}

/// Root directory with one file "f" (content "legacy"), plus a fast
/// symlink at inode 4.
fn legacy_image() -> Vec<u8> {
    let mut b = base_image();
    // root at inode 2, one block at frag 40
    let o = ino_off(2);
    w16(&mut b, o, 0o040_755);
    w64(&mut b, o + 8, 512);
    w32(&mut b, o + 40, 40);
    let d = (40 * FSIZE) as usize;
    let mut p = d;
    p = dirent(&mut b, p, 2, 4, b".", 12);
    p = dirent(&mut b, p, 2, 4, b"..", 12);
    let used = (p - d) as u16;
    dirent(&mut b, p, 3, 8, b"f", 512 - used);
    // file "f" at inode 3, data at frag 41
    let o = ino_off(3);
    w16(&mut b, o, 0o100_644);
    w64(&mut b, o + 8, 6);
    w32(&mut b, o + 40, 41);
    b[(41 * FSIZE) as usize..(41 * FSIZE) as usize + 6].copy_from_slice(b"legacy");
    // fast symlink at inode 4: 32-bit records store the target from the
    // direct-pointer area on
    let o = ino_off(4);
    w16(&mut b, o, 0o120_777);
    w64(&mut b, o + 8, 4);
    b[o + 40..o + 44].copy_from_slice(b"../y");
    b
}

#[test]
fn legacy_superblock_opens_with_the_flag() {
    let fs = Ufs::open(Backend::new(legacy_image()), true, true).unwrap();
    let info = fs.info();
    assert!(!info.ufs2);
    assert_eq!(info.inode_count, IPG);
    assert_eq!(info.volume_frags, VOL_FRAGS);
}

#[test]
fn legacy_volume_is_not_found_at_the_modern_offset() {
    let e = Ufs::open(Backend::new(legacy_image()), true, false).unwrap_err();
    assert_eq!(e, UfsError::Corrupt);
}

#[test]
fn legacy_records_decode() {
    let fs = Ufs::open(Backend::new(legacy_image()), true, true).unwrap();
    let f = fs.dir_lookup(InodeNum(2), b"f").unwrap();
    assert_eq!(f, InodeNum(3));
    let attr = fs.inode_attr(f).unwrap();
    assert_eq!(attr.kind, InodeType::RegularFile);
    assert_eq!(attr.size, 6);
    let mut buf = vec![0u8; 6];
    let n = fs.inode_read(f, 0, &mut buf).unwrap();
    assert_eq!(n, 6);
    assert_eq!(&buf, b"legacy");
}

#[test]
fn legacy_fast_symlink_reads_inline() {
    let fs = Ufs::open(Backend::new(legacy_image()), true, true).unwrap();
    let t = fs.symlink_read(InodeNum(4)).unwrap();
    assert_eq!(&t, b"../y");
}
