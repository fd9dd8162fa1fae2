//! Tests for the deeper indirection levels, interior holes and
//! multi-block directories (newer layout, 512-byte blocks, 64 pointers per
//! indirect block).

use rufs::{Backend, InodeNum, Ufs, UfsError};

const SB: usize = 65536;
const FSIZE: u64 = 512;
const BSIZE: u64 = 512;
const VOL_FRAGS: u64 = 8192;
const IBLKNO: u64 = 160;
const IPG: u64 = 16;
const ITABLE: usize = (IBLKNO * FSIZE) as usize;

// Logical spans with 64 pointers per indirect block: direct 0..12,
// single 12..76, double 76..4172, triple 4172 on.
const FIRST_DOUBLE: u64 = 12 + 64;
const FIRST_TRIPLE: u64 = 12 + 64 + 64 * 64;

fn w16(b: &mut [u8], off: usize, v: u16) {
    b[off..off + 2].copy_from_slice(&v.to_le_bytes());
}

fn w32(b: &mut [u8], off: usize, v: u32) {
    b[off..off + 4].copy_from_slice(&v.to_le_bytes());
}

fn w64(b: &mut [u8], off: usize, v: u64) {
    b[off..off + 8].copy_from_slice(&v.to_le_bytes());
}

fn ino_off(inr: u64) -> usize {
    ITABLE + (inr as usize) * 256
}

fn fill(b: &mut [u8], frag: u64, v: u8) {
    for j in 0..BSIZE as usize {
        b[(frag * FSIZE) as usize + j] = v;
    }
}

fn base_image() -> Vec<u8> {
    let mut b = vec![0u8; (VOL_FRAGS * FSIZE) as usize];
    w32(&mut b, SB + 16, IBLKNO as u32);
    w32(&mut b, SB + 44, 1);
    w32(&mut b, SB + 48, BSIZE as u32);
    w32(&mut b, SB + 52, FSIZE as u32);
    w32(&mut b, SB + 56, 1);
    w32(&mut b, SB + 184, IPG as u32);
    w32(&mut b, SB + 188, VOL_FRAGS as u32);
    w64(&mut b, SB + 1080, VOL_FRAGS);
    w32(&mut b, SB + 1372, 0x19540119);
    b
}

/// A sparse file whose only data lives at the first double-indirect block,
/// one interior-hole slot after it, and the first triple-indirect block.
fn deep_image() -> Vec<u8> {
    let mut b = base_image();
    let o = ino_off(3);
    w16(&mut b, o, 0o100_644);
    w64(&mut b, o + 16, (FIRST_TRIPLE + 1) * BSIZE);
    // double: ib[1] -> frag 300, whose slot 0 -> frag 301, whose slot 0 ->
    // data frag 302
    w64(&mut b, o + 208 + 8, 300);
    w64(&mut b, (300 * FSIZE) as usize, 301);
    w64(&mut b, (301 * FSIZE) as usize, 302);
    fill(&mut b, 302, 0xD2);
    // triple: ib[2] -> 310 -> 311 -> 312 -> data frag 313
    w64(&mut b, o + 208 + 16, 310);
    w64(&mut b, (310 * FSIZE) as usize, 311);
    w64(&mut b, (311 * FSIZE) as usize, 312);
    w64(&mut b, (312 * FSIZE) as usize, 313);
    fill(&mut b, 313, 0xD3);
    b
}

#[test]
fn double_indirect_block_resolves() {
    let fs = Ufs::open(Backend::new(deep_image()), true, false).unwrap();
    let mut buf = vec![0u8; 512];
    let n = fs.inode_read(InodeNum(3), FIRST_DOUBLE * BSIZE, &mut buf).unwrap();
    assert_eq!(n, 512);
    assert!(buf.iter().all(|&x| x == 0xD2));
}

#[test]
fn triple_indirect_block_resolves() {
    let fs = Ufs::open(Backend::new(deep_image()), true, false).unwrap();
    let mut buf = vec![0u8; 512];
    let n = fs.inode_read(InodeNum(3), FIRST_TRIPLE * BSIZE, &mut buf).unwrap();
    assert_eq!(n, 512);
    assert!(buf.iter().all(|&x| x == 0xD3));
}

#[test]
fn zero_pointer_inside_an_indirect_block_is_a_hole() {
    let fs = Ufs::open(Backend::new(deep_image()), true, false).unwrap();
    // slot 1 of the double-indirect top block is zero
    let mut buf = vec![0xEEu8; 512];
    let n = fs.inode_read(InodeNum(3), (FIRST_DOUBLE + 64) * BSIZE, &mut buf).unwrap();
    assert_eq!(n, 512);
    assert!(buf.iter().all(|&x| x == 0x00));
}

#[test]
fn zero_indirect_pointer_is_a_hole() {
    let fs = Ufs::open(Backend::new(deep_image()), true, false).unwrap();
    // the whole single-indirect span hangs off a zero pointer
    let mut buf = vec![0xEEu8; 512];
    let n = fs.inode_read(InodeNum(3), 20 * BSIZE, &mut buf).unwrap();
    assert_eq!(n, 512);
    assert!(buf.iter().all(|&x| x == 0x00));
}

#[test]
fn read_beyond_any_indirection_level_is_corrupt() {
    let mut img = deep_image();
    // declare a size past the triple-indirect span, then read its tail
    let o = ino_off(3);
    let huge: u64 = (12 + 64 + 64 * 64 + 64 * 64 * 64 + 1) * BSIZE;
    w64(&mut img, o + 16, huge);
    let fs = Ufs::open(Backend::new(img), true, false).unwrap();
    let mut buf = vec![0u8; 16];
    let e = fs.inode_read(InodeNum(3), huge - 16, &mut buf).unwrap_err();
    assert_eq!(e, UfsError::Corrupt);
}

fn dirent(b: &mut [u8], pos: usize, ino: u32, typ: u8, name: &[u8], reclen: u16) -> usize {
    w32(b, pos, ino);
    w16(b, pos + 4, reclen);
    b[pos + 6] = typ;
    b[pos + 7] = name.len() as u8;
    b[pos + 8..pos + 8 + name.len()].copy_from_slice(name);
    pos + reclen as usize
}

/// A root directory spanning two data blocks.
fn wide_dir_image() -> Vec<u8> {
    let mut b = base_image();
    let o = ino_off(2);
    w16(&mut b, o, 0o040_755);
    w64(&mut b, o + 16, 2 * BSIZE);
    w64(&mut b, o + 112, 400);
    w64(&mut b, o + 112 + 8, 401);
    let d = (400 * FSIZE) as usize;
    let mut p = d;
    p = dirent(&mut b, p, 2, 4, b".", 12);
    p = dirent(&mut b, p, 2, 4, b"..", 12);
    let used = (p - d) as u16;
    dirent(&mut b, p, 5, 8, b"first", 512 - used);
    let d = (401 * FSIZE) as usize;
    dirent(&mut b, d, 6, 8, b"second", 512);
    b
}

#[test]
fn directory_entries_span_blocks_in_order() {
    let fs = Ufs::open(Backend::new(wide_dir_image()), true, false).unwrap();
    let names: Vec<Vec<u8>> = fs
        .dir_iter(InodeNum(2))
        .unwrap()
        .into_iter()
        .map(|e| e.name)
        .collect();
    assert_eq!(names, vec![b".".to_vec(), b"..".to_vec(), b"first".to_vec(), b"second".to_vec()]);
    assert_eq!(fs.dir_lookup(InodeNum(2), b"second").unwrap(), InodeNum(6));
}

#[test]
fn unaligned_offset_reads_exactly() {
    let mut img = base_image();
    let o = ino_off(4);
    w16(&mut img, o, 0o100_644);
    w64(&mut img, o + 16, 5);
    w64(&mut img, o + 112, 420);
    img[(420 * FSIZE) as usize..(420 * FSIZE) as usize + 5].copy_from_slice(b"hello");
    let fs = Ufs::open(Backend::new(img), true, false).unwrap();
    let mut buf = vec![0u8; 3];
    let n = fs.inode_read(InodeNum(4), 1, &mut buf).unwrap();
    assert_eq!(n, 3);
    assert_eq!(&buf, b"ell");
}
