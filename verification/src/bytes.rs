//! Little-endian readers for the fixed-width integer fields of the on-disk
//! structures.

use vstd::prelude::*;

verus! {

/// The value of the two bytes at `i`, read as a little-endian 16-bit integer.
pub open spec fn le16(s: Seq<u8>, i: int) -> nat {
    s[i] as nat + 0x100 * (s[i + 1] as nat)
}

/// The value of the four bytes at `i`, read as a little-endian 32-bit integer.
pub open spec fn le32(s: Seq<u8>, i: int) -> nat {
    le16(s, i) + 0x1_0000 * le16(s, i + 2)
}

/// The value of the eight bytes at `i`, read as a little-endian 64-bit integer.
pub open spec fn le64(s: Seq<u8>, i: int) -> nat {
    le32(s, i) + 0x1_0000_0000 * le32(s, i + 4)
}

pub fn read_le16(b: &Vec<u8>, i: usize) -> (r: u16)
    requires
        i + 2 <= b.len(),
    ensures
        r as nat == le16(b@, i as int),
{
    b[i] as u16 + 0x100 * (b[i + 1] as u16)
}

pub fn read_le32(b: &Vec<u8>, i: usize) -> (r: u32)
    requires
        i + 4 <= b.len(),
    ensures
        r as nat == le32(b@, i as int),
{
    read_le16(b, i) as u32 + 0x1_0000 * (read_le16(b, i + 2) as u32)
}

/// Exact byte-string comparison, the way directory lookup compares names.
pub fn bytes_equal(a: &Vec<u8>, b: &[u8]) -> (r: bool)
    ensures
        r <==> a@ == b@,
{
    if a.len() != b.len() {
        proof {
            assert(a@.len() != b@.len());
        }
        return false;
    }
    let n = a.len();
    let mut i: usize = 0;
    while i < n
        invariant
            i <= n,
            n == a@.len(),
            n == b@.len(),
            forall|j: int| 0 <= j < i ==> a@[j] == b@[j],
        decreases n - i,
    {
        if a[i] != b[i] {
            return false;
        }
        i = i + 1;
    }
    proof {
        assert(a@ =~= b@);
    }
    true
}

pub fn read_le64(b: &Vec<u8>, i: usize) -> (r: u64)
    requires
        i + 8 <= b.len(),
    ensures
        r as nat == le64(b@, i as int),
{
    read_le32(b, i) as u64 + 0x1_0000_0000 * (read_le32(b, i + 4) as u64)
}

} // verus!
