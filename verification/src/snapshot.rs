use vstd::prelude::*;

verus! {

/// Bytes that a snapshot may hold to be compressed: its size must fit the
/// four bytes of the size prefix, and the buffer for the compressed block,
/// which is sized at 110 percent and 24 bytes more, must fit the machine.
pub open spec fn compressible(len: int) -> bool {
    len <= u32::MAX && len * 110 + 24 * 100 <= usize::MAX
}

/// The size that a blob declares in its first four bytes, least
/// significant byte first; `None` where the blob is shorter than that.
pub open spec fn size_prefix(blob: Seq<u8>) -> Option<int> {
    if blob.len() < 4 {
        None
    } else {
        Some(blob[0] + blob[1] * 0x100 + blob[2] * 0x1_0000 + blob[3] * 0x100_0000)
    }
}

/// Calls `lz4_flex::compress_prepend_size`.
///
/// Trusted: the blob begins with the count of the bytes as a little-endian
/// `u32`. Of the compressed block behind it nothing is claimed: how the
/// crate compresses depends on the machine.
#[verifier::external_body]
fn lz4_compress(input: &Vec<u8>) -> (blob: Vec<u8>)
    requires
        compressible(input@.len() as int),
    ensures
        size_prefix(blob@) == Some(input@.len() as int),
{
    lz4_flex::compress_prepend_size(input.as_slice())
}

/// Compresses the bytes of a snapshot into a blob that begins with their
/// count.
pub fn compress_snapshot(bytes: &Vec<u8>) -> (blob: Vec<u8>)
    requires
        compressible(bytes@.len() as int),
    ensures
        size_prefix(blob@) == Some(bytes@.len() as int),
        declared_size_of(blob@) == Some(bytes@.len() as u32),
{
    lz4_compress(bytes)
}

/// The size prefix of a blob as the number that it is read as.
pub open spec fn declared_size_of(blob: Seq<u8>) -> Option<u32> {
    match size_prefix(blob) {
        Some(size) => Some(size as u32),
        None => None,
    }
}

/// Tells whether a snapshot of `len` bytes can be compressed.
pub fn check_compressible(len: usize) -> (ok: bool)
    ensures
        ok == compressible(len as int),
{
    len as u64 <= u32::MAX as u64 && len <= (usize::MAX - 2400) / 110
}

/// Reads the count of bytes that a blob declares to hold once it is
/// decompressed; `None` where the blob is too short to declare one.
pub fn declared_size(blob: &Vec<u8>) -> (size: Option<u32>)
    ensures
        size == declared_size_of(blob@),
{
    if blob.len() < 4 {
        return None;
    }
    let b0: u32 = blob[0] as u32;
    let b1: u32 = blob[1] as u32;
    let b2: u32 = blob[2] as u32;
    let b3: u32 = blob[3] as u32;
    Some(b0 + b1 * 0x100 + b2 * 0x1_0000 + b3 * 0x100_0000)
}

} // verus!
