//! Block compression with the crate `lz4_flex`.

use vstd::prelude::*;

use lz4_flex::block::DecompressError;

verus! {

/// The error with which `lz4_flex` rejects bytes that are not a compressed block.
#[verifier::external_type_specification]
#[verifier::external_body]
pub struct ExDecompressError(lz4_flex::block::DecompressError);

/// The bytes that `lz4_flex::block::decompress` makes of a block when there is room for `max_len`
/// bytes, or `None` if it makes no bytes of it.
pub uninterp spec fn lz4_decompressed(block: Seq<u8>, max_len: nat) -> Option<Seq<u8>>;

/// The length of a run of maximal bytes that is too long for `lz4_flex`.
pub const MAX_RUN: usize = 8_388_608;

/// From `start` on, the block has a run of maximal bytes that is too long.
pub open spec fn has_long_run_at(block: Seq<u8>, start: int) -> bool {
    &&& 0 <= start
    &&& start + MAX_RUN <= block.len()
    &&& forall|i: int| start <= i < start + MAX_RUN ==> block[i] == 0xff
}

/// A length within a block is the sum of a run of maximal bytes and the byte after it, which
/// `lz4_flex` computes in 32 bits. No run is so long that the sum could overflow.
pub open spec fn lengths_fit(block: Seq<u8>) -> bool {
    forall|start: int| !has_long_run_at(block, start)
}

/// How many bytes can be compressed at once: the size of the buffer for the result is computed
/// from their number, and lengths within a block have 32 bits.
pub open spec fn is_compressible_len(len: int) -> bool {
    len * 110 <= usize::MAX && len <= u32::MAX
}

/// Compresses bytes with `lz4_flex::block::compress`. Nothing is claimed of how the block looks,
/// which depends on the machine; only that it is not longer than the buffer that is allocated for
/// it, and that `lz4_flex::block::decompress` gives the bytes back if there is room for them.
#[verifier::external_body]
pub(crate) fn lz4_compress(bytes: &[u8]) -> (block: Vec<u8>)
    requires
        is_compressible_len(bytes@.len() as int),
    ensures
        block@.len() <= 20 + bytes@.len() * 110 / 100,
        forall|max_len: nat|
            bytes@.len() <= max_len <= isize::MAX ==> #[trigger] lz4_decompressed(block@, max_len)
                == Some(bytes@),
{
    lz4_flex::block::compress(bytes)
}

/// A block that can be decompressed: either its lengths fit, or it is known that decompressing it
/// gives a result, because the block was compressed from bytes for which there is room.
pub open spec fn is_decompressible(block: Seq<u8>, max_len: nat) -> bool {
    lengths_fit(block) || lz4_decompressed(block, max_len) is Some
}

/// Decompresses a block with `lz4_flex::block::decompress`, into at most `max_len` bytes. The
/// result depends on the block and on `max_len` alone. If it is known to be bytes and no error, no
/// length within the block overflows.
#[verifier::external_body]
pub(crate) fn lz4_decompress(block: &[u8], max_len: usize) -> (bytes: Result<
    Vec<u8>,
    DecompressError,
>)
    requires
        is_decompressible(block@, max_len as nat),
        max_len <= isize::MAX,
    ensures
        match bytes {
            Ok(bytes) => lz4_decompressed(block@, max_len as nat) == Some(bytes@) && bytes@.len()
                <= max_len,
            Err(_) => lz4_decompressed(block@, max_len as nat) is None,
        },
{
    lz4_flex::block::decompress(block, max_len)
}

/// Whether the lengths within a block can be computed in 32 bits.
pub fn do_lengths_fit(block: &[u8]) -> (fit: bool)
    ensures
        fit == lengths_fit(block@),
{
    let mut run: usize = 0;
    let mut i: usize = 0;
    while i < block.len()
        invariant
            i <= block@.len(),
            run <= i,
            run < MAX_RUN,
            forall|k: int| i - run <= k < i ==> block@[k] == 0xff,
            run < i ==> block@[i - run - 1] != 0xff,
            forall|start: int| start + MAX_RUN <= i ==> !has_long_run_at(block@, start),
        decreases block@.len() - i,
    {
        if block[i] == 0xff {
            run += 1;
            if run == MAX_RUN {
                assert(has_long_run_at(block@, i + 1 - MAX_RUN));
                return false;
            }
            assert forall|start: int| start + MAX_RUN <= i + 1 implies !has_long_run_at(
                block@,
                start,
            ) by {
                if start + MAX_RUN == i + 1 && has_long_run_at(block@, start) {
                    assert(block@[i + 1 - run - 1] == 0xff);
                }
            }
        } else {
            run = 0;
            assert forall|start: int| start + MAX_RUN <= i + 1 implies !has_long_run_at(
                block@,
                start,
            ) by {
                if start + MAX_RUN == i + 1 && has_long_run_at(block@, start) {
                    assert(block@[i as int] == 0xff);
                }
            }
        }
        i += 1;
    }
    true
}

/// Whether so many bytes can be compressed at once.
pub fn can_compress_len(len: usize) -> (can: bool)
    ensures
        can == is_compressible_len(len as int),
{
    len <= usize::MAX / 110 && len as u64 <= u32::MAX as u64
}

} // verus!
