//! Plain-word views of the byte records that cross the GPU boundary.

use vstd::prelude::*;

verus! {

/// The refusal of a byte record whose length does not match.
#[verifier::external_type_specification]
#[verifier::external_body]
pub struct ExPodCastError(bytemuck::PodCastError);

/// Word `i` of a record read with its least significant byte first.
pub open spec fn word_le(bytes: Seq<u8>, i: int) -> u32 {
    (bytes[4 * i] + 0x100 * bytes[4 * i + 1] + 0x1_0000 * bytes[4 * i + 2] + 0x100_0000 * bytes[4
        * i + 3]) as u32
}

/// Word `i` of a record read with its most significant byte first.
pub open spec fn word_be(bytes: Seq<u8>, i: int) -> u32 {
    (bytes[4 * i + 3] + 0x100 * bytes[4 * i + 2] + 0x1_0000 * bytes[4 * i + 1] + 0x100_0000
        * bytes[4 * i]) as u32
}

/// The bytes are the words in the byte order of the host, which is one of the two orders.
pub open spec fn native_words(words: Seq<u32>, bytes: Seq<u8>) -> bool {
    &&& bytes.len() == 4 * words.len()
    &&& {
        ||| forall|i: int| 0 <= i < words.len() ==> #[trigger] words[i] == word_le(bytes, i)
        ||| forall|i: int| 0 <= i < words.len() ==> #[trigger] words[i] == word_be(bytes, i)
    }
}

/// `bytemuck::try_pod_read_unaligned` at `[u32; N]`: a record of exactly `4 * N` bytes, at any
/// address, is reinterpreted as `N` words in the host's byte order; any other length is refused.
#[verifier::external_body]
pub(crate) fn read_words<const N: usize>(bytes: &[u8]) -> (r: Result<
    [u32; N],
    bytemuck::PodCastError,
>)
    ensures
        r is Ok <==> bytes@.len() == 4 * N,
        r matches Ok(words) ==> native_words(words@, bytes@),
{
    bytemuck::try_pod_read_unaligned(bytes)
}

/// `bytemuck::cast_slice` from words to bytes, which never refuses: the storage of the words in
/// the host's byte order.
#[verifier::external_body]
pub(crate) fn word_bytes(words: &[u32]) -> (bytes: &[u8])
    ensures
        native_words(words@, bytes@),
{
    bytemuck::cast_slice(words)
}

} // verus!
