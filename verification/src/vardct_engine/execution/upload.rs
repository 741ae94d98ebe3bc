//! Upload of a codestream into one GPU buffer.

use crate::vardct_engine::types::VarDctDecodeError;
use vstd::prelude::*;

verus! {

/// Where the chunks of a codestream go in its upload buffer.
pub open spec fn chunk_start(chunks: Seq<usize>, i: int) -> int
    decreases i,
{
    if i <= 0 {
        0
    } else {
        chunk_start(chunks, i - 1) + chunks[i - 1]
    }
}

/// Why a codestream cannot be uploaded.
pub open spec fn upload_refusal(chunks: Seq<usize>, logical: u64, padded: u64) -> Option<
    VarDctDecodeError,
> {
    if padded < logical || padded % 4 != 0 {
        Some(
            VarDctDecodeError::EntropyWindowContract {
                detail: "GPU codestream buffer does not cover an aligned logical source",
            },
        )
    } else if chunk_start(chunks, chunks.len() as int) > padded {
        Some(
            VarDctDecodeError::EngineContract {
                detail: "codestream span exceeds the mapped GPU buffer",
            },
        )
    } else if chunk_start(chunks, chunks.len() as int) != logical {
        Some(
            VarDctDecodeError::EntropyWindowContract {
                detail: "codestream spans did not fill the logical mapped range",
            },
        )
    } else {
        None
    }
}

proof fn lemma_chunk_start(chunks: Seq<usize>, i: int, n: int)
    requires
        0 <= i <= n <= chunks.len(),
    ensures
        0 <= chunk_start(chunks, i) <= chunk_start(chunks, n),
    decreases n,
{
    if n > 0 {
        if i < n {
            lemma_chunk_start(chunks, i, n - 1);
        } else {
            lemma_chunk_start(chunks, n - 1, n - 1);
        }
    }
}

/// Where each chunk of a codestream of `logical` bytes starts in a buffer of `padded` bytes,
/// whose rest is zero.
pub fn plan_upload(chunks: &Vec<usize>, logical: u64, padded: u64) -> (r: Result<
    Vec<u64>,
    VarDctDecodeError,
>)
    ensures
        match upload_refusal(chunks@, logical, padded) {
            Some(error) => r == Err::<Vec<u64>, VarDctDecodeError>(error),
            None => r matches Ok(starts) && starts@.len() == chunks@.len() && forall|i: int|
                0 <= i < starts@.len() ==> #[trigger] starts@[i] == chunk_start(chunks@, i),
        },
{
    if padded < logical || padded % 4 != 0 {
        return Err(
            VarDctDecodeError::EntropyWindowContract {
                detail: "GPU codestream buffer does not cover an aligned logical source",
            },
        );
    }
    let mut starts: Vec<u64> = Vec::new();
    let mut cursor: u64 = 0;
    let mut i: usize = 0;
    while i < chunks.len()
        invariant
            i <= chunks@.len(),
            !(padded < logical || padded % 4 != 0),
            cursor == chunk_start(chunks@, i as int),
            cursor <= padded,
            starts@.len() == i,
            forall|k: int| 0 <= k < i ==> #[trigger] starts@[k] == chunk_start(chunks@, k),
        decreases chunks@.len() - i,
    {
        let length: u64 = chunks[i] as u64;
        if length > padded - cursor {
            proof {
                lemma_chunk_start(chunks@, i + 1, chunks@.len() as int);
            }
            return Err(
                VarDctDecodeError::EngineContract {
                    detail: "codestream span exceeds the mapped GPU buffer",
                },
            );
        }
        starts.push(cursor);
        cursor = cursor + length;
        i = i + 1;
    }
    if cursor != logical {
        return Err(
            VarDctDecodeError::EntropyWindowContract {
                detail: "codestream spans did not fill the logical mapped range",
            },
        );
    }
    Ok(starts)
}

} // verus!
