//! Splitting long notification messages into pieces the delivery channel
//! accepts.

use vstd::prelude::*;
use vstd::string::StrSliceExecFns;

verus! {

/// The delivery channel rejects messages longer than this many characters.
pub const TELEGRAM_MAX_MESSAGE_LENGTH: usize = 4096;

/// How many chunks a message of `len` characters splits into under a chunk
/// size of `size`: the rounded-up quotient.
pub open spec fn spec_chunk_count(len: int, size: int) -> int
    recommends
        size >= 1,
{
    (len + size - 1) / size
}

/// The `i`-th chunk of a message: `size` characters, or whatever is left.
pub open spec fn spec_chunk(message: Seq<char>, size: int, i: int) -> Seq<char>
    recommends
        size >= 1,
        0 <= i < spec_chunk_count(message.len() as int, size),
{
    message.subrange(
        i * size,
        if (i + 1) * size <= message.len() {
            (i + 1) * size
        } else {
            message.len() as int
        },
    )
}

/// Splits a message into consecutive chunks of at most `chunk_size`
/// characters; every chunk but the last is full.
pub fn split_into_chunks(message: &str, chunk_size: usize) -> (r: Vec<String>)
    requires
        chunk_size >= 1,
    ensures
        r@.len() == spec_chunk_count(message@.len() as int, chunk_size as int),
        forall|i: int|
            0 <= i < r@.len() ==> (#[trigger] r@[i])@ == spec_chunk(
                message@,
                chunk_size as int,
                i,
            ),
{
    let len = message.unicode_len();
    let mut out: Vec<String> = Vec::new();
    let mut pos: usize = 0;
    proof {
        assert(0int * (chunk_size as int) == 0) by (nonlinear_arith);
    }
    while pos < len
        invariant
            0 <= pos <= len,
            len == message@.len(),
            chunk_size >= 1,
            pos == if out@.len() * chunk_size <= len {
                out@.len() * chunk_size
            } else {
                len as int
            },
            out@.len() > 0 ==> (out@.len() - 1) * chunk_size < len,
            forall|i: int|
                0 <= i < out@.len() ==> (#[trigger] out@[i])@ == spec_chunk(
                    message@,
                    chunk_size as int,
                    i,
                ),
        decreases len - pos,
    {
        let end = if len - pos > chunk_size {
            pos + chunk_size
        } else {
            len
        };
        let piece = message.substring_char(pos, end);
        let ghost count = out@.len();
        out.push(piece.to_owned());
        proof {
            assert(count * chunk_size <= len);
            assert((count + 1) * (chunk_size as int) == count * (chunk_size as int)
                + chunk_size) by (nonlinear_arith);
            assert(out@[count as int]@ == spec_chunk(message@, chunk_size as int, count as int));
        }
        pos = end;
    }
    proof {
        let k = out@.len() as int;
        if len == 0 {
            assert(k == 0);
            assert(spec_chunk_count(0, chunk_size as int) == 0) by (nonlinear_arith)
                requires
                    chunk_size >= 1,
            ;
        } else {
            assert(k * chunk_size >= len);
            assert((k - 1) * chunk_size < len);
            assert(k == spec_chunk_count(len as int, chunk_size as int)) by (nonlinear_arith)
                requires
                    chunk_size >= 1,
                    len >= 1,
                    k * chunk_size >= len,
                    (k - 1) * chunk_size < len,
            ;
        }
    }
    out
}

} // verus!
