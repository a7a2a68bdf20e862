//! The body of a response that carries a file: the file is read a chunk at
//! a time, and each read decides whether the body goes on.

use vstd::prelude::*;
use vstd::slice::{slice_subrange, slice_to_vec};

verus! {

/// The size of the buffer that a file is read into: 4 KiB.
pub const CHUNK_SIZE: usize = 4096;

/// The chunk that a read of `read` bytes into `buf` adds to the body.
/// A read of no bytes ends the body.
pub open spec fn chunk_of(buf: Seq<u8>, read: int) -> Option<Seq<u8>> {
    if read == 0 {
        None
    } else {
        Some(buf.take(read))
    }
}

/// Turns the outcome of one read into the next item of the body: the bytes
/// read as a chunk of their own, the end of the body after a read of no
/// bytes, or the error of the read.
pub fn next_chunk<E>(buf: &[u8], read: Result<usize, E>) -> (r: Result<Option<Vec<u8>>, E>)
    requires
        read matches Ok(n) ==> n <= buf@.len(),
    ensures
        match read {
            Ok(n) => r is Ok && r->Ok_0.deep_view() == chunk_of(buf@, n as int),
            Err(e) => r is Err && r->Err_0 == e,
        },
        r matches Ok(Some(chunk)) ==> 0 < chunk@.len() <= buf@.len(),
{
    match read {
        Ok(n) => if n == 0 {
            Ok(None)
        } else {
            Ok(Some(slice_to_vec(slice_subrange(buf, 0, n))))
        },
        Err(e) => Err(e),
    }
}

} // verus!
