//! The echo server's step: each datagram goes back to its sender unchanged.
use vstd::prelude::*;

verus! {

/// Bytes the server reads per datagram; a longer datagram is cut to this
/// length before it is echoed.
pub const RECV_BUFFER_LEN: usize = 1000;

/// The reply to a datagram of which `received` bytes were read into `buf`:
/// exactly those bytes, in the same order.
pub fn echo_reply(buf: &[u8], received: usize) -> (r: Vec<u8>)
    requires
        received <= buf@.len(),
    ensures
        r@ == buf@.subrange(0, received as int),
{
    let mut out: Vec<u8> = Vec::with_capacity(received);
    let mut i: usize = 0;
    while i < received
        invariant
            i <= received <= buf@.len(),
            out@ == buf@.subrange(0, i as int),
        decreases received - i,
    {
        out.push(buf[i]);
        i = i + 1;
        assert(out@ =~= buf@.subrange(0, i as int));
    }
    out
}

} // verus!
