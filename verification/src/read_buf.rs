//! The buffer that an async read fills: `ReadBuf` of the tokio crate.

use tokio::io::ReadBuf;
use vstd::prelude::*;

verus! {

/// The destination of an async read.
#[verifier::external_type_specification]
#[verifier::external_body]
pub struct ExReadBuf<'a>(tokio::io::ReadBuf<'a>);

/// The bytes that the buffer has been filled with so far.
pub uninterp spec fn filled_bytes(buf: tokio::io::ReadBuf<'_>) -> Seq<u8>;

/// How many more bytes the buffer has room for.
pub uninterp spec fn room(buf: tokio::io::ReadBuf<'_>) -> nat;

/// `ReadBuf::remaining` tells how many more bytes there is room for.
pub assume_specification<'a>[ tokio::io::ReadBuf::<'a>::remaining ](
    buf: &tokio::io::ReadBuf<'a>,
) -> (remaining: usize)
    ensures
        remaining == room(*buf),
;

/// `ReadBuf::put_slice` appends the bytes, which take up as much of the room. It panics where
/// there is too little room.
pub assume_specification<'a>[ tokio::io::ReadBuf::<'a>::put_slice ](
    buf: &mut tokio::io::ReadBuf<'a>,
    data: &[u8],
)
    requires
        data@.len() <= room(*old(buf)),
    ensures
        filled_bytes(*final(buf)) == filled_bytes(*old(buf)) + data@,
        room(*final(buf)) == room(*old(buf)) - data@.len(),
;

/// The smaller of two lengths.
pub open spec fn shorter(a: nat, b: nat) -> nat {
    if a <= b {
        a
    } else {
        b
    }
}

/// How a buffer stands after `data` was put in as far as there was room for it.
pub open spec fn filled_from(old_buf: ReadBuf<'_>, new_buf: ReadBuf<'_>, data: Seq<u8>) -> bool {
    let count = shorter(room(old_buf), data.len()) as int;
    &&& filled_bytes(new_buf) == filled_bytes(old_buf) + data.take(count)
    &&& room(new_buf) == room(old_buf) - count
}

/// Puts the bytes of `source` from `start` on into the buffer, as many as there is room for,
/// and returns how many those were.
pub(crate) fn copy_out(source: &Vec<u8>, start: usize, buf: &mut ReadBuf<'_>) -> (count: usize)
    requires
        start <= source@.len(),
    ensures
        start + count <= source.len(),
        count == shorter(room(*old(buf)), (source@.len() - start) as nat),
        filled_from(*old(buf), *final(buf), source@.skip(start as int)),
{
    let remaining = buf.remaining();
    let available = source.len() - start;
    let count = if remaining <= available {
        remaining
    } else {
        available
    };
    let data = vstd::slice::slice_subrange(source.as_slice(), start, start + count);
    proof {
        assert(data@ =~= source@.skip(start as int).take(count as int));
    }
    buf.put_slice(data);
    count
}

/// The shorter of two lengths is one of them, and neither is less.
pub proof fn law_shorter_is_the_least(a: nat, b: nat)
    ensures
        shorter(a, b) == a || shorter(a, b) == b,
        shorter(a, b) <= a,
        shorter(a, b) <= b,
{
}

/// A buffer filled from some bytes holds what it held before and then the first of these bytes: all
/// of them, or as many as there was room for. It has that much less room.
pub proof fn law_filling_adds_the_first_bytes(
    old_buf: ReadBuf<'_>,
    new_buf: ReadBuf<'_>,
    data: Seq<u8>,
)
    requires
        filled_from(old_buf, new_buf, data),
    ensures
        ({
            let added = filled_bytes(new_buf).len() - filled_bytes(old_buf).len();
            &&& added == data.len() || added == room(old_buf)
            &&& 0 <= added <= data.len()
            &&& added <= room(old_buf)
            &&& filled_bytes(new_buf) == filled_bytes(old_buf) + data.subrange(0, added)
            &&& room(new_buf) + added == room(old_buf)
        }),
{
    let added = filled_bytes(new_buf).len() - filled_bytes(old_buf).len();
    assert(data.take(added) =~= data.subrange(0, added));
}

} // verus!
