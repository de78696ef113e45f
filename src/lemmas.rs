use vstd::prelude::*;
use crate::packet_manipulation::{
    byte_at, cursor_after_read, cursor_after_reads, decode_name, walk_name, BufferError,
    BytePacketBuffer, CAPACITY, MAX_JUMPS,
};

verus! {

/// Cursor after `n` calls of `read` from cursor `c`.
pub open spec fn iterate_reads(c: int, n: nat) -> int
    decreases n,
{
    if n == 0 {
        c
    } else {
        cursor_after_read(iterate_reads(c, (n - 1) as nat))
    }
}

/// Successive byte reads: `k` reads from cursor `c` move the cursor to
/// `c + k` as long as that stays within the capacity, each yielding the byte
/// that `get` shows at its offset; once the cursor reaches the capacity,
/// every further read fails and the cursor stays.
pub proof fn lemma_successive_reads(buf: Seq<u8>, c: int, k: nat)
    requires
        0 <= c,
    ensures
        iterate_reads(c, k) == cursor_after_reads(c, k as int),
        c + k <= CAPACITY ==> iterate_reads(c, k) == c + k,
        forall|i: nat|
            i < k && c + i < CAPACITY ==> #[trigger] byte_at(buf, iterate_reads(c, i)) == byte_at(
                buf,
                c + i,
            ) && byte_at(buf, c + i) == Ok::<u8, BufferError>(buf[c + i]),
        forall|i: nat|
            i < k && c + i >= CAPACITY ==> #[trigger] byte_at(buf, iterate_reads(c, i)) == Err::<
                u8,
                BufferError,
            >(BufferError::OutOfBounds) && iterate_reads(c, i + 1) == iterate_reads(c, i),
    decreases k,
{
    if k > 0 {
        lemma_successive_reads(buf, c, (k - 1) as nat);
        let i = (k - 1) as nat;
        assert(iterate_reads(c, i + 1) == cursor_after_read(iterate_reads(c, i)));
    }
}

/// Decoding under jump limit `l1` compared with limit `l2`, from `jumps`
/// pointers already followed.
proof fn lemma_walk_limits(buf: Seq<u8>, pos: int, jumps: int, l1: int, l2: int)
    requires
        walk_name(buf, pos, jumps, l1) is Ok,
    ensures
        walk_name(buf, pos, jumps, l1)->Ok_0.2 >= jumps,
        walk_name(buf, pos, jumps, l2) == if walk_name(buf, pos, jumps, l1)->Ok_0.2 <= l2 {
            walk_name(buf, pos, jumps, l1)
        } else {
            Err(BufferError::TooManyJumps)
        },
    decreases l1 + 1 - jumps, CAPACITY - pos,
{
    let len = buf[pos];
    if (len & 0xC0) == 0xC0 {
        lemma_walk_limits(
            buf,
            (len & 0x3F) as int * 256 + buf[pos + 1] as int,
            jumps + 1,
            l1,
            l2,
        );
    } else if len != 0 {
        lemma_walk_limits(buf, pos + 1 + len, jumps, l1, l2);
    }
}

/// The jump limit: a name that decodes when more pointers may be followed
/// decodes the same under this library's limit when it follows at most
/// `MAX_JUMPS` pointers, and fails with `TooManyJumps` when it follows more.
pub proof fn lemma_jump_limit(buf: Seq<u8>, pos: int, limit: int)
    requires
        walk_name(buf, pos, 0, limit) is Ok,
    ensures
        decode_name(buf, pos) == if walk_name(buf, pos, 0, limit)->Ok_0.2 <= MAX_JUMPS {
            walk_name(buf, pos, 0, limit)
        } else {
            Err(BufferError::TooManyJumps)
        },
{
    lemma_walk_limits(buf, pos, 0, limit, MAX_JUMPS as int);
}

/// Decoding a name depends on the bytes and the starting cursor alone, and
/// `read_qname` leaves the bytes as they were: decoding again from the same
/// cursor yields the same name and the same final cursor.
pub proof fn lemma_decode_repeatable(first: BytePacketBuffer, second: BytePacketBuffer)
    requires
        first.buf@ == second.buf@,
        first.pos == second.pos,
    ensures
        decode_name(first.buf@, first.pos as int) == decode_name(second.buf@, second.pos as int),
{
}

} // verus!
