use vstd::prelude::*;
use crate::text::{decode_lossy, lower_of, lowercase, utf8_lossy};

verus! {

/// Capacity of a packet buffer: the largest DNS message carried over UDP
/// without the EDNS0 extension.
pub const CAPACITY: usize = 512;

/// Most compression pointers followed while decoding one name.
pub const MAX_JUMPS: usize = 5;

/// Why a read from a packet buffer failed.
#[derive(Debug, Clone, Copy, PartialEq, Eq, Structural)]
pub enum BufferError {
    /// An access at or beyond the buffer's capacity.
    OutOfBounds,
    /// A chain of compression pointers longer than the limit.
    TooManyJumps,
}

/// A fixed-size DNS message with a read cursor.
pub struct BytePacketBuffer {
    pub buf: [u8; 512],
    pub pos: usize,
}

/// The byte at absolute offset `p`, or `OutOfBounds` past the capacity.
pub open spec fn byte_at(buf: Seq<u8>, p: int) -> Result<u8, BufferError> {
    if 0 <= p < CAPACITY {
        Ok(buf[p])
    } else {
        Err(BufferError::OutOfBounds)
    }
}

/// A length byte whose two top bits are set marks a compression pointer.
pub open spec fn is_pointer(b: u8) -> bool {
    b & 0xC0 == 0xC0
}

/// Offset that a compression pointer refers to: the low six bits of its first
/// byte, then its second byte.
pub open spec fn pointer_target(hi: u8, lo: u8) -> int {
    (hi & 0x3F) as int * 256 + lo as int
}

/// What decoding a name yields: its raw labels, in order; where the message
/// continues after it; and how many pointers were followed in all.
pub type NameWalk = (Seq<Seq<u8>>, int, int);

/// Decodes the name whose encoding is read from offset `pos`, with `jumps`
/// pointers already followed and at most `limit` allowed.
///
/// The continuation offset is the one right after the terminating zero byte
/// when no pointer is met, and right after the first pointer otherwise.
pub open spec fn walk_name(buf: Seq<u8>, pos: int, jumps: int, limit: int) -> Result<
    NameWalk,
    BufferError,
>
    decreases limit + 1 - jumps, CAPACITY - pos,
{
    if jumps > limit {
        Err(BufferError::TooManyJumps)
    } else if !(0 <= pos < CAPACITY) {
        Err(BufferError::OutOfBounds)
    } else {
        let len = buf[pos];
        if is_pointer(len) {
            if pos + 1 >= CAPACITY {
                Err(BufferError::OutOfBounds)
            } else {
                match walk_name(buf, pointer_target(len, buf[pos + 1]), jumps + 1, limit) {
                    Ok(w) => Ok((w.0, pos + 2, w.2)),
                    Err(e) => Err(e),
                }
            }
        } else if len == 0 {
            Ok((Seq::empty(), pos + 1, jumps))
        } else if pos + 1 + len > CAPACITY {
            Err(BufferError::OutOfBounds)
        } else {
            match walk_name(buf, pos + 1 + len, jumps, limit) {
                Ok(w) => Ok((seq![buf.subrange(pos + 1, pos + 1 + len)] + w.0, w.1, w.2)),
                Err(e) => Err(e),
            }
        }
    }
}

/// Decoding of a name at `pos` under the jump limit of this library.
pub open spec fn decode_name(buf: Seq<u8>, pos: int) -> Result<NameWalk, BufferError> {
    walk_name(buf, pos, 0, MAX_JUMPS as int)
}

/// Text of one label: its bytes decoded lossily as UTF-8, then lowercased.
pub open spec fn label_text(label: Seq<u8>) -> Seq<char> {
    lower_of(utf8_lossy(label))
}

/// Texts of the labels, joined by dots.
pub open spec fn join_labels(labels: Seq<Seq<u8>>) -> Seq<char>
    decreases labels.len(),
{
    if labels.len() == 0 {
        Seq::empty()
    } else if labels.len() == 1 {
        label_text(labels[0])
    } else {
        join_labels(labels.drop_last()) + seq!['.'] + label_text(labels.last())
    }
}

/// Outcome of a decoding that already holds `done` labels and, once a pointer
/// was followed, a fixed continuation `frozen`, and goes on with `rest`.
spec fn resume(done: Seq<Seq<u8>>, frozen: Option<int>, rest: Result<
    NameWalk,
    BufferError,
>) -> Result<NameWalk, BufferError> {
    match rest {
        Ok(w) => Ok(
            (
                done + w.0,
                match frozen {
                    Some(c) => c,
                    None => w.1,
                },
                w.2,
            ),
        ),
        Err(e) => Err(e),
    }
}

/// Cursor after one byte read from cursor `c`: one further on success, where
/// it was on failure.
pub open spec fn cursor_after_read(c: int) -> int {
    if c < CAPACITY {
        c + 1
    } else {
        c
    }
}

/// Cursor after `n` byte reads from cursor `c`, the reads stopping at the
/// first failure: it never passes the capacity by reading.
pub open spec fn cursor_after_reads(c: int, n: int) -> int {
    if c >= CAPACITY {
        c
    } else if c + n <= CAPACITY {
        c + n
    } else {
        CAPACITY as int
    }
}

/// Big-endian value of two bytes.
pub open spec fn be_u16(b0: u8, b1: u8) -> int {
    b0 as int * 0x100 + b1 as int
}

/// Big-endian value of four bytes, most significant first.
pub open spec fn be_u32(b0: u8, b1: u8, b2: u8, b3: u8) -> int {
    ((b0 as int * 0x100 + b1 as int) * 0x100 + b2 as int) * 0x100 + b3 as int
}

impl BytePacketBuffer {
    /// An empty buffer: all bytes zero, cursor at the start.
    pub fn new() -> (r: BytePacketBuffer)
        ensures
            r.buf@ == Seq::new(CAPACITY as nat, |i: int| 0u8),
            r.pos == 0,
    {
        let r = BytePacketBuffer { buf: [0; 512], pos: 0 };
        assert(r.buf@ =~= Seq::new(CAPACITY as nat, |i: int| 0u8));
        r
    }

    /// The cursor: offset of the next byte to read.
    pub fn pos(&self) -> (r: usize)
        ensures
            r == self.pos,
    {
        self.pos
    }

    /// Moves the cursor `steps` bytes forward. Reads check the cursor, so
    /// any resulting position is allowed.
    pub fn step(&mut self, steps: usize) -> (r: Result<(), BufferError>)
        requires
            old(self).pos + steps <= usize::MAX,
        ensures
            r is Ok,
            final(self).buf == old(self).buf,
            final(self).pos == old(self).pos + steps,
    {
        self.pos = self.pos + steps;
        Ok(())
    }

    /// Moves the cursor to absolute offset `pos`.
    pub fn seek(&mut self, pos: usize) -> (r: Result<(), BufferError>)
        ensures
            r is Ok,
            final(self).buf == old(self).buf,
            final(self).pos == pos,
    {
        self.pos = pos;
        Ok(())
    }

    /// Reads the byte at the cursor and moves past it.
    pub fn read(&mut self) -> (r: Result<u8, BufferError>)
        ensures
            final(self).buf == old(self).buf,
            r == byte_at(old(self).buf@, old(self).pos as int),
            final(self).pos == cursor_after_read(old(self).pos as int),
    {
        if self.pos >= CAPACITY {
            return Err(BufferError::OutOfBounds);
        }
        let res = self.buf[self.pos];
        self.pos = self.pos + 1;
        Ok(res)
    }

    /// The byte at absolute offset `pos`; the cursor does not move.
    pub fn get(&mut self, pos: usize) -> (r: Result<u8, BufferError>)
        ensures
            *final(self) == *old(self),
            r == byte_at(old(self).buf@, pos as int),
    {
        if pos >= CAPACITY {
            return Err(BufferError::OutOfBounds);
        }
        Ok(self.buf[pos])
    }

    /// The `len` bytes from absolute offset `start`; the cursor does not move.
    /// Fails when the range would end past the capacity.
    pub fn get_range(&mut self, start: usize, len: usize) -> (r: Result<&[u8], BufferError>)
        ensures
            *final(self) == *old(self),
            start as int + len as int <= CAPACITY ==> r is Ok && r->Ok_0@ == old(self).buf@.subrange(
                start as int,
                start as int + len as int,
            ),
            start as int + len as int > CAPACITY ==> r == Err::<&[u8], BufferError>(
                BufferError::OutOfBounds,
            ),
    {
        if start > CAPACITY || len > CAPACITY - start {
            return Err(BufferError::OutOfBounds);
        }
        Ok(&self.buf[start..start + len])
    }

    /// Reads a big-endian 16-bit integer: two byte reads.
    pub fn read_u16(&mut self) -> (r: Result<u16, BufferError>)
        ensures
            final(self).buf == old(self).buf,
            final(self).pos == cursor_after_reads(old(self).pos as int, 2),
            old(self).pos + 2 <= CAPACITY ==> r is Ok && r->Ok_0 == be_u16(
                old(self).buf@[old(self).pos as int],
                old(self).buf@[old(self).pos + 1],
            ),
            old(self).pos + 2 > CAPACITY ==> r == Err::<u16, BufferError>(BufferError::OutOfBounds),
    {
        let b0 = self.read()?;
        let b1 = self.read()?;
        Ok((b0 as u16) * 0x100 + b1 as u16)
    }

    /// Reads a big-endian 32-bit integer: four byte reads.
    pub fn read_u32(&mut self) -> (r: Result<u32, BufferError>)
        ensures
            final(self).buf == old(self).buf,
            final(self).pos == cursor_after_reads(old(self).pos as int, 4),
            old(self).pos + 4 <= CAPACITY ==> r is Ok && r->Ok_0 == be_u32(
                old(self).buf@[old(self).pos as int],
                old(self).buf@[old(self).pos + 1],
                old(self).buf@[old(self).pos + 2],
                old(self).buf@[old(self).pos + 3],
            ),
            old(self).pos + 4 > CAPACITY ==> r == Err::<u32, BufferError>(BufferError::OutOfBounds),
    {
        let b0 = self.read()?;
        let b1 = self.read()?;
        let b2 = self.read()?;
        let b3 = self.read()?;
        Ok((((b0 as u32) * 0x100 + b1 as u32) * 0x100 + b2 as u32) * 0x100 + b3 as u32)
    }

    /// Decodes the domain name at the cursor and appends it to `outstr`:
    /// lowercased labels joined by dots, following compression pointers.
    ///
    /// On success the cursor moves past the name's encoding in place: after
    /// its terminating zero byte, or after the first pointer met. On failure
    /// neither the buffer nor `outstr` changes.
    pub fn read_qname(&mut self, outstr: &mut String) -> (r: Result<(), BufferError>)
        ensures
            final(self).buf == old(self).buf,
            match decode_name(old(self).buf@, old(self).pos as int) {
                Ok(w) => r is Ok && final(self).pos == w.1 && final(outstr)@ == old(outstr)@
                    + join_labels(w.0),
                Err(e) => r == Err::<(), BufferError>(e) && final(self).pos == old(self).pos
                    && final(outstr)@ == old(outstr)@,
            },
    {
        let ghost buf = self.buf@;
        let ghost start = self.pos as int;
        let mut pos: usize = self.pos;
        let mut jumped = false;
        let mut cursor: usize = 0;
        let mut jumps_performed: usize = 0;
        let mut name = String::new();
        let mut delim = false;
        let ghost mut done: Seq<Seq<u8>> = Seq::empty();
        loop
            invariant
                self.buf@ == buf,
                self.pos == old(self).pos,
                buf == old(self).buf@,
                start == old(self).pos as int,
                outstr@ == old(outstr)@,
                jumps_performed <= MAX_JUMPS + 1,
                jumped ==> cursor <= CAPACITY,
                delim == (done.len() > 0),
                name@ == join_labels(done),
                decode_name(buf, start) == resume(
                    done,
                    if jumped {
                        Some(cursor as int)
                    } else {
                        None
                    },
                    walk_name(buf, pos as int, jumps_performed as int, MAX_JUMPS as int),
                ),
            decreases MAX_JUMPS + 1 - jumps_performed, CAPACITY - pos,
        {
            if jumps_performed > MAX_JUMPS {
                return Err(BufferError::TooManyJumps);
            }
            let ghost here = pos as int;
            let ghost rest = walk_name(buf, here, jumps_performed as int, MAX_JUMPS as int);
            // labels start with their length byte
            let len = match self.get(pos) {
                Ok(b) => b,
                Err(e) => return Err(e),
            };
            if (len & 0xC0) == 0xC0 {
                if !jumped {
                    cursor = pos + 2;
                    jumped = true;
                }
                let b2 = match self.get(pos + 1) {
                    Ok(b) => b,
                    Err(e) => return Err(e),
                };
                pos = ((len & 0x3F) as usize) * 256 + b2 as usize;
                jumps_performed = jumps_performed + 1;
                assert(rest == match walk_name(
                    buf,
                    pos as int,
                    jumps_performed as int,
                    MAX_JUMPS as int,
                ) {
                    Ok(w) => Ok((w.0, here + 2, w.2)),
                    Err(e) => Err(e),
                });
            } else {
                pos = pos + 1;
                // a zero length byte ends the name
                if len == 0 {
                    if !jumped {
                        cursor = pos;
                    }
                    outstr.append(name.as_str());
                    self.pos = cursor;
                    return Ok(());
                }
                if delim {
                    proof {
                        reveal_strlit(".");
                    }
                    name.append(".");
                }
                let label = match self.get_range(pos, len as usize) {
                    Ok(l) => l,
                    Err(e) => return Err(e),
                };
                let text = decode_lossy(label);
                let lower = lowercase(text.as_str());
                name.append(lower.as_str());
                proof {
                    let old_done = done;
                    done = done.push(label@);
                    assert(done.drop_last() =~= old_done);
                    assert(done.last() == label@);
                    if old_done.len() == 0 {
                        assert(done[0] == label@);
                    }
                    let after = walk_name(buf, here + 1 + len, jumps_performed as int, MAX_JUMPS as int);
                    if let Ok(w) = after {
                        assert(done + w.0 =~= old_done + (seq![label@] + w.0));
                    }
                }
                delim = true;
                pos = pos + len as usize;
            }
        }
    }
}

} // verus!
