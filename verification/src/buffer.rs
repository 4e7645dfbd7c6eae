//! The byte queue of one direction of a session.

use vstd::prelude::*;
use crate::errno::{classify, kind_of, ErrorKind};

verus! {

/// Capacity of a buffer, in bytes.
pub const BUF_SIZE: usize = 4096;

/// What a buffer holds: `bytes`, oldest first, stored from the offset `start` on.
#[verifier::ext_equal]
pub struct Queue {
    pub start: nat,
    pub bytes: Seq<u8>,
}

impl Queue {
    /// The queue that holds nothing.
    pub open spec fn empty() -> Queue {
        Queue { start: 0, bytes: Seq::empty() }
    }

    /// The bytes lie within the storage, and an empty queue begins at its front.
    pub open spec fn wf(self) -> bool {
        &&& self.start + self.bytes.len() <= BUF_SIZE
        &&& self.bytes.len() == 0 ==> self.start == 0
    }

    pub open spec fn has_space(self) -> bool {
        self.bytes.len() < BUF_SIZE
    }

    pub open spec fn has_data(self) -> bool {
        self.bytes.len() > 0
    }

    /// Free storage behind the last byte.
    pub open spec fn room(self) -> int {
        BUF_SIZE - self.start - self.bytes.len()
    }

    /// The bytes moved to the front, where there is no room behind them.
    pub open spec fn compacted(self) -> Queue {
        if self.room() <= 0 {
            Queue { start: 0, bytes: self.bytes }
        } else {
            self
        }
    }

    /// `new` behind what is there.
    pub open spec fn extended(self, new: Seq<u8>) -> Queue {
        Queue { start: self.start, bytes: self.bytes + new }
    }

    /// Without the first `n` bytes.
    pub open spec fn consumed(self, n: nat) -> Queue {
        Queue {
            start: if n >= self.bytes.len() {
                0
            } else {
                self.start + n
            },
            bytes: self.bytes.skip(n as int),
        }
    }
}

/// What came of reading from a descriptor.
#[derive(Debug)]
pub enum ReadOutcome {
    /// These bytes; none at the end of the input.
    Bytes(Vec<u8>),
    /// An error number.
    Failed(i32),
}

/// What a read means to the session.
#[derive(Clone, Copy, Debug, PartialEq, Eq, Structural)]
pub enum ReadResult {
    Progress,
    Eof,
    Eio,
    WouldBlock,
    Error,
}

/// What came of writing to a descriptor.
#[derive(Clone, Copy, Debug, PartialEq, Eq, Structural)]
pub enum WriteOutcome {
    /// The number of bytes that were taken.
    Written(usize),
    /// An error number.
    Failed(i32),
}

/// The bytes of an outcome.
pub open spec fn bytes_read(outcome: ReadOutcome) -> Seq<u8> {
    match outcome {
        ReadOutcome::Bytes(bytes) => bytes@,
        ReadOutcome::Failed(_) => Seq::empty(),
    }
}

/// The meaning of an outcome of a read that asked for at least one byte.
pub open spec fn read_meaning(outcome: ReadOutcome) -> ReadResult {
    match outcome {
        ReadOutcome::Bytes(bytes) => if bytes@.len() == 0 {
            ReadResult::Eof
        } else {
            ReadResult::Progress
        },
        ReadOutcome::Failed(errno) => match kind_of(errno) {
            ErrorKind::WouldBlock => ReadResult::WouldBlock,
            ErrorKind::Io => ReadResult::Eio,
            _ => ReadResult::Error,
        },
    }
}

/// The number of bytes that left the queue.
pub open spec fn bytes_written(outcome: WriteOutcome) -> nat {
    match outcome {
        WriteOutcome::Written(n) => n as nat,
        WriteOutcome::Failed(_) => 0,
    }
}

/// A queue of at most `BUF_SIZE` bytes between two descriptors.
pub struct Buffer {
    data: [u8; BUF_SIZE],
    start: usize,
    len: usize,
}

impl View for Buffer {
    type V = Queue;

    closed spec fn view(&self) -> Queue {
        Queue {
            start: self.start as nat,
            bytes: self.data@.subrange(self.start as int, self.start + self.len),
        }
    }
}

impl Buffer {
    pub closed spec fn wf(&self) -> bool {
        &&& self.start + self.len <= BUF_SIZE
        &&& self.len == 0 ==> self.start == 0
    }

    /// An empty buffer.
    pub fn new() -> (r: Self)
        ensures
            r.wf(),
            r@ == Queue::empty(),
    {
        Buffer { data: [0u8;BUF_SIZE], start: 0, len: 0 }
    }

    pub fn has_space(&self) -> (r: bool)
        requires
            self.wf(),
        ensures
            r == self@.has_space(),
    {
        self.len < BUF_SIZE
    }

    pub fn has_data(&self) -> (r: bool)
        requires
            self.wf(),
        ensures
            r == self@.has_data(),
    {
        self.len > 0
    }

    /// A well-formed buffer shows a well-formed queue.
    pub proof fn lemma_view_wf(&self)
        requires
            self.wf(),
        ensures
            self@.wf(),
    {
    }

    /// Makes contiguous space at the end if there is none, and says how many
    /// bytes the next read may bring.
    pub fn make_room(&mut self) -> (space: usize)
        requires
            old(self).wf(),
        ensures
            final(self).wf(),
            final(self)@ == old(self)@.compacted(),
            space == final(self)@.room(),
            space > 0 <==> old(self)@.has_space(),
    {
        let ghost before = self@;
        if self.start > 0 && self.start + self.len >= BUF_SIZE {
            let ghost data = self.data@;
            let start = self.start;
            let len = self.len;
            let mut i: usize = 0;
            while i < len
                invariant
                    0 < start,
                    start == self.start,
                    len == self.len,
                    start + len == BUF_SIZE,
                    i <= len,
                    data.len() == BUF_SIZE,
                    self.data@.len() == BUF_SIZE,
                    forall|j: int| 0 <= j < i ==> self.data@[j] == data[start + j],
                    forall|j: int| i <= j < BUF_SIZE ==> self.data@[j] == data[j],
                decreases len - i,
            {
                self.data[i] = self.data[start + i];
                i += 1;
            }
            self.start = 0;
            assert(self@.bytes =~= before.bytes);
        }
        assert(self@ =~= before.compacted());
        BUF_SIZE - (self.start + self.len)
    }

    /// Takes in what a read brought that asked for as many bytes as there is
    /// room, and says what it means. With no room nothing was asked for.
    pub fn read_from(&mut self, outcome: ReadOutcome) -> (r: ReadResult)
        requires
            old(self).wf(),
            bytes_read(outcome).len() <= old(self)@.room(),
        ensures
            final(self).wf(),
            old(self)@.room() > 0 ==> r == read_meaning(outcome),
            old(self)@.room() == 0 ==> r is Progress,
            final(self)@ == old(self)@.extended(bytes_read(outcome)),
    {
        let ghost before = self@;
        let write_pos = self.start + self.len;
        if BUF_SIZE - write_pos == 0 {
            assert(self@ =~= before.extended(bytes_read(outcome)));
            return ReadResult::Progress;
        }
        match outcome {
            ReadOutcome::Bytes(bytes) => {
                let n = bytes.len();
                let ghost data = self.data@;
                let mut i: usize = 0;
                while i < n
                    invariant
                        i <= n,
                        n == bytes@.len(),
                        write_pos + n <= BUF_SIZE,
                        self.data@.len() == BUF_SIZE,
                        data.len() == BUF_SIZE,
                        self.start == before.start,
                        self.len == before.bytes.len(),
                        write_pos == self.start + self.len,
                        forall|j: int| 0 <= j < write_pos ==> self.data@[j] == data[j],
                        forall|j: int|
                            write_pos <= j < write_pos + i ==> self.data@[j] == bytes@[j
                                - write_pos],
                    decreases n - i,
                {
                    self.data[write_pos + i] = bytes[i];
                    i += 1;
                }
                self.len += n;
                assert(self@ =~= before.extended(bytes@));
                if n == 0 {
                    ReadResult::Eof
                } else {
                    ReadResult::Progress
                }
            },
            ReadOutcome::Failed(errno) => {
                assert(self@ =~= before.extended(Seq::empty()));
                match classify(errno) {
                    ErrorKind::WouldBlock => ReadResult::WouldBlock,
                    ErrorKind::Io => ReadResult::Eio,
                    _ => ReadResult::Error,
                }
            },
        }
    }

    /// The bytes that wait to be written.
    pub fn pending(&self) -> (r: &[u8])
        requires
            self.wf(),
        ensures
            r@ == self@.bytes,
    {
        vstd::slice::slice_subrange(self.data.as_slice(), self.start, self.start + self.len)
    }

    /// Drops what a write of the pending bytes took. A failed write takes
    /// nothing: it is tried again when the descriptor is writable.
    pub fn write_to(&mut self, outcome: WriteOutcome)
        requires
            old(self).wf(),
            bytes_written(outcome) <= old(self)@.bytes.len(),
        ensures
            final(self).wf(),
            final(self)@ == old(self)@.consumed(bytes_written(outcome)),
    {
        let ghost before = self@;
        if self.len == 0 {
            assert(self@ =~= before.consumed(0));
            return ;
        }
        match outcome {
            WriteOutcome::Written(n) => {
                self.start += n;
                self.len -= n;
                if self.len == 0 {
                    self.start = 0;
                }
                assert(self@ =~= before.consumed(n as nat));
            },
            WriteOutcome::Failed(_) => {
                assert(self@ =~= before.consumed(0));
            },
        }
    }
}

/// An outcome is taken at its word: the bytes that came in are the bytes of the
/// read and none of one that failed, and the number that left is the number
/// written and none where the write failed.
pub proof fn law_outcomes_are_taken_at_their_word(bytes: Vec<u8>, n: usize, errno: i32)
    ensures
        bytes_read(ReadOutcome::Bytes(bytes)) == bytes@,
        bytes_read(ReadOutcome::Failed(errno)).len() == 0,
        bytes_written(WriteOutcome::Written(n)) == n,
        bytes_written(WriteOutcome::Failed(errno)) == 0,
        read_meaning(ReadOutcome::Bytes(bytes)) is Eof <==> bytes@.len() == 0,
        read_meaning(ReadOutcome::Bytes(bytes)) is Progress <==> bytes@.len() > 0,
        read_meaning(ReadOutcome::Failed(errno)) is WouldBlock <==> errno == 11,
        read_meaning(ReadOutcome::Failed(errno)) is Eio <==> errno == 5,
        read_meaning(ReadOutcome::Failed(errno)) is Error <==> errno != 5 && errno != 11,
{
}

/// What goes in comes out once, first in, first out: after `new` has gone in
/// and `n` bytes have come out, those `n` and what is left make up what was
/// there and `new`.
pub proof fn law_queue_is_first_in_first_out(queue: Queue, new: Seq<u8>, n: nat)
    requires
        queue.wf(),
        new.len() <= queue.room(),
        n <= queue.bytes.len() + new.len(),
    ensures
        ({
            let full = queue.extended(new);
            let left = full.consumed(n);
            &&& queue.bytes + new == full.bytes.take(n as int) + left.bytes
            &&& left.bytes.len() == queue.bytes.len() + new.len() - n
            &&& left.wf()
            &&& full.start == queue.start
            &&& left.bytes.len() > 0 ==> left.start == queue.start + n
            &&& left.bytes.len() == 0 ==> left.start == 0
        }),
{
    let all = queue.bytes + new;
    assert(all =~= all.take(n as int) + all.skip(n as int));
}

/// There is space as long as fewer than 4096 bytes wait: then at least one more
/// fits behind them, once they are moved to the front where they reach the end
/// of the storage. Moving them changes nothing else.
pub proof fn law_space_can_be_used(queue: Queue)
    requires
        queue.wf(),
    ensures
        queue.has_space() <==> queue.bytes.len() < 4096,
        queue.has_data() <==> queue.bytes.len() > 0,
        queue.start + queue.bytes.len() + queue.room() == 4096,
        queue.compacted().wf(),
        queue.compacted().bytes == queue.bytes,
        queue.compacted().room() > 0 <==> queue.bytes.len() < 4096,
        queue.start + queue.bytes.len() < 4096 ==> queue.compacted() == queue,
        queue.start + queue.bytes.len() == 4096 ==> queue.compacted().start == 0,
        Queue::empty().bytes.len() == 0,
        Queue::empty().start == 0,
{
}

} // verus!
