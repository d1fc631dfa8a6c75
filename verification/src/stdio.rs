//! The state behind a task's standard streams: a queue of bytes with an
//! end-of-file mark, and a queue of key events.
//!
//! The handles that share one of these states between a reader and a writer
//! (and the lock around it) live with the application; the rules of reading
//! and writing live here.

use vstd::prelude::*;
use std::collections::VecDeque;
use crate::keycodes::KeyEvent;

verus! {

/// Why a write to a stream was refused.
#[derive(Clone, Copy, Debug, PartialEq, Eq, Structural)]
pub enum StreamError {
    /// The stream has its end-of-file mark set.
    UnexpectedEof,
}

/// How many bytes a read into a buffer of `buf_len` bytes takes from a
/// stream holding `held` bytes.
pub open spec fn read_taken(held: nat, buf_len: nat, eof: bool) -> nat {
    if eof || buf_len == 0 {
        0
    } else if held < buf_len {
        held
    } else {
        buf_len
    }
}

/// A queue of bytes with an end-of-file mark.
#[derive(Clone, Debug)]
pub struct StreamState {
    bytes: VecDeque<u8>,
    eof: bool,
}

impl StreamState {
    /// The bytes waiting to be read, oldest first.
    pub closed spec fn spec_bytes(&self) -> Seq<u8> {
        self.bytes@
    }

    /// Whether the end-of-file mark is set.
    pub closed spec fn spec_eof(&self) -> bool {
        self.eof
    }

    /// An empty open stream.
    pub fn new() -> (r: StreamState)
        ensures
            r.spec_bytes() == Seq::<u8>::empty(),
            !r.spec_eof(),
    {
        StreamState { bytes: VecDeque::new(), eof: false }
    }

    /// An empty stream whose end-of-file mark is set.
    pub fn ended() -> (r: StreamState)
        ensures
            r.spec_bytes() == Seq::<u8>::empty(),
            r.spec_eof(),
    {
        StreamState { bytes: VecDeque::new(), eof: true }
    }

    /// Whether the end-of-file mark is set.
    pub fn is_eof(&self) -> (r: bool)
        ensures
            r == self.spec_eof(),
    {
        self.eof
    }

    /// Sets the end-of-file mark.
    pub fn set_eof(&mut self)
        ensures
            final(self).spec_eof(),
            final(self).spec_bytes() == old(self).spec_bytes(),
    {
        self.eof = true;
    }

    /// Moves the oldest bytes into `buf`, as many as fit. Nothing is read
    /// once the end-of-file mark is set or when `buf` is empty.
    ///
    /// Returns the number of bytes read.
    pub fn read(&mut self, buf: &mut [u8]) -> (r: usize)
        ensures
            ({
                let taken = read_taken(old(self).spec_bytes().len(), old(buf)@.len(), old(self).spec_eof());
                &&& r == taken
                &&& final(self).spec_bytes() == old(self).spec_bytes().skip(taken as int)
                &&& final(self).spec_eof() == old(self).spec_eof()
                &&& final(buf)@.len() == old(buf)@.len()
                &&& final(buf)@.take(taken as int) == old(self).spec_bytes().take(taken as int)
                &&& final(buf)@.skip(taken as int) == old(buf)@.skip(taken as int)
            }),
    {
        if self.eof || buf.len() == 0 {
            proof {
                assert(self.bytes@.skip(0) =~= self.bytes@);
                assert(buf@.take(0) =~= self.bytes@.take(0));
                assert(buf@.skip(0) =~= buf@);
            }
            return 0;
        }
        let ghost start = self.bytes@;
        let ghost buf0 = buf@;
        let mut count: usize = 0;
        while count < buf.len()
            invariant
                !self.eof,
                buf@.len() == buf0.len(),
                0 <= count <= buf0.len(),
                count <= start.len(),
                self.bytes@ == start.skip(count as int),
                buf@.take(count as int) == start.take(count as int),
                buf@.skip(count as int) == buf0.skip(count as int),
            ensures
                count == buf0.len() || count == start.len(),
            decreases buf0.len() - count,
        {
            match self.bytes.pop_front() {
                Some(item) => {
                    proof {
                        assert(start.skip(count as int)[0] == start[count as int]);
                    }
                    let ghost b = buf@;
                    buf[count] = item;
                    count = count + 1;
                    proof {
                        assert(self.bytes@ =~= start.skip(count as int));
                        assert(buf@.take(count as int) =~= start.take(count as int));
                        assert forall|j: int| 0 <= j < buf@.len() - count implies
                            #[trigger] buf@.skip(count as int)[j] == buf0.skip(count as int)[j] by {
                            assert(b.skip(count - 1)[j + 1] == buf0.skip(count - 1)[j + 1]);
                        }
                        assert(buf@.skip(count as int) =~= buf0.skip(count as int));
                    }
                },
                None => {
                    proof {
                        assert(start.skip(count as int).len() == 0);
                    }
                    break;
                },
            }
        }
        count
    }

    /// Appends `buf` to the stream and returns its length; refused once the
    /// end-of-file mark is set.
    pub fn write(&mut self, buf: &[u8]) -> (r: Result<usize, StreamError>)
        ensures
            old(self).spec_eof() ==> r == Err::<usize, StreamError>(StreamError::UnexpectedEof)
                && final(self).spec_bytes() == old(self).spec_bytes(),
            !old(self).spec_eof() ==> r == Ok::<usize, StreamError>(buf@.len() as usize)
                && final(self).spec_bytes() == old(self).spec_bytes() + buf@,
            final(self).spec_eof() == old(self).spec_eof(),
    {
        if self.eof {
            return Err(StreamError::UnexpectedEof);
        }
        let ghost start = self.bytes@;
        let mut i: usize = 0;
        while i < buf.len()
            invariant
                0 <= i <= buf@.len(),
                self.bytes@ == start + buf@.take(i as int),
                !self.eof,
            decreases buf@.len() - i,
        {
            self.bytes.push_back(buf[i]);
            i = i + 1;
            proof {
                assert(self.bytes@ =~= start + buf@.take(i as int));
            }
        }
        proof {
            assert(buf@.take(buf@.len() as int) =~= buf@);
        }
        Ok(buf.len())
    }
}

/// A queue of key events.
#[derive(Clone, Debug)]
pub struct KeyEventQueue {
    events: VecDeque<KeyEvent>,
}

impl KeyEventQueue {
    /// The events waiting to be read, oldest first.
    pub closed spec fn spec_events(&self) -> Seq<KeyEvent> {
        self.events@
    }

    /// An empty queue.
    pub fn new() -> (r: KeyEventQueue)
        ensures
            r.spec_events() == Seq::<KeyEvent>::empty(),
    {
        KeyEventQueue { events: VecDeque::new() }
    }

    /// Takes the oldest event, if any.
    pub fn read_one(&mut self) -> (r: Option<KeyEvent>)
        ensures
            old(self).spec_events().len() == 0 ==> r is None && final(self).spec_events()
                == old(self).spec_events(),
            old(self).spec_events().len() > 0 ==> r == Some(old(self).spec_events()[0])
                && final(self).spec_events() == old(self).spec_events().drop_first(),
    {
        self.events.pop_front()
    }

    /// Takes every waiting event, oldest first.
    pub fn read_all(&mut self) -> (r: Vec<KeyEvent>)
        ensures
            r@ == old(self).spec_events(),
            final(self).spec_events() == Seq::<KeyEvent>::empty(),
    {
        let mut out: Vec<KeyEvent> = Vec::new();
        let ghost start = self.events@;
        while self.events.len() > 0
            invariant
                out@ + self.events@ == start,
            decreases self.events@.len(),
        {
            match self.events.pop_front() {
                Some(e) => {
                    out.push(e);
                    proof {
                        assert(out@ + self.events@ =~= start);
                    }
                },
                None => {},
            }
        }
        proof {
            assert(out@ =~= start);
        }
        out
    }

    /// Appends `event` to the queue.
    pub fn write(&mut self, event: KeyEvent)
        ensures
            final(self).spec_events() == old(self).spec_events().push(event),
    {
        self.events.push_back(event);
    }
}

/// Bytes written to an open stream come back out of it, in order, behind
/// the bytes it already held: a read with room for all of them takes them
/// all and reports their number.
pub proof fn lemma_write_then_read(held: Seq<u8>, written: Seq<u8>, buf_len: nat)
    requires
        buf_len >= held.len() + written.len(),
    ensures
        ({
            let all = held + written;
            &&& read_taken(all.len(), buf_len, false) == all.len()
            &&& all.take(all.len() as int) == all
            &&& all.take(held.len() as int) == held
        }),
{
    let all = held + written;
    assert(all.take(all.len() as int) =~= all);
    assert(all.take(held.len() as int) =~= held);
}

/// Once the end-of-file mark is set, reads take nothing and return 0.
pub proof fn lemma_read_at_eof(held: nat, buf_len: nat)
    ensures
        read_taken(held, buf_len, true) == 0,
{
}

} // verus!
