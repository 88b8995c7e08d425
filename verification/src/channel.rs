use crate::error::HandshakeError;
use vstd::prelude::*;
use vstd::slice::{slice_subrange, slice_to_vec};

verus! {

/// In-memory model of one endpoint of an ordered, reliable byte-stream
/// duplex channel.  `incoming` holds what the transport has delivered so
/// far (`cursor` bytes of it already consumed); `outgoing` holds what this
/// side has written.  The transport itself lives outside the library: it
/// feeds `incoming` and drains `outgoing`.
pub struct Channel {
    pub incoming: Vec<u8>,
    pub cursor: usize,
    pub outgoing: Vec<u8>,
}

impl Channel {
    pub open spec fn wf(self) -> bool {
        self.cursor <= self.incoming@.len()
    }

    /// The delivered bytes not yet consumed.
    pub open spec fn remaining(self) -> Seq<u8> {
        self.incoming@.skip(self.cursor as int)
    }

    pub fn new(incoming: Vec<u8>) -> (r: Channel)
        ensures
            r.wf(),
            r.remaining() == incoming@,
            r.outgoing@ == Seq::<u8>::empty(),
    {
        let r = Channel { incoming, cursor: 0, outgoing: Vec::new() };
        proof {
            assert(r.remaining() =~= r.incoming@);
        }
        r
    }

    /// More bytes arrived from the transport.
    pub fn feed(&mut self, bytes: &[u8])
        requires
            old(self).wf(),
        ensures
            final(self).wf(),
            final(self).remaining() == old(self).remaining() + bytes@,
            final(self).outgoing == old(self).outgoing,
            final(self).cursor == old(self).cursor,
    {
        self.incoming.extend_from_slice(bytes);
        proof {
            assert(final(self).remaining() =~= old(self).remaining() + bytes@);
        }
    }

    /// Reads exactly `n` bytes, or fails with `ConnectionClosed` when fewer
    /// remain, consuming nothing.
    pub fn read_exact(&mut self, n: usize) -> (r: Result<Vec<u8>, HandshakeError>)
        requires
            old(self).wf(),
        ensures
            final(self).wf(),
            final(self).incoming == old(self).incoming,
            final(self).outgoing == old(self).outgoing,
            (if n <= old(self).remaining().len() {
                &&& r matches Ok(b) && b@ == old(self).remaining().take(n as int)
                &&& final(self).cursor == old(self).cursor + n
            } else {
                &&& r == Err::<Vec<u8>, HandshakeError>(HandshakeError::ConnectionClosed)
                &&& final(self).cursor == old(self).cursor
            }),
    {
        if n > self.incoming.len() - self.cursor {
            return Err(HandshakeError::ConnectionClosed);
        }
        let b = slice_to_vec(slice_subrange(self.incoming.as_slice(), self.cursor, self.cursor + n));
        self.cursor = self.cursor + n;
        proof {
            assert(b@ =~= old(self).remaining().take(n as int));
        }
        Ok(b)
    }

    /// Appends a frame to the outgoing stream; frames are written whole.
    pub fn write_all(&mut self, bytes: &[u8])
        requires
            old(self).wf(),
        ensures
            final(self).wf(),
            final(self).incoming == old(self).incoming,
            final(self).cursor == old(self).cursor,
            final(self).outgoing@ == old(self).outgoing@ + bytes@,
    {
        self.outgoing.extend_from_slice(bytes);
    }

    /// Hands the accumulated outgoing bytes to the transport.
    pub fn take_outgoing(&mut self) -> (r: Vec<u8>)
        requires
            old(self).wf(),
        ensures
            final(self).wf(),
            final(self).incoming == old(self).incoming,
            final(self).cursor == old(self).cursor,
            final(self).outgoing@ == Seq::<u8>::empty(),
            r@ == old(self).outgoing@,
    {
        let mut out: Vec<u8> = Vec::new();
        core::mem::swap(&mut out, &mut self.outgoing);
        out
    }
}

} // verus!
