//! The backend that sends in batches: datagrams wait in a queue until the
//! queue is flushed with one system call.

use crate::io::NetAddr;
use crate::net::{NetError, MAX_DATAGRAM};
use vstd::prelude::*;

verus! {

/// One datagram and where it goes.
pub struct Datagram {
    pub buf: Vec<u8>,
    pub dest: NetAddr,
}

/// The mathematical value of a `Datagram`.
pub struct DatagramView {
    pub buf: Seq<u8>,
    pub dest: NetAddr,
}

impl View for Datagram {
    type V = DatagramView;

    open spec fn view(&self) -> DatagramView {
        DatagramView { buf: self.buf@, dest: self.dest }
    }
}

/// The datagrams `batch` as values.
pub open spec fn batch_view(batch: Seq<Datagram>) -> Seq<DatagramView> {
    batch.map_values(|datagram: Datagram| datagram@)
}

/// The send queue of the batching backend, which holds up to `QUEUE` datagrams.
pub struct UdpSocket2Mmsg<const QUEUE: usize> {
    queue: Vec<Datagram>,
}

impl<const QUEUE: usize> View for UdpSocket2Mmsg<QUEUE> {
    type V = Seq<DatagramView>;

    closed spec fn view(&self) -> Seq<DatagramView> {
        batch_view(self.queue@)
    }
}

impl<const QUEUE: usize> UdpSocket2Mmsg<QUEUE> {
    #[verifier::type_invariant]
    spec fn inv(&self) -> bool {
        self.queue@.len() <= QUEUE
    }

    /// An empty queue.
    pub fn new() -> (socket: Self)
        ensures
            socket@ == Seq::<DatagramView>::empty(),
    {
        let socket = UdpSocket2Mmsg { queue: Vec::new() };
        assert(socket@ =~= Seq::<DatagramView>::empty());
        socket
    }

    /// Queues a copy of `buf` for `dest`. Where the queue is full, what
    /// waits in it is flushed first: it comes back, to be sent at once.
    /// Otherwise nothing comes back. The other value is the number of bytes
    /// queued.
    pub fn add_send_to(&mut self, buf: &[u8], dest: NetAddr) -> (queued: Result<
        (Vec<Datagram>, usize),
        NetError,
    >)
        requires
            QUEUE > 0,
        ensures
            match queued {
                Ok((flushed, len)) => {
                    &&& buf@.len() <= MAX_DATAGRAM
                    &&& len == buf@.len()
                    &&& batch_view(flushed@) == if old(self)@.len() == QUEUE {
                        old(self)@
                    } else {
                        Seq::<DatagramView>::empty()
                    }
                    &&& final(self)@ == (if old(self)@.len() == QUEUE {
                        Seq::<DatagramView>::empty()
                    } else {
                        old(self)@
                    }).push(DatagramView { buf: buf@, dest })
                },
                Err(error) => {
                    &&& error == NetError::TooLarge
                    &&& buf@.len() > MAX_DATAGRAM
                    &&& final(self)@ == old(self)@
                },
            },
    {
        proof {
            use_type_invariant(&*self);
        }
        if buf.len() > MAX_DATAGRAM {
            return Err(NetError::TooLarge);
        }
        let mut taken = UdpSocket2Mmsg { queue: Vec::new() };
        core::mem::swap(self, &mut taken);
        let mut queue = taken.queue;
        let mut flushed: Vec<Datagram> = Vec::new();
        if queue.len() == QUEUE {
            core::mem::swap(&mut queue, &mut flushed);
        }
        let ghost kept = queue@;
        queue.push(Datagram { buf: vstd::slice::slice_to_vec(buf), dest });
        assert(batch_view(queue@) =~= batch_view(kept).push(DatagramView { buf: buf@, dest }));
        assert(batch_view(Seq::<Datagram>::empty()) =~= Seq::<DatagramView>::empty());
        *self = UdpSocket2Mmsg { queue };
        Ok((flushed, buf.len()))
    }

    /// Flushes the queue: what waits in it comes back, in the order in
    /// which it was queued, to be sent with one system call.
    pub fn commit_send_to(&mut self) -> (batch: Vec<Datagram>)
        ensures
            batch_view(batch@) == old(self)@,
            final(self)@ == Seq::<DatagramView>::empty(),
    {
        let mut taken = UdpSocket2Mmsg { queue: Vec::new() };
        core::mem::swap(self, &mut taken);
        assert(self@ =~= Seq::<DatagramView>::empty());
        taken.queue
    }

    /// The number of datagrams that wait in the queue, which is never more
    /// than the queue holds.
    pub fn queue_len(&self) -> (len: usize)
        ensures
            len == self@.len(),
            len <= QUEUE,
    {
        proof {
            use_type_invariant(self);
        }
        self.queue.len()
    }
}

} // verus!
