//! The receive and transmit sides of a DPDK port queue. Packet buffers
//! (mbufs) are named by their addresses; the bursts that move them to and
//! from the device are made by the caller, which hands their results in.

use vstd::prelude::*;

verus! {

/// Descriptors of the RX queue.
pub const RX_RING_SIZE: u16 = 1024;

/// Most mbufs moved by one burst.
pub const BURST_SIZE: u16 = 32;

/// The result of a DPDK call that returns a count, or a negated error number.
pub fn resultify(x: i32) -> (r: Result<u32, crate::errors::OsError>)
    requires
        x > i32::MIN,
    ensures
        x >= 0 ==> r == Ok::<u32, crate::errors::OsError>(x as u32),
        x < 0 ==> r == Err::<u32, crate::errors::OsError>(crate::errors::OsError(-x as i32)),
{
    if x >= 0 {
        Ok(x as u32)
    } else {
        Err(crate::errors::OsError(-x))
    }
}

/// The receive side: the mbufs of the last burst and how many of them were
/// handed out.
pub struct Receiver {
    pub bufs: Vec<usize>,
    pub nb_rx: usize,
    pub index: usize,
    pub port_id: u16,
    pub queue_id: u16,
}

impl Receiver {
    /// The burst holds `nb_rx` mbufs, `index` of them handed out.
    pub open spec fn wf(&self) -> bool {
        &&& self.bufs@.len() == BURST_SIZE
        &&& self.index <= self.nb_rx <= BURST_SIZE
        &&& forall|i: int| 0 <= i < self.nb_rx ==> self.bufs@[i] != 0
    }

    /// The mbufs of the last burst not handed out yet.
    pub open spec fn pending(&self) -> Seq<usize> {
        self.bufs@.subrange(self.index as int, self.nb_rx as int)
    }

    /// A receiver of queue `queue_id` of port `port_id` with no burst yet.
    pub fn new(port_id: u16, queue_id: u16) -> (r: Self)
        ensures
            r.wf(),
            r.pending().len() == 0,
            r.port_id == port_id,
            r.queue_id == queue_id,
    {
        let mut bufs: Vec<usize> = Vec::new();
        while bufs.len() < BURST_SIZE as usize
            invariant
                bufs@.len() <= BURST_SIZE,
            decreases BURST_SIZE - bufs@.len(),
        {
            bufs.push(0);
        }
        Receiver { bufs, nb_rx: 0, index: 0, port_id, queue_id }
    }

    /// The next mbuf of the last burst; `None` when all were handed out and a
    /// new burst (`rte_eth_rx_burst`) is due.
    pub fn advance(&mut self) -> (r: Option<usize>)
        requires
            old(self).wf(),
        ensures
            final(self).wf(),
            final(self).port_id == old(self).port_id,
            final(self).queue_id == old(self).queue_id,
            old(self).pending().len() == 0 ==> r is None && *final(self) == *old(self),
            old(self).pending().len() > 0 ==> r == Some(old(self).pending()[0]) && final(self).pending()
                == old(self).pending().drop_first(),
            r matches Some(b) ==> b != 0,
    {
        if self.index == self.nb_rx {
            return None;
        }
        let buf = self.bufs[self.index];
        self.index = self.index + 1;
        proof {
            assert(self.pending() =~= old(self).pending().drop_first());
        }
        Some(buf)
    }

    /// Takes in the mbufs a burst received and hands out the first of them;
    /// `None` when the burst was empty.
    pub fn burst_done(&mut self, got: &[usize]) -> (r: Option<usize>)
        requires
            old(self).wf(),
            got@.len() <= BURST_SIZE,
            forall|i: int| 0 <= i < got@.len() ==> got@[i] != 0,
        ensures
            final(self).wf(),
            final(self).port_id == old(self).port_id,
            final(self).queue_id == old(self).queue_id,
            got@.len() == 0 ==> r is None && final(self).pending().len() == 0,
            got@.len() > 0 ==> r == Some(got@[0]) && final(self).pending() == got@.drop_first(),
    {
        let mut i: usize = 0;
        while i < got.len()
            invariant
                i <= got@.len() <= BURST_SIZE,
                self.bufs@.len() == BURST_SIZE,
                self.port_id == old(self).port_id,
                self.queue_id == old(self).queue_id,
                forall|j: int| 0 <= j < i ==> self.bufs@[j] == got@[j],
            decreases got@.len() - i,
        {
            self.bufs.set(i, got[i]);
            i = i + 1;
        }
        self.index = 0;
        self.nb_rx = got.len();
        proof {
            assert(self.pending() =~= got@);
            assert forall|j: int| 0 <= j < self.nb_rx implies self.bufs@[j] != 0 by {
                assert(self.bufs@[j] == got@[j]);
            }
        }
        self.advance()
    }
}

/// What the transmitter asks of the caller before it can hand out a buffer.
#[derive(Clone, Copy, Debug, PartialEq, Eq)]
pub enum TxNext {
    /// A free mbuf to fill.
    Buf(usize),
    /// The ready list is full: send it (`rte_eth_tx_burst`), then allocate
    /// new mbufs for the places it freed.
    Flush,
    /// No free mbuf is left.
    Empty,
}

/// The transmit side: free mbufs to fill, and filled mbufs ready to be sent.
pub struct Transmitter {
    pub bufs: Vec<usize>,
    pub ready_bufs: Vec<usize>,
    pub port_id: u16,
    pub queue_id: u16,
}

impl Transmitter {
    pub open spec fn wf(&self) -> bool {
        &&& self.bufs@.len() + self.ready_bufs@.len() <= BURST_SIZE
    }

    /// A transmitter with the `BURST_SIZE` mbufs allocated for it.
    pub fn new(bufs: Vec<usize>, port_id: u16, queue_id: u16) -> (t: Self)
        requires
            bufs@.len() == BURST_SIZE,
        ensures
            t.wf(),
            t.bufs == bufs,
            t.ready_bufs@.len() == 0,
            t.port_id == port_id,
            t.queue_id == queue_id,
    {
        Transmitter { bufs, ready_bufs: Vec::new(), port_id, queue_id }
    }

    /// The first `sent` ready mbufs went out (what `flush` keeps of the ready
    /// list after `rte_eth_tx_burst` returned `sent`).
    pub fn flush(&mut self, sent: usize)
        requires
            old(self).wf(),
            sent <= old(self).ready_bufs@.len(),
        ensures
            final(self).wf(),
            final(self).bufs == old(self).bufs,
            final(self).ready_bufs@ == old(self).ready_bufs@.skip(sent as int),
            final(self).port_id == old(self).port_id,
            final(self).queue_id == old(self).queue_id,
    {
        let mut rest: Vec<usize> = Vec::new();
        let mut i: usize = sent;
        while i < self.ready_bufs.len()
            invariant
                sent <= i <= self.ready_bufs@.len(),
                rest@ == self.ready_bufs@.subrange(sent as int, i as int),
            decreases self.ready_bufs@.len() - i,
        {
            rest.push(self.ready_bufs[i]);
            i = i + 1;
            proof {
                assert(rest@ =~= self.ready_bufs@.subrange(sent as int, i as int));
            }
        }
        self.ready_bufs = rest;
    }

    /// Places left in the ready list, for which new mbufs are allocated after
    /// a flush.
    pub fn can_ask(&self) -> (n: usize)
        requires
            self.wf(),
        ensures
            n == BURST_SIZE - self.ready_bufs@.len(),
    {
        BURST_SIZE as usize - self.ready_bufs.len()
    }

    /// The next free mbuf to fill, last allocated first; `Flush` when the
    /// ready list is full.
    pub fn advance(&mut self) -> (r: TxNext)
        requires
            old(self).wf(),
        ensures
            final(self).wf(),
            final(self).ready_bufs == old(self).ready_bufs,
            final(self).port_id == old(self).port_id,
            final(self).queue_id == old(self).queue_id,
            old(self).ready_bufs@.len() == BURST_SIZE ==> r == TxNext::Flush && *final(self) == *old(self),
            old(self).ready_bufs@.len() < BURST_SIZE && old(self).bufs@.len() == 0 ==> r == TxNext::Empty && *final(self)
                == *old(self),
            old(self).ready_bufs@.len() < BURST_SIZE && old(self).bufs@.len() > 0 ==> r == TxNext::Buf(
                old(self).bufs@.last(),
            ) && final(self).bufs@ == old(self).bufs@.drop_last(),
    {
        if self.ready_bufs.len() == BURST_SIZE as usize {
            return TxNext::Flush;
        }
        if self.bufs.len() == 0 {
            return TxNext::Empty;
        }
        match self.bufs.pop() {
            Some(b) => TxNext::Buf(b),
            None => TxNext::Empty,
        }
    }

    /// Takes in the mbufs allocated after a flush (`None` when the bulk
    /// allocation failed) and hands out the next one.
    pub fn refilled(&mut self, allocated: Option<Vec<usize>>) -> (r: Option<usize>)
        requires
            old(self).wf(),
            old(self).ready_bufs@.len() < BURST_SIZE,
            allocated matches Some(v) ==> old(self).bufs@.len() + v@.len() + old(self).ready_bufs@.len() <= BURST_SIZE,
        ensures
            final(self).wf(),
            final(self).ready_bufs == old(self).ready_bufs,
            final(self).port_id == old(self).port_id,
            final(self).queue_id == old(self).queue_id,
            allocated is None ==> r is None && *final(self) == *old(self),
            allocated matches Some(v) ==> {
                let all = old(self).bufs@ + v@;
                &&& all.len() == 0 ==> r is None && final(self).bufs@ == all
                &&& all.len() > 0 ==> r == Some(all.last()) && final(self).bufs@ == all.drop_last()
            },
    {
        match allocated {
            None => None,
            Some(v) => {
                let mut i: usize = 0;
                let ghost b0 = self.bufs@;
                while i < v.len()
                    invariant
                        i <= v@.len(),
                        self.bufs@ == b0 + v@.take(i as int),
                        self.ready_bufs == old(self).ready_bufs,
                        self.port_id == old(self).port_id,
                        self.queue_id == old(self).queue_id,
                    decreases v@.len() - i,
                {
                    self.bufs.push(v[i]);
                    i = i + 1;
                    proof {
                        assert(self.bufs@ =~= b0 + v@.take(i as int));
                    }
                }
                proof {
                    assert(v@.take(v@.len() as int) =~= v@);
                }
                self.bufs.pop()
            },
        }
    }

    /// A filled mbuf joins the ready list (when the buffer handed out is
    /// given back).
    pub fn ready(&mut self, buf: usize)
        requires
            old(self).wf(),
            old(self).bufs@.len() + old(self).ready_bufs@.len() < BURST_SIZE,
        ensures
            final(self).wf(),
            final(self).bufs == old(self).bufs,
            final(self).ready_bufs@ == old(self).ready_bufs@.push(buf),
            final(self).port_id == old(self).port_id,
            final(self).queue_id == old(self).queue_id,
    {
        self.ready_bufs.push(buf);
    }
}

} // verus!
