use nethuns_rs::errors::Error;
use nethuns_rs::fake_refcell::FakeRefCell;
use nethuns_rs::netmap_ctx::SlotData;
use nethuns_rs::netmap_rs::{Slot, TxBuf};
use nethuns_rs::socket::{NethunsRing, NetmapPkthdr, RingSlot, Rings, RING_SLOT_FREE, RING_SLOT_IN_USE};
use nethuns_rs::strategy::{
    CrossbeamArgs, MpscArgs, MpscStrategy, StdArgs, StrategyArgs, DEFAULT_BUFFER_SIZE,
};
use nethuns_rs::types::SocketMode;
use nethuns_rs::unsafe_refcell::UnsafeRefCell;

fn slot(id: usize, status: u8) -> RingSlot<NetmapPkthdr> {
    RingSlot { status, packet_header: NetmapPkthdr { len: 1, caplen: 1, buf_idx: id as u32 }, id, len: 0, packet: vec![] }
}

#[test]
fn strategy_defaults() {
    let m = MpscArgs::default();
    assert_eq!((m.consumer_buffer_size, m.producer_buffer_size), (256, 256));
    assert_eq!(CrossbeamArgs::default().buffer_size, 65536);
    assert_eq!(DEFAULT_BUFFER_SIZE, 65536);
    let _ = StdArgs::default();
}

#[test]
fn mpsc_strategy_channel() {
    let (mut p, mut c, mut r) = MpscStrategy::create(8, StrategyArgs::Mpsc(MpscArgs::default()));
    for i in 0..16usize {
        p.push(&mut r, i);
    }
    p.flush(&mut r);
    assert_eq!(c.pop(&mut r), Some(15));
    assert_eq!(c.available_len(), 15);
}

#[test]
fn nethuns_ring_is_a_bounded_fifo() {
    let mut ring: NethunsRing<NetmapPkthdr> = NethunsRing::new(2, 64);
    assert!(ring.push(slot(1, RING_SLOT_FREE)).is_ok());
    assert!(ring.push(slot(2, RING_SLOT_IN_USE)).is_ok());
    assert!(ring.push(slot(3, RING_SLOT_FREE)).is_err());
    assert_eq!(ring.peek_tail_slot().unwrap().id, 1);
    assert_eq!(ring.peek_head_slot().unwrap().id, 2);
    let first = ring.pop().unwrap();
    assert!(first.is_free());
    assert_eq!(first.packet_header().buf_idx, 1);
    assert!(!ring.pop().unwrap().is_free());
    assert!(ring.pop().is_none());
}

#[test]
fn rings_by_direction() {
    let rx_only: Rings<NetmapPkthdr> = Rings::RxOnly(NethunsRing::new(1, 64));
    assert!(rx_only.rx_ring().is_ok());
    assert!(rx_only.tx_ring().is_err());
    let both: Rings<NetmapPkthdr> = Rings::RxTx(NethunsRing::new(1, 64), NethunsRing::new(3, 64));
    assert_eq!(both.tx_ring().ok().unwrap().capacity, 3);
}

#[test]
fn socket_mode_suffixes() {
    assert_eq!(SocketMode::RxTx.suffix(), "");
    assert_eq!(SocketMode::RxOnly.suffix(), "/R");
    assert_eq!(SocketMode::TxOnly.suffix(), "/T");
}

#[test]
fn error_messages() {
    assert_eq!(Error::NoPacket.message(), "Can't receive packet");
    assert_eq!(Error::NoMemory.message(), "Can't allocate memory");
    assert_eq!(Error::Other("x").message(), "x");
    assert_eq!(Error::Unknown.message(), "unknown error");
}

#[test]
fn refcells_give_their_value() {
    let mut c = UnsafeRefCell::new(5);
    *c.borrow_mut() += 1;
    assert_eq!(*c.get_mut(), 6);
    assert_eq!(c.into_inner(), 6);
    let mut f = FakeRefCell::new(vec![1]);
    f.borrow_mut().push(2);
    assert_eq!(*f.borrow(), vec![1, 2]);
}

#[test]
fn netmap_tx_buffer_write() {
    let mut b = TxBuf { slot: Slot { inner: SlotData { buf_idx: 3, len: 0, flags: 1, ptr: 0 } }, buf: vec![0u8; 4] };
    assert_eq!(b.write(b"ab"), Ok(()));
    assert_eq!(b.buf, vec![b'a', b'b', 0, 0]);
    assert_eq!(b.slot.inner.len, 2);
    assert_eq!(b.write(b"abcde"), Err(Error::Other("Packet too big")));
    assert_eq!(b.slot.inner.len, 2);
}

#[test]
fn rings_can_be_changed_through_their_direction() {
    let mut both: Rings<NetmapPkthdr> = Rings::RxTx(NethunsRing::new(1, 64), NethunsRing::new(3, 64));
    both.tx_ring_mut().ok().unwrap().capacity = 5;
    assert_eq!(both.tx_ring().ok().unwrap().capacity, 5);
    assert!(both.rx_ring_mut().is_ok());
    let mut tx_only: Rings<NetmapPkthdr> = Rings::TxOnly(NethunsRing::new(1, 64));
    assert!(tx_only.rx_ring_mut().is_err());
}
