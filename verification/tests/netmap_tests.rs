use nethuns_rs::netmap_rs::{Interface, Ring};
use nethuns_rs::netmap_ctx::{allocate_port, AllocatedPorts};
use nethuns_rs::api::{BufferDesc, Token};
use nethuns_rs::errors::Error;
use nethuns_rs::mpsc::consumer_registry::ConsumerRegistry;
use nethuns_rs::netmap::{Ctx, Sock};
use nethuns_rs::netmap_ctx::{Port, RawRing, RawSlot, Receiver, SlotData, Transmitter, NS_BUF_CHANGED};

const BUF_SIZE: u32 = 64;

fn ring(index: usize, first_buf: u32, head: u32, tail: u32) -> RawRing {
    let slot = (0..8u32)
        .map(|i| RawSlot { inner: SlotData { buf_idx: first_buf + i, len: BUF_SIZE as u16, flags: 0, ptr: 0 } })
        .collect();
    RawRing {
        index,
        buf_ofs: 4096,
        num_slots: 8,
        nr_buf_size: BUF_SIZE,
        head,
        cur: head,
        tail,
        ts_sec: 10,
        ts_usec: 20,
        slot,
    }
}

/// A port with one TX ring (buffers 1..9, all free), one RX ring (buffers
/// 9..17, nothing received) and extra buffers 17..49 chained from the head.
fn port() -> Port {
    let mut words = vec![0u32; 64];
    for b in 17..48u32 {
        words[b as usize] = b + 1;
    }
    Port {
        first_tx_ring: 0,
        last_tx_ring: 0,
        first_rx_ring: 0,
        last_rx_ring: 0,
        nr_extra_bufs: 32,
        ni_tx_rings: 1,
        ni_rx_rings: 1,
        ni_host_tx_rings: 0,
        ring_ofs: vec![100, 200],
        ni_bufs_head: 17,
        buf_ofs: 4096,
        nr_buf_size: BUF_SIZE,
        tx_rings: vec![ring(0, 1, 0, 7)],
        rx_rings: vec![ring(0, 9, 0, 0)],
        buffer_words: words,
    }
}

fn socket(port: &mut Port, index: u32) -> (Sock, ConsumerRegistry) {
    let extra = port.extra_buffers_indexes();
    let (ctx, _producer, consumer, registry) = Ctx::new(&extra, index);
    let sock = Sock { tx: Transmitter::new(port), rx: Receiver::new(port), ctx, consumer };
    (sock, registry)
}

/// What the switch does: the slot the sender filled is copied into the next
/// RX slot of the receiver.
fn wire(from: &Port, from_bufs: &[u8], to: &mut Port, to_bufs: &mut [u8]) {
    let tx = &from.tx_rings[0];
    let sent = tx.slot[((tx.head + 7) % 8) as usize].inner;
    let rx = &mut to.rx_rings[0];
    let k = rx.tail as usize;
    let dst = rx.slot[k].inner.buf_idx as usize * BUF_SIZE as usize;
    let src = sent.buf_idx as usize * BUF_SIZE as usize;
    to_bufs[dst..dst + BUF_SIZE as usize].copy_from_slice(&from_bufs[src..src + BUF_SIZE as usize]);
    rx.slot[k].inner.len = sent.len;
    rx.tail = (rx.tail + 1) % 8;
}

#[test]
fn mod_test_send_with_flush() {
    let mut port0 = port();
    let mut port1 = port();
    let mut bufs0 = vec![0u8; 64 * BUF_SIZE as usize];
    let mut bufs1 = vec![0u8; 64 * BUF_SIZE as usize];
    let (mut socket0, mut reg0) = socket(&mut port0, 0);
    let (mut socket1, _reg1) = socket(&mut port1, 1);
    socket1.send(&mut port1, &mut bufs1, b"Helloworldmyfriend\0\0\0\0\0\0\0").unwrap();
    wire(&port1, &bufs1, &mut port0, &mut bufs0);
    let (token, _meta) = socket0.recv_token(&mut port0, &mut reg0).unwrap();
    let start = token.idx.0 * BUF_SIZE as usize;
    let packet = &bufs0[start..start + token.len as usize];
    assert_eq!(&packet[..20], b"Helloworldmyfriend\0\0");
}

#[test]
fn extra_buffers_follow_the_chain() {
    let mut p = port();
    let extra = p.extra_buffers_indexes();
    assert_eq!(extra, (17..49).collect::<Vec<u32>>());
    assert_eq!(p.ni_bufs_head, 0);
}

#[test]
fn receiving_swaps_a_free_buffer_into_the_slot() {
    let mut p = port();
    let (mut sock, mut reg) = socket(&mut p, 7);
    p.rx_rings[0].slot[0].inner.len = 42;
    p.rx_rings[0].tail = 1;
    let (token, _) = sock.recv_token(&mut p, &mut reg).unwrap();
    assert_eq!(token, Token { idx: BufferDesc(9), len: 42, buffer_pool: 7 });
    let slot = p.rx_rings[0].slot[0].inner;
    assert_eq!(slot.flags & NS_BUF_CHANGED, NS_BUF_CHANGED);
    // The consumer hands out the last extra buffer of the last whole group.
    assert_eq!(slot.buf_idx, 48);
    assert_eq!(p.rx_rings[0].head, 1);
    assert_eq!(sock.recv_token(&mut p, &mut reg), Err(Error::NoPacket));
}

#[test]
fn sending_copies_into_the_slot_buffer_and_clears_its_flags() {
    let mut p = port();
    let mut bufs = vec![0u8; 64 * BUF_SIZE as usize];
    p.tx_rings[0].slot[0].inner.flags = 3;
    let (mut sock, _reg) = socket(&mut p, 1);
    sock.send(&mut p, &mut bufs, b"xyz").unwrap();
    assert_eq!(&bufs[64..67], b"xyz");
    assert_eq!(p.tx_rings[0].slot[0].inner.flags, 0);
    assert_eq!(p.tx_rings[0].head, 1);
    let big = vec![1u8; 65];
    assert_eq!(sock.send(&mut p, &mut bufs, &big), Err(Error::TooBigPacket(65)));
    assert_eq!(p.tx_rings[0].head, 2);
}

#[test]
fn sending_on_full_rings_runs_out_of_memory() {
    let mut p = port();
    p.tx_rings[0].tail = 0;
    let mut bufs = vec![0u8; 64 * BUF_SIZE as usize];
    let (mut sock, _reg) = socket(&mut p, 1);
    assert_eq!(sock.send(&mut p, &mut bufs, b"a"), Err(Error::NoMemory));
}

#[test]
fn the_channel_holds_the_extra_buffers_in_order() {
    let extra: Vec<u32> = (100..120).collect();
    let (ctx, producer, mut consumer, mut registry) = Ctx::new(&extra, 3);
    assert_eq!(ctx.index, 3);
    assert_eq!(producer.local_batch.len(), 4);
    let mut popped = Vec::new();
    while let Some(x) = consumer.pop(&mut registry) {
        popped.push(x);
    }
    assert_eq!(popped, (100..116).rev().collect::<Vec<usize>>());
}

#[test]
fn port_ring_lookups() {
    let p = port();
    assert_eq!(p.tx_ring_at(0), Some(0));
    assert_eq!(p.tx_ring_at(1), None);
    assert_eq!(p.rx_ring_at(0), Some(0));
    assert_eq!(p.tx_rings_offsets(), vec![100]);
    assert_eq!(p.rx_rings_offsets(), vec![200]);
    assert_eq!(p.buffer(3), (4096 + 3 * 64, 64));
}

#[test]
fn a_port_is_allocated_once() {
    let mut ports = AllocatedPorts::new();
    assert!(allocate_port(&mut ports, b"vale0:0"));
    assert!(allocate_port(&mut ports, b"vale0:1"));
    assert!(!allocate_port(&mut ports, b"vale0:0"));
    assert_eq!(ports.names.len(), 2);
}

#[test]
fn ring_iteration_of_the_first_binding() {
    let r = Ring {
        ring: ring(0, 5, 6, 1),
        interface: Interface { ni_tx_rings: 1, ni_rx_rings: 1, ni_host_tx_rings: 0, ring_ofs: vec![0, 0] },
    };
    let mut it = r.iter();
    let (slot, off, size) = it.next().unwrap();
    assert_eq!(slot.inner.buf_idx, 11);
    assert_eq!(off, 4096 + 11 * 64);
    assert_eq!(size, 64);
    let (slot, _, _) = it.next().unwrap();
    assert_eq!(slot.inner.buf_idx, 12);
    assert_eq!(it.ring.ring.head, 0);
    let (slot, _, _) = it.next().unwrap();
    assert_eq!(slot.inner.buf_idx, 5);
    assert!(it.next().is_none());
}
