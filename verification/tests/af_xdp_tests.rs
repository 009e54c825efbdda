use nethuns_rs::af_xdp::compat::{XskRingCons, XskRingProd, XskShared};
use nethuns_rs::af_xdp::wrapper::{RxRing, TxRing, Umem, XdpDesc, XdpDescData};
use nethuns_rs::af_xdp::{
    complete_tx, resultify, seed_free_frames, Ctx, Sock, StatsRecord, UmemArea, UmemManager, XskMem,
    XskSocket,
};
use nethuns_rs::api::{BufferDesc, Token};
use nethuns_rs::errors::{Error, OsError};
use nethuns_rs::mpsc::consumer_registry::ConsumerRegistry;
use nethuns_rs::mpsc::{channel, Consumer, Producer};

const NO_DESC: XdpDesc = XdpDesc { addr: 0, len: 0, options: 0 };

/// A socket over fresh rings, with `num_frames` frames of `frame_size` bytes
/// seeded and the fill ring filled.
fn make_socket(index: u32, num_frames: u32, frame_size: u32, ring_size: u32) -> (Sock, XskMem, ConsumerRegistry) {
    let umem = UmemArea { size: (num_frames * frame_size) as usize };
    let (ctx, mut producer, consumer, mut registry) = Ctx::new(num_frames as usize, umem, index);
    seed_free_frames(&mut producer, &mut registry, num_frames, frame_size);
    let mut mem = XskMem {
        rx: XskShared::new(ring_size, NO_DESC),
        tx: XskShared::new(ring_size, NO_DESC),
        fill: XskShared::new(ring_size, 0),
        comp: XskShared::new(ring_size, 0),
        umem: vec![0u8; umem.size],
    };
    let rings = Umem::new(&mem.fill, &mem.comp);
    let mut manager = UmemManager::create_with_buffer(rings, consumer);
    manager.refill_fill_ring(&mut mem.fill, &mut registry).unwrap();
    let xsk = XskSocket {
        rx: RxRing::new(XskRingCons::attach(&mem.rx), &mem.rx),
        tx: TxRing::new(XskRingProd::attach(&mem.tx), &mem.tx),
    };
    let sock = Sock {
        ctx,
        xsk,
        outstanding_tx: 0,
        umem_manager: manager,
        producer,
        stats: StatsRecord::default(),
        prev_stats: StatsRecord::default(),
    };
    (sock, mem, registry)
}

/// What the kernel does with one packet: it takes the next TX descriptor of
/// `from`, copies the frame into a frame `to` put on its fill ring, publishes
/// an RX descriptor for it, and completes the TX frame.
fn wire(from: &mut XskMem, to: &mut XskMem) {
    let tx_mask = from.tx.ring.len() as u32 - 1;
    let desc = from.tx.ring[(from.tx.consumer & tx_mask) as usize];
    from.tx.consumer = from.tx.consumer.wrapping_add(1);
    let fill_mask = to.fill.ring.len() as u32 - 1;
    let frame = to.fill.ring[(to.fill.consumer & fill_mask) as usize];
    to.fill.consumer = to.fill.consumer.wrapping_add(1);
    let (src, dst, len) = (desc.addr as usize, frame as usize, desc.len as usize);
    let bytes: Vec<u8> = from.umem[src..src + len].to_vec();
    to.umem[dst..dst + len].copy_from_slice(&bytes);
    let rx_mask = to.rx.ring.len() as u32 - 1;
    to.rx.ring[(to.rx.producer & rx_mask) as usize] = XdpDesc { addr: frame, len: desc.len, options: 0 };
    to.rx.producer = to.rx.producer.wrapping_add(1);
    let comp_mask = from.comp.ring.len() as u32 - 1;
    from.comp.ring[(from.comp.producer & comp_mask) as usize] = desc.addr;
    from.comp.producer = from.comp.producer.wrapping_add(1);
}

#[test]
fn test_send_with_flush() {
    let (mut socket0, mut mem0, mut reg0) = make_socket(0, 4096 * 8, 4096, 2048);
    let (mut socket1, mut mem1, mut reg1) = make_socket(1, 4096 * 8, 4096, 2048);
    socket1.send(b"Helloworldmyfriend\0\0\0\0\0\0\0", &mut mem1, &mut reg1).unwrap();
    socket1.flush(&mut mem1, &mut reg1);
    wire(&mut mem1, &mut mem0);
    let (token, _meta) = socket0.recv_token(&mut mem0, &mut reg0).unwrap();
    let start = token.idx.0;
    let packet = &mem0.umem[start..start + token.len as usize];
    assert_eq!(&packet[..20], b"Helloworldmyfriend\0\0");
}

#[test]
fn received_descriptors_come_in_publication_order() {
    let (mut sock, mut mem, mut reg) = make_socket(3, 256, 2048, 64);
    for (i, len) in [60u32, 70, 80].iter().enumerate() {
        let slot = (mem.rx.producer & 63) as usize;
        mem.rx.ring[slot] = XdpDesc { addr: 2048 * i as u64, len: *len, options: 0 };
        mem.rx.producer += 1;
    }
    let (t0, _) = sock.recv_token(&mut mem, &mut reg).unwrap();
    let (t1, _) = sock.recv_token(&mut mem, &mut reg).unwrap();
    let (t2, _) = sock.recv_token(&mut mem, &mut reg).unwrap();
    assert_eq!(t0, Token { idx: BufferDesc(0), len: 60, buffer_pool: 3 });
    assert_eq!(t1, Token { idx: BufferDesc(2048), len: 70, buffer_pool: 3 });
    assert_eq!(t2, Token { idx: BufferDesc(4096), len: 80, buffer_pool: 3 });
    assert_eq!(sock.stats.rx_packets, 3);
    assert_eq!(sock.stats.rx_bytes, 210);
    assert_eq!(mem.rx.consumer, 3);
    assert_eq!(sock.recv_token(&mut mem, &mut reg), Err(Error::Other("No packets")));
}

#[test]
fn refill_hands_free_frames_to_the_fill_ring() {
    let (producer, consumer, mut registry): (Producer<BufferDesc>, Consumer<BufferDesc>, ConsumerRegistry) =
        channel(64);
    let mut producer = producer;
    seed_free_frames(&mut producer, &mut registry, 32, 1024);
    let mut fill: XskShared<u64> = XskShared::new(16, 0);
    let comp: XskShared<u64> = XskShared::new(16, 0);
    let mut manager = UmemManager::create_with_buffer(Umem::new(&fill, &comp), consumer);
    assert_eq!(manager.refill_fill_ring(&mut fill, &mut registry), Ok(()));
    // All sixteen entries got a frame: the last frames of the channel come first.
    assert_eq!(fill.producer, 16);
    assert_eq!(fill.ring[0], 31 * 1024);
    assert_eq!(fill.ring[15], 16 * 1024);
    // The ring is full: nothing more is published.
    assert_eq!(manager.refill_fill_ring(&mut fill, &mut registry), Ok(()));
    assert_eq!(fill.producer, 16);
    // The kernel took four entries; four more frames go in.
    fill.consumer = 4;
    assert_eq!(manager.refill_fill_ring(&mut fill, &mut registry), Ok(()));
    assert_eq!(fill.producer, 20);
    assert_eq!(fill.ring[0], 15 * 1024);
}

#[test]
fn refill_never_takes_more_frames_than_it_holds() {
    let (producer, consumer, mut registry): (Producer<BufferDesc>, Consumer<BufferDesc>, ConsumerRegistry) =
        channel(64);
    let mut producer = producer;
    seed_free_frames(&mut producer, &mut registry, 16, 1024);
    let mut fill: XskShared<u64> = XskShared::new(32, 0);
    let comp: XskShared<u64> = XskShared::new(32, 0);
    let mut manager = UmemManager::create_with_buffer(Umem::new(&fill, &comp), consumer);
    // Thirty-two entries are free but only sixteen frames are held: sixteen go in.
    assert_eq!(manager.refill_fill_ring(&mut fill, &mut registry), Ok(()));
    assert_eq!(fill.producer, 16);
    assert_eq!(fill.ring[0], 15 * 1024);
    assert_eq!(fill.ring[15], 0);
    assert_eq!(manager.consumer.available_len(), 0);
    // No frame is left: nothing more is published.
    assert_eq!(manager.refill_fill_ring(&mut fill, &mut registry), Ok(()));
    assert_eq!(fill.producer, 16);
}

#[test]
fn completed_frames_go_back_to_the_channel() {
    let (mut producer, mut consumer, mut registry): (Producer<BufferDesc>, Consumer<BufferDesc>, ConsumerRegistry) =
        channel(64);
    let fill: XskShared<u64> = XskShared::new(32, 0);
    let mut comp: XskShared<u64> = XskShared::new(32, 0);
    let mut umem = Umem::new(&fill, &comp);
    for i in 0..20u64 {
        comp.ring[i as usize] = 4096 * i;
    }
    comp.producer = 20;
    assert_eq!(complete_tx(&mut umem, &mut comp, &mut producer, &mut registry), Ok(()));
    assert_eq!(comp.consumer, 20);
    // Sixteen reached the queue; four wait in the producer's batch.
    assert_eq!(consumer.pop(&mut registry), Some(4096 * 15));
    assert_eq!(consumer.available_len(), 15);
    let mut seen = Vec::new();
    while let Some(x) = consumer.pop(&mut registry) {
        seen.push(x);
    }
    assert_eq!(seen.len(), 15);
    assert_eq!(seen[0], 4096 * 14);
    assert_eq!(seen[14], 0);
}

#[test]
fn sending_fills_a_frame_and_a_descriptor() {
    let (mut sock, mut mem, mut reg) = make_socket(5, 256, 2048, 64);
    sock.send(b"abc", &mut mem, &mut reg).unwrap();
    assert_eq!(sock.stats.tx_packets, 1);
    assert_eq!(sock.stats.tx_bytes, 3);
    assert_eq!(sock.xsk.tx.to_flush, 1);
    let desc = mem.tx.ring[0];
    assert_eq!(desc.len, 3);
    let a = desc.addr as usize;
    assert_eq!(&mem.umem[a..a + 3], b"abc");
    sock.flush(&mut mem, &mut reg);
    assert_eq!(mem.tx.producer, 1);
    assert_eq!(sock.xsk.tx.to_flush, 0);
}

#[test]
fn sending_without_free_frames_fails() {
    let (mut sock, mut mem, mut reg) = make_socket(6, 64, 2048, 64);
    // The fill ring took every frame.
    assert_eq!(sock.umem_manager.consumer.available_len(), 0);
    assert_eq!(sock.send(b"x", &mut mem, &mut reg), Err(Error::Other("No free frames for TX")));
}

#[test]
fn rx_ring_hands_out_descriptors_in_order() {
    let mut s: XskShared<XdpDesc> = XskShared::new(64, NO_DESC);
    for i in 0..40u32 {
        s.ring[i as usize] = XdpDesc { addr: i as u64, len: 100 + i, options: 0 };
    }
    s.producer = 40;
    let mut rx = RxRing::new(XskRingCons::attach(&s), &s);
    for i in 0..40u32 {
        assert_eq!(rx.advance(&mut s), Some(XdpDescData { offset: i as u64, len: 100 + i, options: 0 }));
    }
    assert_eq!(rx.advance(&mut s), None);
    assert_eq!(s.consumer, 40);
}

#[test]
fn tx_ring_reserves_in_batches_and_submits_on_sync() {
    let mut s: XskShared<XdpDesc> = XskShared::new(128, NO_DESC);
    let mut tx = TxRing::new(XskRingProd::attach(&s), &s);
    let first = tx.advance(&mut s).unwrap();
    assert_eq!(first.idx, 0);
    first.write(&tx, &mut s, XdpDesc { addr: 7, len: 8, options: 0 });
    let second = tx.advance(&mut s).unwrap();
    assert_eq!(second.idx, 1);
    assert_eq!(tx.cached.len(), 62);
    assert_eq!(s.producer, 0);
    tx.sync(&mut s);
    assert_eq!(s.producer, 2);
    assert_eq!(s.ring[0], XdpDesc { addr: 7, len: 8, options: 0 });
}

#[test]
fn resultify_splits_counts_and_errors() {
    assert_eq!(resultify(5), Ok(5));
    assert_eq!(resultify(0), Ok(0));
    assert_eq!(resultify(-11), Err(OsError(11)));
}

#[test]
fn seeding_puts_every_frame_in_the_channel() {
    let (mut producer, mut consumer, mut registry): (Producer<BufferDesc>, Consumer<BufferDesc>, ConsumerRegistry) =
        channel(8);
    seed_free_frames(&mut producer, &mut registry, 40, 100);
    let mut seen = Vec::new();
    while let Some(x) = consumer.pop(&mut registry) {
        seen.push(x);
    }
    // Two whole groups reached the queue; the other eight stay in the batch.
    assert_eq!(seen.len(), 32);
    seen.sort();
    assert_eq!(seen, (0..32).map(|i| i * 100).collect::<Vec<usize>>());
}
