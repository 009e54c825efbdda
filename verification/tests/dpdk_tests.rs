use nethuns_rs::api::{BufferDesc, Token};
use nethuns_rs::dpdk::wrapper::{resultify, Receiver, Transmitter, TxNext, BURST_SIZE};
use nethuns_rs::dpdk::{Ctx, MBuf, Sock};
use nethuns_rs::errors::{Error, OsError};

fn mbuf(len: u16) -> MBuf {
    MBuf { buf_len: len, data_off: 128, data_len: 0, pkt_len: 0, data: vec![0u8; len as usize] }
}

#[test]
fn dpdk_test_send_with_flush() {
    let (ctx0, _p0, c0, _r0) = Ctx::new(8192, 0);
    let (ctx1, _p1, c1, _r1) = Ctx::new(8192, 1);
    let bufs: Vec<usize> = (1..=32).collect();
    let socket0 = Sock::new(Transmitter::new(bufs.clone(), 0, 0), Receiver::new(0, 0), ctx0, c0);
    let mut socket1 = Sock::new(Transmitter::new(bufs, 1, 0), Receiver::new(1, 0), ctx1, c1);
    let mut mbufs: Vec<MBuf> = (0..=32).map(|_| mbuf(2176)).collect();
    // Sending: a free mbuf is filled and joins the ready list.
    let m = match socket1.tx.advance() {
        TxNext::Buf(m) => m,
        other => panic!("no buffer: {:?}", other),
    };
    socket1.send_inner(&mut mbufs[m], b"Helloworldmyfriend\0\0\0\0\0\0\0").unwrap();
    socket1.tx.ready(m);
    // Flushing: the device takes the ready mbuf.
    let sent = socket1.tx.ready_bufs.clone();
    socket1.tx.flush(sent.len());
    assert_eq!(socket1.tx.ready_bufs.len(), 0);
    // Receiving: the other port's burst brings it.
    let mut rx = socket0.rx;
    let got = rx.burst_done(&sent).unwrap();
    let (token, _meta) = socket0_recv(&socket0.ctx, got, mbufs[got].data_len);
    assert_eq!(token.idx, BufferDesc(m));
    let packet = &mbufs[token.idx.0].data[..token.len as usize];
    assert_eq!(&packet[..20], b"Helloworldmyfriend\0\0");
}

fn socket0_recv(ctx: &Ctx, buf: usize, len: u16) -> (Token, nethuns_rs::dpdk::Meta) {
    let s = Sock::new(Transmitter::new((1..=32).collect(), 0, 0), Receiver::new(0, 0), *ctx,
        nethuns_rs::mpsc::channel(1).1);
    s.recv_inner(buf, len).unwrap()
}

#[test]
fn receiver_hands_out_a_burst_in_order() {
    let mut rx = Receiver::new(0, 0);
    assert_eq!(rx.advance(), None);
    assert_eq!(rx.burst_done(&[10, 20, 30]), Some(10));
    assert_eq!(rx.advance(), Some(20));
    assert_eq!(rx.advance(), Some(30));
    assert_eq!(rx.advance(), None);
    assert_eq!(rx.burst_done(&[]), None);
}

#[test]
fn transmitter_asks_for_a_flush_when_the_ready_list_is_full() {
    let mut tx = Transmitter::new((1..=32).collect(), 0, 0);
    for k in 0..BURST_SIZE as usize {
        match tx.advance() {
            TxNext::Buf(m) => {
                assert_eq!(m, 32 - k);
                tx.ready(m);
            },
            other => panic!("unexpected {:?}", other),
        }
    }
    assert_eq!(tx.advance(), TxNext::Flush);
    tx.flush(20);
    assert_eq!(tx.ready_bufs.len(), 12);
    assert_eq!(tx.can_ask(), 20);
    assert_eq!(tx.refilled(Some((100..120).collect())), Some(119));
    assert_eq!(tx.bufs.len(), 19);
    let mut tx2 = Transmitter::new((1..=32).collect(), 0, 0);
    while let TxNext::Buf(m) = tx2.advance() {
        tx2.ready(m);
    }
    tx2.flush(32);
    assert_eq!(tx2.refilled(None), None);
    assert_eq!(tx2.advance(), TxNext::Empty);
}

#[test]
fn sending_refuses_packets_longer_than_the_buffer() {
    let (ctx, _p, c, _r) = Ctx::new(4, 0);
    let s = Sock::new(Transmitter::new((1..=32).collect(), 0, 0), Receiver::new(0, 0), ctx, c);
    let mut m = mbuf(4);
    assert_eq!(s.send_inner(&mut m, b"12345"), Err(Error::TooBigPacket(5)));
    assert_eq!(m.data_off, 128);
    assert_eq!(s.send_inner(&mut m, b"12"), Ok(()));
    assert_eq!(m.data, vec![b'1', b'2', 0, 0]);
    assert_eq!((m.data_off, m.data_len, m.pkt_len), (0, 2, 2));
    // A packet longer than any mbuf is refused with its whole length.
    let big = vec![7u8; 65536 + 2];
    assert_eq!(s.send_inner(&mut m, &big), Err(Error::TooBigPacket(65538)));
}

#[test]
fn freed_mbufs_come_from_the_channel() {
    let (ctx, mut p, c, mut r) = Ctx::new(4, 9);
    let mut s = Sock::new(Transmitter::new((1..=32).collect(), 0, 0), Receiver::new(0, 0), ctx, c);
    for i in 0..16usize {
        p.push(&mut r, 1000 + i);
    }
    p.flush(&mut r);
    let freed = s.flush_to_memory_pool(&mut r);
    assert_eq!(freed, (1000..1016).collect::<Vec<usize>>());
    assert_eq!(s.consumer.available_len(), 0);
    assert_eq!(s.flush_to_memory_pool(&mut r), Vec::<usize>::new());
}

#[test]
fn dpdk_results() {
    assert_eq!(resultify(3), Ok(3));
    assert_eq!(resultify(-1), Err(OsError(1)));
}
