use nethuns_rs::api::buffer::BufferDesc;
use nethuns_rs::api::context::Context;
use nethuns_rs::api::token::Token;
use nethuns_rs::pcap::{
    capture_format, classify_portspec, copy_len, decode_enhanced_timestamp, take_record, Meta, PcapContext, PcapFlags,
    PcapFormat, PcapRecord, Sock, Timeval,
};
use nethuns_rs::errors::{Error, PcapFailure};

#[test]
fn microsecond_timestamps() {
    // 1_700_000_000.123456 s in microseconds.
    let raw: u64 = 1_700_000_000_123_456;
    let t = decode_enhanced_timestamp((raw >> 32) as u32, raw as u32);
    assert_eq!(t, Timeval { tv_sec: 1_700_000_000, tv_usec: 123_456 });
}

#[test]
fn nanosecond_timestamps() {
    // 1_700_000_000.123456789 s in nanoseconds.
    let raw: u64 = 1_700_000_000_123_456_789;
    let t = decode_enhanced_timestamp((raw >> 32) as u32, raw as u32);
    assert_eq!(t, Timeval { tv_sec: 1_700_000_000, tv_usec: 123_456 });
}

#[test]
fn the_threshold_itself_is_nanoseconds() {
    let raw: u64 = 10_000_000_000_000_000;
    let t = decode_enhanced_timestamp((raw >> 32) as u32, raw as u32);
    assert_eq!(t, Timeval { tv_sec: 10_000_000, tv_usec: 0 });
}

#[test]
fn legacy_records_are_copied_and_truncated() {
    let mut buf = vec![0u8; 4];
    let rec = PcapRecord::Legacy { ts_sec: 5, ts_usec: 6, origlen: 100, data: vec![1, 2, 3, 4, 5, 6] };
    let (n, meta) = take_record(&rec, &mut buf).unwrap();
    assert_eq!(n, 4);
    assert_eq!(buf, vec![1, 2, 3, 4]);
    assert_eq!(meta, Meta { timestamp: Timeval { tv_sec: 5, tv_usec: 6 }, len: 100, caplen: 6 });
}

#[test]
fn short_records_leave_the_rest_of_the_buffer() {
    let mut buf = vec![9u8; 5];
    let rec = PcapRecord::Simple { origlen: 2, data: vec![1, 2] };
    let (n, meta) = take_record(&rec, &mut buf).unwrap();
    assert_eq!(n, 2);
    assert_eq!(buf, vec![1, 2, 9, 9, 9]);
    assert_eq!(meta.timestamp, Timeval { tv_sec: 0, tv_usec: 0 });
    assert_eq!(meta.len, 2);
}

#[test]
fn enhanced_records_decode_their_timestamp() {
    let mut buf = vec![0u8; 8];
    let rec = PcapRecord::Enhanced { ts_high: 0, ts_low: 2_500_000, origlen: 3, data: vec![7, 8, 9] };
    let (n, meta) = take_record(&rec, &mut buf).unwrap();
    assert_eq!(n, 3);
    assert_eq!(meta.timestamp, Timeval { tv_sec: 2, tv_usec: 500_000 });
    assert_eq!(meta.caplen, 3);
}

#[test]
fn other_blocks_are_skipped() {
    let mut buf = vec![3u8; 2];
    assert_eq!(take_record(&PcapRecord::Other, &mut buf), None);
    assert_eq!(buf, vec![3, 3]);
}

#[test]
fn port_specifications_naming_files() {
    assert_eq!(classify_portspec(b"file:/tmp/x"), (true, 5));
    assert_eq!(classify_portspec(b"/tmp/trace.pcap"), (true, 0));
    assert_eq!(classify_portspec(b"trace.pcapng"), (true, 0));
    assert_eq!(classify_portspec(b"eth0"), (false, 0));
    assert_eq!(classify_portspec(b""), (false, 0));
}

#[test]
fn copy_length_is_the_smaller() {
    assert_eq!(copy_len(10, 4), 4);
    assert_eq!(copy_len(3, 4), 3);
}

#[test]
fn default_flags() {
    let f = PcapFlags::default();
    assert_eq!(f.snaplen, 65535);
    assert!(f.promiscuous);
    assert_eq!(f.timeout_ms, 1);
    assert!(f.immediate);
    assert!(f.filter.is_none());
    assert_eq!(f.buffer_size, 2048);
    assert_eq!(f.buffer_count, 32);
}

fn small_flags(count: usize) -> PcapFlags {
    let mut f = PcapFlags::default();
    f.buffer_size = 8;
    f.buffer_count = count;
    f
}

#[test]
fn a_new_socket_has_all_buffers_free_in_order() {
    let mut s = Sock::new(7, &small_flags(3));
    assert_eq!(s.ctx.pool_id(), 7);
    assert_eq!(s.ctx.buffer_size(), 8);
    assert_eq!(s.buffers.len(), 3);
    assert!(s.buffers.iter().all(|b| b == &vec![0u8; 8]));
    assert_eq!(s.acquire_buffer(), 0);
    assert_eq!(s.acquire_buffer(), 1);
    assert_eq!(s.acquire_buffer(), 2);
}

#[test]
fn an_empty_pool_allocates_a_new_buffer() {
    let mut s = Sock::new(1, &small_flags(1));
    assert_eq!(s.acquire_buffer(), 0);
    assert_eq!(s.acquire_buffer(), 1);
    assert_eq!(s.buffers.len(), 2);
    assert_eq!(s.buffers[1], vec![0u8; 8]);
}

#[test]
fn released_buffers_come_back_in_order() {
    let mut s = Sock::new(1, &small_flags(2));
    let a = s.acquire_buffer();
    let b = s.acquire_buffer();
    s.ctx.release(BufferDesc(b));
    s.ctx.release(BufferDesc(a));
    assert_eq!(s.acquire_buffer(), b);
    assert_eq!(s.acquire_buffer(), a);
}

#[test]
fn a_full_pool_drops_the_released_buffer() {
    let mut ctx = PcapContext::new(3, 16, 1);
    // The pool already holds buffer 0, its one slot.
    ctx.release(BufferDesc(5));
    let mut s = Sock { ctx, buffers: vec![vec![0u8; 16]] };
    assert_eq!(s.acquire_buffer(), 0);
    // Buffer 5 was dropped: the next buffer is a new one.
    assert_eq!(s.acquire_buffer(), 1);
}

#[test]
fn filling_a_buffer_gives_its_token() {
    let mut s = Sock::new(9, &small_flags(2));
    let idx = s.acquire_buffer();
    let rec = PcapRecord::Simple { origlen: 60, data: vec![1, 2, 3] };
    let (token, meta) = s.fill(idx, &rec).unwrap();
    assert_eq!(token, Token::new(BufferDesc(idx), 9, 3));
    assert_eq!(meta, Meta { timestamp: Timeval { tv_sec: 0, tv_usec: 0 }, len: 60, caplen: 3 });
    assert_eq!(s.buffers[idx], vec![1, 2, 3, 0, 0, 0, 0, 0]);
    assert_eq!(s.buffers[1 - idx], vec![0u8; 8]);
}

#[test]
fn filling_with_another_block_changes_nothing() {
    let mut s = Sock::new(9, &small_flags(1));
    let idx = s.acquire_buffer();
    assert!(s.fill(idx, &PcapRecord::Other).is_none());
    assert_eq!(s.buffers[idx], vec![0u8; 8]);
}

fn le32(v: &mut Vec<u8>, x: u32) {
    v.extend_from_slice(&x.to_le_bytes());
}

fn legacy_capture() -> Vec<u8> {
    let mut v = Vec::new();
    le32(&mut v, 0xa1b2_c3d4);
    v.extend_from_slice(&2u16.to_le_bytes());
    v.extend_from_slice(&4u16.to_le_bytes());
    le32(&mut v, 0);
    le32(&mut v, 0);
    le32(&mut v, 65535);
    le32(&mut v, 1);
    // One record: 3 bytes captured of 60.
    le32(&mut v, 100);
    le32(&mut v, 7);
    le32(&mut v, 3);
    le32(&mut v, 60);
    v.extend_from_slice(&[9, 8, 7]);
    v
}

fn ng_capture() -> Vec<u8> {
    let mut v = Vec::new();
    // Section header block.
    le32(&mut v, 0x0A0D_0D0A);
    le32(&mut v, 28);
    le32(&mut v, 0x1A2B_3C4D);
    v.extend_from_slice(&1u16.to_le_bytes());
    v.extend_from_slice(&0u16.to_le_bytes());
    v.extend_from_slice(&(-1i64).to_le_bytes());
    le32(&mut v, 28);
    // Interface description block.
    le32(&mut v, 1);
    le32(&mut v, 20);
    v.extend_from_slice(&1u16.to_le_bytes());
    v.extend_from_slice(&0u16.to_le_bytes());
    le32(&mut v, 65535);
    le32(&mut v, 20);
    // Enhanced packet block with 4 bytes of data.
    le32(&mut v, 6);
    le32(&mut v, 36);
    le32(&mut v, 0);
    le32(&mut v, 0);
    le32(&mut v, 1_000_000);
    le32(&mut v, 4);
    le32(&mut v, 4);
    v.extend_from_slice(&[1, 2, 3, 4]);
    le32(&mut v, 36);
    v
}

#[test]
fn legacy_captures_start_after_their_header() {
    let bytes = legacy_capture();
    assert_eq!(capture_format(&bytes), Ok((PcapFormat::Legacy, 24)));
    let mut s = Sock::new(2, &small_flags(1));
    let idx = s.acquire_buffer();
    let mut format = PcapFormat::Legacy;
    let (used, r) = s.next_packet_offline(idx, &mut format, &bytes[24..]);
    assert_eq!(used, 19);
    let (token, meta) = r.unwrap();
    assert_eq!(token, Token::new(BufferDesc(idx), 2, 3));
    assert_eq!(meta, Meta { timestamp: Timeval { tv_sec: 100, tv_usec: 7 }, len: 60, caplen: 3 });
    assert_eq!(s.buffers[idx], vec![9, 8, 7, 0, 0, 0, 0, 0]);
    // Nothing is left.
    let (used, r) = s.next_packet_offline(idx, &mut format, &bytes[24 + 19..]);
    assert_eq!(used, 0);
    assert_eq!(r, Err(Error::Pcap(PcapFailure::NoMorePackets)));
}

#[test]
fn pcapng_headers_are_skipped() {
    let bytes = ng_capture();
    assert_eq!(capture_format(&bytes), Ok((PcapFormat::Ng, 0)));
    let mut s = Sock::new(2, &small_flags(1));
    let idx = s.acquire_buffer();
    let mut format = PcapFormat::Ng;
    let (used, r) = s.next_packet_offline(idx, &mut format, &bytes);
    assert_eq!(used, bytes.len());
    assert_eq!(format, PcapFormat::Ng);
    let (token, meta) = r.unwrap();
    assert_eq!(token.size(), 4);
    assert_eq!(meta, Meta { timestamp: Timeval { tv_sec: 1, tv_usec: 0 }, len: 4, caplen: 4 });
    assert_eq!(&s.buffers[idx][..4], &[1, 2, 3, 4]);
}

#[test]
fn a_truncated_block_is_incomplete_and_leaves_the_buffer() {
    let bytes = legacy_capture();
    let mut s = Sock::new(2, &small_flags(1));
    let idx = s.acquire_buffer();
    let mut format = PcapFormat::Legacy;
    let (used, r) = s.next_packet_offline(idx, &mut format, &bytes[24..bytes.len() - 1]);
    assert_eq!(used, 0);
    assert_eq!(r, Err(Error::Pcap(PcapFailure::Incomplete)));
    assert_eq!(s.buffers[idx], vec![0u8; 8]);
}

#[test]
fn unknown_bytes_are_no_capture() {
    assert_eq!(capture_format(&[0u8; 32]), Err(Error::Pcap(PcapFailure::Malformed)));
    assert_eq!(capture_format(&[0xd4u8, 0xc3]), Err(Error::Pcap(PcapFailure::Incomplete)));
}

#[test]
fn a_process_block_shorter_than_its_frame_is_malformed() {
    let mut s = Sock::new(2, &small_flags(1));
    let idx = s.acquire_buffer();
    let mut format = PcapFormat::Ng;
    let le = [0x01u8, 0, 0, 0x80, 8, 0, 0, 0, 0, 0, 0, 0];
    let (used, r) = s.next_packet_offline(idx, &mut format, &le);
    assert_eq!(used, 0);
    assert_eq!(r, Err(Error::Pcap(PcapFailure::Malformed)));
    let mut format = PcapFormat::NgBigEndian;
    let be = [0x80u8, 0, 0, 0x01, 0, 0, 0, 4, 0, 0, 0, 0];
    let (_, r) = s.next_packet_offline(idx, &mut format, &be);
    assert_eq!(r, Err(Error::Pcap(PcapFailure::Malformed)));
    assert_eq!(s.buffers[idx], vec![0u8; 8]);
}

#[test]
fn receiving_takes_a_buffer_and_gives_it_back_when_nothing_comes() {
    let bytes = legacy_capture();
    let mut s = Sock::new(5, &small_flags(2));
    let mut format = PcapFormat::Legacy;
    let (used, r) = s.recv_token(&mut format, &bytes[24..]);
    assert_eq!(used, 19);
    let (token, _) = r.unwrap();
    assert_eq!(token, Token::new(BufferDesc(0), 5, 3));
    let (used, r) = s.recv_token(&mut format, &bytes[24 + 19..]);
    assert_eq!(used, 0);
    assert_eq!(r, Err(Error::Pcap(PcapFailure::NoMorePackets)));
    // Buffer 1 was taken and given back: it is free again, after buffer 0's turn.
    s.ctx.release(token.buffer_desc());
    assert_eq!(s.acquire_buffer(), 1);
    assert_eq!(s.acquire_buffer(), 0);
}
