use nethuns_rs::af_xdp::compat::xsk_shared_socket_opts;
use nethuns_rs::af_xdp::compat::{
    ring_map_len, xsk_bind_address, xsk_cons_nb_avail, xsk_get_mmap_offsets, xsk_mmap_offsets_v1,
    xsk_prod_nb_free, xsk_ring_cons__peek, xsk_ring_cons__read, xsk_ring_cons__release,
    xsk_ring_prod__reserve, xsk_ring_prod__submit, xsk_ring_prod__write, xsk_set_xdp_socket_config,
    xsk_socket_opts_usable, ActiveCtx, CtxIdent, XdpMmapOffsets, XdpRingOffset, XskRingCons,
    XskRingProd, XskShared, XskSocketConfig, XskSocketOpts, EINVAL, PF_XDP, XDP_SHARED_UMEM,
};

fn offsets(base: u64) -> XdpRingOffset {
    XdpRingOffset { producer: base, consumer: base + 64, desc: base + 128, flags: 7 }
}

#[test]
fn ring_entries_come_out_in_the_order_they_went_in() {
    let mut s: XskShared<u64> = XskShared::new(8, 0);
    let mut p = XskRingProd::attach(&s);
    let mut c = XskRingCons::attach(&s);
    let mut idx = 0u32;
    assert_eq!(xsk_ring_prod__reserve(&mut p, &s, 3, &mut idx), 3);
    assert_eq!(idx, 0);
    for i in 0..3u32 {
        xsk_ring_prod__write(&p, &mut s, idx + i, 100 + i as u64);
    }
    xsk_ring_prod__submit(&p, &mut s, 3);
    assert_eq!(s.producer, 3);
    let mut cidx = 99u32;
    assert_eq!(xsk_ring_cons__peek(&mut c, &s, 8, &mut cidx), 3);
    assert_eq!(cidx, 0);
    assert_eq!(xsk_ring_cons__read(&c, &s, cidx), 100);
    assert_eq!(xsk_ring_cons__read(&c, &s, cidx + 1), 101);
    assert_eq!(xsk_ring_cons__read(&c, &s, cidx + 2), 102);
    xsk_ring_cons__release(&c, &mut s, 3);
    assert_eq!(s.consumer, 3);
}

#[test]
fn a_full_ring_reserves_nothing_until_the_consumer_moves() {
    let mut s: XskShared<u64> = XskShared::new(4, 0);
    let mut p = XskRingProd::attach(&s);
    let mut idx = 0u32;
    assert_eq!(xsk_ring_prod__reserve(&mut p, &s, 4, &mut idx), 4);
    assert_eq!(xsk_ring_prod__reserve(&mut p, &s, 1, &mut idx), 0);
    assert_eq!(idx, 0);
    assert_eq!(xsk_prod_nb_free(&mut p, &s, 1), 0);
    xsk_ring_prod__submit(&p, &mut s, 4);
    // The other party releases two entries.
    s.consumer = 2;
    assert_eq!(xsk_prod_nb_free(&mut p, &s, 1), 2);
    assert_eq!(xsk_ring_prod__reserve(&mut p, &s, 2, &mut idx), 2);
    assert_eq!(idx, 4);
}

#[test]
fn reserving_more_than_the_ring_holds_fails() {
    let s: XskShared<u64> = XskShared::new(8, 0);
    let mut p = XskRingProd::attach(&s);
    let mut idx = 5u32;
    assert_eq!(xsk_ring_prod__reserve(&mut p, &s, 9, &mut idx), 0);
    assert_eq!(idx, 5);
    assert_eq!(p.cached_prod, 0);
}

#[test]
fn counters_wrap_around() {
    let mut s: XskShared<u64> = XskShared::new(4, 0);
    s.producer = u32::MAX - 1;
    s.consumer = u32::MAX - 1;
    let mut p = XskRingProd::attach(&s);
    let mut c = XskRingCons::attach(&s);
    assert_eq!(p.cached_cons, 2);
    let mut idx = 0u32;
    assert_eq!(xsk_ring_prod__reserve(&mut p, &s, 4, &mut idx), 4);
    assert_eq!(idx, u32::MAX - 1);
    for i in 0..4u32 {
        xsk_ring_prod__write(&p, &mut s, idx.wrapping_add(i), 10 * i as u64);
    }
    xsk_ring_prod__submit(&p, &mut s, 4);
    assert_eq!(s.producer, 2);
    let mut cidx = 0u32;
    assert_eq!(xsk_ring_cons__peek(&mut c, &s, 2, &mut cidx), 2);
    assert_eq!(xsk_ring_cons__read(&c, &s, cidx), 0);
    assert_eq!(xsk_ring_cons__read(&c, &s, cidx.wrapping_add(1)), 10);
    assert_eq!(xsk_ring_cons__peek(&mut c, &s, 8, &mut cidx), 2);
    assert_eq!(cidx, 0);
    assert_eq!(xsk_ring_cons__read(&c, &s, cidx), 20);
    assert_eq!(xsk_ring_cons__read(&c, &s, cidx + 1), 30);
    xsk_ring_cons__release(&c, &mut s, 4);
    assert_eq!(s.consumer, 2);
}

#[test]
fn consumer_sees_new_entries_only_when_its_cache_is_empty() {
    let mut s: XskShared<u64> = XskShared::new(8, 0);
    let mut c = XskRingCons::attach(&s);
    assert_eq!(xsk_cons_nb_avail(&mut c, &s, 4), 0);
    // The other party publishes five entries.
    s.producer = 5;
    assert_eq!(xsk_cons_nb_avail(&mut c, &s, 4), 4);
    assert_eq!(c.cached_prod, 5);
    let mut idx = 0u32;
    assert_eq!(xsk_ring_cons__peek(&mut c, &s, 3, &mut idx), 3);
    s.producer = 7;
    // Two cached entries are left, so the counter is not read again.
    assert_eq!(xsk_cons_nb_avail(&mut c, &s, 8), 2);
}

#[test]
fn old_kernel_offsets_move_to_their_places() {
    // What an old kernel writes: twelve words, three per ring.
    let words: [u64; 12] = [0, 8, 64, 100, 108, 164, 200, 208, 264, 300, 308, 364];
    let mut off = XdpMmapOffsets {
        rx: XdpRingOffset { producer: words[0], consumer: words[1], desc: words[2], flags: words[3] },
        tx: XdpRingOffset { producer: words[4], consumer: words[5], desc: words[6], flags: words[7] },
        fr: XdpRingOffset { producer: words[8], consumer: words[9], desc: words[10], flags: words[11] },
        cr: XdpRingOffset { producer: 0, consumer: 0, desc: 0, flags: 0 },
    };
    xsk_mmap_offsets_v1(&mut off);
    assert_eq!(off.rx, XdpRingOffset { producer: 0, consumer: 8, desc: 64, flags: 12 });
    assert_eq!(off.tx, XdpRingOffset { producer: 100, consumer: 108, desc: 164, flags: 112 });
    assert_eq!(off.fr, XdpRingOffset { producer: 200, consumer: 208, desc: 264, flags: 212 });
    assert_eq!(off.cr, XdpRingOffset { producer: 300, consumer: 308, desc: 364, flags: 312 });
}

#[test]
fn mmap_offsets_answer_by_length() {
    let base = XdpMmapOffsets { rx: offsets(0), tx: offsets(1000), fr: offsets(2000), cr: offsets(3000) };
    let mut off = base;
    assert_eq!(xsk_get_mmap_offsets(0, 128, &mut off), 0);
    assert_eq!(off, base);
    assert_eq!(xsk_get_mmap_offsets(0, 96, &mut off), 0);
    assert_eq!(off.tx.producer, base.rx.flags);
    let mut off2 = base;
    assert_eq!(xsk_get_mmap_offsets(0, 100, &mut off2), -EINVAL);
    assert_eq!(off2, base);
    assert_eq!(xsk_get_mmap_offsets(-1, 96, &mut off2), -1);
    assert_eq!(off2, base);
}

#[test]
fn socket_config_takes_defaults_and_refuses_unknown_flags() {
    let opts = XskSocketOpts {
        has_rx: true,
        has_tx: true,
        has_fill: false,
        has_comp: false,
        rx_size: 0,
        tx_size: 512,
        libxdp_flags: 1,
        xdp_flags: 2,
        bind_flags: 8,
    };
    let mut cfg = XskSocketConfig { rx_size: 1, tx_size: 1, libxdp_flags: 0, xdp_flags: 0, bind_flags: 0 };
    assert_eq!(xsk_set_xdp_socket_config(&mut cfg, &opts), 0);
    assert_eq!(cfg, XskSocketConfig { rx_size: 2048, tx_size: 512, libxdp_flags: 1, xdp_flags: 2, bind_flags: 8 });
    let bad = XskSocketOpts { libxdp_flags: 2, ..opts };
    let mut cfg2 = XskSocketConfig { rx_size: 1, tx_size: 1, libxdp_flags: 0, xdp_flags: 0, bind_flags: 0 };
    assert_eq!(xsk_set_xdp_socket_config(&mut cfg2, &bad), -22);
    assert_eq!(cfg2.rx_size, 1);
}

#[test]
fn socket_options_need_a_data_ring_and_matching_umem_rings() {
    let opts = XskSocketOpts {
        has_rx: true,
        has_tx: false,
        has_fill: true,
        has_comp: true,
        rx_size: 0,
        tx_size: 0,
        libxdp_flags: 0,
        xdp_flags: 0,
        bind_flags: 0,
    };
    assert!(xsk_socket_opts_usable(&opts, true));
    assert!(!xsk_socket_opts_usable(&opts, false));
    assert!(!xsk_socket_opts_usable(&XskSocketOpts { has_rx: false, ..opts }, true));
    assert!(!xsk_socket_opts_usable(&XskSocketOpts { has_comp: false, ..opts }, true));
    assert!(xsk_socket_opts_usable(&XskSocketOpts { has_fill: false, has_comp: false, ..opts }, true));
}

#[test]
fn bind_address_shares_the_umem_only_when_it_has_other_users() {
    let own = xsk_bind_address(3, 1, 1, 9, 4);
    assert_eq!(own.sxdp_family, PF_XDP);
    assert_eq!(own.sxdp_ifindex, 3);
    assert_eq!(own.sxdp_queue_id, 1);
    assert_eq!(own.sxdp_flags, 4);
    assert_eq!(own.sxdp_shared_umem_fd, 0);
    let shared = xsk_bind_address(3, 1, 2, 9, 4);
    assert_eq!(shared.sxdp_flags, XDP_SHARED_UMEM);
    assert_eq!(shared.sxdp_shared_umem_fd, 9);
}

#[test]
fn ring_mapping_length() {
    assert_eq!(ring_map_len(256, 2048, 16), Some(256 + 2048 * 16));
    assert_eq!(ring_map_len(128, 4, 8), Some(160));
    assert_eq!(ring_map_len(u64::MAX, 1, 8), None);
}

#[test]
fn a_context_is_claimed_once() {
    let mut active = ActiveCtx::new();
    let a = CtxIdent { netns_cookie: 1, ifindex: 2, queue_id: 0 };
    let b = CtxIdent { netns_cookie: 1, ifindex: 2, queue_id: 1 };
    assert!(active.claim(a));
    assert!(active.claim(b));
    assert!(!active.claim(a));
    assert_eq!(active.idents.len(), 2);
}

#[test]
fn shared_socket_options_from_the_user_configuration() {
    let none = xsk_shared_socket_opts(true, false, true, true, None);
    assert_eq!((none.rx_size, none.tx_size, none.bind_flags), (0, 0, 0));
    assert!(none.has_rx && !none.has_tx);
    let cfg = XskSocketConfig { rx_size: 64, tx_size: 32, libxdp_flags: 1, xdp_flags: 2, bind_flags: 3 };
    let some = xsk_shared_socket_opts(false, true, false, false, Some(cfg));
    assert_eq!((some.rx_size, some.tx_size, some.libxdp_flags, some.xdp_flags, some.bind_flags), (64, 32, 1, 2, 3));
}
