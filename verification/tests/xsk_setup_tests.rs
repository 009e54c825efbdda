use nethuns_rs::af_xdp::compat::{
    xsk_netns_cookie, xsk_socket_plan, XskSocketOpts, XskUmemInfo, ENOPROTOOPT, XSK_LIBXDP_FLAGS_INHIBIT_PROG_LOAD,
};

fn opts(has_fill: bool, libxdp_flags: u32) -> XskSocketOpts {
    XskSocketOpts {
        has_rx: true,
        has_tx: true,
        has_fill,
        has_comp: has_fill,
        rx_size: 0,
        tx_size: 0,
        libxdp_flags,
        xdp_flags: 0,
        bind_flags: 0,
    }
}

fn umem(refcount: i32) -> XskUmemInfo {
    XskUmemInfo {
        fd: 7,
        refcount,
        rx_ring_setup_done: true,
        tx_ring_setup_done: false,
        has_fill_save: true,
        has_comp_save: true,
    }
}

#[test]
fn the_first_socket_works_on_the_umem_descriptor() {
    let p = xsk_socket_plan(&opts(false, 0), &umem(0));
    assert!(p.use_umem_rings);
    assert!(p.reuse_umem_fd);
    // The RX ring is already set up on the UMEM's descriptor.
    assert!(!p.setup_rx);
    assert!(p.setup_tx);
    assert!(p.load_prog);
    let mut u = umem(0);
    u.record_socket(&p);
    assert!(u.rx_ring_setup_done && u.tx_ring_setup_done);
    assert!(!u.has_fill_save && !u.has_comp_save);
}

#[test]
fn later_sockets_open_their_own() {
    let p = xsk_socket_plan(&opts(true, XSK_LIBXDP_FLAGS_INHIBIT_PROG_LOAD), &umem(1));
    assert!(!p.use_umem_rings);
    assert!(!p.reuse_umem_fd);
    assert!(p.setup_rx && p.setup_tx);
    assert!(!p.load_prog);
    let mut u = umem(1);
    u.record_socket(&p);
    assert!(!u.tx_ring_setup_done);
}

#[test]
fn the_netns_cookie_falls_back_to_one() {
    assert_eq!(xsk_netns_cookie(0, 0, 42), Some(42));
    assert_eq!(xsk_netns_cookie(-1, ENOPROTOOPT, 42), Some(1));
    assert_eq!(xsk_netns_cookie(-1, 13, 42), None);
}
