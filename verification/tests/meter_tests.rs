use nethuns_rs::errors::Error;
use nethuns_rs::meter::{frame_ip_addrs, ip_addrs, socket_portspec, IpPair};

fn ethernet(ethertype: [u8; 2], payload: &[u8]) -> Vec<u8> {
    let mut f = vec![0u8; 12];
    f.extend_from_slice(&ethertype);
    f.extend_from_slice(payload);
    f
}

fn ipv4_header() -> Vec<u8> {
    vec![0x45, 0, 0, 20, 0, 0, 0, 0, 64, 253, 0, 0, 10, 0, 0, 1, 10, 0, 0, 2]
}

#[test]
fn ipv4_frames_give_their_addresses() {
    let frame = ethernet([0x08, 0x00], &ipv4_header());
    let want = IpPair::V4 { source: [10, 0, 0, 1], destination: [10, 0, 0, 2] };
    assert_eq!(frame_ip_addrs(&frame), Ok(Some(want)));
    assert_eq!(ip_addrs(&frame), Some(want));
}

#[test]
fn frames_without_ip_give_none() {
    let frame = ethernet([0x88, 0xb5], &[1, 2, 3, 4]);
    assert_eq!(frame_ip_addrs(&frame), Ok(None));
}

#[test]
fn unreadable_frames_are_an_error() {
    assert_eq!(frame_ip_addrs(&[1, 2, 3]), Err(Error::Unknown));
}

#[test]
fn sockets_are_named_after_the_interface() {
    assert_eq!(socket_portspec(b"eth0", 1, 0), b"eth0".to_vec());
    assert_eq!(socket_portspec(b"eth0", 4, 3), b"eth0:3".to_vec());
    assert_eq!(socket_portspec(b"vale0", 20, 12), b"vale0:12".to_vec());
}
