use dnsd::addr::SockAddr;
use dnsd::memory::{write_all_into, MemoryState, Packet, PacketResult, RecvError};

fn v4(ip: u32, port: u16) -> SockAddr {
    SockAddr::V4 { ip, port }
}

fn pkt(local: SockAddr, remote: SockAddr, bytes: &[u8]) -> Packet {
    Packet::Udp { local_addr: local, remote_addr: remote, buffer: bytes.to_vec(), query: None }
}

#[test]
fn packets_are_read_in_arrival_order() {
    let a = v4(0x7f000001, 4000);
    let r1 = v4(0x01010101, 53);
    let r2 = v4(0x08080808, 53);
    let mut m = MemoryState::new();
    m.deliver(pkt(a, r1, b"first"));
    m.deliver(pkt(a, r2, b"second!"));
    assert_eq!(m.pending(a), 2);
    let mut buf = [0u8; 16];
    let got = m.recv_from(a, &mut buf).unwrap().unwrap();
    assert_eq!(got, (5, r1));
    assert_eq!(&buf[..5], b"first");
    let got = m.recv_from(a, &mut buf).unwrap().unwrap();
    assert_eq!(got, (7, r2));
    assert_eq!(&buf[..7], b"second!");
    assert!(m.recv_from(a, &mut buf).is_none());
}

#[test]
fn addresses_have_separate_queues() {
    let a = v4(1, 1);
    let b = v4(1, 2);
    let r = v4(9, 53);
    let mut m = MemoryState::new();
    m.deliver(pkt(b, r, b"for b"));
    assert_eq!(m.pending(a), 0);
    assert_eq!(m.pending(b), 1);
    assert!(m.pop(a).is_none());
    match m.pop(b) {
        Some(Packet::Udp { buffer, .. }) => assert_eq!(buffer, b"for b".to_vec()),
        None => panic!("packet for b lost"),
    }
}

#[test]
fn v6_scope_makes_another_address() {
    let a = SockAddr::V6 { ip: 1, port: 7, flowinfo: 0, scope_id: 0 };
    let b = SockAddr::V6 { ip: 1, port: 7, flowinfo: 0, scope_id: 3 };
    let mut m = MemoryState::new();
    m.deliver(pkt(a, b, b"x"));
    assert_eq!(m.pending(b), 0);
    assert_eq!(m.pending(a), 1);
}

#[test]
fn too_long_packet_fills_buffer_and_fails() {
    let a = v4(5, 5);
    let mut m = MemoryState::new();
    m.deliver(pkt(a, a, b"abcdef"));
    let mut buf = [0u8; 4];
    let got = m.recv_from(a, &mut buf).unwrap();
    assert_eq!(got, Err(RecvError::BufferTooSmall));
    assert_eq!(&buf, b"abcd");
    assert_eq!(m.pending(a), 0);
}

#[test]
fn write_all_keeps_tail_of_buffer() {
    let mut buf = [9u8; 5];
    assert_eq!(write_all_into(&mut buf, b"ab"), Ok(()));
    assert_eq!(buf, [b'a', b'b', 9, 9, 9]);
    let mut empty: [u8; 0] = [];
    assert_eq!(write_all_into(&mut empty, b""), Ok(()));
    assert_eq!(write_all_into(&mut empty, b"z"), Err(RecvError::BufferTooSmall));
}

#[test]
fn outgoing_packet_carries_bytes() {
    let l = v4(1, 1000);
    let t = v4(2, 53);
    let (p, n) = Packet::outgoing(l, t, b"query");
    assert_eq!(n, 5);
    match p {
        Packet::Udp { local_addr, remote_addr, buffer, query } => {
            assert_eq!(local_addr, l);
            assert_eq!(remote_addr, t);
            assert_eq!(buffer, b"query".to_vec());
            assert!(query.is_none());
        }
    }
    assert_ne!(PacketResult::Success, PacketResult::Failed);
}
