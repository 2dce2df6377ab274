use dnsd::addr::{IpAddress, SockAddr};
use dnsd::udp::{
    next_bind_step, BindOutcome, BindStep, NextRandomUdpSocket, SendError, SendPlan,
    StateUdpStream, BIND_ATTEMPTS,
};

#[test]
fn binds_unspecified_address_of_same_family() {
    let s = NextRandomUdpSocket::new_with_closure(SockAddr::V4 { ip: 0x01010101, port: 53 });
    assert_eq!(s.bind_address, SockAddr::V4 { ip: 0, port: 0 });
    assert!(s.picks_random_port());
    let s6 = NextRandomUdpSocket::new_with_closure(SockAddr::V6 { ip: 5, port: 53, flowinfo: 1, scope_id: 2 });
    assert_eq!(s6.bind_address, SockAddr::V6 { ip: 0, port: 0, flowinfo: 0, scope_id: 0 });
}

#[test]
fn random_port_in_dynamic_range() {
    let s = NextRandomUdpSocket::new_with_closure(SockAddr::V4 { ip: 0x08080808, port: 53 });
    let mut seen_other = false;
    for _ in 0..200 {
        let a = s.random_bind_address();
        assert!(a.port() >= 49152);
        assert_eq!(a.ip(), IpAddress::V4(0));
        if a.port() != 49152 {
            seen_other = true;
        }
    }
    assert!(seen_other);
}

#[test]
fn bind_steps() {
    assert_eq!(next_bind_step(0, BindOutcome::Bound), BindStep::Finish);
    assert_eq!(next_bind_step(3, BindOutcome::Failed), BindStep::Finish);
    assert_eq!(next_bind_step(0, BindOutcome::AddrInUse), BindStep::TryAgain);
    assert_eq!(next_bind_step(8, BindOutcome::Pending), BindStep::TryAgain);
    assert_eq!(next_bind_step(BIND_ATTEMPTS - 1, BindOutcome::AddrInUse), BindStep::GiveUp);
}

#[test]
fn message_plan() {
    let s = StateUdpStream::new(SockAddr::V4 { ip: 1, port: 53 });
    assert_eq!(
        s.plan_message(7, Some(0x1_0000_0005), 512),
        Ok(SendPlan { query_id: 7, timestamp: 5, recv_buf_size: 512 })
    );
    assert_eq!(
        s.plan_message(7, Some(10), 65535),
        Ok(SendPlan { query_id: 7, timestamp: 10, recv_buf_size: 4096 })
    );
    assert_eq!(s.plan_message(7, None, 512), Err(SendError::ClockBeforeEpoch));
    let p = s.prepare_message(Some(3), 1232).unwrap();
    assert_eq!(p.timestamp, 3);
    assert_eq!(p.recv_buf_size, 1232);
    assert_eq!(s.prepare_message(None, 1232), Err(SendError::ClockBeforeEpoch));
}

#[test]
fn shutdown_is_remembered() {
    let mut s = StateUdpStream::new(SockAddr::V4 { ip: 1, port: 53 });
    assert!(!s.is_shutdown());
    s.shutdown();
    assert!(s.is_shutdown());
}

#[test]
fn with_port_drops_v6_flow_and_scope() {
    let a = SockAddr::V6 { ip: 9, port: 1, flowinfo: 4, scope_id: 5 };
    assert_eq!(a.with_port(80), SockAddr::V6 { ip: 9, port: 80, flowinfo: 0, scope_id: 0 });
    assert_eq!(SockAddr::new(IpAddress::V4(3), 53), SockAddr::V4 { ip: 3, port: 53 });
}
