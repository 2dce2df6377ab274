use dnsd::addr::SockAddr;
use dnsd::exchange::{
    report_due, report_loudly, retain_live, task_deadline, Action, LastPacket, Phase, TrackedTask,
    UdpExchange, ANSWER_CAPACITY, COLLECT_WINDOW_MS,
};
use dnsd::memory::{Packet, PacketResult};
use dnsd::stats::{DomainStats, Statistics};

fn local() -> SockAddr {
    SockAddr::V4 { ip: 0, port: 50000 }
}
fn remote() -> SockAddr {
    SockAddr::V4 { ip: 0x01010101, port: 53 }
}
fn query_packet(name: Option<&[u8]>) -> Packet {
    Packet::Udp { local_addr: local(), remote_addr: remote(), buffer: b"q".to_vec(), query: name.map(|n| n.to_vec()) }
}

fn reply_bytes(a: &Action) -> Vec<u8> {
    match a {
        Action::Reply(Packet::Udp { buffer, .. }) | Action::Fail(Packet::Udp { buffer, .. }) => buffer.clone(),
        _ => panic!("not a reply"),
    }
}

#[test]
fn ordinary_exchange_with_late_answer() {
    let mut stats = Statistics::new();
    let mut domains = DomainStats::new();
    let (mut ex, a) = UdpExchange::start(query_packet(Some(b"x.")), &mut stats);
    assert!(matches!(a, Action::Bind(l) if l == local()));
    assert_eq!(stats.memory_recv, 1);
    assert!(matches!(ex.on_bound(true, &mut stats), Action::SendQuery(r) if r == remote()));
    let a = ex.on_sent(true, &mut stats, &domains);
    assert!(matches!(a, Action::ReceiveAnswer(c) if c == ANSWER_CAPACITY));
    let a = ex.on_received(Some(b"answer".to_vec()), &mut stats);
    assert_eq!(reply_bytes(&a), b"answer".to_vec());
    assert!(matches!(ex.on_replied(true, &mut stats), Action::WatchLateAnswer(_)));
    assert_eq!(stats.memory_sent, 1);
    assert!(matches!(ex.on_late_answer(true, &mut domains), Action::Finish(PacketResult::Success)));
    assert_eq!(ex.phase, Phase::Done);
    let e = domains.get(b"x.").unwrap();
    assert_eq!(e.suspect, 1);
    assert!(e.refresh_needed);
    assert!(domains.check(b"x."));
}

#[test]
fn high_risk_exchange_collects() {
    let mut stats = Statistics::new();
    let mut domains = DomainStats::new();
    domains.need_refresh(b"risky.", true);
    let (mut ex, _) = UdpExchange::start(query_packet(Some(b"risky.")), &mut stats);
    ex.on_bound(true, &mut stats);
    let a = ex.on_sent(true, &mut stats, &domains);
    assert!(matches!(a, Action::CollectAnswers(w) if w == COLLECT_WINDOW_MS));
    assert!(ex.high_risk);
    let a = ex.on_collected(2, Some(b"last".to_vec()), &mut domains);
    assert_eq!(reply_bytes(&a), b"last".to_vec());
    assert_eq!(domains.get(b"risky.").unwrap().suspect, 1);
    assert!(matches!(ex.on_replied(true, &mut stats), Action::Finish(PacketResult::Success)));
}

#[test]
fn failed_bind_reports_failure() {
    let mut stats = Statistics::new();
    let (mut ex, _) = UdpExchange::start(query_packet(None), &mut stats);
    let a = ex.on_bound(false, &mut stats);
    assert!(matches!(a, Action::Fail(Packet::Udp { ref buffer, ref query, .. }) if buffer.is_empty() && query.is_none()));
    assert_eq!(stats.memory_failed, 1);
    assert_eq!(ex.phase, Phase::Done);
}

#[test]
fn missing_answer_fails() {
    let mut stats = Statistics::new();
    let domains = DomainStats::new();
    let (mut ex, _) = UdpExchange::start(query_packet(None), &mut stats);
    ex.on_bound(true, &mut stats);
    ex.on_sent(true, &mut stats, &domains);
    assert!(matches!(ex.on_received(None, &mut stats), Action::Fail(_)));
    assert_eq!(stats.memory_failed, 1);
    assert_eq!(stats.memory_sent, 0);
}

#[test]
fn last_packet_keeps_last_prefix() {
    let mut l = LastPacket::new();
    l.record(b"hello world", 5);
    l.record(b"bye", 3);
    assert_eq!(l.found, 2);
    assert_eq!(l.decided, Some(b"bye".to_vec()));
}

#[test]
fn tasks_split_by_liveness() {
    let tasks = vec![
        TrackedTask { id: 1, deadline_ms: 100, finished: false },
        TrackedTask { id: 2, deadline_ms: 100, finished: true },
        TrackedTask { id: 3, deadline_ms: 50, finished: false },
        TrackedTask { id: 4, deadline_ms: 51, finished: false },
    ];
    let (kept, aborted) = retain_live(tasks, 50);
    assert_eq!(kept.iter().map(|t| t.id).collect::<Vec<_>>(), vec![1, 4]);
    assert_eq!(aborted.iter().map(|t| t.id).collect::<Vec<_>>(), vec![2, 3]);
    assert_eq!(task_deadline(1000), 6000);
    assert!(!report_due(5000));
    assert!(report_due(5001));
    assert!(!report_loudly(5));
    assert!(report_loudly(6));
}
