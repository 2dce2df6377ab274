//! Forwarding of the resolver's in-memory packets to the real network.
//!
//! Each packet is handled by a `UdpExchange`: the caller performs the
//! action that each step returns (binding, sending, receiving, replying)
//! and reports how it went with the next step. A packet about a high-risk
//! domain has all of its answers collected for a while and the last one
//! kept; for other domains the first answer is passed on at once and a
//! second answer that still arrives marks the domain as suspect.

use vstd::prelude::*;
use vstd::slice::slice_to_vec;

use crate::addr::SockAddr;
use crate::memory::{Packet, PacketResult};
use crate::stats::{
    after_add_suspect, after_need_refresh, bump, bumped, spec_check, DomainMap, DomainStats,
    Statistics,
};

verus! {

/// The size of the buffer one answer is read into.
pub const ANSWER_CAPACITY: usize = 4096;

/// How long answers about a high-risk domain are collected.
pub const COLLECT_WINDOW_MS: u64 = 1000;

pub open spec fn opt_bytes(o: Option<Vec<u8>>) -> Option<Seq<u8>> {
    match o {
        Some(v) => Some(v@),
        None => None,
    }
}

fn copy_bytes(v: &Vec<u8>) -> (r: Vec<u8>)
    ensures
        r@ == v@,
{
    slice_to_vec(v.as_slice())
}

fn copy_query(q: &Option<Vec<u8>>) -> (r: Option<Vec<u8>>)
    ensures
        opt_bytes(r) == opt_bytes(*q),
{
    match q {
        Some(v) => Some(copy_bytes(v)),
        None => None,
    }
}

/// Whether `p` goes from `local` to `remote` with the bytes `buf` and the
/// query name `query`.
pub open spec fn packet_is(
    p: Packet,
    local: SockAddr,
    remote: SockAddr,
    buf: Seq<u8>,
    query: Option<Seq<u8>>,
) -> bool {
    match p {
        Packet::Udp { local_addr, remote_addr, buffer, query: q } => local_addr == local
            && remote_addr == remote && buffer@ == buf && opt_bytes(q) == query,
    }
}

/// Where the handling of one packet stands.
#[derive(Clone, Copy, Debug, PartialEq, Eq, Structural)]
pub enum Phase {
    Binding,
    Sending,
    Answering,
    Replying,
    Watching,
    Done,
}

/// What the caller does next.
pub enum Action {
    /// Bind a socket at this local address.
    Bind(SockAddr),
    /// Send the packet's bytes from the bound socket to this address.
    SendQuery(SockAddr),
    /// Read every answer for this long; report how many came and the last.
    CollectAnswers(u64),
    /// Read one answer into a buffer of this size.
    ReceiveAnswer(usize),
    /// Hand this packet back to the resolver.
    Reply(Packet),
    /// Wait for one more answer into a buffer of this size.
    WatchLateAnswer(usize),
    /// Hand this packet back to the resolver; the exchange has failed.
    Fail(Packet),
    /// The exchange is over with this result.
    Finish(PacketResult),
}

/// The handling of one packet from the resolver.
pub struct UdpExchange {
    pub local_addr: SockAddr,
    pub remote_addr: SockAddr,
    pub buffer: Vec<u8>,
    pub query: Option<Vec<u8>>,
    pub high_risk: bool,
    pub phase: Phase,
}

/// Whether a query about `query` is high risk in the table `m`.
pub open spec fn query_is_high_risk(m: DomainMap, query: Option<Seq<u8>>) -> bool {
    match query {
        Some(n) => spec_check(m, n),
        None => false,
    }
}

/// The counters after a packet from the resolver is taken in.
pub open spec fn with_received(st: Statistics) -> Statistics {
    Statistics { memory_recv: bumped(st.memory_recv), ..st }
}

/// The counters after a packet could not be forwarded.
pub open spec fn with_failed(st: Statistics) -> Statistics {
    Statistics { memory_failed: bumped(st.memory_failed), ..st }
}

/// The counters after an answer was handed back to the resolver.
pub open spec fn with_sent(st: Statistics) -> Statistics {
    Statistics { memory_sent: bumped(st.memory_sent), ..st }
}

/// What the caller reports after carrying out an action, as far as the
/// phases and the counters depend on it.
pub enum Report {
    /// Binding worked or not.
    Bound(bool),
    /// Sending worked or not; whether the domain turned out high risk.
    Sent(bool, bool),
    /// Answers were collected.
    Collected,
    /// An answer was read or not.
    Received(bool),
    /// The reply got through or not.
    Replied(bool),
    /// The watch for a late answer ended.
    LateAnswer,
}

/// The phase and risk after `r` in phase `phase`; None where the report
/// does not fit the phase.
pub open spec fn advance(phase: Phase, high_risk: bool, r: Report) -> Option<(Phase, bool)> {
    match (phase, r) {
        (Phase::Binding, Report::Bound(ok)) => Some(
            if ok {
                (Phase::Sending, high_risk)
            } else {
                (Phase::Done, high_risk)
            },
        ),
        (Phase::Sending, Report::Sent(ok, risky)) => Some(
            if ok {
                (Phase::Answering, risky)
            } else {
                (Phase::Done, high_risk)
            },
        ),
        (Phase::Answering, Report::Collected) => if high_risk {
            Some((Phase::Replying, true))
        } else {
            None
        },
        (Phase::Answering, Report::Received(got)) => if !high_risk {
            Some(
                if got {
                    (Phase::Replying, false)
                } else {
                    (Phase::Done, false)
                },
            )
        } else {
            None
        },
        (Phase::Replying, Report::Replied(ok)) => Some(
            if ok && !high_risk {
                (Phase::Watching, high_risk)
            } else {
                (Phase::Done, high_risk)
            },
        ),
        (Phase::Watching, Report::LateAnswer) => Some((Phase::Done, high_risk)),
        _ => None,
    }
}

/// The counters after `r` in phase `phase`.
pub open spec fn count(phase: Phase, r: Report, st: Statistics) -> Statistics {
    match (phase, r) {
        (Phase::Binding, Report::Bound(false)) => with_failed(st),
        (Phase::Sending, Report::Sent(false, _)) => with_failed(st),
        (Phase::Answering, Report::Received(false)) => with_failed(st),
        (Phase::Replying, Report::Replied(_)) => with_sent(st),
        _ => st,
    }
}

/// The phase, risk and counters after the reports `rs`, in order; None
/// where one of them does not fit.
pub open spec fn run(phase: Phase, high_risk: bool, rs: Seq<Report>, st: Statistics) -> Option<
    (Phase, bool, Statistics),
>
    decreases rs.len(),
{
    if rs.len() == 0 {
        Some((phase, high_risk, st))
    } else {
        match advance(phase, high_risk, rs[0]) {
            None => None,
            Some((p, h)) => run(p, h, rs.drop_first(), count(phase, rs[0], st)),
        }
    }
}

/// A query is high risk exactly when its domain check says so: a named query
/// is high risk exactly when its domain is watched and either a refresh is
/// pending or more than one answer in nine successes was suspect; a query
/// without a name never is. Watching a domain alone does not make it high
/// risk.
pub proof fn law_risk_is_the_domain_check(m: DomainMap, query: Option<Seq<u8>>)
    ensures
        query is None ==> !query_is_high_risk(m, query),
        query matches Some(n) ==> (query_is_high_risk(m, query) <==> (m.contains_key(n) && (
        m[n].refresh_needed || m[n].suspect > m[n].success / 9))),
        query matches Some(n) ==> (m.contains_key(n) && !m[n].refresh_needed && m[n].suspect == 0
            ==> !query_is_high_risk(m, query)),
{
}

impl UdpExchange {
    /// The failure reply: an empty packet without a query name.
    pub open spec fn is_failure_reply(&self, p: Packet) -> bool {
        packet_is(p, self.local_addr, self.remote_addr, Seq::empty(), None)
    }

    /// Starts handling `packet`: counts it as received and asks for a
    /// socket at its local address.
    pub fn start(packet: Packet, stats: &mut Statistics) -> (r: (UdpExchange, Action))
        ensures
            *final(stats) == with_received(*old(stats)),
            r.0.phase == Phase::Binding,
            packet_is(packet, r.0.local_addr, r.0.remote_addr, r.0.buffer@, opt_bytes(r.0.query)),
            !r.0.high_risk,
            r.1 == Action::Bind(r.0.local_addr),
    {
        stats.memory_recv = bump(stats.memory_recv);
        match packet {
            Packet::Udp { local_addr, remote_addr, buffer, query } => {
                let ex = UdpExchange {
                    local_addr,
                    remote_addr,
                    buffer,
                    query,
                    high_risk: false,
                    phase: Phase::Binding,
                };
                (ex, Action::Bind(local_addr))
            },
        }
    }

    fn fail(&mut self, stats: &mut Statistics) -> (r: Action)
        ensures
            *final(stats) == with_failed(*old(stats)),
            final(self).phase == Phase::Done,
            final(self).local_addr == old(self).local_addr,
            final(self).remote_addr == old(self).remote_addr,
            final(self).high_risk == old(self).high_risk,
            final(self).buffer == old(self).buffer,
            final(self).query == old(self).query,
            r matches Action::Fail(p) && final(self).is_failure_reply(p),
    {
        stats.memory_failed = bump(stats.memory_failed);
        self.phase = Phase::Done;
        let p = Packet::Udp {
            local_addr: self.local_addr,
            remote_addr: self.remote_addr,
            buffer: Vec::new(),
            query: None,
        };
        assert(self.is_failure_reply(p));
        Action::Fail(p)
    }

    /// After binding: send the packet on, or fail.
    pub fn on_bound(&mut self, ok: bool, stats: &mut Statistics) -> (r: Action)
        requires
            old(self).phase == Phase::Binding,
        ensures
            *final(stats) == count(old(self).phase, Report::Bound(ok), *old(stats)),
            advance(old(self).phase, old(self).high_risk, Report::Bound(ok)) == Some(
                (final(self).phase, final(self).high_risk),
            ),
            final(self).local_addr == old(self).local_addr,
            final(self).remote_addr == old(self).remote_addr,
            final(self).buffer@ == old(self).buffer@,
            opt_bytes(final(self).query) == opt_bytes(old(self).query),
            final(self).high_risk == old(self).high_risk,
            ok ==> final(self).phase == Phase::Sending && r == Action::SendQuery(old(self).remote_addr)
                && *final(stats) == *old(stats),
            !ok ==> final(self).phase == Phase::Done && *final(stats) == with_failed(*old(stats)) && (r matches Action::Fail(p) && final(self).is_failure_reply(p)),
    {
        if ok {
            self.phase = Phase::Sending;
            Action::SendQuery(self.remote_addr)
        } else {
            self.fail(stats)
        }
    }

    /// After sending: decide whether the domain is high risk and how its
    /// answers are read, or fail.
    pub fn on_sent(&mut self, ok: bool, stats: &mut Statistics, domains: &DomainStats) -> (r: Action)
        requires
            old(self).phase == Phase::Sending,
        ensures
            *final(stats) == count(old(self).phase, Report::Sent(ok, query_is_high_risk(domains@, opt_bytes(old(self).query))), *old(stats)),
            advance(old(self).phase, old(self).high_risk, Report::Sent(ok, query_is_high_risk(domains@, opt_bytes(old(self).query)))) == Some(
                (final(self).phase, final(self).high_risk),
            ),
            final(self).local_addr == old(self).local_addr,
            final(self).remote_addr == old(self).remote_addr,
            final(self).buffer@ == old(self).buffer@,
            opt_bytes(final(self).query) == opt_bytes(old(self).query),
            ok ==> *final(stats) == *old(stats) && final(self).phase == Phase::Answering
                && final(self).high_risk == query_is_high_risk(domains@, opt_bytes(old(self).query))
                && r == (if final(self).high_risk {
                Action::CollectAnswers(COLLECT_WINDOW_MS)
            } else {
                Action::ReceiveAnswer(ANSWER_CAPACITY)
            }),
            !ok ==> final(self).phase == Phase::Done && final(self).high_risk == old(self).high_risk
                && *final(stats) == with_failed(*old(stats)) && (r matches Action::Fail(p) && final(self).is_failure_reply(p)),
    {
        if !ok {
            return self.fail(stats);
        }
        let risky = match &self.query {
            Some(n) => domains.check(n.as_slice()),
            None => false,
        };
        self.high_risk = risky;
        self.phase = Phase::Answering;
        if risky {
            Action::CollectAnswers(COLLECT_WINDOW_MS)
        } else {
            Action::ReceiveAnswer(ANSWER_CAPACITY)
        }
    }

    /// After collecting answers about a high-risk domain: more than one
    /// answer makes the domain more suspect; the last answer (or an empty
    /// one) goes back.
    pub fn on_collected(&mut self, found: usize, last: Option<Vec<u8>>, domains: &mut DomainStats) -> (r: Action)
        requires
            old(self).phase == Phase::Answering,
            old(self).high_risk,
        ensures
            advance(old(self).phase, old(self).high_risk, Report::Collected) == Some(
                (final(self).phase, final(self).high_risk),
            ),
            final(self).phase == Phase::Replying,
            final(self).high_risk,
            final(self).local_addr == old(self).local_addr,
            final(self).remote_addr == old(self).remote_addr,
            opt_bytes(final(self).query) == opt_bytes(old(self).query),
            final(domains)@ == (if found > 1 && old(self).query is Some {
                after_add_suspect(old(domains)@, old(self).query.unwrap()@)
            } else {
                old(domains)@
            }),
            r matches Action::Reply(p) && packet_is(
                p,
                old(self).local_addr,
                old(self).remote_addr,
                match last {
                    Some(b) => b@,
                    None => Seq::empty(),
                },
                opt_bytes(old(self).query),
            ),
    {
        if found > 1 {
            match &self.query {
                Some(n) => {
                    domains.add_suspect(n.as_slice());
                },
                None => {},
            }
        }
        let answer = match last {
            Some(b) => b,
            None => Vec::new(),
        };
        self.phase = Phase::Replying;
        Action::Reply(
            Packet::Udp {
                local_addr: self.local_addr,
                remote_addr: self.remote_addr,
                buffer: answer,
                query: copy_query(&self.query),
            },
        )
    }

    /// After reading the first answer about a domain that is not high
    /// risk: pass it back, or fail where nothing could be read.
    pub fn on_received(&mut self, answer: Option<Vec<u8>>, stats: &mut Statistics) -> (r: Action)
        requires
            old(self).phase == Phase::Answering,
            !old(self).high_risk,
        ensures
            *final(stats) == count(old(self).phase, Report::Received(answer is Some), *old(stats)),
            advance(old(self).phase, old(self).high_risk, Report::Received(answer is Some)) == Some(
                (final(self).phase, final(self).high_risk),
            ),
            final(self).high_risk == old(self).high_risk,
            final(self).local_addr == old(self).local_addr,
            final(self).remote_addr == old(self).remote_addr,
            opt_bytes(final(self).query) == opt_bytes(old(self).query),
            match answer {
                Some(b) => final(self).phase == Phase::Replying && *final(stats) == *old(stats)
                    && (r matches Action::Reply(p) && packet_is(
                    p,
                    old(self).local_addr,
                    old(self).remote_addr,
                    b@,
                    opt_bytes(old(self).query),
                )),
                None => final(self).phase == Phase::Done && *final(stats) == with_failed(*old(stats)) && (r matches Action::Fail(p) && final(self).is_failure_reply(p)),
            },
    {
        match answer {
            None => self.fail(stats),
            Some(b) => {
                self.phase = Phase::Replying;
                Action::Reply(
                    Packet::Udp {
                        local_addr: self.local_addr,
                        remote_addr: self.remote_addr,
                        buffer: b,
                        query: copy_query(&self.query),
                    },
                )
            },
        }
    }

    /// After replying (whether the reply got through or not): count it as
    /// sent; where it got through and the domain is not high risk, watch
    /// for a late second answer, else finish.
    pub fn on_replied(&mut self, ok: bool, stats: &mut Statistics) -> (r: Action)
        requires
            old(self).phase == Phase::Replying,
        ensures
            *final(stats) == count(old(self).phase, Report::Replied(ok), *old(stats)),
            advance(old(self).phase, old(self).high_risk, Report::Replied(ok)) == Some(
                (final(self).phase, final(self).high_risk),
            ),
            *final(stats) == with_sent(*old(stats)),
            final(self).high_risk == old(self).high_risk,
            opt_bytes(final(self).query) == opt_bytes(old(self).query),
            ok && !old(self).high_risk ==> final(self).phase == Phase::Watching && r
                == Action::WatchLateAnswer(ANSWER_CAPACITY),
            !(ok && !old(self).high_risk) ==> final(self).phase == Phase::Done && r == Action::Finish(
                PacketResult::Success,
            ),
    {
        stats.memory_sent = bump(stats.memory_sent);
        if ok && !self.high_risk {
            self.phase = Phase::Watching;
            Action::WatchLateAnswer(ANSWER_CAPACITY)
        } else {
            self.phase = Phase::Done;
            Action::Finish(PacketResult::Success)
        }
    }

    /// After watching for a late answer: one that came makes a named
    /// domain suspect and asks for its cache to be refreshed.
    pub fn on_late_answer(&mut self, received: bool, domains: &mut DomainStats) -> (r: Action)
        requires
            old(self).phase == Phase::Watching,
        ensures
            advance(old(self).phase, old(self).high_risk, Report::LateAnswer) == Some(
                (final(self).phase, final(self).high_risk),
            ),
            final(self).phase == Phase::Done,
            r == Action::Finish(PacketResult::Success),
            final(domains)@ == (if received && old(self).query is Some {
                after_need_refresh(
                    after_add_suspect(old(domains)@, old(self).query.unwrap()@),
                    old(self).query.unwrap()@,
                    true,
                )
            } else {
                old(domains)@
            }),
    {
        if received {
            match &self.query {
                Some(n) => {
                    domains.add_suspect(n.as_slice());
                    domains.need_refresh(n.as_slice(), true);
                },
                None => {},
            }
        }
        self.phase = Phase::Done;
        Action::Finish(PacketResult::Success)
    }
}

/// Every packet ends counted exactly once: once reports take an exchange
/// from its start to its end, the counters show either one more failure or
/// one more answer handed back, and nothing else changed. No report fits
/// an exchange that has ended.
pub proof fn law_one_outcome_per_packet(rs: Seq<Report>, st: Statistics)
    ensures
        run(Phase::Binding, false, rs, st) matches Some((Phase::Done, _, end)) ==> end
            == with_failed(st) || end == with_sent(st),
        forall|h: bool, r: Report| advance(Phase::Done, h, r) is None,
{
    lemma_run_outcome(Phase::Binding, false, rs, st);
}

proof fn lemma_run_outcome(phase: Phase, h: bool, rs: Seq<Report>, st: Statistics)
    ensures
        run(phase, h, rs, st) matches Some((Phase::Done, _, end)) ==> match phase {
            Phase::Binding | Phase::Sending | Phase::Answering => end == with_failed(st) || end
                == with_sent(st),
            Phase::Replying => end == with_sent(st),
            Phase::Watching | Phase::Done => end == st,
        },
    decreases rs.len(),
{
    if rs.len() > 0 {
        match advance(phase, h, rs[0]) {
            None => {},
            Some((p, h2)) => {
                lemma_run_outcome(p, h2, rs.drop_first(), count(phase, rs[0], st));
                if rs.drop_first().len() > 0 {
                    assert(advance(Phase::Done, h2, rs.drop_first()[0]) is None);
                }
            },
        }
    }
}

/// The answers seen while collecting for a high-risk domain: how many came
/// and the last one.
pub struct LastPacket {
    pub found: usize,
    pub decided: Option<Vec<u8>>,
}

impl LastPacket {
    pub fn new() -> (r: LastPacket)
        ensures
            r.found == 0,
            r.decided is None,
    {
        LastPacket { found: 0, decided: None }
    }

    /// Takes in an answer of `len` bytes read into `buf`.
    pub fn record(&mut self, buf: &[u8], len: usize)
        requires
            len <= buf@.len(),
        ensures
            final(self).found == (if old(self).found == usize::MAX {
                0
            } else {
                (old(self).found + 1) as usize
            }),
            opt_bytes(final(self).decided) == Some(buf@.subrange(0, len as int)),
    {
        let mut answer: Vec<u8> = Vec::new();
        let mut i: usize = 0;
        while i < len
            invariant
                i <= len,
                len <= buf@.len(),
                answer@ == buf@.subrange(0, i as int),
            decreases len - i,
        {
            answer.push(buf[i]);
            i = i + 1;
            assert(answer@ =~= buf@.subrange(0, i as int));
        }
        self.decided = Some(answer);
        self.found = if self.found == usize::MAX {
            0
        } else {
            self.found + 1
        };
    }
}

/// How long a forwarding task may run.
pub const TASK_LIFETIME_MS: u64 = 5000;

/// How often the task list is reported.
pub const REPORT_INTERVAL_MS: u64 = 5000;

/// Above this many running tasks a report is raised to the info level.
pub const BUSY_TASKS: usize = 5;

/// A running forwarding task, as the task list sees it.
#[derive(Clone, Copy, Debug, PartialEq, Eq, Structural)]
pub struct TrackedTask {
    pub id: u64,
    pub deadline_ms: u64,
    pub finished: bool,
}

/// A task is kept while it has not finished and its deadline lies ahead.
pub open spec fn is_live(t: TrackedTask, now_ms: u64) -> bool {
    !t.finished && t.deadline_ms > now_ms
}

/// The tasks of `s` that are live (`live`) or not, in order.
pub open spec fn tasks_where(s: Seq<TrackedTask>, now_ms: u64, live: bool) -> Seq<TrackedTask>
    decreases s.len(),
{
    if s.len() == 0 {
        Seq::empty()
    } else {
        let rest = tasks_where(s.drop_last(), now_ms, live);
        if is_live(s.last(), now_ms) == live {
            rest.push(s.last())
        } else {
            rest
        }
    }
}

/// The deadline of a task started at `now_ms`.
pub fn task_deadline(now_ms: u64) -> (r: u64)
    requires
        now_ms + TASK_LIFETIME_MS <= u64::MAX,
    ensures
        r == now_ms + TASK_LIFETIME_MS,
{
    now_ms + TASK_LIFETIME_MS
}

/// Splits the task list into the tasks that are kept and those that are
/// aborted, each in the order of the list.
pub fn retain_live(tasks: Vec<TrackedTask>, now_ms: u64) -> (r: (Vec<TrackedTask>, Vec<TrackedTask>))
    ensures
        r.0@ == tasks_where(tasks@, now_ms, true),
        r.1@ == tasks_where(tasks@, now_ms, false),
{
    let mut kept: Vec<TrackedTask> = Vec::new();
    let mut aborted: Vec<TrackedTask> = Vec::new();
    let mut i: usize = 0;
    while i < tasks.len()
        invariant
            i <= tasks.len(),
            kept@ == tasks_where(tasks@.subrange(0, i as int), now_ms, true),
            aborted@ == tasks_where(tasks@.subrange(0, i as int), now_ms, false),
        decreases tasks.len() - i,
    {
        let t = tasks[i];
        assert(tasks@.subrange(0, i + 1).drop_last() =~= tasks@.subrange(0, i as int));
        assert(tasks@.subrange(0, i + 1).last() == t);
        if !t.finished && t.deadline_ms > now_ms {
            kept.push(t);
        } else {
            aborted.push(t);
        }
        i = i + 1;
    }
    assert(tasks@.subrange(0, tasks.len() as int) =~= tasks@);
    (kept, aborted)
}

/// Every task is either kept or aborted, never both: the kept tasks are
/// all live, the aborted ones all not, and together they are as many as
/// the tasks were.
pub proof fn law_tasks_partitioned(s: Seq<TrackedTask>, now_ms: u64)
    ensures
        tasks_where(s, now_ms, true).len() + tasks_where(s, now_ms, false).len() == s.len(),
        forall|i: int|
            0 <= i < tasks_where(s, now_ms, true).len() ==> is_live(
                #[trigger] tasks_where(s, now_ms, true)[i],
                now_ms,
            ),
        forall|i: int|
            0 <= i < tasks_where(s, now_ms, false).len() ==> !is_live(
                #[trigger] tasks_where(s, now_ms, false)[i],
                now_ms,
            ),
    decreases s.len(),
{
    if s.len() > 0 {
        law_tasks_partitioned(s.drop_last(), now_ms);
    }
}

/// Whether the task list is due for a report.
pub fn report_due(elapsed_ms: u64) -> (r: bool)
    ensures
        r == (elapsed_ms > REPORT_INTERVAL_MS),
{
    elapsed_ms > REPORT_INTERVAL_MS
}

/// Whether a report of `running` tasks is raised to the info level.
pub fn report_loudly(running: usize) -> (r: bool)
    ensures
        r == (running > BUSY_TASKS),
{
    running > BUSY_TASKS
}

} // verus!
