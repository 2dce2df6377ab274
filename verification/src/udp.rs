//! Decisions of the UDP client side: which local address a socket binds
//! to, how many ports are tried before giving up for now, and how an
//! outgoing query is prepared.

use vstd::prelude::*;

use crate::addr::SockAddr;

verus! {

/// Draws a number uniformly from `low..=high` with rand's
/// `Uniform::new_inclusive(low, high)` sampled from `rand::thread_rng()`.
/// Claimed: the result lies in the range (rand's `UniformInt::sample` adds
/// an offset below `high - low + 1` to `low`); nothing about which value.
/// `low <= high` is required because `new_inclusive` panics otherwise.
#[verifier::external_body]
fn sample_inclusive(low: u16, high: u16) -> (r: u16)
    requires
        low <= high,
    ensures
        low <= r <= high,
{
    rand::distributions::Distribution::sample(
        &rand::distributions::Uniform::new_inclusive(low, high),
        &mut rand::thread_rng(),
    )
}

/// A random query id: rand's `Standard` distribution for `u16`, sampled
/// from `rand::thread_rng()`. Any value may come back; nothing is claimed.
#[verifier::external_body]
fn random_query_id() -> (r: u16) {
    rand::distributions::Distribution::<u16>::sample(
        &rand::distributions::Standard,
        &mut rand::thread_rng(),
    )
}

/// The lowest port of the dynamic range that IANA sets aside for
/// ephemeral ports (RFC 6056, section 2.1); the range ends at 65535.
pub const EPHEMERAL_PORT_LOW: u16 = 49152;

/// How many ports one poll tries before it gives up for the moment.
pub const BIND_ATTEMPTS: u32 = 10;

/// The largest receive buffer a query asks for.
pub const MAX_RECEIVE_BUFFER_SIZE: usize = 4096;

/// The local side of a socket that will talk to `name_server`.
pub struct NextRandomUdpSocket {
    pub name_server: SockAddr,
    pub bind_address: SockAddr,
}

/// What came of one attempt to bind a socket.
#[derive(Clone, Copy, Debug, PartialEq, Eq, Structural)]
pub enum BindOutcome {
    /// A socket is ready.
    Bound,
    /// The port is taken.
    AddrInUse,
    /// Binding failed for another reason.
    Failed,
    /// The socket is not ready yet.
    Pending,
}

/// What to do after an attempt.
#[derive(Clone, Copy, Debug, PartialEq, Eq, Structural)]
pub enum BindStep {
    /// Hand the attempt's result (socket or error) to the caller.
    Finish,
    /// Try another random port.
    TryAgain,
    /// Stop for now: ask to be polled again and report that nothing is ready.
    GiveUp,
}

impl NextRandomUdpSocket {
    /// Binds on the unspecified address of the name server's family, on a
    /// port that is chosen at random when the socket is created.
    pub fn new_with_closure(name_server: SockAddr) -> (r: NextRandomUdpSocket)
        ensures
            r.name_server == name_server,
            r.bind_address == name_server.spec_unspecified_like(),
            r.bind_address.spec_port() == 0,
    {
        NextRandomUdpSocket { name_server, bind_address: name_server.unspecified_like() }
    }

    /// Whether each poll tries random ports (the bind address has port 0)
    /// rather than the one given port.
    pub fn picks_random_port(&self) -> (r: bool)
        ensures
            r == (self.bind_address.spec_port() == 0),
    {
        self.bind_address.port() == 0
    }

    /// The bind address with a random port from the dynamic range.
    pub fn random_bind_address(&self) -> (r: SockAddr)
        ensures
            r.spec_ip() == self.bind_address.spec_ip(),
            EPHEMERAL_PORT_LOW <= r.spec_port(),
            r == SockAddr::spec_new(self.bind_address.spec_ip(), r.spec_port()),
    {
        let port = sample_inclusive(EPHEMERAL_PORT_LOW, u16::MAX);
        self.bind_address.with_port(port)
    }
}

/// The step after attempt number `attempt` (counted from 0 within one
/// poll) ended with `outcome`: a socket or a hard error ends the search, a
/// taken port or a socket that is not ready leads to another attempt while
/// fewer than `BIND_ATTEMPTS` have been made.
pub fn next_bind_step(attempt: u32, outcome: BindOutcome) -> (r: BindStep)
    requires
        attempt < BIND_ATTEMPTS,
    ensures
        (outcome == BindOutcome::Bound || outcome == BindOutcome::Failed) ==> r == BindStep::Finish,
        (outcome == BindOutcome::AddrInUse || outcome == BindOutcome::Pending) ==> r == (if attempt
            + 1 < BIND_ATTEMPTS {
            BindStep::TryAgain
        } else {
            BindStep::GiveUp
        }),
{
    match outcome {
        BindOutcome::Bound => BindStep::Finish,
        BindOutcome::Failed => BindStep::Finish,
        _ => {
            if attempt + 1 < BIND_ATTEMPTS {
                BindStep::TryAgain
            } else {
                BindStep::GiveUp
            }
        },
    }
}

/// Why a query could not be prepared.
#[derive(Clone, Copy, Debug, PartialEq, Eq, Structural)]
pub enum SendError {
    /// The clock reads a time before the Unix epoch.
    ClockBeforeEpoch,
}

/// How an outgoing query goes out.
#[derive(Clone, Copy, Debug, PartialEq, Eq, Structural)]
pub struct SendPlan {
    /// The id the query gets.
    pub query_id: u16,
    /// The signing time: the Unix time in seconds, cut to 32 bits.
    pub timestamp: u32,
    /// The size of the buffer the answer is read into.
    pub recv_buf_size: usize,
}

/// The plan for a query with id `query_id`, sent at `now_secs` (None where
/// the clock is before the epoch), that allows answers of `max_payload`
/// bytes.
pub open spec fn spec_plan(query_id: u16, now_secs: Option<u64>, max_payload: u16) -> Result<
    SendPlan,
    SendError,
> {
    match now_secs {
        None => Err(SendError::ClockBeforeEpoch),
        Some(secs) => Ok(
            SendPlan {
                query_id,
                timestamp: secs as u32,
                recv_buf_size: if (max_payload as usize) < MAX_RECEIVE_BUFFER_SIZE {
                    max_payload as usize
                } else {
                    MAX_RECEIVE_BUFFER_SIZE
                },
            },
        ),
    }
}

/// The state of a UDP query stream to one name server.
pub struct StateUdpStream {
    pub name_server: SockAddr,
    pub is_shutdown: bool,
}

impl StateUdpStream {
    pub open spec fn spec_is_shutdown(&self) -> bool {
        self.is_shutdown
    }

    pub fn new(name_server: SockAddr) -> (r: StateUdpStream)
        ensures
            r.name_server == name_server,
            !r.spec_is_shutdown(),
    {
        StateUdpStream { name_server, is_shutdown: false }
    }

    pub fn shutdown(&mut self)
        ensures
            final(self).spec_is_shutdown(),
            final(self).name_server == old(self).name_server,
    {
        self.is_shutdown = true;
    }

    pub fn is_shutdown(&self) -> (r: bool)
        ensures
            r == self.spec_is_shutdown(),
    {
        self.is_shutdown
    }

    /// Plans a query with the given id; see `spec_plan`. No query may be
    /// sent once the stream is shut down.
    pub fn plan_message(&self, query_id: u16, now_secs: Option<u64>, max_payload: u16) -> (r:
        Result<SendPlan, SendError>)
        requires
            !self.spec_is_shutdown(),
        ensures
            r == spec_plan(query_id, now_secs, max_payload),
    {
        match now_secs {
            None => Err(SendError::ClockBeforeEpoch),
            Some(secs) => {
                let size = if (max_payload as usize) < MAX_RECEIVE_BUFFER_SIZE {
                    max_payload as usize
                } else {
                    MAX_RECEIVE_BUFFER_SIZE
                };
                Ok(SendPlan { query_id, timestamp: secs as u32, recv_buf_size: size })
            },
        }
    }

    /// Plans a query with a fresh random id.
    pub fn prepare_message(&self, now_secs: Option<u64>, max_payload: u16) -> (r: Result<
        SendPlan,
        SendError,
    >)
        requires
            !self.spec_is_shutdown(),
        ensures
            r is Err <==> now_secs is None,
            r matches Ok(p) ==> r == spec_plan(p.query_id, now_secs, max_payload),
    {
        let id = random_query_id();
        self.plan_message(id, now_secs, max_payload)
    }
}

} // verus!
