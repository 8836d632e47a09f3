//! Connection bookkeeping: timeouts, protocol state, and the latch that closes
//! once a write has timed out.
use crate::error::MineRiderError;
use crate::text_build::{append_int, decimal, text_around};
use vstd::prelude::*;

verus! {

/// Default timeout for a single socket read, in milliseconds.
pub const DEFAULT_READ_TIMEOUT_MILLIS: u64 = 30_000;

/// Default timeout for establishing the TCP connection, in milliseconds.
pub const DEFAULT_CONNECT_TIMEOUT_MILLIS: u64 = 10_000;

/// Default timeout for a complete packet send, in milliseconds.
pub const DEFAULT_WRITE_TIMEOUT_MILLIS: u64 = 30_000;

/// Bytes read from the socket per system call.
pub const READ_CHUNK: usize = 8192;

/// The protocol state of a connection.
#[derive(Debug, Clone, Copy, PartialEq, Eq, Structural)]
pub enum ConnectionState {
    Handshaking,
    Status,
    Login,
    Configuration,
    Play,
}

/// The timeouts a connection enforces, in milliseconds.
#[derive(Debug, Clone, Copy, PartialEq, Eq, Structural)]
pub struct ConnectionTimeouts {
    /// Bound on establishing the TCP connection itself.
    pub connect: u64,
    /// Bound on a single socket read while assembling one frame.
    pub read: u64,
    /// Bound on a complete packet send.
    pub write: u64,
}

impl Default for ConnectionTimeouts {
    fn default() -> (t: Self)
        ensures
            t == (ConnectionTimeouts {
                connect: DEFAULT_CONNECT_TIMEOUT_MILLIS,
                read: DEFAULT_READ_TIMEOUT_MILLIS,
                write: DEFAULT_WRITE_TIMEOUT_MILLIS,
            }),
    {
        ConnectionTimeouts {
            connect: DEFAULT_CONNECT_TIMEOUT_MILLIS,
            read: DEFAULT_READ_TIMEOUT_MILLIS,
            write: DEFAULT_WRITE_TIMEOUT_MILLIS,
        }
    }
}

/// What was in flight when a timeout struck.
#[derive(Debug, Clone, Copy, PartialEq, Eq, Structural)]
pub enum Stage {
    WriteAll,
    Flush,
    Read,
}

/// How a timeout is reported. A caller deciding whether a partial send is safe
/// to retry needs to know which step was in flight.
pub open spec fn stage_text(stage: Stage) -> Seq<char> {
    match stage {
        Stage::WriteAll => "writing packet to socket (write_all)"@,
        Stage::Flush => "writing packet to socket (flush)"@,
        Stage::Read => "reading from socket"@,
    }
}

/// The timeout of a step.
pub fn timed_out(stage: Stage) -> (e: MineRiderError)
    ensures
        e.is_timeout(stage_text(stage)),
{
    MineRiderError::Timeout(
        match stage {
            Stage::WriteAll => "writing packet to socket (write_all)".to_owned(),
            Stage::Flush => "writing packet to socket (flush)".to_owned(),
            Stage::Read => "reading from socket".to_owned(),
        },
    )
}

/// The timeout of a connect.
pub fn connect_timed_out(host: &str, port: u16) -> (e: MineRiderError)
    ensures
        e.is_timeout("connecting to "@ + host@ + ":"@ + decimal(port as int)),
{
    let mut text = text_around("connecting to ", host, ":");
    append_int(&mut text, port as i128);
    MineRiderError::Timeout(text)
}

/// Whether a failed send leaves open how many bytes reached the peer: only a
/// timeout does.
pub fn error_poisons_connection(e: &MineRiderError) -> (b: bool)
    ensures
        b == (e is Timeout),
{
    match e {
        MineRiderError::Timeout(_) => true,
        _ => false,
    }
}

/// The error once a write has timed out.
pub const UNUSABLE: &'static str = "connection unusable after a previous write timeout";

/// What a connection keeps besides its socket and its codec.
#[derive(Debug, Clone, Copy, PartialEq, Eq, Structural)]
pub struct ConnectionStatus {
    /// Set once a write times out. A prefix of the frame may have reached the
    /// peer, so the frame boundary is not known to be intact: every further
    /// send and read fails fast.
    pub write_failed: bool,
    pub state: ConnectionState,
    pub read_timeout: u64,
    pub write_timeout: u64,
}

impl ConnectionStatus {
    /// The status after a send: a timeout closes the latch.
    pub open spec fn sent(self, outcome: Result<(), MineRiderError>) -> ConnectionStatus {
        ConnectionStatus {
            write_failed: self.write_failed || (outcome matches Err(e) && e is Timeout),
            ..self
        }
    }

    /// A connection that was just established.
    pub fn new(timeouts: ConnectionTimeouts) -> (s: Self)
        ensures
            s == (ConnectionStatus {
                write_failed: false,
                state: ConnectionState::Handshaking,
                read_timeout: timeouts.read,
                write_timeout: timeouts.write,
            }),
    {
        ConnectionStatus {
            write_failed: false,
            state: ConnectionState::Handshaking,
            read_timeout: timeouts.read,
            write_timeout: timeouts.write,
        }
    }

    /// Fails, without touching the socket, if a previous write timed out.
    pub fn check_not_failed(&self) -> (res: Result<(), MineRiderError>)
        ensures
            match res {
                Ok(_) => !self.write_failed,
                Err(e) => self.write_failed && e.is_timeout(UNUSABLE@),
            },
    {
        if self.write_failed {
            Err(MineRiderError::Timeout(UNUSABLE.to_owned()))
        } else {
            Ok(())
        }
    }

    /// Takes the outcome of a send into account and hands it on.
    pub fn after_send(&mut self, outcome: Result<(), MineRiderError>) -> (res: Result<
        (),
        MineRiderError,
    >)
        ensures
            res == outcome,
            *final(self) == old(self).sent(outcome),
    {
        match outcome {
            Ok(done) => Ok(done),
            Err(e) => {
                if error_poisons_connection(&e) {
                    self.write_failed = true;
                }
                Err(e)
            },
        }
    }

    /// What a socket read of `n` bytes amounts to: none at all means that the
    /// peer closed the connection.
    pub fn after_read(&self, n: usize) -> (res: Result<(), MineRiderError>)
        ensures
            match res {
                Ok(_) => n > 0,
                Err(e) => n == 0 && e == MineRiderError::ConnectionClosed,
            },
    {
        if n == 0 {
            Err(MineRiderError::ConnectionClosed)
        } else {
            Ok(())
        }
    }

    /// Current protocol state of the connection.
    pub fn state(&self) -> (s: ConnectionState)
        ensures
            s == self.state,
    {
        self.state
    }

    /// Sets the protocol state of the connection.
    pub fn set_state(&mut self, state: ConnectionState)
        ensures
            *final(self) == (ConnectionStatus { state, ..*old(self) }),
    {
        self.state = state;
    }

    /// Overrides the per-read timeout.
    pub fn set_read_timeout(&mut self, timeout: u64)
        ensures
            *final(self) == (ConnectionStatus { read_timeout: timeout, ..*old(self) }),
    {
        self.read_timeout = timeout;
    }

    /// Overrides the packet-send timeout.
    pub fn set_write_timeout(&mut self, timeout: u64)
        ensures
            *final(self) == (ConnectionStatus { write_timeout: timeout, ..*old(self) }),
    {
        self.write_timeout = timeout;
    }

    /// Whether a previous write timed out, leaving this connection unusable.
    pub fn is_write_failed(&self) -> (b: bool)
        ensures
            b == self.write_failed,
    {
        self.write_failed
    }
}

/// The status after several sends.
pub open spec fn after_sends(s: ConnectionStatus, outcomes: Seq<Result<(), MineRiderError>>) -> ConnectionStatus
    decreases outcomes.len(),
{
    if outcomes.len() == 0 {
        s
    } else {
        after_sends(s, outcomes.drop_last()).sent(outcomes.last())
    }
}

/// The latch closes with the first timeout of a send and never opens again; no
/// other outcome closes it.
pub proof fn law_one_write_timeout_closes_the_latch(
    s: ConnectionStatus,
    outcomes: Seq<Result<(), MineRiderError>>,
)
    ensures
        after_sends(s, outcomes).write_failed == (s.write_failed || exists|i: int|
            0 <= i < outcomes.len() && (#[trigger] outcomes[i]) is Err && outcomes[i]->Err_0
                is Timeout),
    decreases outcomes.len(),
{
    if outcomes.len() > 0 {
        let rest = outcomes.drop_last();
        law_one_write_timeout_closes_the_latch(s, rest);
        assert forall|i: int| 0 <= i < rest.len() implies (#[trigger] rest[i]) == outcomes[i] by {}
        let last = outcomes.len() - 1;
        assert(outcomes[last] == outcomes.last());
        if exists|i: int|
            0 <= i < outcomes.len() && (#[trigger] outcomes[i]) is Err && outcomes[i]->Err_0
                is Timeout {
            let i = choose|i: int|
                0 <= i < outcomes.len() && (#[trigger] outcomes[i]) is Err && outcomes[i]->Err_0
                    is Timeout;
            if i < last {
                assert(rest[i] == outcomes[i]);
            }
        }
    }
}

} // verus!
