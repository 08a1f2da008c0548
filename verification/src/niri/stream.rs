//! The compositor stream transport's protocol logic.
//!
//! The connection itself (socket, reads, writes) lives outside the library;
//! what stands here is what the transport decides: the handshake line it
//! sends, how the handshake reply is judged, and the reconnect machine with
//! exponential backoff that gives up after a fixed number of failed attempts.

use vstd::prelude::*;
use vstd::string::StringExecFns;

verus! {

/// How the compositor stream can fail.  Every failure is a value in the
/// stream, never a panic; the consumer decides what to surface.
#[derive(Debug, Clone)]
pub enum NiriStreamError {
    /// No socket path is configured in the environment.
    NiriNoSocket,
    /// Connecting to or reading from the socket failed.
    NiriConnectionError(String),
    /// The peer closed the connection (a zero-byte read).
    NiriConnectionClosed,
    /// The compositor refused the event-stream request.
    NiriStreamRefused(String),
    /// A line did not decode as a protocol message.
    SerdeErr(String),
}

/// The decoded handshake reply of a line: `Err` when the line is not a valid
/// reply document, `Ok(Err(reason))` when the compositor refused the request,
/// `Ok(Ok(()))` when it accepted.
pub uninterp spec fn reply_of(line: Seq<char>) -> Result<Result<(), Seq<char>>, Seq<char>>;

/// Relies on serde_json::from_str and niri_ipc's Reply type (a Result of a
/// response or an error string): decoding a reply line is a function of the
/// line's characters alone.
#[verifier::external_body]
fn parse_reply(line: &str) -> (r: Result<Result<(), String>, String>)
    ensures
        match r {
            Ok(Ok(())) => reply_of(line@) == Result::<Result<(), Seq<char>>, Seq<char>>::Ok(
                Ok(()),
            ),
            Ok(Err(msg)) => reply_of(line@) == Result::<Result<(), Seq<char>>, Seq<char>>::Ok(
                Err(msg@),
            ),
            Err(detail) => reply_of(line@) == Result::<Result<(), Seq<char>>, Seq<char>>::Err(
                detail@,
            ),
        },
{
    match serde_json::from_str::<niri_ipc::Reply>(line) {
        Ok(Ok(_)) => Ok(Ok(())),
        Ok(Err(msg)) => Ok(Err(msg)),
        Err(e) => Err(e.to_string()),
    }
}

/// Judges one handshake reply line: acceptance, refusal (with the peer's
/// reason), or a decode failure.
pub fn check_reply(line: &str) -> (r: Result<(), NiriStreamError>)
    ensures
        match reply_of(line@) {
            Ok(Ok(())) => r is Ok,
            Ok(Err(reason)) => r matches Err(NiriStreamError::NiriStreamRefused(m)) && m@
                == reason,
            Err(detail) => r matches Err(NiriStreamError::SerdeErr(m)) && m@ == detail,
        },
{
    match parse_reply(line) {
        Ok(Ok(())) => Ok(()),
        Ok(Err(msg)) => Err(NiriStreamError::NiriStreamRefused(msg)),
        Err(detail) => Err(NiriStreamError::SerdeErr(detail)),
    }
}

/// Relies on serde_json::to_string and niri_ipc's Request type: the
/// externally-tagged unit variant requesting the event stream encodes as the
/// JSON string "EventStream" (serialization of this plain enum cannot fail).
#[verifier::external_body]
fn encode_event_stream_request() -> (r: String)
    ensures
        r@ == "\"EventStream\""@,
{
    serde_json::to_string(&niri_ipc::Request::EventStream).unwrap_or(String::new())
}

/// The single newline-terminated request line that opens the event stream.
pub fn event_stream_request() -> (r: String)
    ensures
        r@ == "\"EventStream\"\n"@,
{
    let req = encode_event_stream_request();
    let line = req.concat("\n");
    proof {
        reveal_strlit("\"EventStream\"");
        reveal_strlit("\n");
        reveal_strlit("\"EventStream\"\n");
        assert(line@ =~= "\"EventStream\"\n"@);
    }
    line
}

/// How often a failed connection is retried before the stream is exhausted.
pub const MAX_CONNECT_ATTEMPTS: u32 = 4;

/// The reconnect machine.  `Disconnected` counts failed attempts; the counter
/// goes back to one (not zero) when an established connection dies, so a peer
/// that accepts and immediately closes cannot cause endless thrashing.
#[derive(Debug, Clone, Copy, PartialEq, Eq, Structural)]
pub enum NiriStream {
    Disconnected { attempts: u32 },
    Connected,
}

/// What the driver of the machine must do next.
#[derive(Debug, Clone, Copy, PartialEq, Eq, Structural)]
pub enum StreamAction {
    /// The stream is exhausted: emit nothing further.
    GiveUp,
    /// Wait the given delay, then try to connect and read a first event.
    Connect { delay_secs: u64 },
    /// Read the next event from the live connection.
    ReadEvent,
}

/// Exponential backoff: no wait before the first attempt, then 2^attempts
/// seconds.
pub open spec fn spec_backoff(attempts: u32) -> u64
    recommends
        attempts < 64,
{
    if attempts == 0 {
        0
    } else {
        1u64 << attempts
    }
}

impl NiriStream {
    pub open spec fn wf(self) -> bool {
        match self {
            NiriStream::Disconnected { attempts } => attempts <= MAX_CONNECT_ATTEMPTS,
            NiriStream::Connected => true,
        }
    }

    pub open spec fn spec_next_action(self) -> StreamAction {
        match self {
            NiriStream::Disconnected { attempts } => if attempts >= MAX_CONNECT_ATTEMPTS {
                StreamAction::GiveUp
            } else {
                StreamAction::Connect { delay_secs: spec_backoff(attempts) }
            },
            NiriStream::Connected => StreamAction::ReadEvent,
        }
    }

    pub open spec fn spec_on_error(self) -> Self {
        match self {
            NiriStream::Disconnected { attempts } => NiriStream::Disconnected {
                attempts: (attempts + 1) as u32,
            },
            NiriStream::Connected => NiriStream::Disconnected { attempts: 1 },
        }
    }

    /// The machine before anything was tried.
    pub fn start() -> (r: Self)
        ensures
            r == (NiriStream::Disconnected { attempts: 0u32 }),
            r.wf(),
    {
        NiriStream::Disconnected { attempts: 0 }
    }

    /// What to do in the current state.
    pub fn next_action(&self) -> (a: StreamAction)
        requires
            self.wf(),
        ensures
            a == self.spec_next_action(),
    {
        match self {
            NiriStream::Disconnected { attempts } => {
                if *attempts >= MAX_CONNECT_ATTEMPTS {
                    StreamAction::GiveUp
                } else if *attempts == 0 {
                    StreamAction::Connect { delay_secs: 0 }
                } else {
                    StreamAction::Connect { delay_secs: 1u64 << *attempts }
                }
            },
            NiriStream::Connected => StreamAction::ReadEvent,
        }
    }

    /// A connection attempt or a read failed: one more error item goes out,
    /// and the machine counts the failure.
    pub fn on_error(self) -> (r: Self)
        requires
            self.wf(),
            self matches NiriStream::Disconnected { attempts } ==> attempts
                < MAX_CONNECT_ATTEMPTS,
        ensures
            r == self.spec_on_error(),
            r.wf(),
    {
        match self {
            NiriStream::Disconnected { attempts } => NiriStream::Disconnected {
                attempts: attempts + 1,
            },
            NiriStream::Connected => NiriStream::Disconnected { attempts: 1 },
        }
    }

    /// An event was read: the connection is live, and only now does the
    /// attempt counter reset.
    pub fn on_event(self) -> (r: Self)
        ensures
            r == NiriStream::Connected,
            r.wf(),
    {
        NiriStream::Connected
    }
}

/// Law: a transport that fails to connect on every attempt yields exactly
/// `MAX_CONNECT_ATTEMPTS` error items and then gives up.  `tr` is the run of
/// the machine under failures: each of the first four states asks for a
/// connection attempt (whose failure emits one error item), and the state
/// after the fourth failure asks to give up, so no fifth attempt is made.
pub proof fn lemma_backoff_termination(tr: Seq<NiriStream>)
    requires
        tr.len() == MAX_CONNECT_ATTEMPTS + 1,
        tr[0] == (NiriStream::Disconnected { attempts: 0u32 }),
        forall|i: int| 0 <= i < tr.len() - 1 ==> tr[i + 1] == (#[trigger] tr[i]).spec_on_error(),
    ensures
        forall|i: int|
            0 <= i < MAX_CONNECT_ATTEMPTS ==> (#[trigger] tr[i]).spec_next_action() matches
                StreamAction::Connect { .. },
        tr[MAX_CONNECT_ATTEMPTS as int].spec_next_action() == StreamAction::GiveUp,
{
    assert(tr[1] == tr[0].spec_on_error());
    assert(tr[2] == tr[1].spec_on_error());
    assert(tr[3] == tr[2].spec_on_error());
    assert(tr[4] == tr[3].spec_on_error());
    assert(tr[0] == (NiriStream::Disconnected { attempts: 0u32 }));
    assert(tr[1] == (NiriStream::Disconnected { attempts: 1u32 }));
    assert(tr[2] == (NiriStream::Disconnected { attempts: 2u32 }));
    assert(tr[3] == (NiriStream::Disconnected { attempts: 3u32 }));
    assert(tr[4] == (NiriStream::Disconnected { attempts: 4u32 }));
}

} // verus!
