//! Starting a user's supervisor, keeping it up, and ending its session.
use vstd::prelude::*;
use vstd::string::StringSliceAdditionalSpecFns;
use vstd::utf8::is_ascii_chars_encode_utf8;

use crate::bytes::{append_slice, copy_bytes};

verus! {

/// One link in the chain of causes of an error.
#[derive(Clone, Copy, Debug, PartialEq, Eq, Structural)]
pub enum Cause {
    WaitForActiveSession,
    WaitForHardware,
    Other,
}

/// An error that passes by itself: somewhere in its chain something is waited for.
pub open spec fn transient(chain: Seq<Cause>) -> bool {
    exists|i: int|
        0 <= i < chain.len() && (#[trigger] chain[i] == Cause::WaitForActiveSession || chain[i]
            == Cause::WaitForHardware)
}

fn is_transient(chain: &Vec<Cause>) -> (r: bool)
    ensures
        r == transient(chain@),
{
    let mut i: usize = 0;
    while i < chain.len()
        invariant
            i <= chain@.len(),
            forall|j: int| 0 <= j < i ==> #[trigger] chain@[j] == Cause::Other,
        decreases chain@.len() - i,
    {
        if chain[i] != Cause::Other {
            assert(chain@[i as int] != Cause::Other);
            return true;
        }
        i += 1;
    }
    false
}

/// Whether a result is an error that passes by itself.
pub fn is_transient_supervisor_error(result: &Result<(), Vec<Cause>>) -> (r: bool)
    ensures
        r == (match *result {
            Ok(()) => false,
            Err(chain) => transient(chain@),
        }),
{
    match result {
        Ok(()) => false,
        Err(chain) => is_transient(chain),
    }
}

/// What the loop around a supervisor does next.
#[derive(Clone, Copy, Debug, PartialEq, Eq, Structural)]
pub enum LoopStep {
    /// Start the supervisor.
    Start,
    /// Wait a while, then start it again.
    Wait,
    /// Return what the supervisor returned.
    Return,
    /// Return without an error: nothing is wanted any more.
    Stop,
}

/// Before a start: none once the service is to stop.
pub fn before_start(running: bool) -> (step: LoopStep)
    ensures
        step == (if running {
            LoopStep::Start
        } else {
            LoopStep::Stop
        }),
{
    if running {
        LoopStep::Start
    } else {
        LoopStep::Stop
    }
}

/// After a supervisor returned: an error that passes by itself is waited out, and
/// anything else is returned.
pub fn after_start(result: &Result<(), Vec<Cause>>) -> (step: LoopStep)
    ensures
        step == (match *result {
            Err(chain) => if transient(chain@) {
                LoopStep::Wait
            } else {
                LoopStep::Return
            },
            Ok(()) => LoopStep::Return,
        }),
{
    if is_transient_supervisor_error(result) {
        LoopStep::Wait
    } else {
        LoopStep::Return
    }
}

/// The longest sleep between two looks at whether the service is to stop.
pub const WAIT_SLICE_NS: u64 = 10_000_000;

/// How long to sleep before looking again, and nothing once the wait is over or the
/// service is to stop.
pub fn wait_slice(running: bool, now_ns: u64, deadline_ns: u64) -> (ns: Option<u64>)
    ensures
        ns == (if !running || now_ns >= deadline_ns {
            None
        } else if deadline_ns - now_ns < WAIT_SLICE_NS {
            Some((deadline_ns - now_ns) as u64)
        } else {
            Some(WAIT_SLICE_NS)
        }),
{
    if !running || now_ns >= deadline_ns {
        return None;
    }
    let remaining: u64 = deadline_ns - now_ns;
    if remaining < WAIT_SLICE_NS {
        Some(remaining)
    } else {
        Some(WAIT_SLICE_NS)
    }
}

/// What an attempt to connect to an existing socket gives.
#[derive(Clone, Copy, Debug, PartialEq, Eq, Structural)]
pub enum SocketProbe {
    Absent,
    Connected,
    Dead,
    Failed,
}

/// What is to be done about the socket.
#[derive(Clone, Copy, Debug, PartialEq, Eq, Structural)]
pub enum SocketStep {
    Bind,
    RemoveAndBind,
    AlreadyListening,
    Fail,
}

/// A socket that nobody answers is removed; one that somebody answers is left alone.
pub fn claim_socket(probe: SocketProbe) -> (step: SocketStep)
    ensures
        step == (match probe {
            SocketProbe::Absent => SocketStep::Bind,
            SocketProbe::Connected => SocketStep::AlreadyListening,
            SocketProbe::Dead => SocketStep::RemoveAndBind,
            SocketProbe::Failed => SocketStep::Fail,
        }),
{
    match probe {
        SocketProbe::Absent => SocketStep::Bind,
        SocketProbe::Connected => SocketStep::AlreadyListening,
        SocketProbe::Dead => SocketStep::RemoveAndBind,
        SocketProbe::Failed => SocketStep::Fail,
    }
}

/// A path below another.
pub open spec fn path_below(base: Seq<u8>, rest: Seq<u8>) -> Seq<u8> {
    if base.len() == 0 {
        rest
    } else if base.last() == 0x2f {
        base + rest
    } else {
        base.push(0x2f) + rest
    }
}

fn join_path(base: &[u8], rest: &[u8]) -> (path: Vec<u8>)
    requires
        rest@.len() > 0,
    ensures
        path@ == path_below(base@, rest@),
{
    let mut path: Vec<u8> = copy_bytes(base);
    if base.len() > 0 && base[base.len() - 1] != 0x2f {
        path.push(0x2f);
    }
    append_slice(&mut path, rest);
    assert(path@ =~= path_below(base@, rest@));
    path
}

/// Why a path is not known.
#[derive(Clone, Copy, Debug, PartialEq, Eq, Structural)]
pub enum PathError {
    NoRuntimeDirectory,
    NoHome,
}

impl PathError {
    /// The words of an error.
    pub open spec fn text(self) -> Seq<char> {
        match self {
            PathError::NoRuntimeDirectory =>
            "XDG_RUNTIME_DIR is not set; no per-user supervisor is available"@,
            PathError::NoHome => "HOME is not set"@,
        }
    }

    /// The words of this error.
    pub fn message(self) -> (s: &'static str)
        ensures
            s@ == self.text(),
    {
        match self {
            PathError::NoRuntimeDirectory =>
            "XDG_RUNTIME_DIR is not set; no per-user supervisor is available",
            PathError::NoHome => "HOME is not set",
        }
    }
}

/// The socket of a user's supervisor, in the runtime directory.
pub fn supervisor_socket_path(runtime: Option<&[u8]>) -> (r: Result<Vec<u8>, PathError>)
    ensures
        match r {
            Ok(path) => runtime matches Some(dir) && path@ == path_below(
                dir@,
                "sliver/supervisor.sock".spec_bytes(),
            ),
            Err(e) => runtime is None && e == PathError::NoRuntimeDirectory,
        },
{
    match runtime {
        Some(dir) => {
            proof {
                reveal_strlit("sliver/supervisor.sock");
                is_ascii_chars_encode_utf8("sliver/supervisor.sock"@);
            }
            Ok(join_path(dir, "sliver/supervisor.sock".as_bytes()))
        },
        None => Err(PathError::NoRuntimeDirectory),
    }
}

/// The file that keeps the selected path: in the state directory, or below the home
/// directory where there is none.
pub fn selected_path_state_file(state_home: Option<&[u8]>, home: Option<&[u8]>) -> (r: Result<
    Vec<u8>,
    PathError,
>)
    ensures
        match r {
            Ok(path) => match state_home {
                Some(dir) => path@ == path_below(dir@, "sliver/config-path".spec_bytes()),
                None => home matches Some(dir) && path@ == path_below(
                    dir@,
                    ".local/state/sliver/config-path".spec_bytes(),
                ),
            },
            Err(e) => state_home is None && home is None && e == PathError::NoHome,
        },
{
    proof {
        reveal_strlit("sliver/config-path");
        reveal_strlit(".local/state/sliver/config-path");
        is_ascii_chars_encode_utf8("sliver/config-path"@);
        is_ascii_chars_encode_utf8(".local/state/sliver/config-path"@);
    }
    if let Some(dir) = state_home {
        return Ok(join_path(dir, "sliver/config-path".as_bytes()));
    }
    match home {
        Some(dir) => Ok(join_path(dir, ".local/state/sliver/config-path".as_bytes())),
        None => Err(PathError::NoHome),
    }
}

/// What failed at the end of a session.
#[derive(Clone, Copy, Debug, PartialEq, Eq, Structural)]
pub enum SessionFailure {
    /// The session ended, which is waited out.
    SessionEnded,
    Serve,
    Handoff,
    Acknowledgement,
    Shutdown,
}

/// Where a revoked session stands: whether its worker could be handed off and its end
/// acknowledged.
#[derive(Clone, Copy, Debug, PartialEq, Eq, Structural)]
pub struct Revocation {
    pub handoff_failed: bool,
    pub acknowledgement_failed: bool,
}

/// One failure where there was one.
pub open spec fn failure_if(failed: bool, failure: SessionFailure) -> Seq<SessionFailure> {
    if failed {
        seq![failure]
    } else {
        Seq::empty()
    }
}

/// Everything that failed, the error that is returned first and the others behind it as
/// what also failed: the service, then the handoff, then the shutdown. A revoked session
/// is over whatever serving it gave.
pub open spec fn session_failures(
    revoked: Option<Revocation>,
    serve_failed: bool,
    shutdown_failed: bool,
) -> Seq<SessionFailure> {
    match revoked {
        Some(r) => seq![SessionFailure::SessionEnded] + failure_if(
            r.handoff_failed,
            SessionFailure::Handoff,
        ) + failure_if(r.acknowledgement_failed, SessionFailure::Acknowledgement) + failure_if(
            shutdown_failed,
            SessionFailure::Shutdown,
        ),
        None => failure_if(serve_failed, SessionFailure::Serve) + failure_if(
            shutdown_failed,
            SessionFailure::Shutdown,
        ),
    }
}

/// Whether the supervisor shuts down as for a logout: when the session was revoked, and
/// when serving it ended well.
pub fn shuts_down_for_logout(revoked: bool, serve_failed: bool) -> (r: bool)
    ensures
        r == (revoked || !serve_failed),
{
    revoked || !serve_failed
}

/// Everything that failed at the end of a session. Nothing did where it is empty.
pub fn finish_user_session(
    revoked: Option<Revocation>,
    serve_failed: bool,
    shutdown_failed: bool,
) -> (failures: Vec<SessionFailure>)
    ensures
        failures@ == session_failures(revoked, serve_failed, shutdown_failed),
{
    let mut failures: Vec<SessionFailure> = Vec::new();
    match revoked {
        Some(r) => {
            failures.push(SessionFailure::SessionEnded);
            if r.handoff_failed {
                failures.push(SessionFailure::Handoff);
            }
            if r.acknowledgement_failed {
                failures.push(SessionFailure::Acknowledgement);
            }
        },
        None => {
            if serve_failed {
                failures.push(SessionFailure::Serve);
            }
        },
    }
    if shutdown_failed {
        failures.push(SessionFailure::Shutdown);
    }
    assert(failures@ =~= session_failures(revoked, serve_failed, shutdown_failed));
    failures
}

/// A revoked session always ends with an error that is waited out, so that the
/// supervisor starts again for the next session.
pub proof fn law_a_revoked_session_is_waited_out(
    r: Revocation,
    serve_failed: bool,
    shutdown_failed: bool,
)
    ensures
        ({
            let failures = session_failures(Some(r), serve_failed, shutdown_failed);
            failures.len() > 0 && failures[0] == SessionFailure::SessionEnded
        }),
{
}

} // verus!
