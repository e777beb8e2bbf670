//! Who may own the Touch Bar: the user of the active local session.
//!
//! The answers of the session manager arrive as plain values. A decision reads the
//! session generation before and after the other answers, so answers from two
//! different moments never make one grant.
use vstd::prelude::*;
use vstd::string::StringExecFns;

verus! {

/// What the kernel says of a connected process.
#[derive(Clone, Copy, Debug, PartialEq, Eq, Structural)]
pub struct PeerCredentials {
    pub pid: i32,
    pub uid: u32,
    pub gid: u32,
}

/// A login session.
#[derive(Clone, Debug)]
pub struct Session {
    pub id: String,
    pub uid: u32,
    pub seat: Option<String>,
    pub remote: bool,
    pub active: bool,
}

/// The session that is in the foreground of a seat.
#[derive(Clone, Debug)]
pub struct ActiveSession {
    pub id: String,
    pub uid: u32,
}

/// A decision that a user may own the Touch Bar, as of one session generation.
#[derive(Clone, Debug)]
pub struct AuthorizationGrant {
    session_id: String,
    seat: String,
    uid: u32,
    generation: u64,
}

/// What a grant holds.
pub struct GrantView {
    pub session_id: Seq<char>,
    pub seat: Seq<char>,
    pub uid: u32,
    pub generation: u64,
}

impl View for AuthorizationGrant {
    type V = GrantView;

    closed spec fn view(&self) -> GrantView {
        GrantView {
            session_id: self.session_id@,
            seat: self.seat@,
            uid: self.uid,
            generation: self.generation,
        }
    }
}

/// The rule for which no grant is given.
#[derive(Clone, Copy, Debug, PartialEq, Eq, Structural)]
pub enum Refusal {
    RootWorker,
    RootApply,
    Generation,
    ActiveLookup,
    SessionLookup,
    NoActiveUserSession,
    WorkerNotOwnedByActiveUser,
    SessionChangedOwnership,
    WorkerSessionChanged,
    NoSession,
    SessionOwner,
    Remote,
    NoSeat,
    Inactive,
    NotActiveSession,
    SessionChanged,
    CallerSessionChanged,
}

impl Refusal {
    /// What the refusal says, up to the seat where it names one.
    pub open spec fn words(self) -> Seq<char> {
        match self {
            Refusal::RootWorker => "root is not authorized to own Sliver workers"@,
            Refusal::RootApply => "root is not authorized to apply Sliver configurations"@,
            Refusal::Generation => "reading the logind session generation"@,
            Refusal::ActiveLookup => "looking up the active logind session on "@,
            Refusal::SessionLookup => "looking up the caller's logind session"@,
            Refusal::NoActiveUserSession => "no local user session is active"@,
            Refusal::WorkerNotOwnedByActiveUser => "worker is not owned by the active user"@,
            Refusal::SessionChangedOwnership => "session changed while checking worker ownership"@,
            Refusal::WorkerSessionChanged => "worker session changed during broker request"@,
            Refusal::NoSession => "caller does not belong to a logind session"@,
            Refusal::SessionOwner => "kernel peer UID does not own the caller's logind session"@,
            Refusal::Remote => "remote sessions are not authorized to apply Sliver configurations"@,
            Refusal::NoSeat => "caller session is not attached to a local seat"@,
            Refusal::Inactive => "caller logind session is inactive"@,
            Refusal::NotActiveSession => "caller session is not the active session on seat "@,
            Refusal::SessionChanged => "session changed while checking authorization"@,
            Refusal::CallerSessionChanged => "caller session changed during config apply"@,
        }
    }

    /// The refusal is about the session in the foreground of a seat, which it names.
    pub open spec fn names_seat(self) -> bool {
        self == Refusal::ActiveLookup || self == Refusal::NotActiveSession
    }

    /// Refusals after which the same request can succeed without the user doing
    /// anything: the session is about to become active or has just changed.
    pub open spec fn waits_for_session(self) -> bool {
        self == Refusal::NoActiveUserSession || self == Refusal::SessionChangedOwnership || self
            == Refusal::WorkerSessionChanged || self == Refusal::WorkerNotOwnedByActiveUser
    }

    fn spelled(self) -> (s: &'static str)
        ensures
            s@ == self.words(),
    {
        match self {
            Refusal::RootWorker => "root is not authorized to own Sliver workers",
            Refusal::RootApply => "root is not authorized to apply Sliver configurations",
            Refusal::Generation => "reading the logind session generation",
            Refusal::ActiveLookup => "looking up the active logind session on ",
            Refusal::SessionLookup => "looking up the caller's logind session",
            Refusal::NoActiveUserSession => "no local user session is active",
            Refusal::WorkerNotOwnedByActiveUser => "worker is not owned by the active user",
            Refusal::SessionChangedOwnership => "session changed while checking worker ownership",
            Refusal::WorkerSessionChanged => "worker session changed during broker request",
            Refusal::NoSession => "caller does not belong to a logind session",
            Refusal::SessionOwner => "kernel peer UID does not own the caller's logind session",
            Refusal::Remote => "remote sessions are not authorized to apply Sliver configurations",
            Refusal::NoSeat => "caller session is not attached to a local seat",
            Refusal::Inactive => "caller logind session is inactive",
            Refusal::NotActiveSession => "caller session is not the active session on seat ",
            Refusal::SessionChanged => "session changed while checking authorization",
            Refusal::CallerSessionChanged => "caller session changed during config apply",
        }
    }
}

/// Why no grant is given.
#[derive(Debug)]
pub struct AuthorizationError {
    pub refusal: Refusal,
    /// The seat that was asked about. It is empty where a caller has none.
    pub seat: String,
}

impl AuthorizationError {
    /// What the error says.
    pub open spec fn text(self) -> Seq<char> {
        refusal_text(self.refusal, self.seat@)
    }

    /// What this error says.
    pub fn message(&self) -> (s: String)
        ensures
            s@ == self.text(),
    {
        let mut s: String = self.refusal.spelled().to_owned();
        match self.refusal {
            Refusal::ActiveLookup => s.append(self.seat.as_str()),
            Refusal::NotActiveSession => s.append(self.seat.as_str()),
            _ => {},
        }
        s
    }
}

/// What a refusal about a seat says.
pub open spec fn refusal_text(refusal: Refusal, seat: Seq<char>) -> Seq<char> {
    if refusal.names_seat() {
        refusal.words() + seat
    } else {
        refusal.words()
    }
}

/// The answers of the session manager to one ownership question, in the order in
/// which they were given. A query that failed has no answer.
pub struct OwnershipAnswers {
    pub generation_before: Option<u64>,
    pub active: Option<Option<ActiveSession>>,
    pub generation_after: Option<u64>,
}

/// The answers of the session manager to one question about a caller.
pub struct CallerAnswers {
    pub generation_before: Option<u64>,
    pub session: Option<Option<Session>>,
    pub active: Option<Option<ActiveSession>>,
    pub generation_after: Option<u64>,
}

impl OwnershipAnswers {
    /// Which rule an owner breaks, the first one in the order of the checks.
    pub open spec fn refusal(self, uid: u32) -> Option<Refusal> {
        if uid == 0 {
            Some(Refusal::RootWorker)
        } else if self.generation_before is None {
            Some(Refusal::Generation)
        } else if self.active is None {
            Some(Refusal::ActiveLookup)
        } else if self.active->0 is None {
            Some(Refusal::NoActiveUserSession)
        } else if self.active->0->0.uid != uid {
            Some(Refusal::WorkerNotOwnedByActiveUser)
        } else if self.generation_after is None {
            Some(Refusal::Generation)
        } else if self.generation_before != self.generation_after {
            Some(Refusal::SessionChangedOwnership)
        } else {
            None
        }
    }

    /// The grant that the answers justify.
    pub open spec fn grant(self, uid: u32, seat: Seq<char>) -> GrantView {
        GrantView {
            session_id: self.active->0->0.id@,
            seat,
            uid,
            generation: self.generation_after->0,
        }
    }
}

impl CallerAnswers {
    /// The seat of the caller's session, empty where there is none.
    pub open spec fn seat(self) -> Seq<char> {
        match self.session {
            Some(Some(session)) => match session.seat {
                Some(seat) => seat@,
                None => Seq::empty(),
            },
            _ => Seq::empty(),
        }
    }

    /// Which rule a caller breaks, the first one in the order of the checks.
    pub open spec fn refusal(self, peer: PeerCredentials) -> Option<Refusal> {
        if peer.uid == 0 {
            Some(Refusal::RootApply)
        } else if self.generation_before is None {
            Some(Refusal::Generation)
        } else if self.session is None {
            Some(Refusal::SessionLookup)
        } else if self.session->0 is None {
            Some(Refusal::NoSession)
        } else {
            let session = self.session->0->0;
            if session.uid != peer.uid {
                Some(Refusal::SessionOwner)
            } else if session.remote {
                Some(Refusal::Remote)
            } else if session.seat is None {
                Some(Refusal::NoSeat)
            } else if !session.active {
                Some(Refusal::Inactive)
            } else if self.active is None {
                Some(Refusal::ActiveLookup)
            } else if !(self.active->0 matches Some(active) && active.id@ == session.id@
                && active.uid == peer.uid) {
                Some(Refusal::NotActiveSession)
            } else if self.generation_after is None {
                Some(Refusal::Generation)
            } else if self.generation_before != self.generation_after {
                Some(Refusal::SessionChanged)
            } else {
                None
            }
        }
    }

    /// The grant that the answers justify.
    pub open spec fn grant(self, peer: PeerCredentials) -> GrantView {
        GrantView {
            session_id: self.session->0->0.id@,
            seat: self.session->0->0.seat->0@,
            uid: peer.uid,
            generation: self.generation_after->0,
        }
    }
}

impl AuthorizationGrant {
    /// The user who holds the grant.
    pub fn uid(&self) -> (uid: u32)
        ensures
            uid == self@.uid,
    {
        self.uid
    }

    /// The seat that the grant is for.
    pub fn seat(&self) -> (seat: &str)
        ensures
            seat@ == self@.seat,
    {
        self.seat.as_str()
    }

    /// Whether two grants are the same in every part.
    pub fn equals(&self, other: &AuthorizationGrant) -> (r: bool)
        ensures
            r == (self@ == other@),
    {
        self.session_id == other.session_id && self.seat == other.seat && self.uid == other.uid
            && self.generation == other.generation
    }
}

fn check_owner(uid: u32, answers: &OwnershipAnswers) -> (r: Result<(&String, u64), Refusal>)
    ensures
        match r {
            Ok((id, generation)) => answers.refusal(uid) is None && id@
                == answers.active->0->0.id@ && answers.generation_after == Some(generation),
            Err(refusal) => answers.refusal(uid) == Some(refusal),
        },
{
    if uid == 0 {
        return Err(Refusal::RootWorker);
    }
    let before: u64 = match answers.generation_before {
        Some(generation) => generation,
        None => {
            return Err(Refusal::Generation);
        },
    };
    let session: &ActiveSession = match &answers.active {
        Some(Some(session)) => session,
        Some(None) => {
            return Err(Refusal::NoActiveUserSession);
        },
        None => {
            return Err(Refusal::ActiveLookup);
        },
    };
    if session.uid != uid {
        return Err(Refusal::WorkerNotOwnedByActiveUser);
    }
    let after: u64 = match answers.generation_after {
        Some(generation) => generation,
        None => {
            return Err(Refusal::Generation);
        },
    };
    if before != after {
        return Err(Refusal::SessionChangedOwnership);
    }
    Ok((&session.id, after))
}

/// Grants the Touch Bar to the user of the active session of a seat.
pub fn authorize_active_uid(uid: u32, seat: &str, answers: &OwnershipAnswers) -> (r: Result<
    AuthorizationGrant,
    AuthorizationError,
>)
    ensures
        match r {
            Ok(grant) => answers.refusal(uid) is None && grant@ == answers.grant(uid, seat@),
            Err(e) => answers.refusal(uid) == Some(e.refusal) && e.seat@ == seat@,
        },
{
    match check_owner(uid, answers) {
        Ok((id, generation)) => Ok(
            AuthorizationGrant { session_id: id.clone(), seat: seat.to_owned(), uid, generation },
        ),
        Err(refusal) => Err(AuthorizationError { refusal, seat: seat.to_owned() }),
    }
}

/// Whether an owner's grant still stands: the same answers would give the same grant.
pub fn recheck_active_uid(
    uid: u32,
    expected: &AuthorizationGrant,
    answers: &OwnershipAnswers,
) -> (r: Result<(), AuthorizationError>)
    ensures
        match r {
            Ok(()) => answers.refusal(uid) is None && answers.grant(uid, expected@.seat)
                == expected@,
            Err(e) => e.seat@ == expected@.seat && (match answers.refusal(uid) {
                Some(refusal) => e.refusal == refusal,
                None => answers.grant(uid, expected@.seat) != expected@ && e.refusal
                    == Refusal::WorkerSessionChanged,
            }),
        },
{
    let current: AuthorizationGrant = match authorize_active_uid(uid, expected.seat(), answers) {
        Ok(current) => current,
        Err(e) => {
            return Err(e);
        },
    };
    if current.equals(expected) {
        Ok(())
    } else {
        Err(
            AuthorizationError {
                refusal: Refusal::WorkerSessionChanged,
                seat: expected.seat().to_owned(),
            },
        )
    }
}

fn check_caller(peer: PeerCredentials, answers: &CallerAnswers) -> (r: Result<
    (&String, u64),
    Refusal,
>)
    ensures
        match r {
            Ok((id, generation)) => answers.refusal(peer) is None && id@
                == answers.session->0->0.id@ && answers.generation_after == Some(generation),
            Err(refusal) => answers.refusal(peer) == Some(refusal),
        },
{
    if peer.uid == 0 {
        return Err(Refusal::RootApply);
    }
    let before: u64 = match answers.generation_before {
        Some(generation) => generation,
        None => {
            return Err(Refusal::Generation);
        },
    };
    let session: &Session = match &answers.session {
        Some(Some(session)) => session,
        Some(None) => {
            return Err(Refusal::NoSession);
        },
        None => {
            return Err(Refusal::SessionLookup);
        },
    };
    if session.uid != peer.uid {
        return Err(Refusal::SessionOwner);
    }
    if session.remote {
        return Err(Refusal::Remote);
    }
    if session.seat.is_none() {
        return Err(Refusal::NoSeat);
    }
    if !session.active {
        return Err(Refusal::Inactive);
    }
    let active: &Option<ActiveSession> = match &answers.active {
        Some(active) => active,
        None => {
            return Err(Refusal::ActiveLookup);
        },
    };
    let foreground: bool = match active {
        Some(active) => active.id == session.id && active.uid == peer.uid,
        None => false,
    };
    if !foreground {
        return Err(Refusal::NotActiveSession);
    }
    let after: u64 = match answers.generation_after {
        Some(generation) => generation,
        None => {
            return Err(Refusal::Generation);
        },
    };
    if before != after {
        return Err(Refusal::SessionChanged);
    }
    Ok((&session.id, after))
}

fn caller_seat(answers: &CallerAnswers) -> (seat: String)
    ensures
        seat@ == answers.seat(),
{
    if let Some(Some(session)) = &answers.session {
        if let Some(seat) = &session.seat {
            return seat.clone();
        }
    }
    let seat: String = String::new();
    assert(seat@ =~= Seq::empty());
    seat
}

/// Grants a configuration change to a caller in the active local session.
pub fn authorize(peer: PeerCredentials, answers: &CallerAnswers) -> (r: Result<
    AuthorizationGrant,
    AuthorizationError,
>)
    ensures
        match r {
            Ok(grant) => answers.refusal(peer) is None && grant@ == answers.grant(peer),
            Err(e) => answers.refusal(peer) == Some(e.refusal) && e.seat@ == answers.seat(),
        },
{
    let seat: String = caller_seat(answers);
    match check_caller(peer, answers) {
        Ok((id, generation)) => Ok(
            AuthorizationGrant { session_id: id.clone(), seat, uid: peer.uid, generation },
        ),
        Err(refusal) => Err(AuthorizationError { refusal, seat }),
    }
}

/// Whether a caller's grant still stands: the same answers would give the same grant.
pub fn recheck(
    peer: PeerCredentials,
    expected: &AuthorizationGrant,
    answers: &CallerAnswers,
) -> (r: Result<(), AuthorizationError>)
    ensures
        match r {
            Ok(()) => answers.refusal(peer) is None && answers.grant(peer) == expected@,
            Err(e) => e.seat@ == answers.seat() && (match answers.refusal(peer) {
                Some(refusal) => e.refusal == refusal,
                None => answers.grant(peer) != expected@ && e.refusal
                    == Refusal::CallerSessionChanged,
            }),
        },
{
    let current: AuthorizationGrant = match authorize(peer, answers) {
        Ok(current) => current,
        Err(e) => {
            return Err(e);
        },
    };
    if current.equals(expected) {
        Ok(())
    } else {
        Err(
            AuthorizationError {
                refusal: Refusal::CallerSessionChanged,
                seat: caller_seat(answers),
            },
        )
    }
}

/// Root is refused whatever the session manager answers.
pub proof fn law_root_is_never_authorized(
    peer: PeerCredentials,
    caller: CallerAnswers,
    owner: OwnershipAnswers,
)
    requires
        peer.uid == 0,
    ensures
        caller.refusal(peer) == Some(Refusal::RootApply),
        owner.refusal(peer.uid) == Some(Refusal::RootWorker),
{
}

/// A grant of one generation never passes a recheck in another, even where every
/// other answer is the same.
pub proof fn law_generation_change_invalidates_a_grant(
    peer: PeerCredentials,
    grant: GrantView,
    caller: CallerAnswers,
    owner: OwnershipAnswers,
)
    requires
        caller.generation_after != Some(grant.generation),
        owner.generation_after != Some(grant.generation),
    ensures
        caller.refusal(peer) is Some || caller.grant(peer) != grant,
        owner.refusal(peer.uid) is Some || owner.grant(peer.uid, grant.seat) != grant,
{
}

/// A grant is only ever given to the user of the active session, on answers of a
/// single generation.
pub proof fn law_grants_are_for_the_active_user(
    peer: PeerCredentials,
    caller: CallerAnswers,
    owner: OwnershipAnswers,
    seat: Seq<char>,
)
    ensures
        caller.refusal(peer) is None ==> caller.active->0->0.uid == peer.uid && peer.uid != 0
            && caller.grant(peer).uid == peer.uid && caller.generation_before
            == caller.generation_after,
        owner.refusal(peer.uid) is None ==> owner.active->0->0.uid == peer.uid && peer.uid != 0
            && owner.grant(peer.uid, seat).uid == peer.uid && owner.generation_before
            == owner.generation_after,
{
}

} // verus!
