use vstd::prelude::*;

use crate::tty::Size;

verus! {

/// The first message a client sends on a fresh socket. Its variant selects the
/// kind of connection, and with it the shape of the reply that follows.
#[derive(Debug)]
pub enum ConnectHeader {
    /// Attach to the named session; the daemon answers with an
    /// `AttachReplyHeader` and, on success, the output stream.
    Attach(AttachHeader),
    /// List the active sessions; answered with a `ListReply`.
    List,
    /// A message routed to one running session; answered with a
    /// `SessionMessageReply`.
    SessionMessage(SessionMessageRequest),
    /// Detach the listed sessions; answered with a `DetachReply`.
    Detach(DetachRequest),
    /// Kill the listed sessions; answered with a `KillReply`.
    Kill(KillRequest),
}

/// A request to kill the named sessions.
#[derive(Debug)]
pub struct KillRequest {
    pub sessions: Vec<String>,
}

#[derive(Debug)]
pub struct KillReply {
    pub not_found_sessions: Vec<String>,
}

/// A request to detach the clients of the named sessions.
#[derive(Debug)]
pub struct DetachRequest {
    pub sessions: Vec<String>,
}

#[derive(Debug)]
pub struct DetachReply {
    pub not_found_sessions: Vec<String>,
    pub not_attached_sessions: Vec<String>,
}

/// A request for the session called `session_name`.
#[derive(Debug)]
pub struct SessionMessageRequest {
    pub session_name: String,
    pub payload: SessionMessageRequestPayload,
}

#[derive(Debug)]
pub enum SessionMessageRequestPayload {
    /// Resize the session's pty, sent when the local terminal changes size.
    Resize(ResizeRequest),
    /// Detach the session's client.
    Detach,
}

/// Resizes a session's pty. It travels on a socket of its own so that the
/// input stream needs no framing.
#[derive(Debug)]
pub struct ResizeRequest {
    pub tty_size: Size,
}

#[derive(Debug, PartialEq, Eq, Structural)]
pub enum SessionMessageReply {
    /// No session of that name exists.
    NotFound,
    /// No client is attached to the session, so it cannot take messages.
    NotAttached,
    Resize(ResizeReply),
    Detach(SessionMessageDetachReply),
}

#[derive(Debug, PartialEq, Eq, Structural)]
pub enum SessionMessageDetachReply {
    Success,
}

#[derive(Debug, PartialEq, Eq, Structural)]
pub enum ResizeReply {
    Success,
}

/// What a client sends to attach to (or create) a session.
#[derive(Debug)]
pub struct AttachHeader {
    /// The session to attach to or create.
    pub name: String,
    /// The size of the local terminal, so that the remote pty can match it.
    pub local_tty_size: Size,
    /// A few variables of the local environment, as an association list:
    /// duplicates are allowed and the first entry of a key wins.
    pub local_env: Vec<(String, String)>,
}

/// Whether entry `i` of `env` has the key `k`.
pub open spec fn env_key_is(env: Seq<(String, String)>, i: int, k: Seq<char>) -> bool {
    env[i].0@ == k
}

impl Default for AttachHeader {
    fn default() -> (r: AttachHeader)
        ensures
            r.name@ == Seq::<char>::empty(),
            r.local_tty_size == Size::zero(),
            r.local_env@ == Seq::<(String, String)>::empty(),
    {
        AttachHeader { name: String::new(), local_tty_size: Size::default(), local_env: Vec::new() }
    }
}

impl AttachHeader {
    /// The value of the first entry of `local_env` whose key is `var`, if any.
    pub fn local_env_get<'a>(&'a self, var: &str) -> (r: Option<&'a str>)
        ensures
            match r {
                Some(v) => exists|i: int|
                    0 <= i < self.local_env@.len()
                        && #[trigger] env_key_is(self.local_env@, i, var@)
                        && v@ == self.local_env@[i].1@
                        && forall|j: int| 0 <= j < i ==> !env_key_is(self.local_env@, j, var@),
                None => forall|i: int|
                    0 <= i < self.local_env@.len() ==> !#[trigger] env_key_is(
                        self.local_env@,
                        i,
                        var@,
                    ),
            },
    {
        let wanted: String = var.to_owned();
        let mut i: usize = 0;
        while i < self.local_env.len()
            invariant
                0 <= i <= self.local_env@.len(),
                wanted@ == var@,
                forall|j: int| 0 <= j < i ==> !env_key_is(self.local_env@, j, var@),
            decreases self.local_env@.len() - i,
        {
            let entry = &self.local_env[i];
            if entry.0.eq(&wanted) {
                assert(env_key_is(self.local_env@, i as int, var@));
                return Some(entry.1.as_str());
            }
            i += 1;
        }
        None
    }
}

/// The daemon's answer to an attach request.
#[derive(Debug)]
pub struct AttachReplyHeader {
    pub status: AttachStatus,
}

/// The active sessions.
pub struct ListReply {
    pub sessions: Vec<Session>,
}

/// One active session.
pub struct Session {
    pub name: String,
    pub started_at_unix_ms: i64,
}

#[derive(Debug)]
pub struct LocalCommandSetMetadataReply {
    pub status: LocalCommandSetMetadataStatus,
}

#[derive(Debug, PartialEq, Eq, Structural)]
pub enum LocalCommandSetMetadataStatus {
    /// Waiting for the remote command thread timed out.
    Timeout,
    /// The lock was released and the attach may go on.
    Success,
}

/// What came of an attach attempt.
#[derive(Debug)]
pub enum AttachStatus {
    /// An existing session was joined.
    Attached,
    /// No session had the name, so a new one was started.
    Created,
    /// The session exists but another client is attached to it.
    Busy,
    /// The daemon refused the connection for security reasons.
    Forbidden(String),
    /// Something else went wrong.
    UnexpectedError(String),
}

impl PartialEq for AttachStatus {
    fn eq(&self, other: &AttachStatus) -> (r: bool) {
        match (self, other) {
            (AttachStatus::Attached, AttachStatus::Attached) => true,
            (AttachStatus::Created, AttachStatus::Created) => true,
            (AttachStatus::Busy, AttachStatus::Busy) => true,
            (AttachStatus::Forbidden(a), AttachStatus::Forbidden(b)) => a.eq(b),
            (AttachStatus::UnexpectedError(a), AttachStatus::UnexpectedError(b)) => a.eq(b),
            _ => false,
        }
    }
}

impl vstd::std_specs::cmp::PartialEqSpecImpl for AttachStatus {
    open spec fn obeys_eq_spec() -> bool {
        true
    }

    open spec fn eq_spec(&self, other: &AttachStatus) -> bool {
        match (*self, *other) {
            (AttachStatus::Attached, AttachStatus::Attached) => true,
            (AttachStatus::Created, AttachStatus::Created) => true,
            (AttachStatus::Busy, AttachStatus::Busy) => true,
            (AttachStatus::Forbidden(a), AttachStatus::Forbidden(b)) => a@ == b@,
            (AttachStatus::UnexpectedError(a), AttachStatus::UnexpectedError(b)) => a@ == b@,
            _ => false,
        }
    }
}

impl Eq for AttachStatus {
}

} // verus!
