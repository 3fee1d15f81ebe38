//! The sessions that a server holds: how many it takes, and how they are
//! found and ended.

use vstd::prelude::*;
use vstd::string::*;
use crate::error::ErrorCode;
use crate::key_escape::{hex_char, hex_str};
use crate::snapshot::random_snapshot_id;
use crate::text::str_eq;

verus! {

/// The hexadecimal digit at place `i` of a 128-bit number, the most
/// significant first.
pub open spec fn nibble_of(id: u128, i: int) -> int {
    ((id >> ((124 - 4 * i) as u128)) & 0xf) as int
}

/// The first `n` digits of the text of an identifier, with the hyphens
/// behind the eighth, twelfth, sixteenth and twentieth digit.
pub open spec fn uuid_digits(id: u128, n: int) -> Seq<char>
    decreases n,
{
    if n <= 0 {
        Seq::empty()
    } else {
        uuid_digits(id, n - 1) + (if n == 9 || n == 13 || n == 17 || n == 21 {
            seq!['-']
        } else {
            Seq::<char>::empty()
        }) + seq![hex_char(nibble_of(id, n - 1))]
    }
}

/// The text of an identifier: thirty-two hexadecimal digits in five groups
/// with hyphens between them.
pub open spec fn uuid_text_of(id: u128) -> Seq<char> {
    uuid_digits(id, 32)
}

/// Writes an identifier as text.
pub fn uuid_text(id: u128) -> (r: String)
    ensures
        r@ == uuid_text_of(id),
{
    proof {
        reveal_strlit("");
        reveal_strlit("-");
    }
    let mut r = String::from_str("");
    let mut n: u32 = 0;
    while n < 32
        invariant
            n <= 32,
            r@ == uuid_digits(id, n as int),
        decreases 32 - n,
    {
        if n == 8 || n == 12 || n == 16 || n == 20 {
            proof {
                reveal_strlit("-");
            }
            r.append("-");
        }
        let shifted: u128 = id >> ((124 - 4 * n) as u128);
        let low: u128 = shifted & 0xf;
        assert(low < 16) by (bit_vector)
            requires
                low == shifted & 0xf,
        ;
        let nibble: u8 = low as u8;
        r.append(hex_str(nibble));
        n += 1;
    }
    r
}

/// A session of a client.
#[derive(Debug, Clone, PartialEq, Eq)]
pub struct Session {
    /// The identifier of the session.
    pub id: String,
    /// The kind of the session.
    pub typ: String,
}

/// The sessions of a server. No two sessions have one identifier.
pub struct SessionManager {
    max_sessions: usize,
    active_sessions: Vec<Session>,
}

/// The place of the first session of the identifier `id`, or the number of
/// sessions where there is none.
pub open spec fn session_index(sessions: Seq<Session>, id: Seq<char>) -> int
    decreases sessions.len(),
{
    if sessions.len() == 0 {
        0
    } else if sessions[0].id@ == id {
        0
    } else {
        1 + session_index(sessions.drop_first(), id)
    }
}

/// `session_index` is within the sessions or just behind them, names the
/// identifier where it is within, and passes no session of the identifier.
pub proof fn lemma_session_index(sessions: Seq<Session>, id: Seq<char>)
    ensures
        0 <= session_index(sessions, id) <= sessions.len(),
        session_index(sessions, id) < sessions.len() ==> sessions[session_index(sessions, id)].id@
            == id,
        forall|i: int| 0 <= i < session_index(sessions, id) ==> (#[trigger] sessions[i]).id@ != id,
    decreases sessions.len(),
{
    if sessions.len() == 0 {
    } else if sessions[0].id@ == id {
    } else {
        let t = sessions.drop_first();
        lemma_session_index(t, id);
        assert forall|i: int| 0 <= i < session_index(sessions, id) implies (
        #[trigger] sessions[i]).id@ != id by {
            if i > 0 {
                assert(t[i - 1] == sessions[i]);
            }
        }
    }
}

/// A place that names the identifier (or the end) and passes no session of
/// it is `session_index`.
pub proof fn lemma_session_index_unique(sessions: Seq<Session>, id: Seq<char>, k: int)
    requires
        0 <= k <= sessions.len(),
        k < sessions.len() ==> sessions[k].id@ == id,
        forall|i: int| 0 <= i < k ==> (#[trigger] sessions[i]).id@ != id,
    ensures
        session_index(sessions, id) == k,
{
    lemma_session_index(sessions, id);
}

/// The message for a server that takes no further connection.
pub open spec fn too_many_connections_message() -> Seq<char> {
    "The current accept connection has exceeded mysql_handler_thread_num config"@
}

impl SessionManager {
    /// No two sessions have one identifier.
    pub closed spec fn wf(&self) -> bool {
        forall|i: int, j: int|
            0 <= i < j < self.active_sessions@.len() ==> (#[trigger] self.active_sessions@[i]).id@
                != (#[trigger] self.active_sessions@[j]).id@
    }

    /// The sessions, in the order in which they were taken.
    pub closed spec fn sessions(&self) -> Seq<Session> {
        self.active_sessions@
    }

    /// How many sessions the server takes at most.
    pub closed spec fn limit(&self) -> usize {
        self.max_sessions
    }

    /// Whether a session of the identifier is held.
    pub open spec fn holds(&self, id: Seq<char>) -> bool {
        session_index(self.sessions(), id) < self.sessions().len()
    }

    /// A manager that takes `max_active_sessions` sessions at most, and
    /// holds none.
    pub fn from_conf(max_active_sessions: usize) -> (r: Self)
        ensures
            r.wf(),
            r.limit() == max_active_sessions,
            r.sessions().len() == 0,
    {
        SessionManager { max_sessions: max_active_sessions, active_sessions: Vec::new() }
    }

    /// How many sessions are held.
    pub fn active_count(&self) -> (r: usize)
        ensures
            r == self.sessions().len(),
    {
        self.active_sessions.len()
    }

    /// The place of the session of the identifier `id`, if it is held.
    fn find(&self, id: &str) -> (r: Option<usize>)
        ensures
            match r {
                Some(i) => i == session_index(self.sessions(), id@) && i < self.sessions().len(),
                None => session_index(self.sessions(), id@) == self.sessions().len(),
            },
    {
        let mut i: usize = 0;
        while i < self.active_sessions.len()
            invariant
                i <= self.active_sessions.len(),
                forall|j: int| 0 <= j < i ==> (#[trigger] self.active_sessions@[j]).id@ != id@,
            decreases self.active_sessions.len() - i,
        {
            if str_eq(self.active_sessions[i].id.as_str(), id) {
                proof {
                    lemma_session_index_unique(self.active_sessions@, id@, i as int);
                }
                return Some(i);
            }
            i += 1;
        }
        proof {
            lemma_session_index_unique(self.active_sessions@, id@, i as int);
        }
        None
    }

    /// Takes a session of the kind `typ` under the identifier `id`, unless
    /// as many sessions are held as the server takes. A session that is
    /// held under the identifier gives way to the new one.
    pub fn create_session_with_id(&mut self, id: String, typ: &str) -> (r: Result<
        Session,
        ErrorCode,
    >)
        requires
            old(self).wf(),
        ensures
            final(self).wf(),
            final(self).limit() == old(self).limit(),
            match r {
                Ok(session) => {
                    &&& old(self).sessions().len() != old(self).limit()
                    &&& session.id@ == id@
                    &&& session.typ@ == typ@
                    &&& final(self).holds(id@)
                    &&& final(self).sessions()[session_index(final(self).sessions(), id@)].typ@
                        == typ@
                    &&& final(self).sessions().len() == (if old(self).holds(id@) {
                        old(self).sessions().len()
                    } else {
                        old(self).sessions().len() + 1
                    })
                    &&& forall|other: Seq<char>|
                        other != id@ ==> (final(self).holds(other) == old(self).holds(other))
                },
                Err(e) => old(self).sessions().len() == old(self).limit() && final(self).sessions() == old(self).sessions() && (e matches ErrorCode::TooManyUserConnections(
                    m,
                ) && m@ == too_many_connections_message()),
            },
    {
        if self.active_sessions.len() == self.max_sessions {
            return Err(
                ErrorCode::TooManyUserConnections(
                    String::from_str(
                        "The current accept connection has exceeded mysql_handler_thread_num config",
                    ),
                ),
            );
        }
        let session = Session { id: id.clone(), typ: String::from_str(typ) };
        let kept = Session { id, typ: String::from_str(typ) };
        let ghost before = self.active_sessions@;
        match self.find(kept.id.as_str()) {
            Some(i) => {
                self.active_sessions.set(i, kept);
                proof {
                    let after = self.active_sessions@;
                    lemma_session_index(before, id@);
                    lemma_session_index_unique(after, id@, i as int);
                    assert forall|other: Seq<char>| other != id@ implies (session_index(
                        after,
                        other,
                    ) < after.len()) == (session_index(before, other) < before.len()) by {
                        lemma_same_ids_same_index(before, after, other);
                    }
                }
            },
            None => {
                self.active_sessions.push(kept);
                proof {
                    let after = self.active_sessions@;
                    lemma_session_index(before, id@);
                    lemma_session_index_unique(after, id@, before.len() as int);
                    assert forall|other: Seq<char>| other != id@ implies (session_index(
                        after,
                        other,
                    ) < after.len()) == (session_index(before, other) < before.len()) by {
                        lemma_pushed_other_id(before, after, other);
                    }
                }
            },
        }
        Ok(session)
    }

    /// Takes a session of the kind `typ` under a fresh random identifier,
    /// unless as many sessions are held as the server takes.
    pub fn create_session(&mut self, typ: &str) -> (r: Result<Session, ErrorCode>)
        requires
            old(self).wf(),
        ensures
            final(self).wf(),
            final(self).limit() == old(self).limit(),
            r is Err == (old(self).sessions().len() == old(self).limit()),
            r is Err ==> final(self).sessions() == old(self).sessions(),
            r matches Ok(session) ==> session.typ@ == typ@ && final(self).holds(session.id@) && (
            exists|id: u128| session.id@ == #[trigger] uuid_text_of(id)),
    {
        let id = random_snapshot_id();
        self.create_session_with_id(uuid_text(id), typ)
    }

    /// The session of a call from another node: the one that is held under
    /// the identifier, or a new one, which is not made while the server
    /// shuts down.
    pub fn create_rpc_session(&mut self, id: String, aborted: bool) -> (r: Result<Session, ErrorCode>)
        requires
            old(self).wf(),
        ensures
            final(self).wf(),
            final(self).limit() == old(self).limit(),
            match r {
                Ok(session) => session.id@ == id@ && final(self).holds(id@) && (if old(self).holds(
                    id@,
                ) {
                    final(self).sessions() == old(self).sessions() && session.typ@
                        == old(self).sessions()[session_index(old(self).sessions(), id@)].typ@
                } else {
                    !aborted && final(self).sessions().len() == old(self).sessions().len() + 1
                        && session.typ@ == "RPCSession"@
                }),
                Err(e) => !old(self).holds(id@) && aborted && final(self).sessions() == old(self).sessions() && e is AbortedSession,
            },
    {
        match self.find(id.as_str()) {
            Some(i) => {
                proof {
                    lemma_session_index(self.active_sessions@, id@);
                }
                let held = &self.active_sessions[i];
                Ok(Session { id: held.id.clone(), typ: held.typ.clone() })
            },
            None => {
                if aborted {
                    return Err(ErrorCode::AbortedSession(String::from_str("Aborting server.")));
                }
                let session = Session { id: id.clone(), typ: String::from_str("RPCSession") };
                let ghost before = self.active_sessions@;
                self.active_sessions.push(Session { id, typ: String::from_str("RPCSession") });
                proof {
                    let after = self.active_sessions@;
                    lemma_session_index(before, id@);
                    lemma_session_index_unique(after, id@, before.len() as int);
                }
                Ok(session)
            },
        }
    }

    /// The session of the identifier `id`, if it is held.
    pub fn get_session(&self, id: &str) -> (r: Option<&Session>)
        ensures
            match r {
                Some(session) => self.holds(id@) && *session == self.sessions()[session_index(
                    self.sessions(),
                    id@,
                )],
                None => !self.holds(id@),
            },
    {
        match self.find(id) {
            Some(i) => Some(&self.active_sessions[i]),
            None => None,
        }
    }

    /// Ends the session of the identifier `session_id`, if it is held.
    pub fn destroy_session(&mut self, session_id: &str)
        requires
            old(self).wf(),
        ensures
            final(self).wf(),
            final(self).limit() == old(self).limit(),
            !final(self).holds(session_id@),
            final(self).sessions().len() == (if old(self).holds(session_id@) {
                old(self).sessions().len() - 1
            } else {
                old(self).sessions().len() as int
            }),
            forall|other: Seq<char>|
                other != session_id@ ==> (final(self).holds(other) == old(self).holds(other)),
    {
        let ghost before = self.active_sessions@;
        match self.find(session_id) {
            Some(i) => {
                self.active_sessions.remove(i);
                proof {
                    let after = self.active_sessions@;
                    lemma_session_index(before, session_id@);
                    lemma_session_index_unique(after, session_id@, after.len() as int);
                    assert forall|other: Seq<char>| other != session_id@ implies (session_index(
                        after,
                        other,
                    ) < after.len()) == (session_index(before, other) < before.len()) by {
                        lemma_removed_other_id(before, after, i as int, other);
                    }
                }
            },
            None => {},
        }
    }

    /// Whether no session is left, after the idle ones were asked to end.
    pub fn destroy_idle_sessions(&self) -> (r: bool)
        ensures
            r == (self.sessions().len() == 0),
    {
        self.active_sessions.len() == 0
    }
}

/// How many times a server that shuts down waits for its sessions to end.
pub const SHUTDOWN_ROUNDS: u32 = 5;

/// What a server that shuts down does next.
#[derive(Debug, Clone, Copy, PartialEq, Eq, Structural)]
pub enum ShutdownStep {
    /// No session is left: the server is down.
    Done,
    /// Sessions are left: the server waits a second, or for the signal.
    Wait,
    /// The sessions that are left are ended by force.
    ForceKill,
}

/// The next step of a server that shuts down. `waits` is how often it has
/// waited, `has_signal` whether there is a signal that can cut the waiting
/// short, `signalled` whether that signal has come, and `idle` whether no
/// session is left. Without a signal the sessions are ended by force at
/// once; with one the server waits up to five times for them to end.
pub fn shutdown_step(has_signal: bool, signalled: bool, waits: u32, idle: bool) -> (r: ShutdownStep)
    ensures
        r == (if !has_signal || signalled || waits >= SHUTDOWN_ROUNDS {
            ShutdownStep::ForceKill
        } else if idle {
            ShutdownStep::Done
        } else {
            ShutdownStep::Wait
        }),
{
    if !has_signal || signalled || waits >= SHUTDOWN_ROUNDS {
        ShutdownStep::ForceKill
    } else if idle {
        ShutdownStep::Done
    } else {
        ShutdownStep::Wait
    }
}

/// Whether one of the sessions has the identifier.
spec fn has_id(sessions: Seq<Session>, id: Seq<char>) -> bool {
    exists|i: int| 0 <= i < sessions.len() && (#[trigger] sessions[i]).id@ == id
}

/// A session of the identifier is found exactly where there is one.
proof fn lemma_index_finds(sessions: Seq<Session>, id: Seq<char>)
    ensures
        (session_index(sessions, id) < sessions.len()) == has_id(sessions, id),
{
    lemma_session_index(sessions, id);
    if has_id(sessions, id) {
        let i = choose|i: int| 0 <= i < sessions.len() && (#[trigger] sessions[i]).id@ == id;
        if session_index(sessions, id) >= sessions.len() {
            assert(sessions[i].id@ != id);
        }
    } else if session_index(sessions, id) < sessions.len() {
        assert(sessions[session_index(sessions, id)].id@ == id);
    }
}

/// Sessions with the same identifiers at the same places hold the same
/// identifiers.
proof fn lemma_same_ids_same_index(before: Seq<Session>, after: Seq<Session>, other: Seq<char>)
    requires
        before.len() == after.len(),
        forall|k: int| 0 <= k < before.len() ==> (#[trigger] before[k]).id@ == after[k].id@,
    ensures
        (session_index(after, other) < after.len()) == (session_index(before, other)
            < before.len()),
{
    lemma_index_finds(before, other);
    lemma_index_finds(after, other);
    if has_id(before, other) {
        let i = choose|i: int| 0 <= i < before.len() && (#[trigger] before[i]).id@ == other;
        assert(after[i].id@ == other);
    }
    if has_id(after, other) {
        let i = choose|i: int| 0 <= i < after.len() && (#[trigger] after[i]).id@ == other;
        assert(before[i].id@ == other);
    }
}

/// A session put behind the others changes nothing for other identifiers.
proof fn lemma_pushed_other_id(before: Seq<Session>, after: Seq<Session>, other: Seq<char>)
    requires
        after.len() == before.len() + 1,
        forall|k: int| 0 <= k < before.len() ==> (#[trigger] after[k]) == before[k],
        after[before.len() as int].id@ != other,
    ensures
        (session_index(after, other) < after.len()) == (session_index(before, other)
            < before.len()),
{
    lemma_index_finds(before, other);
    lemma_index_finds(after, other);
    if has_id(before, other) {
        let i = choose|i: int| 0 <= i < before.len() && (#[trigger] before[i]).id@ == other;
        assert(after[i].id@ == other);
    }
    if has_id(after, other) {
        let i = choose|i: int| 0 <= i < after.len() && (#[trigger] after[i]).id@ == other;
        assert(before[i].id@ == other);
    }
}

/// A session taken out changes nothing for other identifiers.
proof fn lemma_removed_other_id(
    before: Seq<Session>,
    after: Seq<Session>,
    at: int,
    other: Seq<char>,
)
    requires
        0 <= at < before.len(),
        after == before.remove(at),
        before[at].id@ != other,
    ensures
        (session_index(after, other) < after.len()) == (session_index(before, other)
            < before.len()),
{
    lemma_index_finds(before, other);
    lemma_index_finds(after, other);
    if has_id(before, other) {
        let i = choose|i: int| 0 <= i < before.len() && (#[trigger] before[i]).id@ == other;
        if i < at {
            assert(after[i].id@ == other);
        } else {
            assert(after[i - 1] == before[i]);
            assert(after[i - 1].id@ == other);
        }
    }
    if has_id(after, other) {
        let i = choose|i: int| 0 <= i < after.len() && (#[trigger] after[i]).id@ == other;
        if i < at {
            assert(before[i].id@ == other);
        } else {
            assert(before[i + 1].id@ == other);
        }
    }
}

} // verus!
