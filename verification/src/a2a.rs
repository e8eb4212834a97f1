//! Agent-to-agent (A2A) delegated-access protocol engine: client
//! registration, session grants, and the task state machine.
//!
//! A session's granted scopes must be a subset of its client's
//! registered capabilities; a grant asking for more fails closed with
//! `ScopeViolation` and never silently clamps. A task moves through
//! `Pending -> Running -> {Completed, Failed}` (or `Pending -> Failed`
//! when rejected before starting); the terminal states admit no
//! further transition.

use vstd::prelude::*;

use crate::bytes::ct_eq;
use crate::crypto::fresh_uuid_hex;
use crate::errors::AuthError;
use crate::vault::clone_bytes;

verus! {

/// One hour in milliseconds.
pub const HOUR_MS: u64 = 3_600_000;

/// A registered agent client.
pub struct A2AClient {
    /// The tag `a2a_` plus 32 random hex digits.
    pub id: Vec<u8>,
    pub name: Vec<u8>,
    pub description: Vec<u8>,
    /// Public credential material presented at registration.
    pub public_key: Vec<u8>,
    /// What the client may ever be granted.
    pub capabilities: Vec<Vec<u8>>,
    pub redirect_uris: Vec<Vec<u8>>,
    pub is_active: bool,
    pub created_at: u64,
}

/// A granted delegation session.
pub struct A2ASession {
    /// The tag `a2as` plus 32 random hex digits; the bearer secret.
    pub token: Vec<u8>,
    pub client_id: Vec<u8>,
    /// The human user the delegation acts for, if any.
    pub user_id: Option<Vec<u8>>,
    pub granted_scopes: Vec<Vec<u8>>,
    pub is_active: bool,
    pub created_at: u64,
    /// Strictly after `created_at`'s instant at issuance.
    pub expires_at: u64,
    pub last_active_at: u64,
}

/// Where a task stands in its lifecycle.
#[derive(Clone, Copy, Debug, PartialEq, Eq, Structural)]
pub enum TaskStatus {
    Pending,
    Running,
    Completed,
    Failed,
}

/// What can happen to a task.
#[derive(Clone, Copy, Debug, PartialEq, Eq, Structural)]
pub enum TaskEvent {
    Start,
    Complete,
    Fail,
}

/// A submitted task.
pub struct A2ATask {
    /// The tag `a2at` plus 32 random hex digits.
    pub id: Vec<u8>,
    pub session_token: Vec<u8>,
    pub task_type: Vec<u8>,
    pub parameters: Vec<u8>,
    pub status: TaskStatus,
    pub result: Option<Vec<u8>>,
    pub error: Option<Vec<u8>>,
    pub created_at: u64,
    pub updated_at: u64,
}

/// The task state machine: which event is legal in which state, and
/// where it leads. `None` is an illegal transition.
pub open spec fn task_step(s: TaskStatus, e: TaskEvent) -> Option<TaskStatus> {
    match e {
        TaskEvent::Start => if s is Pending {
            Some(TaskStatus::Running)
        } else {
            None
        },
        TaskEvent::Complete => if s is Running {
            Some(TaskStatus::Completed)
        } else {
            None
        },
        TaskEvent::Fail => if s is Running || s is Pending {
            Some(TaskStatus::Failed)
        } else {
            None
        },
    }
}

/// Is the state one a task can never leave?
pub open spec fn is_terminal(s: TaskStatus) -> bool {
    s is Completed || s is Failed
}

/// Law: the terminal states are terminal — no event moves a completed
/// or failed task anywhere.
pub proof fn lemma_terminal_is_final(s: TaskStatus, e: TaskEvent)
    requires
        is_terminal(s),
    ensures
        task_step(s, e) is None,
{
}

/// Law: a task starts only from `Pending`, completes only from
/// `Running`, and fails only from `Running` or `Pending`.
pub proof fn lemma_transition_sources(s: TaskStatus)
    ensures
        task_step(s, TaskEvent::Start) is Some <==> s is Pending,
        task_step(s, TaskEvent::Complete) is Some <==> s is Running,
        task_step(s, TaskEvent::Fail) is Some <==> (s is Running || s is Pending),
{
}

/// Is `scope` one of the scopes in `scopes`?
pub open spec fn scope_listed(scopes: Seq<Vec<u8>>, scope: Seq<u8>) -> bool {
    exists|i: int| 0 <= i < scopes.len() && (#[trigger] scopes[i])@ == scope
}

/// Is every scope of `granted` among `caps`?
pub open spec fn scopes_subset(granted: Seq<Vec<u8>>, caps: Seq<Vec<u8>>) -> bool {
    forall|i: int| 0 <= i < granted.len() ==> scope_listed(caps, (#[trigger] granted[i])@)
}

/// Is a session usable at `now`?
pub open spec fn session_valid(s: A2ASession, now: u64) -> bool {
    s.is_active && now < s.expires_at
}

/// Does `scopes` list `scope`?
pub fn contains_scope(scopes: &Vec<Vec<u8>>, scope: &Vec<u8>) -> (r: bool)
    ensures
        r == scope_listed(scopes@, scope@),
{
    let n = scopes.len();
    let mut i: usize = 0;
    while i < n
        invariant
            n == scopes@.len(),
            0 <= i <= n,
            forall|j: int| 0 <= j < i ==> (#[trigger] scopes@[j])@ != scope@,
        decreases n - i,
    {
        if ct_eq(scopes[i].as_slice(), scope.as_slice()) {
            return true;
        }
        i = i + 1;
    }
    false
}

/// Is every scope of `granted` among `caps`?
pub fn subset_of(granted: &Vec<Vec<u8>>, caps: &Vec<Vec<u8>>) -> (r: bool)
    ensures
        r == scopes_subset(granted@, caps@),
{
    let n = granted.len();
    let mut i: usize = 0;
    while i < n
        invariant
            n == granted@.len(),
            0 <= i <= n,
            forall|j: int| 0 <= j < i ==> scope_listed(caps@, (#[trigger] granted@[j])@),
        decreases n - i,
    {
        if !contains_scope(caps, &granted[i]) {
            return false;
        }
        i = i + 1;
    }
    true
}

/// Copy a list of scopes.
pub fn clone_scopes(v: &Vec<Vec<u8>>) -> (r: Vec<Vec<u8>>)
    ensures
        r@.len() == v@.len(),
        forall|i: int| 0 <= i < v@.len() ==> (#[trigger] r@[i])@ == v@[i]@,
{
    let n = v.len();
    let mut r: Vec<Vec<u8>> = Vec::new();
    let mut i: usize = 0;
    while i < n
        invariant
            n == v@.len(),
            0 <= i <= n,
            r@.len() == i,
            forall|j: int| 0 <= j < i ==> (#[trigger] r@[j])@ == v@[j]@,
        decreases n - i,
    {
        r.push(clone_bytes(&v[i]));
        i = i + 1;
    }
    r
}

/// Equal scope lists (element views equal, in order).
pub open spec fn scopes_equal(a: Seq<Vec<u8>>, b: Seq<Vec<u8>>) -> bool {
    a.len() == b.len() && (forall|i: int| 0 <= i < a.len() ==> (#[trigger] a[i])@ == b[i]@)
}

/// The first index at or after `i` whose client has id `id`.
pub open spec fn find_client(s: Seq<A2AClient>, id: Seq<u8>, i: int) -> Option<int>
    decreases s.len() - i,
{
    if i < 0 || i >= s.len() {
        None
    } else if s[i].id@ == id {
        Some(i)
    } else {
        find_client(s, id, i + 1)
    }
}

proof fn lemma_find_client_none(s: Seq<A2AClient>, id: Seq<u8>, i: int)
    requires
        forall|j: int| i <= j < s.len() ==> (#[trigger] s[j].id@) != id,
    ensures
        find_client(s, id, i) is None,
    decreases s.len() - i,
{
    if 0 <= i < s.len() {
        lemma_find_client_none(s, id, i + 1);
    }
}

proof fn lemma_find_client_at(s: Seq<A2AClient>, id: Seq<u8>, i: int, k: int)
    requires
        0 <= i <= k < s.len(),
        s[k].id@ == id,
        forall|j: int| i <= j < k ==> (#[trigger] s[j].id@) != id,
    ensures
        find_client(s, id, i) == Some(k),
    decreases k - i,
{
    if i < k {
        lemma_find_client_at(s, id, i + 1, k);
    }
}

/// The first index at or after `i` whose session bears `token`.
pub open spec fn find_session(s: Seq<A2ASession>, token: Seq<u8>, i: int) -> Option<int>
    decreases s.len() - i,
{
    if i < 0 || i >= s.len() {
        None
    } else if s[i].token@ == token {
        Some(i)
    } else {
        find_session(s, token, i + 1)
    }
}

proof fn lemma_find_session_none(s: Seq<A2ASession>, token: Seq<u8>, i: int)
    requires
        forall|j: int| i <= j < s.len() ==> (#[trigger] s[j].token@) != token,
    ensures
        find_session(s, token, i) is None,
    decreases s.len() - i,
{
    if 0 <= i < s.len() {
        lemma_find_session_none(s, token, i + 1);
    }
}

proof fn lemma_find_session_at(s: Seq<A2ASession>, token: Seq<u8>, i: int, k: int)
    requires
        0 <= i <= k < s.len(),
        s[k].token@ == token,
        forall|j: int| i <= j < k ==> (#[trigger] s[j].token@) != token,
    ensures
        find_session(s, token, i) == Some(k),
    decreases k - i,
{
    if i < k {
        lemma_find_session_at(s, token, i + 1, k);
    }
}

/// The first index at or after `i` whose task has id `id`.
pub open spec fn find_task(s: Seq<A2ATask>, id: Seq<u8>, i: int) -> Option<int>
    decreases s.len() - i,
{
    if i < 0 || i >= s.len() {
        None
    } else if s[i].id@ == id {
        Some(i)
    } else {
        find_task(s, id, i + 1)
    }
}

proof fn lemma_find_task_none(s: Seq<A2ATask>, id: Seq<u8>, i: int)
    requires
        forall|j: int| i <= j < s.len() ==> (#[trigger] s[j].id@) != id,
    ensures
        find_task(s, id, i) is None,
    decreases s.len() - i,
{
    if 0 <= i < s.len() {
        lemma_find_task_none(s, id, i + 1);
    }
}

proof fn lemma_find_task_at(s: Seq<A2ATask>, id: Seq<u8>, i: int, k: int)
    requires
        0 <= i <= k < s.len(),
        s[k].id@ == id,
        forall|j: int| i <= j < k ==> (#[trigger] s[j].id@) != id,
    ensures
        find_task(s, id, i) == Some(k),
    decreases k - i,
{
    if i < k {
        lemma_find_task_at(s, id, i + 1, k);
    }
}

/// The expiry computed from an hour count, saturating at the largest
/// representable instant.
pub open spec fn expiry_from_hours(now: u64, hours: u64) -> u64 {
    if now + hours * HOUR_MS > u64::MAX {
        u64::MAX
    } else {
        (now + hours * HOUR_MS) as u64
    }
}

fn saturating_hour_expiry(now: u64, hours: u64) -> (r: u64)
    ensures
        r == expiry_from_hours(now, hours),
        hours >= 1 && now < u64::MAX ==> r > now,
{
    if hours > u64::MAX / HOUR_MS {
        return u64::MAX;
    }
    assert(hours * HOUR_MS <= u64::MAX);
    assert(hours >= 1 ==> hours * 3_600_000 >= 3_600_000) by (nonlinear_arith);
    let ms = hours * HOUR_MS;
    if now > u64::MAX - ms {
        u64::MAX
    } else {
        now + ms
    }
}

/// Build an id: a four-byte ASCII tag plus 32 fresh hex digits.
fn tagged_id(t0: u8, t1: u8, t2: u8, t3: u8) -> (r: Vec<u8>)
    ensures
        r@.len() == 36,
        r@[0] == t0 && r@[1] == t1 && r@[2] == t2 && r@[3] == t3,
{
    let mut r: Vec<u8> = Vec::new();
    r.push(t0);
    r.push(t1);
    r.push(t2);
    r.push(t3);
    let hex = fresh_uuid_hex();
    crate::bytes::extend_bytes(&mut r, hex.as_slice());
    r
}

/// The A2A protocol engine: registered clients, granted sessions, and
/// submitted tasks.
pub struct A2AEngine {
    pub clients: Vec<A2AClient>,
    pub sessions: Vec<A2ASession>,
    pub tasks: Vec<A2ATask>,
}

impl A2AEngine {
    /// An engine with nothing registered.
    pub fn new() -> (r: A2AEngine)
        ensures
            r.clients@.len() == 0,
            r.sessions@.len() == 0,
            r.tasks@.len() == 0,
    {
        A2AEngine { clients: Vec::new(), sessions: Vec::new(), tasks: Vec::new() }
    }

    /// Borrow the client at `i`.
    pub fn client_at(&self, i: usize) -> (r: &A2AClient)
        requires
            i < self.clients@.len(),
        ensures
            *r == self.clients@[i as int],
    {
        &self.clients[i]
    }

    /// Borrow the session at `i`.
    pub fn session_at(&self, i: usize) -> (r: &A2ASession)
        requires
            i < self.sessions@.len(),
        ensures
            *r == self.sessions@[i as int],
    {
        &self.sessions[i]
    }

    /// Borrow the task at `i`.
    pub fn task_at(&self, i: usize) -> (r: &A2ATask)
        requires
            i < self.tasks@.len(),
        ensures
            *r == self.tasks@[i as int],
    {
        &self.tasks[i]
    }

    /// Register a client with its capability set. Returns the index of
    /// the new record; its id is fresh and carries the `a2a_` tag.
    pub fn register(
        &mut self,
        name: &Vec<u8>,
        description: &Vec<u8>,
        public_key: &Vec<u8>,
        capabilities: &Vec<Vec<u8>>,
        redirect_uris: &Vec<Vec<u8>>,
        now: u64,
    ) -> (r: usize)
        ensures
            final(self).clients@ == old(self).clients@.push(final(self).clients@.last()),
            final(self).sessions@ == old(self).sessions@,
            final(self).tasks@ == old(self).tasks@,
            r == old(self).clients@.len(),
            ({
                let c = final(self).clients@.last();
                &&& c.id@.len() == 36
                &&& c.name@ == name@
                &&& c.description@ == description@
                &&& c.public_key@ == public_key@
                &&& scopes_equal(c.capabilities@, capabilities@)
                &&& scopes_equal(c.redirect_uris@, redirect_uris@)
                &&& c.is_active
                &&& c.created_at == now
            }),
    {
        let client = A2AClient {
            id: tagged_id(97, 50, 97, 95),  // "a2a_"
            name: clone_bytes(name),
            description: clone_bytes(description),
            public_key: clone_bytes(public_key),
            capabilities: clone_scopes(capabilities),
            redirect_uris: clone_scopes(redirect_uris),
            is_active: true,
            created_at: now,
        };
        let index = self.clients.len();
        self.clients.push(client);
        index
    }

    /// Grant a session to `client_id` with the given scopes and
    /// time-to-live.
    ///
    /// Fails closed with `ScopeViolation` — storing nothing — when the
    /// scopes are not a subset of the client's capabilities; scopes are
    /// never silently clamped. An unknown client fails with
    /// `InvalidCredential`, a deactivated one with `Revoked`. The
    /// session's expiry is strictly in the future at issuance.
    pub fn grant(
        &mut self,
        client_id: &Vec<u8>,
        user_id: &Option<Vec<u8>>,
        scopes: &Vec<Vec<u8>>,
        ttl_hours: u64,
        now: u64,
    ) -> (r: Result<usize, AuthError>)
        requires
            ttl_hours >= 1,
            now < u64::MAX,
        ensures
            final(self).clients@ == old(self).clients@,
            final(self).tasks@ == old(self).tasks@,
            ({
                let f = find_client(old(self).clients@, client_id@, 0);
                match r {
                    Ok(si) => {
                        &&& f matches Some(ci)
                        &&& old(self).clients@[ci].is_active
                        &&& scopes_subset(scopes@, old(self).clients@[ci].capabilities@)
                        &&& final(self).sessions@ == old(self).sessions@.push(
                            final(self).sessions@.last(),
                        )
                        &&& si == old(self).sessions@.len()
                        &&& ({
                            let s = final(self).sessions@.last();
                            &&& s.token@.len() == 36
                            &&& s.client_id@ == client_id@
                            &&& scopes_equal(s.granted_scopes@, scopes@)
                            &&& s.is_active
                            &&& s.created_at == now
                            &&& s.expires_at == expiry_from_hours(now, ttl_hours)
                            &&& s.expires_at > now
                            &&& s.last_active_at == now
                            &&& (match (s.user_id, user_id) {
                                (Some(a), Some(b)) => a@ == b@,
                                (None, None) => true,
                                _ => false,
                            })
                        })
                    },
                    Err(e) => {
                        &&& final(self).sessions@ == old(self).sessions@
                        &&& {
                            ||| (f is None && e == AuthError::InvalidCredential)
                            ||| (f matches Some(ci) && !old(self).clients@[ci].is_active && e
                                == AuthError::Revoked)
                            ||| (f matches Some(ci) && old(self).clients@[ci].is_active
                                && !scopes_subset(scopes@, old(self).clients@[ci].capabilities@)
                                && e == AuthError::ScopeViolation)
                        }
                    },
                }
            }),
    {
        let n = self.clients.len();
        let mut i: usize = 0;
        while i < n
            invariant
                n == self.clients@.len(),
                0 <= i <= n,
                self.clients@ == old(self).clients@,
                self.sessions@ == old(self).sessions@,
                self.tasks@ == old(self).tasks@,
                ttl_hours >= 1,
                now < u64::MAX,
                forall|j: int| 0 <= j < i ==> (#[trigger] self.clients@[j].id@) != client_id@,
            decreases n - i,
        {
            if ct_eq(self.clients[i].id.as_slice(), client_id.as_slice()) {
                proof {
                    lemma_find_client_at(self.clients@, client_id@, 0, i as int);
                }
                if !self.clients[i].is_active {
                    return Err(AuthError::Revoked);
                }
                if !subset_of(scopes, &self.clients[i].capabilities) {
                    return Err(AuthError::ScopeViolation);
                }
                let expires_at = saturating_hour_expiry(now, ttl_hours);
                let session = A2ASession {
                    token: tagged_id(97, 50, 97, 115),  // "a2as"
                    client_id: clone_bytes(client_id),
                    user_id: match user_id {
                        Some(u) => Some(clone_bytes(u)),
                        None => None,
                    },
                    granted_scopes: clone_scopes(scopes),
                    is_active: true,
                    created_at: now,
                    expires_at,
                    last_active_at: now,
                };
                let si = self.sessions.len();
                self.sessions.push(session);
                return Ok(si);
            }
            i = i + 1;
        }
        proof {
            lemma_find_client_none(self.clients@, client_id@, 0);
        }
        Err(AuthError::InvalidCredential)
    }

    /// Refresh a session's last-active stamp without extending its
    /// expiry: everything but `last_active_at` is unchanged.
    pub fn touch(&mut self, session_token: &Vec<u8>, now: u64) -> (r: Result<(), AuthError>)
        ensures
            final(self).clients@ == old(self).clients@,
            final(self).tasks@ == old(self).tasks@,
            ({
                let f = find_session(old(self).sessions@, session_token@, 0);
                match r {
                    Ok(()) => {
                        &&& f matches Some(j)
                        &&& final(self).sessions@ == old(self).sessions@.update(
                            f->Some_0,
                            (A2ASession {
                                last_active_at: now,
                                ..old(self).sessions@[f->Some_0]
                            }),
                        )
                    },
                    Err(e) => {
                        &&& f is None
                        &&& e == AuthError::InvalidCredential
                        &&& final(self).sessions@ == old(self).sessions@
                    },
                }
            }),
    {
        let n = self.sessions.len();
        let mut i: usize = 0;
        while i < n
            invariant
                n == self.sessions@.len(),
                0 <= i <= n,
                self.clients@ == old(self).clients@,
                self.sessions@ == old(self).sessions@,
                self.tasks@ == old(self).tasks@,
                forall|j: int| 0 <= j < i ==> (#[trigger] self.sessions@[j].token@) != session_token@,
            decreases n - i,
        {
            if ct_eq(self.sessions[i].token.as_slice(), session_token.as_slice()) {
                proof {
                    lemma_find_session_at(self.sessions@, session_token@, 0, i as int);
                }
                self.sessions[i].last_active_at = now;
                return Ok(());
            }
            i = i + 1;
        }
        proof {
            lemma_find_session_none(self.sessions@, session_token@, 0);
        }
        Err(AuthError::InvalidCredential)
    }

    /// Look up a session by its bearer token and judge it at `now`.
    ///
    /// Fails with `InvalidCredential` when no session bears the token,
    /// `Revoked` when the session was deactivated, and `Expired` when
    /// its expiry has passed.
    pub fn verify_session(&self, session_token: &Vec<u8>, now: u64) -> (r: Result<
        usize,
        AuthError,
    >)
        ensures
            ({
                let f = find_session(self.sessions@, session_token@, 0);
                match r {
                    Ok(i) => {
                        &&& f == Some(i as int)
                        &&& session_valid(self.sessions@[i as int], now)
                    },
                    Err(e) => {
                        ||| (f is None && e == AuthError::InvalidCredential)
                        ||| (f matches Some(j) && !self.sessions@[j].is_active && e
                            == AuthError::Revoked)
                        ||| (f matches Some(j) && self.sessions@[j].is_active && now
                            >= self.sessions@[j].expires_at && e == AuthError::Expired)
                    },
                }
            }),
    {
        let n = self.sessions.len();
        let mut i: usize = 0;
        while i < n
            invariant
                n == self.sessions@.len(),
                0 <= i <= n,
                forall|j: int| 0 <= j < i ==> (#[trigger] self.sessions@[j].token@) != session_token@,
            decreases n - i,
        {
            if ct_eq(self.sessions[i].token.as_slice(), session_token.as_slice()) {
                proof {
                    lemma_find_session_at(self.sessions@, session_token@, 0, i as int);
                }
                if !self.sessions[i].is_active {
                    return Err(AuthError::Revoked);
                }
                if now >= self.sessions[i].expires_at {
                    return Err(AuthError::Expired);
                }
                return Ok(i);
            }
            i = i + 1;
        }
        proof {
            lemma_find_session_none(self.sessions@, session_token@, 0);
        }
        Err(AuthError::InvalidCredential)
    }

    /// Is the session at `i` usable at `now`?
    pub fn is_valid(&self, i: usize, now: u64) -> (r: bool)
        requires
            i < self.sessions@.len(),
        ensures
            r == session_valid(self.sessions@[i as int], now),
    {
        let s = &self.sessions[i];
        s.is_active && now < s.expires_at
    }

    /// Submit a task under a session.
    ///
    /// Requires an active, non-expired session whose granted scopes
    /// cover the task type; a task always enters in state `Pending`.
    /// An unknown session fails with `InvalidCredential`, a revoked
    /// one with `Revoked`, an expired one with `Expired`, and an
    /// uncovered task type with `ScopeViolation`.
    pub fn submit(
        &mut self,
        session_token: &Vec<u8>,
        task_type: &Vec<u8>,
        parameters: &Vec<u8>,
        now: u64,
    ) -> (r: Result<usize, AuthError>)
        ensures
            final(self).clients@ == old(self).clients@,
            final(self).sessions@ == old(self).sessions@,
            ({
                let f = find_session(old(self).sessions@, session_token@, 0);
                match r {
                    Ok(ti) => {
                        &&& f matches Some(si)
                        &&& session_valid(old(self).sessions@[si], now)
                        &&& scope_listed(old(self).sessions@[si].granted_scopes@, task_type@)
                        &&& final(self).tasks@ == old(self).tasks@.push(final(self).tasks@.last())
                        &&& ti == old(self).tasks@.len()
                        &&& ({
                            let t = final(self).tasks@.last();
                            &&& t.id@.len() == 36
                            &&& t.session_token@ == session_token@
                            &&& t.task_type@ == task_type@
                            &&& t.parameters@ == parameters@
                            &&& t.status == TaskStatus::Pending
                            &&& t.result is None
                            &&& t.error is None
                            &&& t.created_at == now
                            &&& t.updated_at == now
                        })
                    },
                    Err(e) => {
                        &&& final(self).tasks@ == old(self).tasks@
                        &&& {
                            ||| (f is None && e == AuthError::InvalidCredential)
                            ||| (f matches Some(si) && !old(self).sessions@[si].is_active && e
                                == AuthError::Revoked)
                            ||| (f matches Some(si) && old(self).sessions@[si].is_active && now
                                >= old(self).sessions@[si].expires_at && e == AuthError::Expired)
                            ||| (f matches Some(si) && session_valid(old(self).sessions@[si], now)
                                && !scope_listed(
                                old(self).sessions@[si].granted_scopes@,
                                task_type@,
                            ) && e == AuthError::ScopeViolation)
                        }
                    },
                }
            }),
    {
        let n = self.sessions.len();
        let mut i: usize = 0;
        while i < n
            invariant
                n == self.sessions@.len(),
                0 <= i <= n,
                self.clients@ == old(self).clients@,
                self.sessions@ == old(self).sessions@,
                self.tasks@ == old(self).tasks@,
                forall|j: int| 0 <= j < i ==> (#[trigger] self.sessions@[j].token@) != session_token@,
            decreases n - i,
        {
            if ct_eq(self.sessions[i].token.as_slice(), session_token.as_slice()) {
                proof {
                    lemma_find_session_at(self.sessions@, session_token@, 0, i as int);
                }
                if !self.sessions[i].is_active {
                    return Err(AuthError::Revoked);
                }
                if now >= self.sessions[i].expires_at {
                    return Err(AuthError::Expired);
                }
                if !contains_scope(&self.sessions[i].granted_scopes, task_type) {
                    return Err(AuthError::ScopeViolation);
                }
                let task = A2ATask {
                    id: tagged_id(97, 50, 97, 116),  // "a2at"
                    session_token: clone_bytes(session_token),
                    task_type: clone_bytes(task_type),
                    parameters: clone_bytes(parameters),
                    status: TaskStatus::Pending,
                    result: None,
                    error: None,
                    created_at: now,
                    updated_at: now,
                };
                let ti = self.tasks.len();
                self.tasks.push(task);
                return Ok(ti);
            }
            i = i + 1;
        }
        proof {
            lemma_find_session_none(self.sessions@, session_token@, 0);
        }
        Err(AuthError::InvalidCredential)
    }

    /// Move the task with id `task_id` from `Pending` to `Running`.
    /// Any other source state fails with `InvalidTransition` and
    /// changes nothing; an unknown id fails with `InvalidCredential`.
    pub fn start(&mut self, task_id: &Vec<u8>, now: u64) -> (r: Result<(), AuthError>)
        ensures
            final(self).clients@ == old(self).clients@,
            final(self).sessions@ == old(self).sessions@,
            ({
                let f = find_task(old(self).tasks@, task_id@, 0);
                match r {
                    Ok(()) => {
                        &&& f matches Some(j)
                        &&& task_step(old(self).tasks@[f->Some_0].status, TaskEvent::Start)
                            == Some(TaskStatus::Running)
                        &&& final(self).tasks@ == old(self).tasks@.update(
                            f->Some_0,
                            (A2ATask {
                                status: TaskStatus::Running,
                                updated_at: now,
                                ..old(self).tasks@[f->Some_0]
                            }),
                        )
                    },
                    Err(e) => {
                        &&& final(self).tasks@ == old(self).tasks@
                        &&& {
                            ||| (f is None && e == AuthError::InvalidCredential)
                            ||| (f matches Some(j) && task_step(
                                old(self).tasks@[j].status,
                                TaskEvent::Start,
                            ) is None && e == AuthError::InvalidTransition)
                        }
                    },
                }
            }),
    {
        let n = self.tasks.len();
        let mut i: usize = 0;
        while i < n
            invariant
                n == self.tasks@.len(),
                0 <= i <= n,
                self.clients@ == old(self).clients@,
                self.sessions@ == old(self).sessions@,
                self.tasks@ == old(self).tasks@,
                forall|j: int| 0 <= j < i ==> (#[trigger] self.tasks@[j].id@) != task_id@,
            decreases n - i,
        {
            if ct_eq(self.tasks[i].id.as_slice(), task_id.as_slice()) {
                proof {
                    lemma_find_task_at(self.tasks@, task_id@, 0, i as int);
                }
                match self.tasks[i].status {
                    TaskStatus::Pending => {
                        self.tasks[i].status = TaskStatus::Running;
                        self.tasks[i].updated_at = now;
                        assert(self.tasks@ =~= old(self).tasks@.update(
                            i as int,
                            (A2ATask {
                                status: TaskStatus::Running,
                                updated_at: now,
                                ..old(self).tasks@[i as int]
                            }),
                        ));
                        return Ok(());
                    },
                    _ => {
                        return Err(AuthError::InvalidTransition);
                    },
                }
            }
            i = i + 1;
        }
        proof {
            lemma_find_task_none(self.tasks@, task_id@, 0);
        }
        Err(AuthError::InvalidCredential)
    }

    /// Move the task with id `task_id` from `Running` to the terminal
    /// state `Completed`, recording its result immutably. Any other
    /// source state fails with `InvalidTransition` and changes
    /// nothing; an unknown id fails with `InvalidCredential`.
    pub fn complete(&mut self, task_id: &Vec<u8>, result: &Vec<u8>, now: u64) -> (r: Result<
        (),
        AuthError,
    >)
        ensures
            final(self).clients@ == old(self).clients@,
            final(self).sessions@ == old(self).sessions@,
            ({
                let f = find_task(old(self).tasks@, task_id@, 0);
                match r {
                    Ok(()) => {
                        &&& f matches Some(j)
                        &&& task_step(old(self).tasks@[f->Some_0].status, TaskEvent::Complete)
                            == Some(TaskStatus::Completed)
                        &&& final(self).tasks@.len() == old(self).tasks@.len()
                        &&& ({
                            let t = final(self).tasks@[f->Some_0];
                            &&& t == (A2ATask {
                                status: TaskStatus::Completed,
                                result: t.result,
                                updated_at: now,
                                ..old(self).tasks@[f->Some_0]
                            })
                            &&& (t.result matches Some(v) && v@ == result@)
                        })
                        &&& (forall|j: int|
                            0 <= j < old(self).tasks@.len() && j != f->Some_0
                                ==> final(self).tasks@[j] == #[trigger] old(self).tasks@[j])
                    },
                    Err(e) => {
                        &&& final(self).tasks@ == old(self).tasks@
                        &&& {
                            ||| (f is None && e == AuthError::InvalidCredential)
                            ||| (f matches Some(j) && task_step(
                                old(self).tasks@[j].status,
                                TaskEvent::Complete,
                            ) is None && e == AuthError::InvalidTransition)
                        }
                    },
                }
            }),
    {
        let n = self.tasks.len();
        let mut i: usize = 0;
        while i < n
            invariant
                n == self.tasks@.len(),
                0 <= i <= n,
                self.clients@ == old(self).clients@,
                self.sessions@ == old(self).sessions@,
                self.tasks@ == old(self).tasks@,
                forall|j: int| 0 <= j < i ==> (#[trigger] self.tasks@[j].id@) != task_id@,
            decreases n - i,
        {
            if ct_eq(self.tasks[i].id.as_slice(), task_id.as_slice()) {
                proof {
                    lemma_find_task_at(self.tasks@, task_id@, 0, i as int);
                }
                match self.tasks[i].status {
                    TaskStatus::Running => {
                        self.tasks[i].status = TaskStatus::Completed;
                        self.tasks[i].result = Some(clone_bytes(result));
                        self.tasks[i].updated_at = now;
                        return Ok(());
                    },
                    _ => {
                        return Err(AuthError::InvalidTransition);
                    },
                }
            }
            i = i + 1;
        }
        proof {
            lemma_find_task_none(self.tasks@, task_id@, 0);
        }
        Err(AuthError::InvalidCredential)
    }

    /// Move the task with id `task_id` to the terminal state `Failed`,
    /// recording the error. Legal from `Running`, and directly from
    /// `Pending` when a task is rejected before starting. Any other
    /// source state fails with `InvalidTransition` and changes
    /// nothing; an unknown id fails with `InvalidCredential`.
    pub fn fail(&mut self, task_id: &Vec<u8>, error: &Vec<u8>, now: u64) -> (r: Result<
        (),
        AuthError,
    >)
        ensures
            final(self).clients@ == old(self).clients@,
            final(self).sessions@ == old(self).sessions@,
            ({
                let f = find_task(old(self).tasks@, task_id@, 0);
                match r {
                    Ok(()) => {
                        &&& f matches Some(j)
                        &&& task_step(old(self).tasks@[f->Some_0].status, TaskEvent::Fail)
                            == Some(TaskStatus::Failed)
                        &&& final(self).tasks@.len() == old(self).tasks@.len()
                        &&& ({
                            let t = final(self).tasks@[f->Some_0];
                            &&& t == (A2ATask {
                                status: TaskStatus::Failed,
                                error: t.error,
                                updated_at: now,
                                ..old(self).tasks@[f->Some_0]
                            })
                            &&& (t.error matches Some(v) && v@ == error@)
                        })
                        &&& (forall|j: int|
                            0 <= j < old(self).tasks@.len() && j != f->Some_0
                                ==> final(self).tasks@[j] == #[trigger] old(self).tasks@[j])
                    },
                    Err(e) => {
                        &&& final(self).tasks@ == old(self).tasks@
                        &&& {
                            ||| (f is None && e == AuthError::InvalidCredential)
                            ||| (f matches Some(j) && task_step(
                                old(self).tasks@[j].status,
                                TaskEvent::Fail,
                            ) is None && e == AuthError::InvalidTransition)
                        }
                    },
                }
            }),
    {
        let n = self.tasks.len();
        let mut i: usize = 0;
        while i < n
            invariant
                n == self.tasks@.len(),
                0 <= i <= n,
                self.clients@ == old(self).clients@,
                self.sessions@ == old(self).sessions@,
                self.tasks@ == old(self).tasks@,
                forall|j: int| 0 <= j < i ==> (#[trigger] self.tasks@[j].id@) != task_id@,
            decreases n - i,
        {
            if ct_eq(self.tasks[i].id.as_slice(), task_id.as_slice()) {
                proof {
                    lemma_find_task_at(self.tasks@, task_id@, 0, i as int);
                }
                match self.tasks[i].status {
                    TaskStatus::Running | TaskStatus::Pending => {
                        self.tasks[i].status = TaskStatus::Failed;
                        self.tasks[i].error = Some(clone_bytes(error));
                        self.tasks[i].updated_at = now;
                        return Ok(());
                    },
                    _ => {
                        return Err(AuthError::InvalidTransition);
                    },
                }
            }
            i = i + 1;
        }
        proof {
            lemma_find_task_none(self.tasks@, task_id@, 0);
        }
        Err(AuthError::InvalidCredential)
    }

    /// Deactivate the client with id `client_id`. Sessions already
    /// granted stay as they are; they are judged by their own flags.
    pub fn revoke_client(&mut self, client_id: &Vec<u8>) -> (r: Result<(), AuthError>)
        ensures
            final(self).sessions@ == old(self).sessions@,
            final(self).tasks@ == old(self).tasks@,
            ({
                let f = find_client(old(self).clients@, client_id@, 0);
                match r {
                    Ok(()) => {
                        &&& f matches Some(j)
                        &&& final(self).clients@ == old(self).clients@.update(
                            f->Some_0,
                            (A2AClient { is_active: false, ..old(self).clients@[f->Some_0] }),
                        )
                    },
                    Err(e) => {
                        &&& f is None
                        &&& e == AuthError::InvalidCredential
                        &&& final(self).clients@ == old(self).clients@
                    },
                }
            }),
    {
        let n = self.clients.len();
        let mut i: usize = 0;
        while i < n
            invariant
                n == self.clients@.len(),
                0 <= i <= n,
                self.clients@ == old(self).clients@,
                self.sessions@ == old(self).sessions@,
                self.tasks@ == old(self).tasks@,
                forall|j: int| 0 <= j < i ==> (#[trigger] self.clients@[j].id@) != client_id@,
            decreases n - i,
        {
            if ct_eq(self.clients[i].id.as_slice(), client_id.as_slice()) {
                proof {
                    lemma_find_client_at(self.clients@, client_id@, 0, i as int);
                }
                self.clients[i].is_active = false;
                return Ok(());
            }
            i = i + 1;
        }
        proof {
            lemma_find_client_none(self.clients@, client_id@, 0);
        }
        Err(AuthError::InvalidCredential)
    }

    /// Deactivate the session bearing `session_token`.
    pub fn revoke_session(&mut self, session_token: &Vec<u8>) -> (r: Result<(), AuthError>)
        ensures
            final(self).clients@ == old(self).clients@,
            final(self).tasks@ == old(self).tasks@,
            ({
                let f = find_session(old(self).sessions@, session_token@, 0);
                match r {
                    Ok(()) => {
                        &&& f matches Some(j)
                        &&& final(self).sessions@ == old(self).sessions@.update(
                            f->Some_0,
                            (A2ASession { is_active: false, ..old(self).sessions@[f->Some_0] }),
                        )
                    },
                    Err(e) => {
                        &&& f is None
                        &&& e == AuthError::InvalidCredential
                        &&& final(self).sessions@ == old(self).sessions@
                    },
                }
            }),
    {
        let n = self.sessions.len();
        let mut i: usize = 0;
        while i < n
            invariant
                n == self.sessions@.len(),
                0 <= i <= n,
                self.clients@ == old(self).clients@,
                self.sessions@ == old(self).sessions@,
                self.tasks@ == old(self).tasks@,
                forall|j: int| 0 <= j < i ==> (#[trigger] self.sessions@[j].token@) != session_token@,
            decreases n - i,
        {
            if ct_eq(self.sessions[i].token.as_slice(), session_token.as_slice()) {
                proof {
                    lemma_find_session_at(self.sessions@, session_token@, 0, i as int);
                }
                self.sessions[i].is_active = false;
                return Ok(());
            }
            i = i + 1;
        }
        proof {
            lemma_find_session_none(self.sessions@, session_token@, 0);
        }
        Err(AuthError::InvalidCredential)
    }
}

} // verus!
