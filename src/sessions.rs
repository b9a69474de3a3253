//! The table of authenticated sessions and the authentication check in front of every route
//! that touches a secret.
use crate::table::{Expiring, ExpiringTable};
use vstd::prelude::*;

verus! {

/// One authenticated session.
pub struct AuthenticatedUser {
    pub user_name: String,
    pub is_admin: bool,
    /// Last second (inclusive) at which the session is valid.
    pub expires_at: i64,
}

impl Expiring for AuthenticatedUser {
    open spec fn is_expired(&self, now: i64) -> bool {
        now > self.expires_at
    }

    fn expired(&self, now: i64) -> (r: bool) {
        now > self.expires_at
    }
}

/// `start + age`, held within the range of `i64`.
pub open spec fn expiry_after(start: i64, age: i64) -> i64 {
    let e = start + age;
    if e > i64::MAX {
        i64::MAX
    } else if e < i64::MIN {
        i64::MIN
    } else {
        e as i64
    }
}

fn compute_expiry(start: i64, age: i64) -> (r: i64)
    ensures
        r == expiry_after(start, age),
{
    let e: i128 = start as i128 + age as i128;
    if e > i64::MAX as i128 {
        i64::MAX
    } else if e < i64::MIN as i128 {
        i64::MIN
    } else {
        e as i64
    }
}

pub open spec fn is_admin_name(admins: Seq<String>, name: Seq<char>) -> bool {
    exists|i: int| 0 <= i < admins.len() && (#[trigger] admins[i])@ == name
}

/// The session that a login of `name` at `now` opens.
pub open spec fn new_session(
    admins: Seq<String>,
    name: String,
    now: i64,
    max_age: i64,
) -> AuthenticatedUser {
    AuthenticatedUser {
        user_name: name,
        is_admin: is_admin_name(admins, name@),
        expires_at: expiry_after(now, max_age),
    }
}

/// A session under `token` exists and has not expired at `now`.
pub open spec fn session_valid(
    sessions: Map<Seq<char>, AuthenticatedUser>,
    token: Seq<char>,
    now: i64,
) -> bool {
    sessions.contains_key(token) && !sessions[token].is_expired(now)
}

/// Why a request is turned away.
#[derive(Clone, Copy, Debug, PartialEq, Eq, Structural)]
pub enum AuthError {
    /// No session token, or none that is valid now.
    NotAuthenticated,
    /// The route is for administrators and the user is not one.
    NotAdministrator,
}

/// Sessions by token, the administrator accounts and the session max age.
pub struct SessionTable {
    sessions: ExpiringTable<AuthenticatedUser>,
    admin_accounts: Vec<String>,
    max_cookie_age_seconds: i64,
}

impl View for SessionTable {
    type V = Map<Seq<char>, AuthenticatedUser>;

    closed spec fn view(&self) -> Map<Seq<char>, AuthenticatedUser> {
        self.sessions@
    }
}

impl SessionTable {
    pub closed spec fn wf(&self) -> bool {
        self.sessions.wf() && self.max_cookie_age_seconds >= 0
    }

    pub closed spec fn admins(&self) -> Seq<String> {
        self.admin_accounts@
    }

    pub closed spec fn max_age(&self) -> i64 {
        self.max_cookie_age_seconds
    }

    /// An empty table; a session lasts `max_cookie_age_seconds` from its
    /// login or last keep-alive.
    pub fn new(admin_accounts: Vec<String>, max_cookie_age_seconds: i64) -> (r: SessionTable)
        requires
            max_cookie_age_seconds >= 0,
        ensures
            r.wf(),
            r@ == Map::<Seq<char>, AuthenticatedUser>::empty(),
            r.admins() == admin_accounts@,
            r.max_age() == max_cookie_age_seconds,
    {
        SessionTable { sessions: ExpiringTable::new(), admin_accounts, max_cookie_age_seconds }
    }

    /// Whether `name` is one of the administrator accounts.
    pub fn is_admin(&self, name: &String) -> (r: bool)
        ensures
            r == is_admin_name(self.admins(), name@),
    {
        let mut i: usize = 0;
        while i < self.admin_accounts.len()
            invariant
                i <= self.admin_accounts@.len(),
                forall|j: int| 0 <= j < i ==> (#[trigger] self.admin_accounts@[j])@ != name@,
            decreases self.admin_accounts@.len() - i,
        {
            if self.admin_accounts[i] == *name {
                return true;
            }
            i = i + 1;
        }
        false
    }

    /// Opens a session under `token` for `user_name` at `now`, in place of any
    /// session that the token had.
    pub fn login(&mut self, token: String, user_name: String, now: i64)
        requires
            old(self).wf(),
        ensures
            final(self).wf(),
            final(self).admins() == old(self).admins(),
            final(self).max_age() == old(self).max_age(),
            final(self)@ == old(self)@.insert(
                token@,
                new_session(old(self).admins(), user_name, now, old(self).max_age()),
            ),
    {
        let is_admin = self.is_admin(&user_name);
        let expires_at = compute_expiry(now, self.max_cookie_age_seconds);
        self.sessions.insert(token, AuthenticatedUser { user_name, is_admin, expires_at });
    }

    /// The session under `token`, if it exists and has not expired at `now`;
    /// an expired session is not returned even before a sweep removes it.
    pub fn lookup(&self, token: &String, now: i64) -> (r: Option<&AuthenticatedUser>)
        requires
            self.wf(),
        ensures
            r is Some <==> session_valid(self@, token@, now),
            r matches Some(u) ==> *u == self@[token@],
    {
        match self.sessions.get(token) {
            Some(u) => {
                if u.expired(now) {
                    None
                } else {
                    Some(u)
                }
            },
            None => None,
        }
    }

    /// Extends a valid session by the max age from `now`; returns whether
    /// there was one.
    pub fn keep_alive(&mut self, token: &String, now: i64) -> (r: bool)
        requires
            old(self).wf(),
        ensures
            final(self).wf(),
            final(self).admins() == old(self).admins(),
            final(self).max_age() == old(self).max_age(),
            r == session_valid(old(self)@, token@, now),
            r ==> final(self)@ == old(self)@.insert(
                token@,
                (AuthenticatedUser {
                    expires_at: expiry_after(now, old(self).max_age()),
                    ..old(self)@[token@]
                }),
            ),
            !r ==> final(self)@ == old(self)@,
    {
        let valid = match self.sessions.get(token) {
            Some(u) => !u.expired(now),
            None => false,
        };
        if !valid {
            return false;
        }
        match self.sessions.remove(token) {
            Some(u) => {
                let expires_at = compute_expiry(now, self.max_cookie_age_seconds);
                let renewed = AuthenticatedUser {
                    user_name: u.user_name,
                    is_admin: u.is_admin,
                    expires_at,
                };
                self.sessions.insert(token.clone(), renewed);
                assert(self@ =~= old(self)@.insert(
                    token@,
                    (AuthenticatedUser {
                        expires_at: expiry_after(now, old(self).max_age()),
                        ..old(self)@[token@]
                    }),
                ));
                true
            },
            None => false,
        }
    }

    /// Ends the session under `token`; returns whether there was one.
    pub fn logout(&mut self, token: &String) -> (r: bool)
        requires
            old(self).wf(),
        ensures
            final(self).wf(),
            final(self).admins() == old(self).admins(),
            final(self).max_age() == old(self).max_age(),
            final(self)@ == old(self)@.remove(token@),
            r == old(self)@.contains_key(token@),
    {
        self.sessions.remove(token).is_some()
    }

    /// Removes every session that has expired at `now`.
    pub fn sweep(&mut self, now: i64)
        requires
            old(self).wf(),
        ensures
            final(self).wf(),
            final(self).admins() == old(self).admins(),
            final(self).max_age() == old(self).max_age(),
            forall|k: Seq<char>| #[trigger]
                final(self)@.contains_key(k) <==> session_valid(old(self)@, k, now),
            forall|k: Seq<char>| #[trigger]
                final(self)@.contains_key(k) ==> final(self)@[k] == old(self)@[k],
    {
        self.sessions.sweep(now);
    }

    /// The authentication check: the user of a request that carries `token`, or why it is
    /// turned away. A missing, unknown or expired token is refused, and so is
    /// a user who is not an administrator where `admin_required` holds.
    pub fn authorize(&self, token: Option<&String>, now: i64, admin_required: bool) -> (r: Result<
        &AuthenticatedUser,
        AuthError,
    >)
        requires
            self.wf(),
        ensures
            match token {
                None => r == Err::<&AuthenticatedUser, AuthError>(AuthError::NotAuthenticated),
                Some(t) => if !session_valid(self@, t@, now) {
                    r == Err::<&AuthenticatedUser, AuthError>(AuthError::NotAuthenticated)
                } else if admin_required && !self@[t@].is_admin {
                    r == Err::<&AuthenticatedUser, AuthError>(AuthError::NotAdministrator)
                } else {
                    r matches Ok(u) && *u == self@[t@]
                },
            },
    {
        let t = match token {
            Some(t) => t,
            None => {
                return Err(AuthError::NotAuthenticated);
            },
        };
        match self.lookup(t, now) {
            Some(u) => {
                if admin_required && !u.is_admin {
                    Err(AuthError::NotAdministrator)
                } else {
                    Ok(u)
                }
            },
            None => Err(AuthError::NotAuthenticated),
        }
    }
}

/// A session is valid for at most the max age from its login: looked up at
/// any later second it is refused, whether or not a sweep has run since.
pub proof fn lemma_stale_session_rejected(
    sessions: Map<Seq<char>, AuthenticatedUser>,
    admins: Seq<String>,
    token: Seq<char>,
    user_name: String,
    login_at: i64,
    max_age: i64,
    now: i64,
)
    requires
        max_age >= 0,
        now > login_at + max_age,
    ensures
        !session_valid(
            sessions.insert(token, new_session(admins, user_name, login_at, max_age)),
            token,
            now,
        ),
{
}

} // verus!
