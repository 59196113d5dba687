//! The service facade: accounts, bearer sessions, and the authenticated
//! history operations.
//!
//! The server owns the merged history set of every account. Each operation
//! first resolves the caller's bearer session token; a token that matches no
//! account is `Unauthorized`. Registration enforces unique usernames and
//! emails; login re-issues the account's session token.

use vstd::prelude::*;
use crate::api::{
    AddHistoryRequest, CountResponse, DeleteHistoryRequest, LoginRequest, LoginResponse,
    RegisterRequest, RegisterResponse, StatusResponse, SyncHistoryRequest, SyncHistoryResponse,
    Timestamp, UserResponse,
};
use crate::error::ServiceError;
use crate::ids::uuid_v4;
use crate::store::{
    add_effect, count_to_i64, delete_effect, deleted_ids, has_live_id, ids_unique,
    insertion_ordered, live_count, sync_payloads, EntryModel, HistoryStore,
};

verus! {

/// One account: its identity, credentials, current session token, and
/// history set.
pub struct Account {
    pub email: String,
    pub username: String,
    pub password: String,
    pub session: String,
    pub store: HistoryStore,
}

/// The ghost model of an [`Account`].
pub ghost struct AccountModel {
    pub email: Seq<char>,
    pub username: Seq<char>,
    pub password: Seq<char>,
    pub session: Seq<char>,
    pub entries: Seq<EntryModel>,
}

impl View for Account {
    type V = AccountModel;

    open spec fn view(&self) -> AccountModel {
        AccountModel {
            email: self.email@,
            username: self.username@,
            password: self.password@,
            session: self.session@,
            entries: self.store@,
        }
    }
}

/// The index of the first account bearing `session`, or -1. Operations
/// resolve a bearer token to its first match, which keeps every response
/// deterministic even in the (never expected) event of a token collision.
pub open spec fn session_index(s: Seq<AccountModel>, session: Seq<char>) -> int
    decreases s.len(),
{
    if s.len() == 0 {
        -1
    } else if s[0].session == session {
        0
    } else {
        let r = session_index(s.subrange(1, s.len() as int), session);
        if r < 0 {
            -1
        } else {
            r + 1
        }
    }
}

/// The index of the first account matching both credentials, or -1.
pub open spec fn credential_index(
    s: Seq<AccountModel>,
    username: Seq<char>,
    password: Seq<char>,
) -> int
    decreases s.len(),
{
    if s.len() == 0 {
        -1
    } else if s[0].username == username && s[0].password == password {
        0
    } else {
        let r = credential_index(s.subrange(1, s.len() as int), username, password);
        if r < 0 {
            -1
        } else {
            r + 1
        }
    }
}

/// Whether some account already claims the username or the email.
pub open spec fn identity_taken(s: Seq<AccountModel>, username: Seq<char>, email: Seq<char>) -> bool {
    exists|i: int|
        0 <= i < s.len() && ((#[trigger] s[i]).username == username || s[i].email == email)
}

/// Registration fields must be non-empty; their format beyond that is the
/// concern of an external validator.
pub open spec fn valid_register(email: Seq<char>, username: Seq<char>, password: Seq<char>) -> bool {
    email.len() > 0 && username.len() > 0 && password.len() > 0
}

/// A history entry must carry a non-empty client-generated id.
pub open spec fn valid_add(id: Seq<char>) -> bool {
    id.len() > 0
}

/// `session_index` is exactly the first match: it lands on an account
/// bearing the token, and no earlier account bears it.
pub proof fn lemma_session_index(s: Seq<AccountModel>, session: Seq<char>)
    ensures
        session_index(s, session) == -1 || (0 <= session_index(s, session) < s.len() && s[
            session_index(s, session)
        ].session == session),
        forall|j: int| #![trigger s[j]]
            0 <= j < s.len() && s[j].session == session ==> session_index(s, session) != -1
                && session_index(s, session) <= j,
    decreases s.len(),
{
    if s.len() > 0 {
        let rest = s.subrange(1, s.len() as int);
        lemma_session_index(rest, session);
        if s[0].session != session {
            assert forall|j: int| #![trigger s[j]]
                0 <= j < s.len() && s[j].session == session implies session_index(s, session) != -1
                && session_index(s, session) <= j by {
                assert(j >= 1);
                assert(rest[j - 1] == s[j]);
            }
        }
    }
}

/// `credential_index` is exactly the first match on both credentials.
pub proof fn lemma_credential_index(s: Seq<AccountModel>, username: Seq<char>, password: Seq<char>)
    ensures
        credential_index(s, username, password) == -1 || (0 <= credential_index(
            s,
            username,
            password,
        ) < s.len() && s[credential_index(s, username, password)].username == username && s[
            credential_index(s, username, password)
        ].password == password),
        forall|j: int| #![trigger s[j]]
            0 <= j < s.len() && s[j].username == username && s[j].password == password
                ==> credential_index(s, username, password) != -1 && credential_index(
                s,
                username,
                password,
            ) <= j,
    decreases s.len(),
{
    if s.len() > 0 {
        let rest = s.subrange(1, s.len() as int);
        lemma_credential_index(rest, username, password);
        if !(s[0].username == username && s[0].password == password) {
            assert forall|j: int| #![trigger s[j]]
                0 <= j < s.len() && s[j].username == username && s[j].password
                == password implies credential_index(s, username, password) != -1
                && credential_index(s, username, password) <= j by {
                assert(j >= 1);
                assert(rest[j - 1] == s[j]);
            }
        }
    }
}

/// The server invariant: usernames and emails are unique across accounts,
/// and every account's history set is well formed.
pub open spec fn accounts_wf(s: Seq<AccountModel>) -> bool {
    &&& forall|i: int, j: int| #![trigger s[i], s[j]]
        0 <= i < j < s.len() ==> s[i].username != s[j].username
    &&& forall|i: int, j: int| #![trigger s[i], s[j]] 0 <= i < j < s.len() ==> s[i].email
        != s[j].email
    &&& forall|i: int|
        0 <= i < s.len() ==> ids_unique((#[trigger] s[i]).entries) && insertion_ordered(
            s[i].entries,
        )
}

/// The server: the sole source of truth for every account's merged,
/// deduplicated history set.
pub struct Server {
    accounts: Vec<Account>,
}

impl View for Server {
    type V = Seq<AccountModel>;

    closed spec fn view(&self) -> Seq<AccountModel> {
        self.accounts@.map_values(|a: Account| a@)
    }
}

impl Server {
    /// The server invariant.
    pub open spec fn wf(&self) -> bool {
        accounts_wf(self@)
    }

    /// A server with no accounts.
    pub fn new() -> (r: Server)
        ensures
            r@ == Seq::<AccountModel>::empty(),
            r.wf(),
    {
        let r = Server { accounts: Vec::new() };
        proof {
            assert(r@ =~= Seq::<AccountModel>::empty());
        }
        r
    }

    /// Resolves a bearer session token to the first account that carries it.
    fn find_session(&self, session: &String) -> (r: Option<usize>)
        ensures
            match r {
                Some(i) => i as int == session_index(self@, session@) && i < self@.len() && self@[
                    i as int
                ].session == session@,
                None => session_index(self@, session@) == -1,
            },
    {
        let ghost s = self@;
        let n = self.accounts.len();
        for i in 0..n
            invariant
                n == self.accounts.len(),
                s == self@,
                forall|j: int| #![trigger s[j]] 0 <= j < i ==> s[j].session != session@,
        {
            if self.accounts[i].session == *session {
                proof {
                    assert(self.accounts@[i as int]@ == s[i as int]);
                    lemma_session_index(s, session@);
                    let f = session_index(s, session@);
                    assert(f != -1 && f <= i as int);
                    if f < i as int {
                        assert(s[f].session == session@);
                        assert(false);
                    }
                }
                return Some(i);
            }
        }
        proof {
            lemma_session_index(s, session@);
            let f = session_index(s, session@);
            if f != -1 {
                assert(s[f].session == session@);
                assert(false);
            }
        }
        None
    }

    /// Creates an account, enforcing unique usernames and emails, and issues
    /// its first bearer session token. Empty fields are rejected as invalid
    /// before uniqueness is consulted.
    pub fn register(&mut self, req: &RegisterRequest) -> (r: Result<RegisterResponse, ServiceError>)
        requires
            old(self).wf(),
        ensures
            final(self).wf(),
            match r {
                Ok(resp) => valid_register(req.email@, req.username@, req.password@)
                    && !identity_taken(old(self)@, req.username@, req.email@) && resp.session@.len()
                    == 32 && final(self)@ == old(self)@.push(
                    (AccountModel {
                        email: req.email@,
                        username: req.username@,
                        password: req.password@,
                        session: resp.session@,
                        entries: Seq::empty(),
                    }),
                ),
                Err(e) => final(self)@ == old(self)@ && ((e == ServiceError::InvalidInput
                    && !valid_register(req.email@, req.username@, req.password@)) || (e
                    == ServiceError::Conflict && valid_register(req.email@, req.username@, req.password@)
                    && identity_taken(old(self)@, req.username@, req.email@))),
            },
    {
        if req.email.as_str().is_empty() || req.username.as_str().is_empty()
            || req.password.as_str().is_empty() {
            return Err(ServiceError::InvalidInput);
        }
        let ghost s0 = self@;
        let n = self.accounts.len();
        for i in 0..n
            invariant
                n == self.accounts.len(),
                self@ == s0,
                s0 == old(self)@,
                accounts_wf(s0),
                valid_register(req.email@, req.username@, req.password@),
                forall|j: int| #![trigger s0[j]]
                    0 <= j < i ==> s0[j].username != req.username@ && s0[j].email != req.email@,
        {
            let taken = self.accounts[i].username == req.username || self.accounts[i].email
                == req.email;
            proof {
                assert(self.accounts@[i as int]@ == s0[i as int]);
            }
            if taken {
                return Err(ServiceError::Conflict);
            }
        }
        let session = uuid_v4();
        let account = Account {
            email: req.email.clone(),
            username: req.username.clone(),
            password: req.password.clone(),
            session: session.clone(),
            store: HistoryStore::new(),
        };
        let ghost m = account@;
        self.accounts.push(account);
        proof {
            assert(self@ =~= s0.push(m));
            if identity_taken(s0, req.username@, req.email@) {
                let k = choose|k: int|
                    0 <= k < s0.len() && ((#[trigger] s0[k]).username == req.username@ || s0[k].email
                        == req.email@);
                assert(false);
            }
            assert forall|i: int, j: int| #![trigger self@[i], self@[j]]
                0 <= i < j < self@.len() implies self@[i].username != self@[j].username && self@[i].email
                != self@[j].email by {
                if j == self@.len() - 1 {
                    assert(self@[i] == s0[i]);
                }
            }
        }
        Ok(RegisterResponse { session })
    }

    /// Authenticates by username and password and re-issues the account's
    /// bearer session token; a credential mismatch is `Unauthorized`.
    pub fn login(&mut self, req: &LoginRequest) -> (r: Result<LoginResponse, ServiceError>)
        requires
            old(self).wf(),
        ensures
            final(self).wf(),
            ({
                let i = credential_index(old(self)@, req.username@, req.password@);
                match r {
                    Ok(resp) => i >= 0 && resp.session@.len() == 32 && final(self)@ == old(
                        self,
                    )@.update(i, (AccountModel { session: resp.session@, ..old(self)@[i] })),
                    Err(e) => e == ServiceError::Unauthorized && i == -1 && final(self)@ == old(
                        self,
                    )@,
                }
            }),
    {
        let ghost s0 = self@;
        let n = self.accounts.len();
        for i in 0..n
            invariant
                n == self.accounts.len(),
                self@ == s0,
                s0 == old(self)@,
                accounts_wf(s0),
                forall|j: int| #![trigger s0[j]]
                    0 <= j < i ==> !(s0[j].username == req.username@ && s0[j].password
                        == req.password@),
        {
            let found = self.accounts[i].username == req.username && self.accounts[i].password
                == req.password;
            proof {
                assert(self.accounts@[i as int]@ == s0[i as int]);
            }
            if found {
                proof {
                    lemma_credential_index(s0, req.username@, req.password@);
                    let f = credential_index(s0, req.username@, req.password@);
                    assert(f != -1 && f <= i as int);
                    if f < i as int {
                        assert(s0[f].username == req.username@ && s0[f].password == req.password@);
                        assert(false);
                    }
                }
                let token = uuid_v4();
                self.accounts[i].session = token.clone();
                proof {
                    assert(self@ =~= s0.update(
                        i as int,
                        (AccountModel { session: token@, ..s0[i as int] }),
                    ));
                    assert forall|p: int, q: int| #![trigger self@[p], self@[q]]
                        0 <= p < q < self@.len() implies self@[p].username != self@[q].username
                        && self@[p].email != self@[q].email by {
                        assert(self@[p].username == s0[p].username && self@[p].email == s0[p].email);
                        assert(self@[q].username == s0[q].username && self@[q].email == s0[q].email);
                    }
                    assert forall|p: int|
                        0 <= p < self@.len() implies ids_unique((#[trigger] self@[p]).entries)
                        && insertion_ordered(self@[p].entries) by {
                        assert(self@[p].entries == s0[p].entries);
                    }
                }
                return Ok(LoginResponse { session: token });
            }
        }
        proof {
            lemma_credential_index(s0, req.username@, req.password@);
            let f = credential_index(s0, req.username@, req.password@);
            if f != -1 {
                assert(s0[f].username == req.username@ && s0[f].password == req.password@);
                assert(false);
            }
        }
        Err(ServiceError::Unauthorized)
    }

    /// Identifies the user behind a bearer session token.
    pub fn me(&self, session: &String) -> (r: Result<UserResponse, ServiceError>)
        ensures
            ({
                let i = session_index(self@, session@);
                match r {
                    Ok(u) => i >= 0 && u.username@ == self@[i].username,
                    Err(e) => e == ServiceError::Unauthorized && i == -1,
                }
            }),
    {
        match self.find_session(session) {
            None => Err(ServiceError::Unauthorized),
            Some(i) => {
                proof {
                    assert(self.accounts@[i as int]@ == self@[i as int]);
                }
                Ok(UserResponse { username: self.accounts[i].username.clone() })
            },
        }
    }

    /// Upserts one history entry into the session's account, idempotently on
    /// the entry's id; an entry with an empty id is invalid.
    pub fn add_history(
        &mut self,
        session: &String,
        req: &AddHistoryRequest,
        now: Timestamp,
    ) -> (r: Result<(), ServiceError>)
        requires
            old(self).wf(),
        ensures
            final(self).wf(),
            ({
                let i = session_index(old(self)@, session@);
                match r {
                    Ok(_) => i >= 0 && valid_add(req.id@) && final(self)@ == old(self)@.update(
                        i,
                        (AccountModel {
                            entries: add_effect(old(self)@[i].entries, req@, now@),
                            ..old(self)@[i]
                        }),
                    ),
                    Err(e) => final(self)@ == old(self)@ && ((e == ServiceError::Unauthorized && i
                        == -1) || (e == ServiceError::InvalidInput && i >= 0 && !valid_add(
                        req.id@,
                    ))),
                }
            }),
    {
        let ghost s0 = self@;
        let idx = match self.find_session(session) {
            None => {
                return Err(ServiceError::Unauthorized);
            },
            Some(i) => i,
        };
        if req.id.as_str().is_empty() {
            return Err(ServiceError::InvalidInput);
        }
        proof {
            assert(self.accounts@[idx as int]@ == s0[idx as int]);
        }
        self.accounts[idx].store.add_history(req, now);
        proof {
            assert(self@ =~= s0.update(
                idx as int,
                (AccountModel { entries: add_effect(s0[idx as int].entries, req@, now@), ..s0[idx as int] }),
            ));
            assert forall|p: int, q: int| #![trigger self@[p], self@[q]]
                0 <= p < q < self@.len() implies self@[p].username != self@[q].username && self@[p].email
                != self@[q].email by {
                assert(self@[p].username == s0[p].username && self@[p].email == s0[p].email);
                assert(self@[q].username == s0[q].username && self@[q].email == s0[q].email);
            }
            assert forall|p: int|
                0 <= p < self@.len() implies ids_unique((#[trigger] self@[p]).entries)
                && insertion_ordered(self@[p].entries) by {
                if p != idx as int {
                    assert(self@[p].entries == s0[p].entries);
                }
            }
        }
        Ok(())
    }

    /// Answers a delta query against the session's account: the opaque
    /// payloads of the live entries beyond both cursor bounds, in insertion
    /// order. A pure read.
    pub fn sync_history(&self, session: &String, req: &SyncHistoryRequest) -> (r: Result<
        SyncHistoryResponse,
        ServiceError,
    >)
        ensures
            ({
                let i = session_index(self@, session@);
                match r {
                    Ok(resp) => i >= 0 && resp@ == sync_payloads(self@[i].entries, req@),
                    Err(e) => e == ServiceError::Unauthorized && i == -1,
                }
            }),
    {
        match self.find_session(session) {
            None => Err(ServiceError::Unauthorized),
            Some(i) => {
                proof {
                    assert(self.accounts@[i as int]@ == self@[i as int]);
                }
                Ok(self.accounts[i].store.sync_history(req))
            },
        }
    }

    /// A reconciliation snapshot of the session's account. A pure read.
    pub fn status(&self, session: &String) -> (r: Result<StatusResponse, ServiceError>)
        ensures
            ({
                let i = session_index(self@, session@);
                match r {
                    Ok(st) => i >= 0 && st.count == count_to_i64(live_count(self@[i].entries))
                        && st.deleted@.map_values(|p: String| p@) == deleted_ids(self@[i].entries),
                    Err(e) => e == ServiceError::Unauthorized && i == -1,
                }
            }),
    {
        match self.find_session(session) {
            None => Err(ServiceError::Unauthorized),
            Some(i) => {
                proof {
                    assert(self.accounts@[i as int]@ == self@[i as int]);
                }
                Ok(self.accounts[i].store.status())
            },
        }
    }

    /// The authoritative live-entry count of the session's account. A pure
    /// read.
    pub fn count(&self, session: &String) -> (r: Result<CountResponse, ServiceError>)
        ensures
            ({
                let i = session_index(self@, session@);
                match r {
                    Ok(c) => i >= 0 && c.count == count_to_i64(live_count(self@[i].entries)),
                    Err(e) => e == ServiceError::Unauthorized && i == -1,
                }
            }),
    {
        match self.find_session(session) {
            None => Err(ServiceError::Unauthorized),
            Some(i) => {
                proof {
                    assert(self.accounts@[i as int]@ == self@[i as int]);
                }
                Ok(self.accounts[i].store.count())
            },
        }
    }

    /// Tombstones the named entry in the session's account. Deleting an id
    /// with no live entry reports `NotFound` and changes nothing.
    pub fn delete_history(&mut self, session: &String, req: &DeleteHistoryRequest) -> (r: Result<
        (),
        ServiceError,
    >)
        requires
            old(self).wf(),
        ensures
            final(self).wf(),
            ({
                let i = session_index(old(self)@, session@);
                match r {
                    Ok(_) => i >= 0 && has_live_id(old(self)@[i].entries, req.client_id@)
                        && final(self)@ == old(self)@.update(
                        i,
                        (AccountModel {
                            entries: delete_effect(old(self)@[i].entries, req.client_id@),
                            ..old(self)@[i]
                        }),
                    ),
                    Err(e) => final(self)@ == old(self)@ && ((e == ServiceError::Unauthorized && i
                        == -1) || (e == ServiceError::NotFound && i >= 0 && !has_live_id(
                        old(self)@[i].entries,
                        req.client_id@,
                    ))),
                }
            }),
    {
        let ghost s0 = self@;
        let idx = match self.find_session(session) {
            None => {
                return Err(ServiceError::Unauthorized);
            },
            Some(i) => i,
        };
        proof {
            assert(self.accounts@[idx as int]@ == s0[idx as int]);
        }
        let res = self.accounts[idx].store.delete_history(req);
        match res {
            Err(e) => {
                proof {
                    assert(self@ =~= s0);
                }
                Err(e)
            },
            Ok(_) => {
                proof {
                    assert(self@ =~= s0.update(
                        idx as int,
                        (AccountModel {
                            entries: delete_effect(s0[idx as int].entries, req.client_id@),
                            ..s0[idx as int]
                        }),
                    ));
                    assert forall|p: int, q: int| #![trigger self@[p], self@[q]]
                        0 <= p < q < self@.len() implies self@[p].username != self@[q].username
                        && self@[p].email != self@[q].email by {
                        assert(self@[p].username == s0[p].username && self@[p].email == s0[p].email);
                        assert(self@[q].username == s0[q].username && self@[q].email == s0[q].email);
                    }
                    assert forall|p: int|
                        0 <= p < self@.len() implies ids_unique((#[trigger] self@[p]).entries)
                        && insertion_ordered(self@[p].entries) by {
                        if p != idx as int {
                            assert(self@[p].entries == s0[p].entries);
                        }
                    }
                }
                Ok(())
            },
        }
    }
}

} // verus!
