//! The credential store: a durable mapping from username to password secret
//! with verify-or-register semantics. An unknown username is recorded with the
//! offered password; a known one is checked against the stored secret, which is
//! never overwritten. The embedding program keeps the store under one lock, so
//! each call here is one atomic check-and-possibly-record.

use vstd::prelude::*;
use vstd::string::StringExecFns;
use crate::assoc::{lookup, unique_keys, lemma_lookup_none_iff_no_key, lemma_lookup_at_first_match,
    lemma_lookup_push};
use crate::text::str_eq;

verus! {

/// One stored credential: a username and its password secret.
pub struct CredentialRecord {
    pub username: String,
    pub secret: String,
}

impl View for CredentialRecord {
    type V = (Seq<char>, Seq<char>);

    open spec fn view(&self) -> (Seq<char>, Seq<char>) {
        (self.username@, self.secret@)
    }
}

/// The association sequence a sequence of records stands for.
pub open spec fn records_view(rs: Seq<CredentialRecord>) -> Seq<(Seq<char>, Seq<char>)> {
    rs.map_values(|r: CredentialRecord| r@)
}

/// The verdict of one authentication attempt.
#[derive(PartialEq, Eq, Structural, Clone, Copy, Debug)]
pub enum AuthOutcome {
    /// The username was unknown; it is now recorded with the offered password.
    NewUser,
    /// The username was known and the password matched.
    ReturningUser,
    /// The username was known and the password did not match.
    Rejected,
}

/// The verdict `verify_or_register` owes on store `m` for the pair `(u, p)`.
pub open spec fn auth_outcome_of(m: Seq<(Seq<char>, Seq<char>)>, u: Seq<char>, p: Seq<char>) -> AuthOutcome {
    match lookup(m, u) {
        Option::None => AuthOutcome::NewUser,
        Option::Some(s) => if s == p {
            AuthOutcome::ReturningUser
        } else {
            AuthOutcome::Rejected
        },
    }
}

/// The store `verify_or_register` leaves behind: extended by one record for an
/// unknown username, unchanged otherwise.
pub open spec fn store_after_auth(m: Seq<(Seq<char>, Seq<char>)>, u: Seq<char>, p: Seq<char>) -> Seq<
    (Seq<char>, Seq<char>),
> {
    if lookup(m, u) is None {
        m.push((u, p))
    } else {
        m
    }
}

/// The username-to-secret mapping, kept as a sequence of records with at most
/// one record per username.
pub struct CredentialStore {
    records: Vec<CredentialRecord>,
}

impl View for CredentialStore {
    type V = Seq<(Seq<char>, Seq<char>)>;

    closed spec fn view(&self) -> Seq<(Seq<char>, Seq<char>)> {
        records_view(self.records@)
    }
}

impl CredentialStore {
    /// One record per username.
    pub open spec fn wf(&self) -> bool {
        unique_keys(self@)
    }

    /// The empty store, as a server starts with when no credential data could
    /// be loaded.
    pub fn new() -> (s: Self)
        ensures
            s.wf(),
            s@ == Seq::<(Seq<char>, Seq<char>)>::empty(),
    {
        let s = CredentialStore { records: Vec::new() };
        proof {
            assert(s@ =~= Seq::<(Seq<char>, Seq<char>)>::empty());
        }
        s
    }

    /// How many usernames are recorded.
    pub fn len(&self) -> (n: usize)
        ensures
            n == self@.len(),
    {
        self.records.len()
    }

    /// The position of the record for `username`, if one exists.
    fn find(&self, username: &str) -> (r: Option<usize>)
        ensures
            match r {
                Option::Some(i) => i < self@.len() && self@[i as int].0 == username@ && lookup(
                    self@,
                    username@,
                ) == Some(self@[i as int].1),
                Option::None => lookup(self@, username@) is None,
            },
    {
        let n = self.records.len();
        let mut i: usize = 0;
        while i < n
            invariant
                i <= n,
                n == self@.len(),
                n == self.records.len(),
                forall|k: int| 0 <= k < i ==> self@[k].0 != username@,
            decreases n - i,
        {
            if str_eq(self.records[i].username.as_str(), username) {
                proof {
                    lemma_lookup_at_first_match(self@, username@, i as int);
                }
                return Some(i);
            }
            i += 1;
        }
        proof {
            lemma_lookup_none_iff_no_key(self@, username@);
        }
        None
    }

    /// The secret stored for `username`, if any.
    pub fn lookup_secret(&self, username: &str) -> (r: Option<&String>)
        ensures
            match r {
                Option::Some(s) => lookup(self@, username@) == Some(s@),
                Option::None => lookup(self@, username@) is None,
            },
    {
        match self.find(username) {
            Option::Some(i) => Some(&self.records[i].secret),
            Option::None => None,
        }
    }

    /// The one authentication operation: an unknown username is recorded with
    /// the offered password and accepted as new; a known username is accepted
    /// exactly when the password equals the stored secret, and the store is
    /// left unchanged either way.
    pub fn verify_or_register(&mut self, username: &str, password: &str) -> (r: AuthOutcome)
        requires
            old(self).wf(),
        ensures
            final(self).wf(),
            r == auth_outcome_of(old(self)@, username@, password@),
            final(self)@ == store_after_auth(old(self)@, username@, password@),
    {
        match self.find(username) {
            Option::Some(i) => {
                if str_eq(self.records[i].secret.as_str(), password) {
                    AuthOutcome::ReturningUser
                } else {
                    AuthOutcome::Rejected
                }
            },
            Option::None => {
                proof {
                    lemma_lookup_none_iff_no_key(old(self)@, username@);
                }
                let rec = CredentialRecord {
                    username: String::from_str(username),
                    secret: String::from_str(password),
                };
                self.records.push(rec);
                proof {
                    assert(self@ =~= old(self)@.push((username@, password@)));
                    assert forall|i: int, j: int| 0 <= i < j < self@.len() implies self@[i].0
                        != self@[j].0 by {
                        if j < self@.len() - 1 {
                            assert(old(self)@[i].0 != old(self)@[j].0);
                        }
                    }
                }
                AuthOutcome::NewUser
            },
        }
    }

    /// A copy of every record, in store order, as the persistence layer writes
    /// them out.
    pub fn to_records(&self) -> (rs: Vec<CredentialRecord>)
        ensures
            records_view(rs@) == self@,
    {
        let n = self.records.len();
        let mut rs: Vec<CredentialRecord> = Vec::new();
        let mut i: usize = 0;
        while i < n
            invariant
                i <= n,
                n == self.records.len(),
                rs@.len() == i,
                forall|k: int| 0 <= k < i ==> rs@[k] == self.records@[k],
            decreases n - i,
        {
            let rec = CredentialRecord {
                username: self.records[i].username.clone(),
                secret: self.records[i].secret.clone(),
            };
            rs.push(rec);
            i += 1;
        }
        proof {
            assert(records_view(rs@) =~= self@);
        }
        rs
    }

    /// Rebuilds a store from loaded records, first record per username
    /// winning, so that every lookup agrees with a lookup in the loaded data;
    /// records that already had one record per username are taken over
    /// unchanged and in order.
    pub fn from_records(records: &Vec<CredentialRecord>) -> (s: Self)
        ensures
            s.wf(),
            forall|u: Seq<char>| #[trigger] lookup(s@, u) == lookup(records_view(records@), u),
            unique_keys(records_view(records@)) ==> s@ == records_view(records@),
    {
        let n = records.len();
        let mut s = CredentialStore::new();
        let mut i: usize = 0;
        while i < n
            invariant
                i <= n,
                n == records.len(),
                s.wf(),
                forall|u: Seq<char>| #[trigger] lookup(s@, u) == lookup(
                    records_view(records@.subrange(0, i as int)),
                    u,
                ),
                unique_keys(records_view(records@)) ==> s@ == records_view(
                    records@.subrange(0, i as int),
                ),
            decreases n - i,
        {
            let ghost prev = s@;
            let ghost prefix = records_view(records@.subrange(0, i as int));
            let ghost entry = (records@[i as int].username@, records@[i as int].secret@);
            s.verify_or_register(records[i].username.as_str(), records[i].secret.as_str());
            proof {
                assert(records_view(records@.subrange(0, i + 1)) =~= prefix.push(entry));
                assert forall|u: Seq<char>| #[trigger] lookup(s@, u) == lookup(
                    prefix.push(entry),
                    u,
                ) by {
                    lemma_lookup_push(prefix, entry, u);
                    assert(lookup(prev, u) == lookup(prefix, u));
                    if lookup(prev, entry.0) is None {
                        assert(s@ == prev.push((entry.0, entry.1)));
                        assert(prev.push((entry.0, entry.1)) =~= prev.push(entry));
                        lemma_lookup_push(prev, entry, u);
                    } else {
                        assert(s@ == prev);
                    }
                }
                if unique_keys(records_view(records@)) {
                    assert forall|k: int| 0 <= k < prefix.len() implies prefix[k].0 != entry.0 by {
                        assert(records_view(records@)[k].0 != records_view(records@)[i as int].0);
                    }
                    lemma_lookup_none_iff_no_key(prefix, entry.0);
                    assert(s@ == records_view(records@.subrange(0, i + 1)));
                }
            }
            i += 1;
        }
        proof {
            assert(records@.subrange(0, n as int) =~= records@);
        }
        s
    }
}

} // verus!
