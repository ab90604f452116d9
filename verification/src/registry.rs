//! The connection registry: the shared map from username to the handle of that
//! client's open connection, and the broadcast fan-out computed from it. The
//! embedding program keeps the registry under one lock spanning each whole
//! operation, so a broadcast is atomic relative to registrations and removals.

use vstd::prelude::*;
use crate::assoc::{lookup, unique_keys, key_index, lemma_lookup_none_iff_no_key,
    lemma_lookup_at_first_match};
use crate::text::{format_message, str_eq};

verus! {

/// One live connection: the authenticated username and an opaque identifier
/// for the writable endpoint of that client. The embedding program maps the
/// identifier to the real transport handle.
pub struct ClientHandle {
    pub username: String,
    pub client: u64,
}

impl View for ClientHandle {
    type V = (Seq<char>, u64);

    open spec fn view(&self) -> (Seq<char>, u64) {
        (self.username@, self.client)
    }
}

/// The association sequence a sequence of handles stands for.
pub open spec fn handles_view(hs: Seq<ClientHandle>) -> Seq<(Seq<char>, u64)> {
    hs.map_values(|h: ClientHandle| h@)
}

/// The registry `register` leaves behind: a fresh username is appended; an
/// already registered one has its handle replaced in place.
pub open spec fn register_spec(m: Seq<(Seq<char>, u64)>, u: Seq<char>, c: u64) -> Seq<
    (Seq<char>, u64),
> {
    if lookup(m, u) is None {
        m.push((u, c))
    } else {
        m.update(key_index(m, u), (u, c))
    }
}

/// The registry `deregister` leaves behind: the entry for the username is
/// removed; an absent username leaves the registry unchanged.
pub open spec fn deregister_spec(m: Seq<(Seq<char>, u64)>, u: Seq<char>) -> Seq<(Seq<char>, u64)> {
    if lookup(m, u) is None {
        m
    } else {
        m.remove(key_index(m, u))
    }
}

/// The fan-out of one broadcast: every entry whose username differs from the
/// sender's, in registry order.
pub open spec fn targets_spec(m: Seq<(Seq<char>, u64)>, sender: Seq<char>) -> Seq<(Seq<char>, u64)>
    decreases m.len(),
{
    if m.len() == 0 {
        m
    } else if m[0].0 != sender {
        seq![m[0]] + targets_spec(m.drop_first(), sender)
    } else {
        targets_spec(m.drop_first(), sender)
    }
}

/// How the fan-out grows when one entry is appended.
pub proof fn lemma_targets_push(m: Seq<(Seq<char>, u64)>, x: (Seq<char>, u64), sender: Seq<char>)
    ensures
        targets_spec(m.push(x), sender) == (if x.0 != sender {
            targets_spec(m, sender).push(x)
        } else {
            targets_spec(m, sender)
        }),
    decreases m.len(),
{
    if m.len() == 0 {
        assert(m.push(x).drop_first() =~= m);
        if x.0 != sender {
            assert(targets_spec(m.push(x), sender) =~= targets_spec(m, sender).push(x));
        }
    } else {
        assert(m.push(x).drop_first() =~= m.drop_first().push(x));
        lemma_targets_push(m.drop_first(), x, sender);
        if x.0 != sender {
            assert(seq![m[0]] + targets_spec(m.drop_first(), sender).push(x) =~= (seq![m[0]]
                + targets_spec(m.drop_first(), sender)).push(x));
        }
    }
}

/// The text of one relayed message, as every recipient receives it.
pub open spec fn message_seq(sender: Seq<char>, payload: Seq<char>) -> Seq<char> {
    sender + ": "@ + payload + "\n"@
}

/// One planned delivery of a broadcast: the recipient's client identifier and
/// the framed message to write to it.
pub struct Delivery {
    pub client: u64,
    pub message: String,
}

/// The in-memory set of currently active sessions, keyed by username, with at
/// most one entry per username.
pub struct Registry {
    entries: Vec<ClientHandle>,
}

impl View for Registry {
    type V = Seq<(Seq<char>, u64)>;

    closed spec fn view(&self) -> Seq<(Seq<char>, u64)> {
        handles_view(self.entries@)
    }
}

impl Registry {
    /// One entry per username.
    pub open spec fn wf(&self) -> bool {
        unique_keys(self@)
    }

    /// The empty registry a server starts with.
    pub fn new() -> (r: Self)
        ensures
            r.wf(),
            r@ == Seq::<(Seq<char>, u64)>::empty(),
    {
        let r = Registry { entries: Vec::new() };
        proof {
            assert(r@ =~= Seq::<(Seq<char>, u64)>::empty());
        }
        r
    }

    /// How many sessions are registered.
    pub fn len(&self) -> (n: usize)
        ensures
            n == self@.len(),
    {
        self.entries.len()
    }

    /// The position of the entry for `username`, if one exists.
    fn find(&self, username: &str) -> (r: Option<usize>)
        ensures
            match r {
                Option::Some(i) => i < self@.len() && self@[i as int].0 == username@ && lookup(
                    self@,
                    username@,
                ) == Some(self@[i as int].1) && key_index(self@, username@) == i,
                Option::None => lookup(self@, username@) is None,
            },
    {
        let n = self.entries.len();
        let mut i: usize = 0;
        while i < n
            invariant
                i <= n,
                n == self@.len(),
                n == self.entries.len(),
                forall|k: int| 0 <= k < i ==> self@[k].0 != username@,
            decreases n - i,
        {
            if str_eq(self.entries[i].username.as_str(), username) {
                proof {
                    lemma_lookup_at_first_match(self@, username@, i as int);
                }
                return Some(i);
            }
            i += 1;
        }
        proof {
            lemma_lookup_none_iff_no_key(self@, username@);
        }
        None
    }

    /// Whether a session is currently registered under `username`.
    pub fn is_registered(&self, username: &str) -> (r: bool)
        ensures
            r == (lookup(self@, username@) is Some),
    {
        self.find(username).is_some()
    }

    /// The client identifier registered for `username`, if any.
    pub fn client_of(&self, username: &str) -> (r: Option<u64>)
        ensures
            r == lookup(self@, username@),
    {
        match self.find(username) {
            Option::Some(i) => Some(self.entries[i].client),
            Option::None => None,
        }
    }

    /// Inserts the handle under the username, replacing a previous handle for
    /// the same username in place. The caller has authenticated the username.
    pub fn register(&mut self, username: String, client: u64)
        requires
            old(self).wf(),
        ensures
            final(self).wf(),
            final(self)@ == register_spec(old(self)@, username@, client),
    {
        let ghost u = username@;
        match self.find(username.as_str()) {
            Option::Some(i) => {
                self.entries[i] = ClientHandle { username, client };
                proof {
                    assert(self@ =~= old(self)@.update(i as int, (u, client)));
                    assert forall|a: int, b: int| 0 <= a < b < self@.len() implies self@[a].0
                        != self@[b].0 by {
                        assert(old(self)@[a].0 != old(self)@[b].0);
                        assert(self@[a].0 == old(self)@[a].0);
                        assert(self@[b].0 == old(self)@[b].0);
                    }
                }
            },
            Option::None => {
                proof {
                    lemma_lookup_none_iff_no_key(old(self)@, u);
                }
                self.entries.push(ClientHandle { username, client });
                proof {
                    assert(self@ =~= old(self)@.push((u, client)));
                    assert forall|a: int, b: int| 0 <= a < b < self@.len() implies self@[a].0
                        != self@[b].0 by {
                        if b < self@.len() - 1 {
                            assert(old(self)@[a].0 != old(self)@[b].0);
                        }
                    }
                }
            },
        }
    }

    /// Removes the entry for `username` if present; a no-op if absent. Called
    /// exactly once when a session closes.
    pub fn deregister(&mut self, username: &str)
        requires
            old(self).wf(),
        ensures
            final(self).wf(),
            final(self)@ == deregister_spec(old(self)@, username@),
    {
        match self.find(username) {
            Option::Some(i) => {
                self.entries.remove(i);
                proof {
                    assert(self@ =~= old(self)@.remove(i as int));
                    old(self)@.remove_ensures(i as int);
                    assert forall|a: int, b: int| 0 <= a < b < self@.len() implies self@[a].0
                        != self@[b].0 by {
                        let a0: int = if a < i { a } else { a + 1 };
                        let b0: int = if b < i { b } else { b + 1 };
                        assert(self@[a] == old(self)@[a0]);
                        assert(self@[b] == old(self)@[b0]);
                        assert(old(self)@[a0].0 != old(self)@[b0].0);
                    }
                }
            },
            Option::None => {
            },
        }
    }

    /// Plans one broadcast: for every registered session other than the
    /// sender's, in registry order, one delivery of the framed message
    /// `"<sender>: <payload>\n"`. Writing the deliveries out, best-effort, is
    /// the embedding program's part.
    pub fn broadcast(&self, sender: &str, payload: &str) -> (r: Vec<Delivery>)
        ensures
            r@.len() == targets_spec(self@, sender@).len(),
            forall|k: int|
                0 <= k < r@.len() ==> r@[k].client == targets_spec(self@, sender@)[k].1
                    && r@[k].message@ == message_seq(sender@, payload@),
    {
        let msg = format_message(sender, payload);
        let n = self.entries.len();
        let mut r: Vec<Delivery> = Vec::new();
        let mut i: usize = 0;
        while i < n
            invariant
                i <= n,
                n == self@.len(),
                n == self.entries.len(),
                msg@ == message_seq(sender@, payload@),
                r@.len() == targets_spec(self@.subrange(0, i as int), sender@).len(),
                forall|k: int|
                    0 <= k < r@.len() ==> r@[k].client == targets_spec(
                        self@.subrange(0, i as int),
                        sender@,
                    )[k].1 && r@[k].message@ == message_seq(sender@, payload@),
            decreases n - i,
        {
            let ghost prefix = self@.subrange(0, i as int);
            proof {
                assert(self@.subrange(0, i + 1) =~= prefix.push(self@[i as int]));
                lemma_targets_push(prefix, self@[i as int], sender@);
            }
            if !str_eq(self.entries[i].username.as_str(), sender) {
                let d = Delivery { client: self.entries[i].client, message: msg.clone() };
                r.push(d);
            }
            i += 1;
        }
        proof {
            assert(self@.subrange(0, n as int) =~= self@);
        }
        r
    }
}

} // verus!
