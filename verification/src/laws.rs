//! The laws the service obeys, proved over the same models the operation
//! contracts are stated in: registration is unique per username, a stored
//! secret decides every later login and is never overwritten, a broadcast
//! reaches every other active client and never its sender, and a deregistered
//! username is out of every later fan-out.

use vstd::prelude::*;
use crate::assoc::{lookup, unique_keys, key_count, lemma_lookup_none_iff_no_key,
    lemma_lookup_push, lemma_unique_key_count};
use crate::credentials::{AuthOutcome, auth_outcome_of, store_after_auth};
use crate::registry::{deregister_spec, targets_spec};
use crate::session::{EventView, StateView, quiet_step, step_spec};

verus! {

/// Registration uniqueness: of two registration attempts for one unknown
/// username with differing passwords, serialised by the store's lock in either
/// order, exactly the first succeeds as a new user, the second is rejected,
/// and the store ends with exactly one secret for that username: the first
/// password offered.
pub proof fn lemma_registration_unique(
    m: Seq<(Seq<char>, Seq<char>)>,
    u: Seq<char>,
    p1: Seq<char>,
    p2: Seq<char>,
)
    requires
        unique_keys(m),
        lookup(m, u) is None,
        p1 != p2,
    ensures
        auth_outcome_of(m, u, p1) == AuthOutcome::NewUser,
        auth_outcome_of(store_after_auth(m, u, p1), u, p2) == AuthOutcome::Rejected,
        store_after_auth(store_after_auth(m, u, p1), u, p2) == store_after_auth(m, u, p1),
        lookup(store_after_auth(m, u, p1), u) == Some(p1),
        key_count(store_after_auth(m, u, p1), u) == 1,
{
    let m1 = store_after_auth(m, u, p1);
    lemma_lookup_push(m, (u, p1), u);
    lemma_store_after_auth_wf(m, u, p1);
    lemma_unique_key_count(m1, u);
}

/// A successful registration preserves the one-record-per-username invariant.
pub proof fn lemma_store_after_auth_wf(m: Seq<(Seq<char>, Seq<char>)>, u: Seq<char>, p: Seq<char>)
    requires
        unique_keys(m),
    ensures
        unique_keys(store_after_auth(m, u, p)),
{
    if lookup(m, u) is None {
        lemma_lookup_none_iff_no_key(m, u);
        let m1 = m.push((u, p));
        assert forall|i: int, j: int| 0 <= i < j < m1.len() implies m1[i].0 != m1[j].0 by {
            if j < m1.len() - 1 {
                assert(m[i].0 != m[j].0);
            }
        }
    }
}

/// Auth correctness: once a username is registered with a password, a later
/// login with that password is accepted as a returning user, any other
/// password is rejected, and neither attempt changes the store — the secret is
/// never overwritten.
pub proof fn lemma_auth_correctness(
    m: Seq<(Seq<char>, Seq<char>)>,
    u: Seq<char>,
    p: Seq<char>,
    q: Seq<char>,
)
    requires
        unique_keys(m),
        lookup(m, u) is None,
    ensures
        auth_outcome_of(m, u, p) == AuthOutcome::NewUser,
        auth_outcome_of(store_after_auth(m, u, p), u, p) == AuthOutcome::ReturningUser,
        store_after_auth(store_after_auth(m, u, p), u, p) == store_after_auth(m, u, p),
        q != p ==> auth_outcome_of(store_after_auth(m, u, p), u, q) == AuthOutcome::Rejected,
        store_after_auth(store_after_auth(m, u, p), u, q) == store_after_auth(m, u, p),
        lookup(store_after_auth(store_after_auth(m, u, p), u, q), u) == Some(p),
{
    lemma_lookup_push(m, (u, p), u);
}

/// Every entry of a fan-out is an entry of the registry it was taken from.
proof fn lemma_targets_from_registry(m: Seq<(Seq<char>, u64)>, sender: Seq<char>)
    ensures
        forall|k: int|
            0 <= k < targets_spec(m, sender).len() ==> m.contains(
                #[trigger] targets_spec(m, sender)[k],
            ),
    decreases m.len(),
{
    if m.len() > 0 {
        let t = m.drop_first();
        lemma_targets_from_registry(t, sender);
        assert forall|k: int|
            0 <= k < targets_spec(m, sender).len() implies m.contains(
            #[trigger] targets_spec(m, sender)[k],
        ) by {
            if m[0].0 != sender {
                if k > 0 {
                    let x = targets_spec(m, sender)[k];
                    assert(x == targets_spec(t, sender)[k - 1]);
                    let i = choose|i: int| 0 <= i < t.len() && t[i] == x;
                    assert(m[i + 1] == x);
                }
            } else {
                let x = targets_spec(m, sender)[k];
                let i = choose|i: int| 0 <= i < t.len() && t[i] == x;
                assert(m[i + 1] == x);
            }
        }
    }
}

/// Broadcast exclusion: a fan-out for a sender carries every registry entry
/// whose username differs from the sender's, and no entry of the sender's own
/// username — a message is never echoed back.
pub proof fn lemma_broadcast_exclusion(m: Seq<(Seq<char>, u64)>, sender: Seq<char>)
    ensures
        forall|k: int|
            0 <= k < targets_spec(m, sender).len() ==> (#[trigger] targets_spec(m, sender)[k]).0
                != sender,
        forall|i: int|
            0 <= i < m.len() && (#[trigger] m[i]).0 != sender ==> targets_spec(m, sender).contains(
                m[i],
            ),
    decreases m.len(),
{
    if m.len() > 0 {
        let t = m.drop_first();
        lemma_broadcast_exclusion(t, sender);
        assert(forall|i: int| 0 <= i < t.len() ==> t[i] == m[i + 1]);
        assert forall|i: int|
            0 <= i < m.len() && (#[trigger] m[i]).0 != sender implies targets_spec(
            m,
            sender,
        ).contains(m[i]) by {
            if i == 0 {
                assert(targets_spec(m, sender)[0] == m[0]);
            } else {
                assert(t[i - 1] == m[i]);
                assert(t[i - 1].0 != sender);
                assert(targets_spec(t, sender).contains(m[i]));
                let k = choose|k: int|
                    0 <= k < targets_spec(t, sender).len() && targets_spec(t, sender)[k] == m[i];
                if m[0].0 != sender {
                    assert(targets_spec(m, sender)[k + 1] == m[i]);
                } else {
                    assert(targets_spec(m, sender)[k] == m[i]);
                }
            }
        }
    }
}

/// Deregistration: once a username's entry is removed, the registry has no
/// entry for it, and no later fan-out — whoever the sender — carries it: a
/// closed session receives no further broadcasts.
pub proof fn lemma_deregister_excludes(m: Seq<(Seq<char>, u64)>, u: Seq<char>, sender: Seq<char>)
    requires
        unique_keys(m),
    ensures
        lookup(deregister_spec(m, u), u) is None,
        forall|k: int|
            0 <= k < targets_spec(deregister_spec(m, u), sender).len() ==> (
            #[trigger] targets_spec(deregister_spec(m, u), sender)[k]).0 != u,
{
    let m1 = deregister_spec(m, u);
    if lookup(m, u) is Some {
        let i = crate::assoc::key_index(m, u);
        crate::assoc::lemma_key_index_of_lookup(m, u);
        m.remove_ensures(i);
        assert forall|a: int| 0 <= a < m1.len() implies m1[a].0 != u by {
            if a < i {
                assert(m1[a] == m[a]);
                assert(m[a].0 != m[i].0);
            } else {
                assert(m1[a] == m[a + 1]);
                assert(m[i].0 != m[a + 1].0);
            }
        }
    }
    lemma_lookup_none_iff_no_key(m1, u);
    lemma_targets_from_registry(m1, sender);
    assert forall|k: int|
        0 <= k < targets_spec(m1, sender).len() implies (#[trigger] targets_spec(m1, sender)[k]).0
        != u by {
        let x = targets_spec(m1, sender)[k];
        let i = choose|i: int| 0 <= i < m1.len() && m1[i] == x;
        assert(m1[i].0 != u);
    }
}

/// A session deregisters exactly when it leaves `Active` for `Closed`, and
/// then removes its own username.
pub proof fn lemma_deregister_on_close_only(s: StateView, e: EventView)
    ensures
        step_spec(s, e).deregister is Some <==> (s matches StateView::Active(_)
            && step_spec(s, e).next matches StateView::Closed),
        s matches StateView::Active(u) ==> (step_spec(s, e).deregister is Some ==> step_spec(
            s,
            e,
        ).deregister == Some(u)),
{
}

/// `Closed` is terminal: no event moves a closed session or asks for any
/// further action.
pub proof fn lemma_closed_terminal(e: EventView)
    ensures
        step_spec(StateView::Closed, e) == quiet_step(StateView::Closed),
{
}

} // verus!
