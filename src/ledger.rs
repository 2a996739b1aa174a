//! The assignment ledger: which entry each user holds in the current
//! rotation window.
use vstd::prelude::*;
use std::collections::HashMap;
use crate::clock::Checkpoint;

verus! {

broadcast use vstd::std_specs::hash::group_hash_axioms;

/// A ledger as a mathematical value: the window it belongs to (its
/// checkpoint in Unix seconds) and the entry name assigned to each user in it.
pub type LedgerModel = (int, Map<u64, String>);

/// The ledger once a request has looked at checkpoint `e`: a strictly newer
/// checkpoint starts an empty ledger for that window; otherwise nothing changes.
pub open spec fn rolled_over(s: LedgerModel, e: int) -> LedgerModel {
    if e > s.0 {
        (e, Map::empty())
    } else {
        s
    }
}

/// One request by `user` at checkpoint `e`, whose candidate entry is named
/// `name`: after the rollover, a user who already holds an entry keeps it and
/// is told its name (`Some`); any other user is given `name` (`None`).
pub open spec fn assign_step(s: LedgerModel, user: u64, e: int, name: String) -> (LedgerModel, Option<
    String,
>) {
    let t = rolled_over(s, e);
    if t.1.contains_key(user) {
        (t, Some(t.1[user]))
    } else {
        ((t.0, t.1.insert(user, name)), None)
    }
}

/// Per-window record of who holds which entry.
pub struct Ledger {
    epoch: Checkpoint,
    assignments: HashMap<u64, String>,
}

impl View for Ledger {
    type V = LedgerModel;

    closed spec fn view(&self) -> LedgerModel {
        (self.epoch.secs as int, self.assignments@)
    }
}

impl Ledger {
    /// An empty ledger for the window that opened at `epoch`.
    pub fn new(epoch: Checkpoint) -> (r: Ledger)
        ensures
            r@ == (epoch.secs as int, Map::<u64, String>::empty()),
    {
        Ledger { epoch, assignments: HashMap::new() }
    }

    /// The checkpoint of the window this ledger records.
    pub fn epoch(&self) -> (r: Checkpoint)
        ensures
            r.secs == self@.0,
    {
        self.epoch
    }

    /// The entry name held by `user`, if any.
    pub fn assigned(&self, user: u64) -> (r: Option<String>)
        ensures
            r == (if self@.1.contains_key(user) {
                Some(self@.1[user])
            } else {
                None
            }),
    {
        match self.assignments.get(&user) {
            Some(name) => Some(name.clone()),
            None => None,
        }
    }

    /// Number of users holding an entry.
    pub fn len(&self) -> (r: usize)
        ensures
            r == self@.1.len(),
    {
        self.assignments.len()
    }

    /// The one operation that changes the ledger, done as a unit: roll over to
    /// `epoch` if it is newer, then either report the entry `user` already holds
    /// or record `name` for them.
    pub fn assign(&mut self, user: u64, epoch: Checkpoint, name: &String) -> (r: Option<String>)
        ensures
            (final(self)@, r) == assign_step(old(self)@, user, epoch.secs as int, *name),
    {
        if epoch.secs > self.epoch.secs {
            self.epoch = epoch;
            self.assignments.clear();
        }
        match self.assignments.get(&user) {
            Some(held) => Some(held.clone()),
            None => {
                self.assignments.insert(user, name.clone());
                None
            },
        }
    }
}

/// The first request of a user in a window fixes their entry for it: a
/// second request in the same window changes nothing and reports the entry
/// recorded by the first, whatever the second request's candidate is; and if
/// the first request assigned, it assigned its own candidate.
pub proof fn lemma_assignment_sticks(s: LedgerModel, user: u64, e: int, first: String, second: String)
    ensures
        ({
            let (s1, r1) = assign_step(s, user, e, first);
            let (s2, r2) = assign_step(s1, user, e, second);
            &&& s1.1.contains_key(user)
            &&& r1 is None ==> s1.1[user] == first
            &&& r1 matches Some(held) ==> held == s1.1[user]
            &&& s2 == s1
            &&& r2 == Some(s1.1[user])
        }),
{
}

/// A request whose checkpoint is not newer than the ledger's never clears it:
/// the window stays the same and every assignment already recorded stays as it
/// was.
pub proof fn lemma_no_rollover_keeps_assignments(s: LedgerModel, user: u64, e: int, name: String)
    requires
        e <= s.0,
    ensures
        ({
            let (s1, _) = assign_step(s, user, e, name);
            &&& s1.0 == s.0
            &&& s.1.submap_of(s1.1)
        }),
{
}

/// Repeated requests at one checkpoint roll the ledger over at most once: the
/// second request finds the window already current and loses nothing that the
/// first left.
pub proof fn lemma_rollover_once(s: LedgerModel, u1: u64, u2: u64, e: int, n1: String, n2: String)
    ensures
        ({
            let (s1, _) = assign_step(s, u1, e, n1);
            let (s2, _) = assign_step(s1, u2, e, n2);
            &&& s1.0 >= e
            &&& s2.0 == s1.0
            &&& s1.1.submap_of(s2.1)
        }),
{
    let (s1, _) = assign_step(s, u1, e, n1);
    lemma_no_rollover_keeps_assignments(s1, u2, e, n2);
}

/// The ledger after requests `reqs` (each a user and their candidate's name),
/// taken in order, all at checkpoint `e`.
pub open spec fn run_requests(s: LedgerModel, e: int, reqs: Seq<(u64, String)>) -> LedgerModel
    decreases reqs.len(),
{
    if reqs.len() == 0 {
        s
    } else {
        let last = reqs.last();
        assign_step(run_requests(s, e, reqs.drop_last()), last.0, e, last.1).0
    }
}

/// Requests at a checkpoint that is not newer than the ledger's, from any
/// users, keep the window and every assignment already recorded.
pub proof fn lemma_window_keeps_assignments(s: LedgerModel, e: int, reqs: Seq<(u64, String)>)
    requires
        e <= s.0,
    ensures
        run_requests(s, e, reqs).0 == s.0,
        s.1.submap_of(run_requests(s, e, reqs).1),
    decreases reqs.len(),
{
    if reqs.len() > 0 {
        lemma_window_keeps_assignments(s, e, reqs.drop_last());
        let mid = run_requests(s, e, reqs.drop_last());
        lemma_no_rollover_keeps_assignments(mid, reqs.last().0, e, reqs.last().1);
    }
}

/// Once `user` holds an entry in the window, every later request of theirs in
/// that window, however requests of other users come in between, is answered
/// with that same entry and never with its own candidate.
pub proof fn lemma_held_for_whole_window(
    s: LedgerModel,
    user: u64,
    e: int,
    reqs: Seq<(u64, String)>,
)
    requires
        e <= s.0,
        s.1.contains_key(user),
    ensures
        forall|i: int|
            0 <= i < reqs.len() && (#[trigger] reqs[i]).0 == user ==> assign_step(
                run_requests(s, e, reqs.take(i)),
                user,
                e,
                reqs[i].1,
            ).1 == Some(s.1[user]),
        run_requests(s, e, reqs).1[user] == s.1[user],
{
    assert forall|i: int| 0 <= i < reqs.len() && (#[trigger] reqs[i]).0 == user implies assign_step(
        run_requests(s, e, reqs.take(i)),
        user,
        e,
        reqs[i].1,
    ).1 == Some(s.1[user]) by {
        lemma_window_keeps_assignments(s, e, reqs.take(i));
        assert(run_requests(s, e, reqs.take(i)).1.contains_key(user));
    }
    lemma_window_keeps_assignments(s, e, reqs);
    assert(run_requests(s, e, reqs).1.contains_key(user));
}

} // verus!
