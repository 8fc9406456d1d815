//! Per-identity dispatch over the change stream: every notification maps to
//! an instance identity, and the dispatcher guarantees at-most-one in-flight
//! reconcile per identity. A notification that arrives while its identity is
//! already reconciling is coalesced into a single pending re-run — never
//! dropped, never executed concurrently with the running one. Distinct
//! identities are independent and may run concurrently without bound.

use vstd::prelude::*;

verus! {

/// Reconcile activity recorded for one instance identity.
#[derive(Clone, Copy, Debug, PartialEq, Eq, Structural)]
pub enum Flight {
    /// No reconcile in flight.
    Idle,
    /// Exactly one reconcile running.
    Running,
    /// One running, plus at least one notification coalesced into a single
    /// pending re-run.
    RunningPending,
}

/// What the controller loop must do with a change notification.
#[derive(Clone, Copy, Debug, PartialEq, Eq, Structural)]
pub enum DispatchDecision {
    /// Start a reconcile for this identity now.
    StartReconcile,
    /// A reconcile is already in flight: the notification was retained as
    /// pending, not run concurrently.
    Coalesced,
}

/// One tracked identity and its flight state.
#[derive(Clone, Debug)]
pub struct Entry {
    pub key: String,
    pub flight: Flight,
}

/// The dispatcher's record of every identity it has seen. Identities not
/// tracked are idle.
#[derive(Debug)]
pub struct Dispatcher {
    pub entries: Vec<Entry>,
}

/// Flight state of an identity: that of its unique entry, idle if untracked.
pub open spec fn lookup(entries: Seq<Entry>, id: Seq<char>) -> Flight
    decreases entries.len(),
{
    if entries.len() == 0 {
        Flight::Idle
    } else if entries[0].key@ == id {
        entries[0].flight
    } else {
        lookup(entries.drop_first(), id)
    }
}

/// No entry carries this identity.
pub open spec fn absent(entries: Seq<Entry>, id: Seq<char>) -> bool {
    forall|k: int| 0 <= k < entries.len() ==> entries[k].key@ != id
}

/// Each identity is tracked at most once.
pub open spec fn disp_wf(d: Dispatcher) -> bool {
    forall|i: int, j: int|
        0 <= i < j < d.entries@.len() ==> d.entries@[i].key@ != d.entries@[j].key@
}

/// Effect of one notification on an identity's flight state, and whether it
/// starts a reconcile: only an idle identity starts one; a busy identity
/// retains the notification as pending.
pub open spec fn notify_flight(f: Flight) -> (Flight, bool) {
    match f {
        Flight::Idle => (Flight::Running, true),
        Flight::Running => (Flight::RunningPending, false),
        Flight::RunningPending => (Flight::RunningPending, false),
    }
}

/// Effect of a reconcile completing on its identity's flight state, and
/// whether a coalesced notification now re-runs it.
pub open spec fn complete_flight(f: Flight) -> (Flight, bool) {
    match f {
        Flight::Idle => (Flight::Idle, false),
        Flight::Running => (Flight::Idle, false),
        Flight::RunningPending => (Flight::Running, true),
    }
}

proof fn lemma_lookup_absent(entries: Seq<Entry>, id: Seq<char>)
    requires
        absent(entries, id),
    ensures
        lookup(entries, id) == Flight::Idle,
    decreases entries.len(),
{
    if entries.len() > 0 {
        assert(entries[0].key@ != id);
        assert(absent(entries.drop_first(), id)) by {
            assert forall|k: int|
                0 <= k < entries.drop_first().len() implies entries.drop_first()[k].key@ != id by {
                assert(entries.drop_first()[k] == entries[k + 1]);
            }
        }
        lemma_lookup_absent(entries.drop_first(), id);
    }
}

proof fn lemma_lookup_at(entries: Seq<Entry>, i: int, id: Seq<char>)
    requires
        0 <= i < entries.len(),
        entries[i].key@ == id,
        forall|k: int| 0 <= k < i ==> entries[k].key@ != id,
    ensures
        lookup(entries, id) == entries[i].flight,
    decreases i,
{
    if i > 0 {
        assert(entries.drop_first()[i - 1] == entries[i]);
        assert(forall|k: int| 0 <= k < i - 1 ==> entries.drop_first()[k] == entries[k + 1]);
        lemma_lookup_at(entries.drop_first(), i - 1, id);
    }
}

proof fn lemma_lookup_update(entries: Seq<Entry>, i: int, e: Entry, id: Seq<char>)
    requires
        0 <= i < entries.len(),
        e.key@ == entries[i].key@,
        forall|p: int, q: int| 0 <= p < q < entries.len() ==> entries[p].key@ != entries[q].key@,
    ensures
        lookup(entries.update(i, e), id) == if id == e.key@ {
            e.flight
        } else {
            lookup(entries, id)
        },
    decreases i,
{
    let upd = entries.update(i, e);
    if i == 0 {
        if id != e.key@ {
            assert(upd.drop_first() =~= entries.drop_first());
        }
    } else {
        assert(upd[0] == entries[0]);
        if entries[0].key@ == id {
            assert(entries[i].key@ != entries[0].key@);
        } else {
            assert(upd.drop_first() =~= entries.drop_first().update(i - 1, e));
            assert(entries.drop_first()[i - 1] == entries[i]);
            assert forall|p: int, q: int|
                0 <= p < q < entries.drop_first().len() implies entries.drop_first()[p].key@
                != entries.drop_first()[q].key@ by {
                assert(entries.drop_first()[p] == entries[p + 1]);
                assert(entries.drop_first()[q] == entries[q + 1]);
            }
            lemma_lookup_update(entries.drop_first(), i - 1, e, id);
        }
    }
}

proof fn lemma_lookup_push(entries: Seq<Entry>, e: Entry, id: Seq<char>)
    ensures
        id == e.key@ && absent(entries, id) ==> lookup(entries.push(e), id) == e.flight,
        id != e.key@ ==> lookup(entries.push(e), id) == lookup(entries, id),
    decreases entries.len(),
{
    let pushed = entries.push(e);
    if entries.len() == 0 {
        assert(pushed[0] == e);
        if id != e.key@ {
            assert(pushed.drop_first() =~= Seq::<Entry>::empty());
        }
    } else {
        assert(pushed[0] == entries[0]);
        if entries[0].key@ == id {
            assert(lookup(pushed, id) == pushed[0].flight);
            assert(lookup(entries, id) == entries[0].flight);
        } else {
            assert(pushed.drop_first() =~= entries.drop_first().push(e));
            if id == e.key@ && absent(entries, id) {
                assert forall|k: int|
                    0 <= k < entries.drop_first().len() implies entries.drop_first()[k].key@
                    != id by {
                    assert(entries.drop_first()[k] == entries[k + 1]);
                }
            }
            lemma_lookup_push(entries.drop_first(), e, id);
            assert(lookup(pushed, id) == lookup(pushed.drop_first(), id));
            assert(lookup(entries, id) == lookup(entries.drop_first(), id));
        }
    }
}

impl Dispatcher {
    /// A fresh dispatcher: every identity idle.
    pub fn new() -> (d: Dispatcher)
        ensures
            disp_wf(d),
            forall|id: Seq<char>| lookup(d.entries@, id) == Flight::Idle,
    {
        Dispatcher { entries: Vec::new() }
    }

    /// Index of the entry tracking `id`, with nothing earlier matching.
    fn find(&self, id: &String) -> (r: Option<usize>)
        ensures
            r matches Some(i) ==> {
                &&& i < self.entries@.len()
                &&& self.entries@[i as int].key@ == id@
                &&& forall|k: int| 0 <= k < i ==> self.entries@[k].key@ != id@
            },
            r is None ==> absent(self.entries@, id@),
    {
        let n = self.entries.len();
        let mut i: usize = 0;
        while i < n
            invariant
                n == self.entries@.len(),
                i <= n,
                forall|k: int| 0 <= k < i ==> self.entries@[k].key@ != id@,
            decreases n - i,
        {
            if self.entries[i].key == *id {
                return Some(i);
            }
            i = i + 1;
        }
        None
    }

    /// Take one change notification for `id`. If the identity is idle, a
    /// reconcile starts; if one is already in flight, the notification is
    /// coalesced into a single pending re-run — never dropped, never run
    /// concurrently. No other identity's state is touched.
    pub fn notify(&mut self, id: &String) -> (dec: DispatchDecision)
        requires
            disp_wf(*old(self)),
        ensures
            disp_wf(*final(self)),
            lookup(final(self).entries@, id@) == notify_flight(
                lookup(old(self).entries@, id@),
            ).0,
            (dec == DispatchDecision::StartReconcile) == notify_flight(
                lookup(old(self).entries@, id@),
            ).1,
            forall|other: Seq<char>|
                other != id@ ==> lookup(final(self).entries@, other) == lookup(
                    old(self).entries@,
                    other,
                ),
    {
        match self.find(id) {
            Some(i) => {
                proof {
                    lemma_lookup_at(self.entries@, i as int, id@);
                }
                let was = self.entries[i].flight;
                let key = self.entries[i].key.clone();
                let next = match was {
                    Flight::Idle => Flight::Running,
                    Flight::Running => Flight::RunningPending,
                    Flight::RunningPending => Flight::RunningPending,
                };
                let ghost before = self.entries@;
                self.entries[i] = Entry { key, flight: next };
                proof {
                    assert(self.entries@ =~= before.update(i as int, self.entries@[i as int]));
                    assert forall|other: Seq<char>|
                        lookup(self.entries@, other) == if other == id@ {
                            next
                        } else {
                            lookup(before, other)
                        } by {
                        lemma_lookup_update(
                            before,
                            i as int,
                            self.entries@[i as int],
                            other,
                        );
                    }
                    assert forall|p: int, q: int|
                        0 <= p < q < self.entries@.len() implies self.entries@[p].key@
                        != self.entries@[q].key@ by {
                        assert(before[p].key@ != before[q].key@);
                    }
                }
                match was {
                    Flight::Idle => DispatchDecision::StartReconcile,
                    _ => DispatchDecision::Coalesced,
                }
            },
            None => {
                proof {
                    lemma_lookup_absent(self.entries@, id@);
                }
                let ghost before = self.entries@;
                let entry = Entry { key: id.clone(), flight: Flight::Running };
                self.entries.push(entry);
                proof {
                    assert forall|other: Seq<char>|
                        lookup(self.entries@, other) == if other == id@ {
                            Flight::Running
                        } else {
                            lookup(before, other)
                        } by {
                        lemma_lookup_push(before, self.entries@.last(), other);
                    }
                    assert forall|p: int, q: int|
                        0 <= p < q < self.entries@.len() implies self.entries@[p].key@
                        != self.entries@[q].key@ by {
                        if q < self.entries@.len() - 1 {
                            assert(before[p].key@ != before[q].key@);
                        } else {
                            assert(before[p].key@ != id@);
                        }
                    }
                }
                DispatchDecision::StartReconcile
            },
        }
    }

    /// A reconcile for `id` finished (successfully or not, after requeue
    /// scheduling). If a notification was coalesced while it ran, the caller
    /// must start the pending re-run now: the returned flag says so.
    pub fn complete(&mut self, id: &String) -> (again: bool)
        requires
            disp_wf(*old(self)),
        ensures
            disp_wf(*final(self)),
            lookup(final(self).entries@, id@) == complete_flight(
                lookup(old(self).entries@, id@),
            ).0,
            again == complete_flight(lookup(old(self).entries@, id@)).1,
            forall|other: Seq<char>|
                other != id@ ==> lookup(final(self).entries@, other) == lookup(
                    old(self).entries@,
                    other,
                ),
    {
        match self.find(id) {
            Some(i) => {
                proof {
                    lemma_lookup_at(self.entries@, i as int, id@);
                }
                let was = self.entries[i].flight;
                let key = self.entries[i].key.clone();
                let next = match was {
                    Flight::Idle => Flight::Idle,
                    Flight::Running => Flight::Idle,
                    Flight::RunningPending => Flight::Running,
                };
                let ghost before = self.entries@;
                self.entries[i] = Entry { key, flight: next };
                proof {
                    assert(self.entries@ =~= before.update(i as int, self.entries@[i as int]));
                    assert forall|other: Seq<char>|
                        lookup(self.entries@, other) == if other == id@ {
                            next
                        } else {
                            lookup(before, other)
                        } by {
                        lemma_lookup_update(
                            before,
                            i as int,
                            self.entries@[i as int],
                            other,
                        );
                    }
                    assert forall|p: int, q: int|
                        0 <= p < q < self.entries@.len() implies self.entries@[p].key@
                        != self.entries@[q].key@ by {
                        assert(before[p].key@ != before[q].key@);
                    }
                }
                match was {
                    Flight::RunningPending => true,
                    _ => false,
                }
            },
            None => {
                proof {
                    lemma_lookup_absent(self.entries@, id@);
                }
                false
            },
        }
    }
}

/// Serialization per identity: of two change notifications for the same
/// identity arriving back-to-back, only the first can start a reconcile; the
/// second finds the identity in flight and is coalesced, so the identity is
/// never reconciled concurrently with itself. The coalesced notification is
/// retained: when the running reconcile completes, it re-runs.
pub proof fn lemma_serialized_per_identity(f: Flight)
    ensures
        !notify_flight(notify_flight(f).0).1,
        notify_flight(notify_flight(f).0).0 == Flight::RunningPending,
        complete_flight(notify_flight(notify_flight(f).0).0).1,
{
}

} // verus!
