//! The superseded cache/poll component, kept as a clearly bounded module: a
//! snapshot cache of one resource kind, keyed by resource name, refreshed by
//! a background poll that the surrounding process drives. Its failure policy
//! is explicit — a failed refresh escalates instead of silently coupling to
//! the reconciliation engine.

use vstd::prelude::*;

verus! {

/// Approximation of the custom resource the legacy cache tracks.
#[derive(Clone, Debug)]
pub struct FooResource {
    pub name: String,
    pub info: String,
}

impl FooResource {
    /// The cache identifies a resource by its name.
    pub fn name(&self) -> (n: String)
        ensures
            n == self.name,
    {
        self.name.clone()
    }
}

/// At most one item per resource name.
pub open spec fn names_unique(items: Seq<FooResource>) -> bool {
    forall|i: int, j: int| 0 <= i < j < items.len() ==> items[i].name@ != items[j].name@
}

/// No item of this name.
pub open spec fn name_absent(items: Seq<FooResource>, n: Seq<char>) -> bool {
    forall|k: int| 0 <= k < items.len() ==> items[k].name@ != n
}

/// Store one listed item into a cache: it replaces the entry of the same
/// name, else is appended — the semantics of a map keyed by name.
pub open spec fn upsert(cache: Seq<FooResource>, item: FooResource) -> Seq<FooResource>
    decreases cache.len(),
{
    if cache.len() == 0 {
        seq![item]
    } else if cache[0].name@ == item.name@ {
        seq![item] + cache.drop_first()
    } else {
        seq![cache[0]] + upsert(cache.drop_first(), item)
    }
}

/// Store a listed snapshot into a cache, item by item, in order: of items
/// sharing a name, the last wins.
pub open spec fn load(cache: Seq<FooResource>, snapshot: Seq<FooResource>) -> Seq<FooResource>
    decreases snapshot.len(),
{
    if snapshot.len() == 0 {
        cache
    } else {
        load(upsert(cache, snapshot[0]), snapshot.drop_first())
    }
}

proof fn lemma_upsert_absent(cache: Seq<FooResource>, item: FooResource)
    requires
        name_absent(cache, item.name@),
    ensures
        upsert(cache, item) == cache.push(item),
    decreases cache.len(),
{
    if cache.len() == 0 {
        assert(seq![item] =~= cache.push(item));
    } else {
        assert forall|k: int|
            0 <= k < cache.drop_first().len() implies cache.drop_first()[k].name@
            != item.name@ by {
            assert(cache.drop_first()[k] == cache[k + 1]);
        }
        lemma_upsert_absent(cache.drop_first(), item);
        assert(seq![cache[0]] + cache.drop_first().push(item) =~= cache.push(item));
    }
}

proof fn lemma_upsert_names(cache: Seq<FooResource>, item: FooResource, n: Seq<char>)
    requires
        names_unique(cache),
    ensures
        names_unique(upsert(cache, item)),
        name_absent(upsert(cache, item), n) <==> (name_absent(cache, n) && n != item.name@),
    decreases cache.len(),
{
    let up = upsert(cache, item);
    if cache.len() == 0 {
        assert(up =~= seq![item]);
        assert(up[0] == item);
        if n != item.name@ {
            assert forall|k: int| 0 <= k < up.len() implies up[k].name@ != n by {
                assert(up[k] == item);
            }
        }
    } else if cache[0].name@ == item.name@ {
        assert(up =~= seq![item] + cache.drop_first());
        assert(up[0] == item);
        assert forall|k: int| 1 <= k < up.len() implies up[k] == cache[k] by {
            assert(up[k] == cache.drop_first()[k - 1]);
            assert(cache.drop_first()[k - 1] == cache[k]);
        }
        assert forall|p: int, q: int| 0 <= p < q < up.len() implies up[p].name@
            != up[q].name@ by {
            if p == 0 {
                assert(cache[0].name@ != cache[q].name@);
            } else {
                assert(cache[p].name@ != cache[q].name@);
            }
        }
        if name_absent(cache, n) && n != item.name@ {
            assert forall|k: int| 0 <= k < up.len() implies up[k].name@ != n by {
                if k > 0 {
                    assert(up[k] == cache[k]);
                }
            }
        }
        if name_absent(up, n) {
            assert(up[0].name@ != n);
            assert forall|k: int| 0 <= k < cache.len() implies cache[k].name@ != n by {
                if k == 0 {
                    assert(cache[0].name@ == item.name@);
                } else {
                    assert(up[k] == cache[k]);
                }
            }
        }
    } else {
        assert forall|p: int, q: int|
            0 <= p < q < cache.drop_first().len() implies cache.drop_first()[p].name@
            != cache.drop_first()[q].name@ by {
            assert(cache.drop_first()[p] == cache[p + 1]);
            assert(cache.drop_first()[q] == cache[q + 1]);
        }
        lemma_upsert_names(cache.drop_first(), item, n);
        lemma_upsert_names(cache.drop_first(), item, cache[0].name@);
        let rest = upsert(cache.drop_first(), item);
        assert(up =~= seq![cache[0]] + rest);
        assert(up[0] == cache[0]);
        assert forall|k: int| 1 <= k < up.len() implies up[k] == rest[k - 1] by {}
        assert(name_absent(cache.drop_first(), cache[0].name@)) by {
            assert forall|k: int|
                0 <= k < cache.drop_first().len() implies cache.drop_first()[k].name@
                != cache[0].name@ by {
                assert(cache.drop_first()[k] == cache[k + 1]);
            }
        }
        assert(name_absent(rest, cache[0].name@));
        assert forall|p: int, q: int| 0 <= p < q < up.len() implies up[p].name@
            != up[q].name@ by {
            if p == 0 {
                assert(rest[q - 1].name@ != cache[0].name@);
            } else {
                assert(up[p] == rest[p - 1] && up[q] == rest[q - 1]);
            }
        }
        if name_absent(cache, n) && n != item.name@ {
            assert(name_absent(cache.drop_first(), n)) by {
                assert forall|k: int|
                    0 <= k < cache.drop_first().len() implies cache.drop_first()[k].name@
                    != n by {
                    assert(cache.drop_first()[k] == cache[k + 1]);
                }
            }
            assert forall|k: int| 0 <= k < up.len() implies up[k].name@ != n by {
                if k > 0 {
                    assert(up[k] == rest[k - 1]);
                }
            }
        }
        if name_absent(up, n) {
            assert(name_absent(rest, n)) by {
                assert forall|k: int| 0 <= k < rest.len() implies rest[k].name@ != n by {
                    assert(up[k + 1] == rest[k]);
                }
            }
            assert forall|k: int| 0 <= k < cache.len() implies cache[k].name@ != n by {
                if k == 0 {
                    assert(up[0] == cache[0]);
                } else {
                    assert(cache.drop_first()[k - 1] == cache[k]);
                }
            }
        }
    }
}

proof fn lemma_load_wf(cache: Seq<FooResource>, snapshot: Seq<FooResource>)
    requires
        names_unique(cache),
    ensures
        names_unique(load(cache, snapshot)),
    decreases snapshot.len(),
{
    if snapshot.len() > 0 {
        lemma_upsert_names(cache, snapshot[0], snapshot[0].name@);
        lemma_load_wf(upsert(cache, snapshot[0]), snapshot.drop_first());
    }
}

proof fn lemma_load_snoc(cache: Seq<FooResource>, snapshot: Seq<FooResource>, item: FooResource)
    ensures
        load(cache, snapshot.push(item)) == upsert(load(cache, snapshot), item),
    decreases snapshot.len(),
{
    let snoc = snapshot.push(item);
    assert(snoc.len() == snapshot.len() + 1);
    if snapshot.len() == 0 {
        assert(snoc[0] == item);
        assert(snoc.drop_first() =~= Seq::<FooResource>::empty());
        assert(load(cache, snoc) == load(upsert(cache, item), snoc.drop_first()));
        assert(load(upsert(cache, item), snoc.drop_first()) == upsert(cache, item));
        assert(load(cache, snapshot) == cache);
    } else {
        assert(snoc[0] == snapshot[0]);
        assert(snoc.drop_first() =~= snapshot.drop_first().push(item));
        lemma_load_snoc(upsert(cache, snapshot[0]), snapshot.drop_first(), item);
        assert(load(cache, snoc) == load(upsert(cache, snapshot[0]), snoc.drop_first()));
        assert(load(cache, snapshot) == load(upsert(cache, snapshot[0]), snapshot.drop_first()));
    }
}

proof fn lemma_load_disjoint(cache: Seq<FooResource>, snapshot: Seq<FooResource>)
    requires
        names_unique(cache + snapshot),
    ensures
        load(cache, snapshot) == cache + snapshot,
    decreases snapshot.len(),
{
    if snapshot.len() == 0 {
        assert(cache + snapshot =~= cache);
    } else {
        let item = snapshot[0];
        assert(name_absent(cache, item.name@)) by {
            assert forall|k: int| 0 <= k < cache.len() implies cache[k].name@ != item.name@ by {
                assert((cache + snapshot)[k] == cache[k]);
                assert((cache + snapshot)[cache.len() as int] == item);
            }
        }
        lemma_upsert_absent(cache, item);
        assert(cache.push(item) + snapshot.drop_first() =~= cache + snapshot);
        lemma_load_disjoint(cache.push(item), snapshot.drop_first());
    }
}

proof fn lemma_upsert_at(cache: Seq<FooResource>, i: int, item: FooResource)
    requires
        0 <= i < cache.len(),
        cache[i].name@ == item.name@,
        forall|k: int| 0 <= k < i ==> cache[k].name@ != item.name@,
    ensures
        upsert(cache, item) == cache.update(i, item),
    decreases i,
{
    if i == 0 {
        assert(seq![item] + cache.drop_first() =~= cache.update(0, item));
    } else {
        assert(cache.drop_first()[i - 1] == cache[i]);
        assert(forall|k: int| 0 <= k < i - 1 ==> cache.drop_first()[k] == cache[k + 1]);
        lemma_upsert_at(cache.drop_first(), i - 1, item);
        assert(seq![cache[0]] + cache.drop_first().update(i - 1, item) =~= cache.update(i, item));
    }
}

/// Store one item into the cache vector, keyed by name.
fn upsert_exec(cache: &mut Vec<FooResource>, item: FooResource)
    ensures
        final(cache)@ == upsert(old(cache)@, item),
{
    let n = cache.len();
    let mut i: usize = 0;
    while i < n
        invariant
            n == cache@.len(),
            i <= n,
            cache@ == old(cache)@,
            forall|k: int| 0 <= k < i ==> cache@[k].name@ != item.name@,
        decreases n - i,
    {
        if cache[i].name == item.name {
            proof {
                lemma_upsert_at(cache@, i as int, item);
            }
            cache[i] = item;
            return;
        }
        i = i + 1;
    }
    proof {
        lemma_upsert_absent(cache@, item);
    }
    cache.push(item);
}

/// Cache of the most recently listed FooResource snapshot, keyed by resource
/// name, exposed read-only to the surrounding process; only the poll loop
/// writes it.
#[derive(Debug)]
pub struct State {
    pub foos: Vec<FooResource>,
}

/// The cache invariant: at most one entry per resource name.
pub open spec fn cache_wf(s: State) -> bool {
    names_unique(s.foos@)
}

impl State {
    /// An empty cache, before the first poll.
    pub fn new() -> (s: State)
        ensures
            cache_wf(s),
            s.foos@.len() == 0,
    {
        State { foos: Vec::new() }
    }

    /// Replace the cache with a freshly listed snapshot, stored item by item
    /// under its name: of duplicate names (which a well-formed listing never
    /// carries), the last wins; a listing with unique names is cached as is.
    pub fn refresh(&mut self, snapshot: Vec<FooResource>)
        ensures
            cache_wf(*final(self)),
            final(self).foos@ == load(Seq::empty(), snapshot@),
            names_unique(snapshot@) ==> final(self).foos@ == snapshot@,
    {
        let mut cache: Vec<FooResource> = Vec::new();
        let n = snapshot.len();
        let mut i: usize = 0;
        while i < n
            invariant
                n == snapshot@.len(),
                i <= n,
                cache@ == load(Seq::empty(), snapshot@.subrange(0, i as int)),
            decreases n - i,
        {
            let item = FooResource {
                name: snapshot[i].name.clone(),
                info: snapshot[i].info.clone(),
            };
            proof {
                assert(item == snapshot@[i as int]);
                lemma_load_snoc(Seq::empty(), snapshot@.subrange(0, i as int), item);
                assert(snapshot@.subrange(0, i as int).push(item) =~= snapshot@.subrange(
                    0,
                    i + 1,
                ));
            }
            upsert_exec(&mut cache, item);
            i = i + 1;
        }
        proof {
            assert(snapshot@.subrange(0, n as int) =~= snapshot@);
            lemma_load_wf(Seq::empty(), snapshot@);
            if names_unique(snapshot@) {
                assert(names_unique(Seq::<FooResource>::empty() + snapshot@)) by {
                    assert(Seq::<FooResource>::empty() + snapshot@ =~= snapshot@);
                }
                lemma_load_disjoint(Seq::empty(), snapshot@);
                assert(Seq::<FooResource>::empty() + snapshot@ =~= snapshot@);
            }
        }
        self.foos = cache;
    }

    /// Read access to the cached snapshot.
    pub fn foos(&self) -> (r: Vec<FooResource>)
        ensures
            r@ == self.foos@,
    {
        let n = self.foos.len();
        let mut r: Vec<FooResource> = Vec::new();
        let mut i: usize = 0;
        while i < n
            invariant
                n == self.foos@.len(),
                i <= n,
                r@ == self.foos@.subrange(0, i as int),
            decreases n - i,
        {
            let item = FooResource {
                name: self.foos[i].name.clone(),
                info: self.foos[i].info.clone(),
            };
            r.push(item);
            proof {
                assert(r@ =~= self.foos@.subrange(0, i + 1));
            }
            i = i + 1;
        }
        proof {
            assert(r@ =~= self.foos@);
        }
        r
    }
}

/// What the background poll loop does after one poll attempt.
#[derive(Clone, Copy, Debug, PartialEq, Eq, Structural)]
pub enum PollAction {
    /// The cache was refreshed; keep polling.
    Continue,
    /// The refresh failed; escalate process-fatally. This coupling is the
    /// legacy component's explicit, documented policy, not a side effect.
    Escalate,
}

/// Failure policy of the legacy poll loop: escalate exactly when the poll
/// failed.
pub fn poll_escalation(poll_ok: bool) -> (a: PollAction)
    ensures
        (a == PollAction::Escalate) <==> !poll_ok,
{
    if poll_ok {
        PollAction::Continue
    } else {
        PollAction::Escalate
    }
}

} // verus!
