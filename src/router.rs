use vstd::prelude::*;

verus! {

/// One registered path and its handler.
pub struct Route<H> {
    pub path: Vec<u8>,
    pub handler: H,
}

/// The map from a request path, as bytes, to its handler.
pub open spec fn routes_map<H>(s: Seq<Route<H>>) -> Map<Seq<u8>, H>
    decreases s.len(),
{
    if s.len() == 0 {
        Map::empty()
    } else {
        routes_map(s.drop_last()).insert(s.last().path@, s.last().handler)
    }
}

pub open spec fn paths_unique<H>(s: Seq<Route<H>>) -> bool {
    forall|i: int, j: int| 0 <= i < j < s.len() ==> s[i].path@ != s[j].path@
}

proof fn lemma_routes_map<H>(s: Seq<Route<H>>)
    requires
        paths_unique(s),
    ensures
        forall|i: int|
            0 <= i < s.len() ==> #[trigger] routes_map(s).contains_key(s[i].path@) && routes_map(
                s,
            )[s[i].path@] == s[i].handler,
        forall|k: Seq<u8>|
            #[trigger] routes_map(s).contains_key(k) ==> exists|i: int|
                0 <= i < s.len() && s[i].path@ == k,
    decreases s.len(),
{
    if s.len() > 0 {
        let t = s.drop_last();
        let n = s.len() - 1;
        lemma_routes_map(t);
        assert(routes_map(s) == routes_map(t).insert(s[n].path@, s[n].handler));
        assert(t.len() == n);
        assert forall|i: int| 0 <= i < s.len() implies #[trigger] routes_map(s).contains_key(
            s[i].path@,
        ) && routes_map(s)[s[i].path@] == s[i].handler by {
            if i < s.len() - 1 {
                assert(t[i] == s[i]);
                assert(s[i].path@ != s[s.len() - 1].path@);
            }
        }
        assert forall|k: Seq<u8>| #[trigger] routes_map(s).contains_key(k) implies exists|i: int|
            0 <= i < s.len() && s[i].path@ == k by {
            if k != s.last().path@ {
                assert(routes_map(t).contains_key(k));
                let i = choose|i: int| 0 <= i < t.len() && t[i].path@ == k;
                assert(s[i] == t[i]);
            } else {
                assert(s[s.len() - 1].path@ == k);
            }
        }
    }
}

/// Whether two byte strings are equal.
fn bytes_eq(a: &[u8], b: &[u8]) -> (r: bool)
    ensures
        r == (a@ == b@),
{
    if a.len() != b.len() {
        return false;
    }
    let mut i: usize = 0;
    while i < a.len()
        invariant
            a@.len() == b@.len(),
            i <= a@.len(),
            forall|j: int| 0 <= j < i ==> a@[j] == b@[j],
        decreases a@.len() - i,
    {
        if a[i] != b[i] {
            return false;
        }
        i = i + 1;
    }
    assert(a@ =~= b@);
    true
}

/// A route table: each path at most once, the latest registration kept.
pub struct Router<H> {
    entries: Vec<Route<H>>,
}

impl<H> View for Router<H> {
    type V = Map<Seq<u8>, H>;

    closed spec fn view(&self) -> Map<Seq<u8>, H> {
        routes_map(self.entries@)
    }
}

impl<H> Router<H> {
    pub closed spec fn wf(&self) -> bool {
        paths_unique(self.entries@)
    }

    /// An empty table.
    pub fn new() -> (r: Self)
        ensures
            r.wf(),
            r@ == Map::<Seq<u8>, H>::empty(),
    {
        Router { entries: Vec::new() }
    }

    /// Position of the entry for `path`, if there is one.
    fn find(&self, path: &[u8]) -> (r: Option<usize>)
        requires
            self.wf(),
        ensures
            match r {
                Some(i) => i < self.entries@.len() && self.entries@[i as int].path@ == path@,
                None => forall|i: int|
                    0 <= i < self.entries@.len() ==> self.entries@[i].path@ != path@,
            },
    {
        let mut i: usize = 0;
        while i < self.entries.len()
            invariant
                i <= self.entries@.len(),
                forall|j: int| 0 <= j < i ==> self.entries@[j].path@ != path@,
            decreases self.entries@.len() - i,
        {
            if bytes_eq(self.entries[i].path.as_slice(), path) {
                return Some(i);
            }
            i = i + 1;
        }
        None
    }

    /// The handler registered for `path`.
    pub fn get(&self, path: &[u8]) -> (r: Option<&H>)
        requires
            self.wf(),
        ensures
            match r {
                Some(h) => self@.contains_key(path@) && *h == self@[path@],
                None => !self@.contains_key(path@),
            },
    {
        proof {
            lemma_routes_map(self.entries@);
        }
        match self.find(path) {
            Some(i) => Some(&self.entries[i].handler),
            None => None,
        }
    }

    /// Registers `handler` for `path`, replacing any handler it had.
    pub fn insert(&mut self, path: Vec<u8>, handler: H)
        requires
            old(self).wf(),
        ensures
            final(self).wf(),
            final(self)@ == old(self)@.insert(path@, handler),
    {
        proof {
            lemma_routes_map(self.entries@);
        }
        match self.find(path.as_slice()) {
            Some(i) => {
                let ghost before = self.entries@;
                self.entries.set(i, Route { path, handler });
                proof {
                    let after = self.entries@;
                    assert(forall|j: int| 0 <= j < after.len() ==> after[j].path@ == before[j].path@);
                    lemma_routes_map(after);
                    let m = routes_map(before).insert(path@, handler);
                    assert forall|k: Seq<u8>| #[trigger] routes_map(after).contains_key(k) <==> m.contains_key(k) by {
                        if routes_map(after).contains_key(k) {
                            let j = choose|j: int| 0 <= j < after.len() && after[j].path@ == k;
                            assert(before[j].path@ == k);
                        }
                        if m.contains_key(k) && k != path@ {
                            let j = choose|j: int| 0 <= j < before.len() && before[j].path@ == k;
                            assert(after[j].path@ == k);
                        }
                    }
                    assert forall|k: Seq<u8>| #[trigger] routes_map(after).contains_key(k) implies routes_map(after)[k] == m[k] by {
                        let j = choose|j: int| 0 <= j < after.len() && after[j].path@ == k;
                        if j != i {
                            assert(after[j] == before[j]);
                        }
                    }
                    assert(routes_map(after) =~= m);
                }
            },
            None => {
                let ghost before = self.entries@;
                self.entries.push(Route { path, handler });
                proof {
                    assert(self.entries@.drop_last() =~= before);
                }
            },
        }
    }
}

} // verus!
