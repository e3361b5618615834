use vstd::prelude::*;

verus! {

/// Deduplicates string content: each distinct content is stored once, and
/// its handle is its index in the pool.
pub struct StringPool {
    pool: Vec<String>,
}

/// No content is stored twice.
pub open spec fn distinct(p: Seq<Seq<char>>) -> bool {
    forall|i: int, j: int| 0 <= i < p.len() && 0 <= j < p.len() && p[i] == p[j] ==> i == j
}

/// Content `s` occurs in `p`.
pub open spec fn holds(p: Seq<Seq<char>>, s: Seq<char>) -> bool {
    exists|i: int| 0 <= i < p.len() && p[i] == s
}

/// Interning `s` into `p`: the pool afterwards and the handle returned.
/// Content already held keeps its handle; new content is appended.
pub open spec fn intern_spec(p: Seq<Seq<char>>, s: Seq<char>) -> (Seq<Seq<char>>, int) {
    if holds(p, s) {
        (p, choose|i: int| 0 <= i < p.len() && p[i] == s)
    } else {
        (p.push(s), p.len() as int)
    }
}

/// Interning never forgets: the pool before is a prefix of the pool after.
pub open spec fn is_prefix(p: Seq<Seq<char>>, q: Seq<Seq<char>>) -> bool {
    p.len() <= q.len() && forall|i: int| 0 <= i < p.len() ==> q[i] == p[i]
}

/// Two strings of equal content interned into one pool receive the same
/// handle, whatever else was interned in between.
pub proof fn lemma_intern_identity(p: Seq<Seq<char>>, a: Seq<char>, q: Seq<Seq<char>>, b: Seq<char>)
    requires
        distinct(p),
        distinct(q),
        is_prefix(intern_spec(p, a).0, q),
        a == b,
    ensures
        intern_spec(q, b).1 == intern_spec(p, a).1,
        intern_spec(q, b).0 == q,
{
    let (p1, h) = intern_spec(p, a);
    assert(0 <= h < p1.len() && p1[h] == a);
    assert(q[h] == b);
    assert(holds(q, b));
    let k = choose|i: int| 0 <= i < q.len() && q[i] == b;
    assert(k == h);
}

impl StringPool {
    pub closed spec fn view(&self) -> Seq<Seq<char>> {
        self.pool@.map_values(|s: String| s@)
    }

    pub open spec fn wf(&self) -> bool {
        distinct(self@)
    }

    pub fn new() -> (r: StringPool)
        ensures
            r@ == Seq::<Seq<char>>::empty(),
            r.wf(),
    {
        StringPool { pool: Vec::new() }
    }

    /// Number of distinct contents held.
    pub fn len(&self) -> (r: usize)
        ensures
            r == self@.len(),
    {
        self.pool.len()
    }

    /// The content behind handle `h`.
    pub fn content(&self, h: usize) -> (r: &String)
        requires
            h < self@.len(),
        ensures
            r@ == self@[h as int],
    {
        &self.pool[h]
    }

    /// Interns `to_pool`, returning its handle.
    pub fn pool_string(&mut self, to_pool: String) -> (r: usize)
        requires
            old(self).wf(),
        ensures
            final(self).wf(),
            (final(self)@, r as int) == intern_spec(old(self)@, to_pool@),
            is_prefix(old(self)@, final(self)@),
            r < final(self)@.len(),
            final(self)@[r as int] == to_pool@,
    {
        let n = self.pool.len();
        let mut i: usize = 0;
        while i < n
            invariant
                n == self.pool.len(),
                i <= n,
                self.wf(),
                self@.len() == n,
                forall|k: int| 0 <= k < i ==> self@[k] != to_pool@,
            decreases n - i,
        {
            if self.pool[i] == to_pool {
                proof {
                    assert(self@[i as int] == to_pool@);
                    assert(holds(self@, to_pool@));
                    let k = choose|k: int| 0 <= k < self@.len() && self@[k] == to_pool@;
                    assert(k == i);
                }
                return i;
            }
            i = i + 1;
        }
        proof {
            assert(!holds(self@, to_pool@));
        }
        let ghost before = self@;
        self.pool.push(to_pool);
        proof {
            assert(self@ =~= before.push(to_pool@));
        }
        n
    }

    /// Interns a copy of `to_pool`, returning its handle.
    pub fn pool_str(&mut self, to_pool: &str) -> (r: usize)
        requires
            old(self).wf(),
        ensures
            final(self).wf(),
            (final(self)@, r as int) == intern_spec(old(self)@, to_pool@),
            is_prefix(old(self)@, final(self)@),
            r < final(self)@.len(),
            final(self)@[r as int] == to_pool@,
    {
        self.pool_string(to_pool.to_string())
    }
}

} // verus!
