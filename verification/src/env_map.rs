//! A map from variable names to values, kept sorted by name.
//!
//! It stands where an ordered map of strings is needed: iterating over it
//! yields the names in the order of `str`, as an ordered map would.

use vstd::prelude::*;

use crate::text::{
    lemma_seq_less_asymmetric, lemma_seq_less_irreflexive, lemma_seq_less_total,
    lemma_seq_less_transitive, seq_less, str_eq, str_less,
};

verus! {

/// Whether the names in `ps` are strictly increasing (hence distinct).
pub open spec fn keys_increasing(ps: Seq<(Seq<char>, Seq<char>)>) -> bool {
    forall|i: int, j: int| 0 <= i < j < ps.len() ==> seq_less(#[trigger] ps[i].0, #[trigger] ps[j].0)
}

/// Whether some pair of `ps` has the name `k`.
pub open spec fn has_key(ps: Seq<(Seq<char>, Seq<char>)>, k: Seq<char>) -> bool {
    exists|i: int| 0 <= i < ps.len() && #[trigger] ps[i].0 == k
}

/// The map that a sequence of distinct-named pairs stands for.
pub open spec fn pairs_map(ps: Seq<(Seq<char>, Seq<char>)>) -> Map<Seq<char>, Seq<char>> {
    Map::new(
        |k: Seq<char>| has_key(ps, k),
        |k: Seq<char>| ps[choose|i: int| 0 <= i < ps.len() && #[trigger] ps[i].0 == k].1,
    )
}

/// In a sequence with increasing names, each pair is found under its name.
pub proof fn lemma_pairs_map_at(ps: Seq<(Seq<char>, Seq<char>)>, i: int)
    requires
        keys_increasing(ps),
        0 <= i < ps.len(),
    ensures
        pairs_map(ps).contains_key(ps[i].0),
        pairs_map(ps)[ps[i].0] == ps[i].1,
{
    assert(has_key(ps, ps[i].0));
    let j = choose|j: int| 0 <= j < ps.len() && #[trigger] ps[j].0 == ps[i].0;
    if j != i {
        if j < i {
            assert(seq_less(ps[j].0, ps[i].0));
        } else {
            assert(seq_less(ps[i].0, ps[j].0));
        }
        lemma_seq_less_irreflexive(ps[i].0);
    }
}

/// Adding the next pair of a sequence with increasing names adds it to the map.
pub proof fn lemma_pairs_map_take(ps: Seq<(Seq<char>, Seq<char>)>, i: int)
    requires
        keys_increasing(ps),
        0 <= i < ps.len(),
    ensures
        pairs_map(ps.take(i + 1)) == pairs_map(ps.take(i)).insert(ps[i].0, ps[i].1),
{
    let a = ps.take(i + 1);
    let b = ps.take(i);
    assert(keys_increasing(a));
    assert(keys_increasing(b));
    let m = pairs_map(b).insert(ps[i].0, ps[i].1);
    assert forall|k: Seq<char>| #![auto] pairs_map(a).contains_key(k) == m.contains_key(k) by {
        if pairs_map(a).contains_key(k) {
            let j = choose|j: int| 0 <= j < a.len() && #[trigger] a[j].0 == k;
            if j < i {
                assert(b[j].0 == k);
            }
        }
        if pairs_map(b).contains_key(k) {
            let j = choose|j: int| 0 <= j < b.len() && #[trigger] b[j].0 == k;
            assert(a[j].0 == k);
        }
        if k == ps[i].0 {
            assert(a[i].0 == k);
        }
    }
    assert forall|k: Seq<char>| #[trigger] pairs_map(a).contains_key(k) implies pairs_map(a)[k]
        == m[k] by {
        let j = choose|j: int| 0 <= j < a.len() && #[trigger] a[j].0 == k;
        lemma_pairs_map_at(a, j);
        if j < i {
            lemma_pairs_map_at(b, j);
            lemma_pairs_map_at(a, i);
            assert(seq_less(a[j].0, a[i].0));
            lemma_seq_less_irreflexive(k);
        }
    }
    assert(pairs_map(a) =~= m);
}

/// Taking all pairs gives the whole map.
pub proof fn lemma_pairs_map_take_all(ps: Seq<(Seq<char>, Seq<char>)>)
    ensures
        pairs_map(ps.take(ps.len() as int)) == pairs_map(ps),
{
    assert(ps.take(ps.len() as int) =~= ps);
}

/// Taking no pairs gives the empty map.
pub proof fn lemma_pairs_map_take_none(ps: Seq<(Seq<char>, Seq<char>)>)
    ensures
        pairs_map(ps.take(0)) == Map::<Seq<char>, Seq<char>>::empty(),
{
    assert(pairs_map(ps.take(0)) =~= Map::<Seq<char>, Seq<char>>::empty());
}

/// Environment variables as a map from name to value.
#[derive(Debug)]
pub struct EnvMap {
    entries: Vec<(String, String)>,
}

impl EnvMap {
    /// The pairs of the map, in increasing order of name.
    pub closed spec fn pairs(&self) -> Seq<(Seq<char>, Seq<char>)> {
        self.entries@.map_values(|p: (String, String)| (p.0@, p.1@))
    }

    /// The names are kept in increasing order.
    #[verifier::type_invariant]
    pub open spec fn sorted(&self) -> bool {
        keys_increasing(self.pairs())
    }

    /// An empty map.
    pub fn new() -> (m: EnvMap)
        ensures
            m@ == Map::<Seq<char>, Seq<char>>::empty(),
            m.pairs() == Seq::<(Seq<char>, Seq<char>)>::empty(),
    {
        let m = EnvMap { entries: Vec::new() };
        assert(m.pairs() =~= Seq::<(Seq<char>, Seq<char>)>::empty());
        assert(m@ =~= Map::<Seq<char>, Seq<char>>::empty());
        m
    }

    /// The number of entries.
    pub fn len(&self) -> (n: usize)
        ensures
            n == self.pairs().len(),
    {
        self.entries.len()
    }

    /// The `i`-th entry, in increasing order of name.
    pub fn entry(&self, i: usize) -> (r: (&String, &String))
        requires
            i < self.pairs().len(),
        ensures
            (r.0@, r.1@) == self.pairs()[i as int],
            self@.contains_key(r.0@),
            self@[r.0@] == r.1@,
    {
        proof {
            use_type_invariant(self);
            lemma_pairs_map_at(self.pairs(), i as int);
        }
        let p = &self.entries[i];
        (&p.0, &p.1)
    }

    /// Position of the first entry whose name is not below `key`.
    fn lower_bound(&self, key: &str) -> (p: usize)
        ensures
            p <= self.pairs().len(),
            forall|j: int| 0 <= j < p ==> seq_less(#[trigger] self.pairs()[j].0, key@),
            forall|j: int|
                p <= j < self.pairs().len() ==> !seq_less(#[trigger] self.pairs()[j].0, key@),
    {
        proof {
            use_type_invariant(self);
        }
        let ghost ps = self.pairs();
        let mut p: usize = 0;
        while p < self.entries.len() && str_less(self.entries[p].0.as_str(), key)
            invariant
                ps == self.pairs(),
                keys_increasing(ps),
                p <= ps.len(),
                self.entries@.len() == ps.len(),
                forall|j: int| 0 <= j < p ==> seq_less(#[trigger] ps[j].0, key@),
            decreases self.entries.len() - p,
        {
            p = p + 1;
        }
        proof {
            assert forall|j: int| p <= j < ps.len() implies !seq_less(#[trigger] ps[j].0, key@) by {
                if j > p && seq_less(ps[j].0, key@) {
                    assert(seq_less(ps[p as int].0, ps[j].0));
                    lemma_seq_less_transitive(ps[p as int].0, ps[j].0, key@);
                }
            }
        }
        p
    }

    /// The value stored under `key`, if any.
    pub fn get(&self, key: &str) -> (r: Option<&String>)
        ensures
            match r {
                Some(v) => self@.contains_key(key@) && self@[key@] == v@,
                None => !self@.contains_key(key@),
            },
    {
        proof {
            use_type_invariant(self);
        }
        let p = self.lower_bound(key);
        if p < self.entries.len() && str_eq(self.entries[p].0.as_str(), key) {
            proof {
                lemma_pairs_map_at(self.pairs(), p as int);
            }
            Some(&self.entries[p].1)
        } else {
            proof {
                let ps = self.pairs();
                if has_key(ps, key@) {
                    let j = choose|j: int| 0 <= j < ps.len() && #[trigger] ps[j].0 == key@;
                    lemma_seq_less_irreflexive(key@);
                    if j > p {
                        assert(seq_less(ps[p as int].0, ps[j].0));
                        lemma_seq_less_total(ps[p as int].0, key@);
                        lemma_seq_less_asymmetric(ps[p as int].0, key@);
                    }
                }
            }
            None
        }
    }

    /// Whether `key` has a value.
    pub fn contains_key(&self, key: &str) -> (r: bool)
        ensures
            r == self@.contains_key(key@),
    {
        self.get(key).is_some()
    }

    /// Stores `value` under `key`, replacing any earlier value.
    pub fn insert(&mut self, key: String, value: String)
        ensures
            final(self)@ == old(self)@.insert(key@, value@),
    {
        proof {
            use_type_invariant(&*self);
        }
        let ghost ps = self.pairs();
        let ghost kv = (key@, value@);
        let p = self.lower_bound(key.as_str());
        let mut e: Vec<(String, String)> = Vec::new();
        std::mem::swap(&mut e, &mut self.entries);
        let ghost old_e = e@;
        assert(ps =~= old_e.map_values(|p: (String, String)| (p.0@, p.1@)));
        let ghost ns: Seq<(Seq<char>, Seq<char>)>;
        if p < e.len() && str_eq(e[p].0.as_str(), key.as_str()) {
            e.set(p, (key, value));
            proof {
                ns = ps.update(p as int, kv);
                assert(ns =~= e@.map_values(|p: (String, String)| (p.0@, p.1@)));
                assert forall|i: int| 0 <= i < ns.len() implies #[trigger] ns[i].0 == ps[i].0 by {}
                assert(keys_increasing(ns));
            }
        } else {
            proof {
                if p < ps.len() {
                    lemma_seq_less_total(ps[p as int].0, kv.0);
                }
            }
            e.insert(p, (key, value));
            proof {
                ns = ps.insert(p as int, kv);
                assert(ns =~= e@.map_values(|p: (String, String)| (p.0@, p.1@)));
                assert forall|i: int, j: int| 0 <= i < j < ns.len() implies seq_less(
                    #[trigger] ns[i].0,
                    #[trigger] ns[j].0,
                ) by {
                    if j > p {
                        if j - 1 > p {
                            lemma_seq_less_transitive(kv.0, ps[p as int].0, ps[j - 1].0);
                        }
                        assert(seq_less(kv.0, ps[j - 1].0));
                        if i < p {
                            lemma_seq_less_transitive(ps[i].0, kv.0, ps[j - 1].0);
                        }
                    }
                }
            }
        }
        self.entries = e;
        proof {
            assert(self.pairs() == ns);
            let m = pairs_map(ps).insert(kv.0, kv.1);
            assert forall|k: Seq<char>| #![auto] pairs_map(ns).contains_key(k) == m.contains_key(k)
                by {
                if pairs_map(ns).contains_key(k) {
                    let i = choose|i: int| 0 <= i < ns.len() && #[trigger] ns[i].0 == k;
                    if k != kv.0 {
                        if i < p {
                            assert(ps[i].0 == k);
                        } else if ns == ps.update(p as int, kv) {
                            assert(ps[i].0 == k);
                        } else {
                            assert(ps[i - 1].0 == k);
                        }
                    }
                }
                if pairs_map(ps).contains_key(k) {
                    let i = choose|i: int| 0 <= i < ps.len() && #[trigger] ps[i].0 == k;
                    if k != kv.0 {
                        if i < p {
                            assert(ns[i].0 == k);
                        } else if ns == ps.update(p as int, kv) {
                            assert(ns[i].0 == k);
                        } else {
                            assert(ns[i + 1].0 == k);
                        }
                    }
                }
                if k == kv.0 {
                    assert(ns[p as int].0 == k);
                }
            }
            assert forall|k: Seq<char>| #[trigger] pairs_map(ns).contains_key(k) implies pairs_map(
                ns,
            )[k] == m[k] by {
                let i = choose|i: int| 0 <= i < ns.len() && #[trigger] ns[i].0 == k;
                lemma_pairs_map_at(ns, i);
                if k != kv.0 {
                    if i < p {
                        lemma_pairs_map_at(ps, i);
                    } else if ns == ps.update(p as int, kv) {
                        lemma_pairs_map_at(ps, i);
                    } else {
                        lemma_pairs_map_at(ps, i - 1);
                    }
                } else {
                    lemma_pairs_map_at(ns, p as int);
                }
            }
            assert(pairs_map(ns) =~= m);
        }
    }
}

impl Clone for EnvMap {
    /// A copy holding the same entries.
    fn clone(&self) -> (out: Self)
        ensures
            out.pairs() == self.pairs(),
    {
        proof {
            use_type_invariant(self);
        }
        let mut entries: Vec<(String, String)> = Vec::new();
        let mut i: usize = 0;
        while i < self.entries.len()
            invariant
                0 <= i <= self.entries.len(),
                entries@.map_values(|p: (String, String)| (p.0@, p.1@)) =~= self.pairs().take(
                    i as int,
                ),
            decreases self.entries.len() - i,
        {
            let k = self.entries[i].0.clone();
            let v = self.entries[i].1.clone();
            assert(self.pairs()[i as int] == (k@, v@));
            let ghost before = entries@;
            entries.push((k, v));
            assert(entries@.map_values(|p: (String, String)| (p.0@, p.1@)) =~= before.map_values(
                |p: (String, String)| (p.0@, p.1@),
            ).push((k@, v@)));
            assert(self.pairs().take(i + 1) =~= self.pairs().take(i as int).push((k@, v@)));
            i = i + 1;
        }
        EnvMap { entries }
    }
}

impl View for EnvMap {
    type V = Map<Seq<char>, Seq<char>>;

    open spec fn view(&self) -> Map<Seq<char>, Seq<char>> {
        pairs_map(self.pairs())
    }
}

} // verus!
