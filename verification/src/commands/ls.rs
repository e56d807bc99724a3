//! The order in which `ls` lists environments.

use vstd::prelude::*;

use crate::text::{lemma_seq_less_total, lemma_seq_less_transitive, seq_less, str_less, views};

verus! {

/// Whether `s` is in ascending order (the order of `str`).
pub open spec fn ascending(s: Seq<Seq<char>>) -> bool {
    forall|i: int, j: int| 0 <= i < j < s.len() ==> !seq_less(#[trigger] s[j], #[trigger] s[i])
}

/// The names in ascending order; the same names, each as often as given.
pub fn sort_names(names: Vec<String>) -> (out: Vec<String>)
    ensures
        ascending(views(out@)),
        views(out@).to_multiset() == views(names@).to_multiset(),
{
    let ghost nv = views(names@);
    let mut out: Vec<String> = Vec::new();
    let mut i: usize = 0;
    proof {
        assert(views(out@) =~= nv.take(0));
    }
    while i < names.len()
        invariant
            0 <= i <= names.len(),
            nv == views(names@),
            ascending(views(out@)),
            views(out@).to_multiset() == nv.take(i as int).to_multiset(),
        decreases names.len() - i,
    {
        let name = names[i].clone();
        let ghost ov = views(out@);
        let ghost x = name@;
        let mut p: usize = 0;
        while p < out.len() && !str_less(name.as_str(), out[p].as_str())
            invariant
                0 <= p <= out.len(),
                ov == views(out@),
                x == name@,
                forall|j: int| 0 <= j < p ==> !seq_less(x, #[trigger] ov[j]),
            decreases out.len() - p,
        {
            p = p + 1;
        }
        out.insert(p, name);
        proof {
            let nv2 = views(out@);
            assert(nv2 =~= ov.insert(p as int, x));
            assert forall|a: int, b: int| 0 <= a < b < nv2.len() implies !seq_less(
                #[trigger] nv2[b],
                #[trigger] nv2[a],
            ) by {
                if a < p && b == p {
                    // ov[a] <= x by the search
                    assert(!seq_less(x, ov[a]));
                } else if a < p && b > p {
                    if seq_less(ov[b - 1], ov[a]) {
                        assert(!seq_less(ov[b - 1], ov[a]));
                    }
                } else if a == p && b > p {
                    // x < ov[p] <= ov[b - 1]
                    assert(p < ov.len());
                    assert(seq_less(x, ov[p as int]));
                    if seq_less(ov[b - 1], x) {
                        if b - 1 > p {
                            lemma_seq_less_total(ov[p as int], ov[b - 1]);
                            assert(!seq_less(ov[b - 1], ov[p as int]));
                            if ov[p as int] != ov[b - 1] {
                                lemma_seq_less_transitive(x, ov[p as int], ov[b - 1]);
                            }
                        }
                        lemma_seq_less_transitive(x, ov[b - 1], x);
                        crate::text::lemma_seq_less_irreflexive(x);
                    }
                }
            }
            vstd::seq_lib::to_multiset_insert(ov, p as int, x);
            assert(nv.take(i + 1) =~= nv.take(i as int).push(x));
            vstd::seq_lib::to_multiset_build(nv.take(i as int), x);
            assert(nv[i as int] == x);
        }
        i = i + 1;
    }
    proof {
        assert(nv.take(names.len() as int) =~= nv);
    }
    out
}

} // verus!
