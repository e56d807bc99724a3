//! Unix paths held as strings: joining and the final component.

use vstd::prelude::*;

use crate::text::{first_pos, lemma_first_pos_is, lemma_first_pos_bounds, push_char, chars_of, string_of_range, range_eq};

verus! {

/// `base` joined with `child` as `Path::join` does on Unix: an absolute
/// `child` replaces `base`; otherwise one `'/'` separates them when `base`
/// is not empty and does not already end in one.
pub open spec fn path_join(base: Seq<char>, child: Seq<char>) -> Seq<char> {
    if child.len() > 0 && child[0] == '/' {
        child
    } else if base.len() == 0 || base.last() == '/' {
        base + child
    } else {
        base + seq!['/'] + child
    }
}

/// The pieces of `s` between occurrences of `c` (as `str::split` yields them).
pub open spec fn split_on(s: Seq<char>, c: char) -> Seq<Seq<char>>
    decreases s.len(),
{
    let i = first_pos(s, c);
    proof {
        lemma_first_pos_bounds(s, c);
    }
    if i < s.len() {
        seq![s.take(i)] + split_on(s.skip(i + 1), c)
    } else {
        seq![s]
    }
}

/// The last piece that names something: empty pieces and `"."` are skipped.
pub open spec fn last_named(segs: Seq<Seq<char>>) -> Option<Seq<char>>
    decreases segs.len(),
{
    if segs.len() == 0 {
        None
    } else if segs.last().len() == 0 || segs.last() == seq!['.'] {
        last_named(segs.drop_last())
    } else {
        Some(segs.last())
    }
}

/// The final component of a path (`Path::file_name`): `None` when the path
/// ends in `".."` or has no named component.
pub open spec fn file_name(p: Seq<char>) -> Option<Seq<char>> {
    match last_named(split_on(p, '/')) {
        Some(c) => if c == seq!['.', '.'] {
            None
        } else {
            Some(c)
        },
        None => None,
    }
}

/// `base` joined with `child` (`Path::join`, then the path as a string).
pub fn join_str(base: &str, child: &str) -> (out: String)
    ensures
        out@ == path_join(base@, child@),
{
    let b = chars_of(base);
    let c = chars_of(child);
    if c.len() > 0 && c[0] == '/' {
        return child.to_owned();
    }
    let mut out = base.to_owned();
    if b.len() > 0 && b[b.len() - 1] != '/' {
        push_char(&mut out, '/');
    }
    out.append(child);
    out
}

/// The bounds of each piece of `v` between occurrences of `c`.
pub fn split_bounds(v: &Vec<char>, c: char) -> (out: Vec<(usize, usize)>)
    ensures
        out.len() == split_on(v@, c).len(),
        forall|k: int|
            #![trigger out@[k]]
            0 <= k < out.len() ==> {
                &&& out@[k].0 <= out@[k].1 <= v.len()
                &&& v@.subrange(out@[k].0 as int, out@[k].1 as int) == split_on(v@, c)[k]
            },
{
    let n = v.len();
    let mut out: Vec<(usize, usize)> = Vec::new();
    let ghost done: Seq<Seq<char>> = Seq::empty();
    let mut start: usize = 0;
    let mut i: usize = 0;
    assert(v@.skip(0) =~= v@);
    while i < n
        invariant
            n == v.len(),
            0 <= start <= i <= n,
            split_on(v@, c) == done + split_on(v@.skip(start as int), c),
            out.len() == done.len(),
            forall|k: int|
                #![trigger out@[k]]
                0 <= k < out.len() ==> {
                    &&& out@[k].0 <= out@[k].1 <= v.len()
                    &&& v@.subrange(out@[k].0 as int, out@[k].1 as int) == done[k]
                },
            forall|j: int| start <= j < i ==> v@[j] != c,
        decreases n - i,
    {
        if v[i] == c {
            let ghost rest = v@.skip(start as int);
            let ghost old_out = out@;
            let ghost old_done = done;
            proof {
                assert forall|j: int| 0 <= j < i - start implies rest[j] != c by {
                    assert(rest[j] == v@[start + j]);
                }
                lemma_first_pos_is(rest, c, i - start);
                assert(rest.skip(i - start + 1) =~= v@.skip(i + 1));
                assert(rest.take(i - start) =~= v@.subrange(start as int, i as int));
                done = done.push(v@.subrange(start as int, i as int));
                assert(split_on(v@, c) =~= done + split_on(v@.skip(i + 1), c));
            }
            out.push((start, i));
            assert forall|k: int| #![trigger out@[k]] 0 <= k < out.len() implies {
                &&& out@[k].0 <= out@[k].1 <= v.len()
                &&& v@.subrange(out@[k].0 as int, out@[k].1 as int) == done[k]
            } by {
                if k < out.len() - 1 {
                    assert(out@[k] == old_out[k]);
                    assert(done[k] == old_done[k]);
                }
            }
            start = i + 1;
        }
        i = i + 1;
    }
    let ghost rest = v@.skip(start as int);
    let ghost old_out = out@;
    let ghost old_done = done;
    proof {
        assert forall|j: int| 0 <= j < n - start implies rest[j] != c by {
            assert(rest[j] == v@[start + j]);
        }
        lemma_first_pos_is(rest, c, n - start);
        assert(rest =~= v@.subrange(start as int, n as int));
        done = done.push(rest);
        assert(split_on(v@, c) =~= done);
    }
    out.push((start, n));
    assert forall|k: int| #![trigger out@[k]] 0 <= k < out.len() implies {
        &&& out@[k].0 <= out@[k].1 <= v.len()
        &&& v@.subrange(out@[k].0 as int, out@[k].1 as int) == done[k]
    } by {
        if k < out.len() - 1 {
            assert(out@[k] == old_out[k]);
            assert(done[k] == old_done[k]);
        }
    }
    out
}

/// The final component of a path (`Path::file_name`).
pub fn path_file_name(p: &str) -> (out: Option<String>)
    ensures
        match out {
            Some(s) => file_name(p@) == Some(s@),
            None => file_name(p@) is None,
        },
{
    let v = chars_of(p);
    let segs = split_bounds(&v, '/');
    let ghost all = split_on(v@, '/');
    let mut i: usize = segs.len();
    assert(all.take(i as int) =~= all);
    while i > 0
        invariant
            i <= segs.len(),
            segs.len() == all.len(),
            all == split_on(v@, '/'),
            v@ == p@,
            forall|k: int|
                #![trigger segs@[k]]
                0 <= k < segs.len() ==> {
                    &&& segs@[k].0 <= segs@[k].1 <= v.len()
                    &&& v@.subrange(segs@[k].0 as int, segs@[k].1 as int) == all[k]
                },
            last_named(all) == last_named(all.take(i as int)),
        decreases i,
    {
        let (a, b) = segs[i - 1];
        assert(v@.subrange(a as int, b as int) == all[i - 1]);
        assert(all.take(i as int).last() == all[i - 1]);
        assert(all.take(i as int).drop_last() =~= all.take(i - 1));
        let dot = range_eq(&v, a, b, ".");
        proof {
            reveal_strlit(".");
            assert("."@ =~= seq!['.']);
        }
        if a < b && !dot {
            let dotdot = range_eq(&v, a, b, "..");
            proof {
                reveal_strlit("..");
                assert(".."@ =~= seq!['.', '.']);
                assert(last_named(all.take(i as int)) == Some(all[i - 1]));
            }
            if dotdot {
                return None;
            }
            return Some(string_of_range(&v, a, b));
        }
        i = i - 1;
    }
    assert(all.take(0) =~= Seq::<Seq<char>>::empty());
    None
}

} // verus!

verus! {

/// The named pieces among `segs`: empty pieces and `"."` are dropped.
pub open spec fn named_parts(segs: Seq<Seq<char>>) -> Seq<Seq<char>>
    decreases segs.len(),
{
    if segs.len() == 0 {
        Seq::empty()
    } else if segs[0].len() == 0 || segs[0] == seq!['.'] {
        named_parts(segs.drop_first())
    } else {
        seq![segs[0]] + named_parts(segs.drop_first())
    }
}

/// What `Path` compares paths by: whether it starts at the root, whether it
/// starts with `.`, and its other components, `"."` and empty ones left out.
pub open spec fn path_components(p: Seq<char>) -> (bool, bool, Seq<Seq<char>>) {
    let segs = split_on(p, '/');
    let rooted = p.len() > 0 && p[0] == '/';
    (rooted, !rooted && segs.len() > 0 && segs[0] == seq!['.'], named_parts(segs))
}

/// Whether two paths are equal as `Path`s (component by component).
pub open spec fn same_path(a: Seq<char>, b: Seq<char>) -> bool {
    path_components(a) == path_components(b)
}

/// The bounds of the named pieces of `v` between `'/'`s.
fn named_bounds(v: &Vec<char>) -> (out: Vec<(usize, usize)>)
    ensures
        out.len() == named_parts(split_on(v@, '/')).len(),
        forall|k: int|
            #![trigger out@[k]]
            0 <= k < out.len() ==> {
                &&& out@[k].0 <= out@[k].1 <= v.len()
                &&& v@.subrange(out@[k].0 as int, out@[k].1 as int) == named_parts(
                    split_on(v@, '/'),
                )[k]
            },
{
    let segs = split_bounds(v, '/');
    let ghost all = split_on(v@, '/');
    let mut out: Vec<(usize, usize)> = Vec::new();
    let ghost done: Seq<Seq<char>> = Seq::empty();
    let mut i: usize = 0;
    proof {
        reveal_strlit(".");
        assert("."@ =~= seq!['.']);
        assert(all.skip(0) =~= all);
    }
    while i < segs.len()
        invariant
            0 <= i <= segs.len(),
            segs.len() == all.len(),
            all == split_on(v@, '/'),
            "."@ == seq!['.'],
            forall|k: int|
                #![trigger segs@[k]]
                0 <= k < segs.len() ==> {
                    &&& segs@[k].0 <= segs@[k].1 <= v.len()
                    &&& v@.subrange(segs@[k].0 as int, segs@[k].1 as int) == all[k]
                },
            named_parts(all) == done + named_parts(all.skip(i as int)),
            out.len() == done.len(),
            forall|k: int|
                #![trigger out@[k]]
                0 <= k < out.len() ==> {
                    &&& out@[k].0 <= out@[k].1 <= v.len()
                    &&& v@.subrange(out@[k].0 as int, out@[k].1 as int) == done[k]
                },
        decreases segs.len() - i,
    {
        let (a, b) = segs[i];
        let ghost seg = all[i as int];
        assert(v@.subrange(a as int, b as int) == seg);
        assert(all.skip(i as int)[0] == seg);
        assert(all.skip(i as int).drop_first() =~= all.skip(i + 1));
        if a < b && !range_eq(v, a, b, ".") {
            let ghost old_out = out@;
            let ghost old_done = done;
            proof {
                done = done.push(seg);
                assert(named_parts(all) =~= done + named_parts(all.skip(i + 1)));
            }
            out.push((a, b));
            assert forall|k: int| #![trigger out@[k]] 0 <= k < out.len() implies {
                &&& out@[k].0 <= out@[k].1 <= v.len()
                &&& v@.subrange(out@[k].0 as int, out@[k].1 as int) == done[k]
            } by {
                if k < out.len() - 1 {
                    assert(out@[k] == old_out[k]);
                    assert(done[k] == old_done[k]);
                }
            }
        }
        i = i + 1;
    }
    assert(all.skip(i as int) =~= Seq::<Seq<char>>::empty());
    assert(named_parts(all) =~= done);
    out
}

/// Whether `v[a0..a1]` equals `w[b0..b1]`.
fn ranges_eq(v: &Vec<char>, a0: usize, a1: usize, w: &Vec<char>, b0: usize, b1: usize) -> (r: bool)
    requires
        a0 <= a1 <= v.len(),
        b0 <= b1 <= w.len(),
    ensures
        r == (v@.subrange(a0 as int, a1 as int) == w@.subrange(b0 as int, b1 as int)),
{
    if a1 - a0 != b1 - b0 {
        assert(v@.subrange(a0 as int, a1 as int).len() != w@.subrange(b0 as int, b1 as int).len());
        return false;
    }
    let mut i: usize = 0;
    while i < a1 - a0
        invariant
            a1 - a0 == b1 - b0,
            a0 <= a1 <= v.len(),
            b0 <= b1 <= w.len(),
            0 <= i <= a1 - a0,
            forall|j: int|
                0 <= j < i ==> #[trigger] v@.subrange(a0 as int, a1 as int)[j] == w@.subrange(
                    b0 as int,
                    b1 as int,
                )[j],
        decreases a1 - a0 - i,
    {
        assert(v@.subrange(a0 as int, a1 as int)[i as int] == v@[a0 + i]);
        assert(w@.subrange(b0 as int, b1 as int)[i as int] == w@[b0 + i]);
        if v[a0 + i] != w[b0 + i] {
            return false;
        }
        i = i + 1;
    }
    assert(v@.subrange(a0 as int, a1 as int) =~= w@.subrange(b0 as int, b1 as int));
    true
}

/// The flags of `path_components`: starts at the root, starts with `"."`.
fn path_flags(v: &Vec<char>) -> (r: (bool, bool))
    ensures
        r.0 == path_components(v@).0,
        r.1 == path_components(v@).1,
{
    let rooted = v.len() > 0 && v[0] == '/';
    let segs = split_bounds(v, '/');
    proof {
        reveal_strlit(".");
        assert("."@ =~= seq!['.']);
    }
    let cur = !rooted && segs.len() > 0 && range_eq(v, segs[0].0, segs[0].1, ".");
    (rooted, cur)
}

/// Whether two paths are equal as `Path`s (see `same_path`).
#[verifier::loop_isolation(false)]
pub fn paths_equal(a: &str, b: &str) -> (r: bool)
    ensures
        r == same_path(a@, b@),
{
    let va = chars_of(a);
    let vb = chars_of(b);
    let fa = path_flags(&va);
    let fb = path_flags(&vb);
    if fa.0 != fb.0 || fa.1 != fb.1 {
        return false;
    }
    let na = named_bounds(&va);
    let nb = named_bounds(&vb);
    let ghost pa = named_parts(split_on(va@, '/'));
    let ghost pb = named_parts(split_on(vb@, '/'));
    if na.len() != nb.len() {
        return false;
    }
    let mut i: usize = 0;
    while i < na.len()
        invariant
            na.len() == nb.len(),
            na.len() == pa.len(),
            nb.len() == pb.len(),
            0 <= i <= na.len(),
            forall|k: int|
                #![trigger na@[k]]
                0 <= k < na.len() ==> {
                    &&& na@[k].0 <= na@[k].1 <= va.len()
                    &&& va@.subrange(na@[k].0 as int, na@[k].1 as int) == pa[k]
                },
            forall|k: int|
                #![trigger nb@[k]]
                0 <= k < nb.len() ==> {
                    &&& nb@[k].0 <= nb@[k].1 <= vb.len()
                    &&& vb@.subrange(nb@[k].0 as int, nb@[k].1 as int) == pb[k]
                },
            forall|j: int| 0 <= j < i ==> pa[j] == pb[j],
        decreases na.len() - i,
    {
        let (a0, a1) = na[i];
        let (b0, b1) = nb[i];
        assert(va@.subrange(a0 as int, a1 as int) == pa[i as int]);
        assert(vb@.subrange(b0 as int, b1 as int) == pb[i as int]);
        if !ranges_eq(&va, a0, a1, &vb, b0, b1) {
            assert(pa[i as int] != pb[i as int]);
            assert(pa != pb);
            return false;
        }
        i = i + 1;
    }
    assert(pa =~= pb);
    true
}

} // verus!
