//! Small vector helpers: interleaving separators into a vector, splitting a
//! vector into fixed-size groups, and sorting by a computed key.

use vstd::prelude::*;

verus! {

/// The first `i` elements of `s` with `a` inserted before each element whose
/// index is a positive multiple of `n`.
pub open spec fn spec_inter_prefix<A>(s: Seq<A>, a: A, n: int, i: int) -> Seq<A>
    decreases i,
{
    if i <= 0 {
        Seq::empty()
    } else {
        spec_inter_prefix(s, a, n, i - 1) + (if i - 1 > 0 && (i - 1) % n == 0 {
            seq![a, s[i - 1]]
        } else {
            seq![s[i - 1]]
        })
    }
}

/// `s` with `a` inserted after every `n` elements (none at either end).
pub open spec fn spec_intercalated<A>(s: Seq<A>, a: A, n: int) -> Seq<A> {
    spec_inter_prefix(s, a, n, s.len() as int)
}

/// The elements of `s` cut into consecutive groups of `n`; a shorter final
/// group keeps the leftovers.
pub open spec fn spec_grouped<A>(s: Seq<A>, n: int) -> Seq<Seq<A>>
    decreases s.len(),
{
    if n <= 0 || s.len() == 0 {
        Seq::empty()
    } else if s.len() <= n {
        seq![s]
    } else {
        seq![s.take(n)] + spec_grouped(s.skip(n), n)
    }
}

/// In-place separator insertion for vectors of copyable elements.
pub trait CloneVectors<A: Copy>: Sized {
    spec fn spec_elems(self) -> Seq<A>;

    /// Inserts `a` after every `n` elements and wraps the whole vector in
    /// `start` and `end`.
    fn intercalate_every_n(&mut self, start: A, a: A, end: A, n: usize)
        requires
            n >= 1,
        ensures
            final(self).spec_elems() == seq![start] + spec_intercalated(
                old(self).spec_elems(),
                a,
                n as int,
            ) + seq![end],
    ;

    /// Inserts `a` between consecutive elements and wraps the whole vector in
    /// `start` and `end`.
    fn intercalate_full(&mut self, start: A, a: A, end: A)
        ensures
            final(self).spec_elems() == seq![start] + spec_intercalated(
                old(self).spec_elems(),
                a,
                1,
            ) + seq![end],
    ;

    /// Inserts `a` between consecutive elements.
    fn intercalate(&mut self, a: A)
        ensures
            final(self).spec_elems() == spec_intercalated(old(self).spec_elems(), a, 1),
    ;
}

/// Builds the interleaving of `v` with `a` after every `n` elements.
fn build_intercalated<A: Copy>(v: &Vec<A>, a: A, n: usize) -> (r: Vec<A>)
    requires
        n >= 1,
    ensures
        r@ == spec_intercalated(v@, a, n as int),
{
    let mut r: Vec<A> = Vec::new();
    let mut i: usize = 0;
    while i < v.len()
        invariant
            n >= 1,
            i <= v@.len(),
            r@ == spec_inter_prefix(v@, a, n as int, i as int),
        decreases v@.len() - i,
    {
        if i > 0 && i % n == 0 {
            r.push(a);
        }
        r.push(v[i]);
        i = i + 1;
        proof {
            assert((i - 1) % (n as int) == ((i - 1) as usize % n) as int) by (nonlinear_arith)
                requires
                    n >= 1,
                    i >= 1,
            ;
            assert(r@ =~= spec_inter_prefix(v@, a, n as int, i as int));
        }
    }
    r
}

impl<A: Copy> CloneVectors<A> for Vec<A> {
    open spec fn spec_elems(self) -> Seq<A> {
        self@
    }

    fn intercalate_every_n(&mut self, start: A, a: A, end: A, n: usize) {
        let mut r = build_intercalated(self, a, n);
        r.insert(0, start);
        r.push(end);
        proof {
            assert(r@ =~= seq![start] + spec_intercalated(old(self)@, a, n as int) + seq![end]);
        }
        *self = r;
    }

    fn intercalate_full(&mut self, start: A, a: A, end: A) {
        self.intercalate_every_n(start, a, end, 1);
    }

    fn intercalate(&mut self, a: A) {
        let r = build_intercalated(self, a, 1);
        *self = r;
    }
}

/// Grouping and key-based sorting for vectors.
pub trait Vectors<A>: Sized {
    spec fn spec_items(self) -> Seq<A>;

    /// The elements reordered so their keys under `f` ascend; the result
    /// holds exactly the elements given, as a multiset.
    fn better_sort_by_key<F: Fn(&A) -> i64>(self, f: F) -> (r: Vec<A>) where A: Copy
        requires
            forall|x: &A| #[trigger] f.requires((x,)),
        ensures
            r@.to_multiset() == self.spec_items().to_multiset(),
    ;

    /// The elements cut into consecutive groups of `n` (the last group may be
    /// shorter).
    fn grouped(&self, n: usize) -> (r: Vec<Vec<A>>) where A: Copy
        requires
            n >= 1,
        ensures
            r@.len() == spec_grouped(self.spec_items(), n as int).len(),
            forall|g: int|
                0 <= g < r@.len() ==> (#[trigger] r@[g])@ == spec_grouped(
                    self.spec_items(),
                    n as int,
                )[g],
    ;
}

impl<A> Vectors<A> for Vec<A> {
    open spec fn spec_items(self) -> Seq<A> {
        self@
    }

    fn better_sort_by_key<F: Fn(&A) -> i64>(self, f: F) -> (r: Vec<A>) where A: Copy {
        broadcast use vstd::seq_lib::group_to_multiset_ensures;
        broadcast use vstd::multiset::group_multiset_axioms;

        let mut src = self;
        let mut r: Vec<A> = Vec::new();
        let ghost all = src@.to_multiset();
        while src.len() > 0
            invariant
                forall|x: &A| #[trigger] f.requires((x,)),
                r@.to_multiset().add(src@.to_multiset()) == all,
            decreases src@.len(),
        {
            // Select an element with the smallest key.
            let mut best: usize = 0;
            let mut best_key: i64 = f(&src[0]);
            let mut j: usize = 1;
            while j < src.len()
                invariant
                    forall|x: &A| #[trigger] f.requires((x,)),
                    src@.len() > 0,
                    best < src@.len(),
                    j <= src@.len(),
                decreases src@.len() - j,
            {
                let k = f(&src[j]);
                if k < best_key {
                    best = j;
                    best_key = k;
                }
                j = j + 1;
            }
            let ghost src0 = src@;
            let x = src.remove(best);
            let ghost r0 = r@;
            r.push(x);
            proof {
                vstd::seq_lib::to_multiset_remove(src0, best as int);
                vstd::seq_lib::to_multiset_build(r0, x);
                assert(src@.to_multiset() =~= src0.to_multiset().remove(src0[best as int]));
                assert(r@.to_multiset() =~= r0.to_multiset().insert(x));
                assert(src0.contains(x));
                vstd::seq_lib::to_multiset_contains(src0, x);
                assert(src0.to_multiset().count(x) > 0);
                assert(r@.to_multiset().add(src@.to_multiset()) =~= all);
            }
        }
        proof {
            assert(src@.to_multiset().len() == 0);
            assert(r@.to_multiset() =~= all);
        }
        r
    }

    fn grouped(&self, n: usize) -> (r: Vec<Vec<A>>) where A: Copy {
        let mut r: Vec<Vec<A>> = Vec::new();
        let ghost full = spec_grouped(self@, n as int);
        proof {
            assert(self@.skip(0) =~= self@);
        }
        let mut i: usize = 0;
        while i < self.len()
            invariant
                n >= 1,
                i <= self@.len(),
                full == spec_grouped(self@, n as int),
                r@.len() + spec_grouped(self@.skip(i as int), n as int).len() == full.len(),
                forall|g: int| 0 <= g < r@.len() ==> (#[trigger] r@[g])@ == full[g],
                forall|g: int|
                    0 <= g < spec_grouped(self@.skip(i as int), n as int).len()
                        ==> #[trigger] spec_grouped(self@.skip(i as int), n as int)[g] == full[g
                        + r@.len()],
            decreases self@.len() - i,
        {
            let group_end = if n < self.len() - i {
                i + n
            } else {
                self.len()
            };
            let mut group: Vec<A> = Vec::new();
            let mut j: usize = i;
            while j < group_end
                invariant
                    i <= j <= group_end <= self@.len(),
                    group@ == self@.subrange(i as int, j as int),
                decreases group_end - j,
            {
                let ghost g0 = group@;
                group.push(self[j]);
                proof {
                    assert(group@ =~= self@.subrange(i as int, j + 1 as int));
                }
                j = j + 1;
            }
            let ghost rest = self@.skip(i as int);
            let ghost r0 = r@;
            proof {
                if rest.len() <= n {
                    assert(spec_grouped(rest, n as int) == seq![rest]);
                    assert(group@ =~= rest);
                } else {
                    assert(spec_grouped(rest, n as int) == seq![rest.take(n as int)]
                        + spec_grouped(rest.skip(n as int), n as int));
                    assert(group@ =~= rest.take(n as int));
                    assert(rest.skip(n as int) =~= self@.skip(group_end as int));
                }
            }
            r.push(group);
            i = group_end;
            proof {
                let tail = spec_grouped(self@.skip(i as int), n as int);
                if rest.len() <= n {
                    assert(i == self@.len());
                    assert(self@.skip(i as int).len() == 0);
                    assert(tail =~= Seq::<Seq<A>>::empty());
                    assert(spec_grouped(rest, n as int)[0] == rest);
                } else {
                    assert(spec_grouped(rest, n as int)[0] == rest.take(n as int));
                    assert forall|g: int| 0 <= g < tail.len() implies #[trigger] tail[g] == full[g
                        + r@.len()] by {
                        assert(spec_grouped(rest, n as int)[g + 1] == tail[g]);
                        assert(spec_grouped(rest, n as int)[g + 1] == full[g + 1 + r0.len()]);
                    }
                }
                assert(spec_grouped(rest, n as int)[0] == full[r0.len() as int]);
                assert(r@[r0.len() as int]@ == full[r0.len() as int]);
                assert forall|g: int| 0 <= g < r@.len() implies (#[trigger] r@[g])@ == full[g] by {
                    if g < r0.len() {
                        assert(r@[g] == r0[g]);
                    }
                }
            }
        }
        proof {
            assert(self@.skip(i as int).len() == 0);
            assert(spec_grouped(self@.skip(i as int), n as int).len() == 0);
        }
        r
    }
}

} // verus!
