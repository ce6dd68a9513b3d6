//! Orphan-candidate classification and the true/pseudo-orphan partition.

use vstd::prelude::*;
use crate::package::DedepPackage;
use crate::package::InstallReason;
use crate::package::PackageMeta;

verus! {

/// An orphan candidate: a package installed only as a dependency that no
/// installed package requires any more.
pub open spec fn is_candidate(p: PackageMeta) -> bool {
    p.reason is Dependency && p.required_by == 0
}

/// Among the candidates, a true orphan is one that no installed package
/// optionally wants either.
pub open spec fn is_true_orphan(e: DedepPackage) -> bool {
    e.meta.optional_for == 0
}

/// Among the candidates, a pseudo-orphan is one that at least one installed
/// package still optionally wants.
pub open spec fn is_pseudo_orphan(e: DedepPackage) -> bool {
    e.meta.optional_for > 0
}

/// The orphan candidates of a listing, in listing order.
pub open spec fn classified(all: Seq<PackageMeta>) -> Seq<PackageMeta> {
    all.filter(|p: PackageMeta| is_candidate(p))
}

/// The true-orphan side of the partition, in candidate order.
pub open spec fn true_orphans_of(c: Seq<DedepPackage>) -> Seq<DedepPackage> {
    c.filter(|e: DedepPackage| is_true_orphan(e))
}

/// The pseudo-orphan side of the partition, in candidate order.
pub open spec fn pseudo_orphans_of(c: Seq<DedepPackage>) -> Seq<DedepPackage> {
    c.filter(|e: DedepPackage| is_pseudo_orphan(e))
}

/// Select the orphan candidates from the full installed-package listing, in
/// listing order, each wrapped as an entry with no action staged yet.
///
/// Every package whose install reason is `Dependency` and whose
/// reverse-dependency count is zero is kept; every other package is dropped;
/// nothing is reordered.
pub fn classify(all: Vec<PackageMeta>) -> (out: Vec<DedepPackage>)
    ensures
        out@.map_values(|e: DedepPackage| e.meta) == classified(all@),
        forall|i: int| 0 <= i < out@.len() ==> (#[trigger] out@[i]).action is Nothing,
        forall|i: int| 0 <= i < out@.len() ==> is_candidate((#[trigger] out@[i]).meta),
{
    let ghost all_seq = all@;
    let mut rest = all;
    let mut out: Vec<DedepPackage> = Vec::new();
    while rest.len() > 0
        invariant
            rest@.len() <= all_seq.len(),
            rest@ == all_seq.subrange(all_seq.len() - rest@.len(), all_seq.len() as int),
            out@.map_values(|e: DedepPackage| e.meta) == classified(
                all_seq.subrange(0, all_seq.len() - rest@.len()),
            ),
            forall|i: int| 0 <= i < out@.len() ==> (#[trigger] out@[i]).action is Nothing,
            forall|i: int| 0 <= i < out@.len() ==> is_candidate((#[trigger] out@[i]).meta),
        decreases rest@.len(),
    {
        let ghost k = all_seq.len() - rest@.len();
        let p = rest.remove(0);
        proof {
            assert(p == all_seq[k]);
            assert(rest@ =~= all_seq.subrange(all_seq.len() - rest@.len(), all_seq.len() as int));
            lemma_filter_one_more(all_seq, k, |q: PackageMeta| is_candidate(q));
        }
        let is_dep = match p.reason {
            InstallReason::Dependency => true,
            InstallReason::Explicit => false,
        };
        if is_dep && p.required_by == 0 {
            let e = DedepPackage::new(p);
            out.push(e);
            proof {
                assert(out@.map_values(|e: DedepPackage| e.meta) =~= classified(
                    all_seq.subrange(0, k + 1),
                ));
            }
        } else {
            proof {
                assert(out@.map_values(|e: DedepPackage| e.meta) =~= classified(
                    all_seq.subrange(0, k + 1),
                ));
            }
        }
    }
    proof {
        assert(all_seq.subrange(0, all_seq.len() as int) =~= all_seq);
    }
    out
}

/// Filtering one more element extends the filtered prefix by that element when
/// the predicate holds of it, and leaves it unchanged when it does not.
proof fn lemma_filter_one_more<A>(s: Seq<A>, k: int, pred: spec_fn(A) -> bool)
    requires
        0 <= k < s.len(),
    ensures
        pred(s[k]) ==> s.subrange(0, k + 1).filter(pred) == s.subrange(0, k).filter(pred).push(
            s[k],
        ),
        !pred(s[k]) ==> s.subrange(0, k + 1).filter(pred) == s.subrange(0, k).filter(pred),
{
    reveal(Seq::filter);
    assert(s.subrange(0, k + 1).drop_last() =~= s.subrange(0, k));
    assert(s.subrange(0, k + 1).last() == s[k]);
}

/// Split the candidates into true orphans and pseudo-orphans, preserving the
/// relative order of each side: the first output keeps exactly the candidates
/// that nothing optionally wants, the second exactly the rest.
pub fn partition(candidates: Vec<DedepPackage>) -> (r: (Vec<DedepPackage>, Vec<DedepPackage>))
    ensures
        r.0@ == true_orphans_of(candidates@),
        r.1@ == pseudo_orphans_of(candidates@),
{
    let ghost c_seq = candidates@;
    let mut rest = candidates;
    let mut true_orphans: Vec<DedepPackage> = Vec::new();
    let mut pseudo_orphans: Vec<DedepPackage> = Vec::new();
    while rest.len() > 0
        invariant
            rest@.len() <= c_seq.len(),
            rest@ == c_seq.subrange(c_seq.len() - rest@.len(), c_seq.len() as int),
            true_orphans@ == true_orphans_of(c_seq.subrange(0, c_seq.len() - rest@.len())),
            pseudo_orphans@ == pseudo_orphans_of(c_seq.subrange(0, c_seq.len() - rest@.len())),
        decreases rest@.len(),
    {
        let ghost k = c_seq.len() - rest@.len();
        let e = rest.remove(0);
        proof {
            assert(e == c_seq[k]);
            assert(rest@ =~= c_seq.subrange(c_seq.len() - rest@.len(), c_seq.len() as int));
            lemma_filter_one_more(c_seq, k, |x: DedepPackage| is_true_orphan(x));
            lemma_filter_one_more(c_seq, k, |x: DedepPackage| is_pseudo_orphan(x));
        }
        if e.meta.optional_for == 0 {
            true_orphans.push(e);
        } else {
            pseudo_orphans.push(e);
        }
    }
    proof {
        assert(c_seq.subrange(0, c_seq.len() as int) =~= c_seq);
    }
    (true_orphans, pseudo_orphans)
}

/// Law: the classifier is sound and complete. Every package it keeps is an
/// orphan candidate, and every orphan candidate of the listing is kept.
pub proof fn lemma_classify_characterization(all: Seq<PackageMeta>)
    ensures
        forall|i: int|
            0 <= i < classified(all).len() ==> is_candidate(#[trigger] classified(all)[i]),
        forall|j: int|
            0 <= j < all.len() && is_candidate(#[trigger] all[j]) ==> classified(all).contains(
                all[j],
            ),
{
    broadcast use Seq::lemma_filter_pred, Seq::lemma_filter_contains;

}

/// Law: the partition is complete and disjoint. Taken as multisets, the true
/// orphans and the pseudo-orphans together are exactly the candidates; their
/// lengths add up to the number of candidates; every candidate lands on one
/// side or the other; and no entry appears on both sides.
pub proof fn lemma_partition_complete(c: Seq<DedepPackage>)
    ensures
        true_orphans_of(c).to_multiset().add(pseudo_orphans_of(c).to_multiset())
            == c.to_multiset(),
        true_orphans_of(c).len() + pseudo_orphans_of(c).len() == c.len(),
        forall|i: int|
            0 <= i < c.len() ==> true_orphans_of(c).contains(#[trigger] c[i])
                || pseudo_orphans_of(c).contains(c[i]),
        forall|e: DedepPackage| !(true_orphans_of(c).contains(e) && pseudo_orphans_of(c).contains(
            e,
        )),
    decreases c.len(),
{
    broadcast use Seq::lemma_filter_pred, Seq::lemma_filter_contains;
    broadcast use vstd::multiset::group_multiset_axioms;

    reveal(Seq::filter);
    let tp = |e: DedepPackage| is_true_orphan(e);
    let pp = |e: DedepPackage| is_pseudo_orphan(e);
    c.to_multiset_ensures();
    c.filter(tp).to_multiset_ensures();
    c.filter(pp).to_multiset_ensures();
    if c.len() == 0 {
        assert(true_orphans_of(c).to_multiset().add(pseudo_orphans_of(c).to_multiset())
            =~= c.to_multiset());
    } else {
        let d = c.drop_last();
        lemma_partition_complete(d);
        d.to_multiset_ensures();
        d.filter(tp).to_multiset_ensures();
        d.filter(pp).to_multiset_ensures();
        assert(c =~= d.push(c.last()));
        if tp(c.last()) {
            assert(c.filter(tp) == d.filter(tp).push(c.last()));
            assert(d.filter(tp).push(c.last()).to_multiset() =~= d.filter(tp).to_multiset().insert(
                c.last(),
            ));
        } else {
            assert(c.filter(pp) == d.filter(pp).push(c.last()));
            assert(d.filter(pp).push(c.last()).to_multiset() =~= d.filter(pp).to_multiset().insert(
                c.last(),
            ));
        }
        assert(d.push(c.last()).to_multiset() =~= d.to_multiset().insert(c.last()));
        assert(c.to_multiset() == d.push(c.last()).to_multiset());
        assert(true_orphans_of(c).to_multiset().add(pseudo_orphans_of(c).to_multiset())
            =~= c.to_multiset());
    }
}

/// `sub` can be had from `sup` by deleting zero or more elements, with the
/// relative order of what remains untouched.
pub open spec fn is_subsequence_of<A>(sub: Seq<A>, sup: Seq<A>) -> bool
    decreases sup.len(),
{
    if sub.len() == 0 {
        true
    } else if sup.len() == 0 {
        false
    } else if sub.last() == sup.last() {
        is_subsequence_of(sub.drop_last(), sup.drop_last()) || is_subsequence_of(
            sub,
            sup.drop_last(),
        )
    } else {
        is_subsequence_of(sub, sup.drop_last())
    }
}

/// Law: filtering preserves order. The filtered sequence is a subsequence of
/// the original, so any two survivors keep their relative order.
pub proof fn lemma_filter_preserves_order<A>(s: Seq<A>, pred: spec_fn(A) -> bool)
    ensures
        is_subsequence_of(s.filter(pred), s),
    decreases s.len(),
{
    reveal(Seq::filter);
    if s.len() == 0 {
    } else {
        let d = s.drop_last();
        lemma_filter_preserves_order(d, pred);
        if pred(s.last()) {
            assert(s.filter(pred) == d.filter(pred).push(s.last()));
            assert(s.filter(pred).last() == s.last());
            assert(s.filter(pred).drop_last() =~= d.filter(pred));
        } else {
            assert(s.filter(pred) == d.filter(pred));
        }
    }
}

/// Law: order preservation. The classifier keeps the database's listing
/// order, and each side of the partition keeps the candidates' order.
pub proof fn lemma_partition_preserves_order(all: Seq<PackageMeta>, c: Seq<DedepPackage>)
    ensures
        is_subsequence_of(classified(all), all),
        is_subsequence_of(true_orphans_of(c), c),
        is_subsequence_of(pseudo_orphans_of(c), c),
{
    lemma_filter_preserves_order(all, |p: PackageMeta| is_candidate(p));
    lemma_filter_preserves_order(c, |e: DedepPackage| is_true_orphan(e));
    lemma_filter_preserves_order(c, |e: DedepPackage| is_pseudo_orphan(e));
}

/// A subsequence of `sup` without its last element is a subsequence of `sup`.
proof fn lemma_subsequence_extend_sup<A>(sub: Seq<A>, sup: Seq<A>)
    requires
        sup.len() > 0,
        is_subsequence_of(sub, sup.drop_last()),
    ensures
        is_subsequence_of(sub, sup),
{
}

/// The subsequence relation is transitive.
pub proof fn lemma_subsequence_transitive<A>(a: Seq<A>, b: Seq<A>, c: Seq<A>)
    requires
        is_subsequence_of(a, b),
        is_subsequence_of(b, c),
    ensures
        is_subsequence_of(a, c),
    decreases c.len(), b.len(), a.len(),
{
    if a.len() == 0 {
    } else if b.last() == c.last() {
        if is_subsequence_of(b, c.drop_last()) {
            lemma_subsequence_transitive(a, b, c.drop_last());
            lemma_subsequence_extend_sup(a, c);
        } else {
            if a.last() == b.last() && is_subsequence_of(a.drop_last(), b.drop_last()) {
                lemma_subsequence_transitive(a.drop_last(), b.drop_last(), c.drop_last());
            } else {
                lemma_subsequence_transitive(a, b.drop_last(), c.drop_last());
                lemma_subsequence_extend_sup(a, c);
            }
        }
    } else {
        lemma_subsequence_transitive(a, b, c.drop_last());
        lemma_subsequence_extend_sup(a, c);
    }
}

/// Mapping the same function over both sequences keeps the subsequence
/// relation.
proof fn lemma_map_preserves_subsequence<A, B>(a: Seq<A>, b: Seq<A>, f: spec_fn(A) -> B)
    requires
        is_subsequence_of(a, b),
    ensures
        is_subsequence_of(a.map_values(f), b.map_values(f)),
    decreases b.len(), a.len(),
{
    if a.len() == 0 {
    } else {
        let am = a.map_values(f);
        let bm = b.map_values(f);
        assert(a.drop_last().map_values(f) =~= am.drop_last());
        assert(b.drop_last().map_values(f) =~= bm.drop_last());
        assert(am.last() == f(a.last()));
        assert(bm.last() == f(b.last()));
        if a.last() == b.last() && is_subsequence_of(a.drop_last(), b.drop_last()) {
            lemma_map_preserves_subsequence(a.drop_last(), b.drop_last(), f);
        } else {
            lemma_map_preserves_subsequence(a, b.drop_last(), f);
            assert(is_subsequence_of(am, bm.drop_last()));
            lemma_subsequence_extend_sup(am, bm);
        }
    }
}

/// Law: order preservation end to end. When the candidates' metadata is the
/// classifier's output for a listing, each side of the partition, read back
/// as metadata, is a subsequence of the database's listing itself: the
/// relative order of the candidates in both partitions matches their relative
/// order in the listing.
pub proof fn lemma_partition_order_vs_listing(all: Seq<PackageMeta>, c: Seq<DedepPackage>)
    requires
        c.map_values(|e: DedepPackage| e.meta) == classified(all),
    ensures
        is_subsequence_of(true_orphans_of(c).map_values(|e: DedepPackage| e.meta), all),
        is_subsequence_of(pseudo_orphans_of(c).map_values(|e: DedepPackage| e.meta), all),
{
    let m = |e: DedepPackage| e.meta;
    lemma_filter_preserves_order(c, |e: DedepPackage| is_true_orphan(e));
    lemma_filter_preserves_order(c, |e: DedepPackage| is_pseudo_orphan(e));
    lemma_map_preserves_subsequence(true_orphans_of(c), c, m);
    lemma_map_preserves_subsequence(pseudo_orphans_of(c), c, m);
    lemma_filter_preserves_order(all, |p: PackageMeta| is_candidate(p));
    lemma_subsequence_transitive(true_orphans_of(c).map_values(m), c.map_values(m), all);
    lemma_subsequence_transitive(pseudo_orphans_of(c).map_values(m), c.map_values(m), all);
}

} // verus!
