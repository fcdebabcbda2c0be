use vstd::prelude::*;

use crate::ids::Id;

verus! {

pub type ComponentId = Id;

pub type EntityId = Id;

/// What a scene needs to know of each of its components.
///
/// The spec functions describe the component's state; each method states how it reads or
/// changes that state.
pub trait ComponentDetails {
    spec fn spec_id(&self) -> ComponentId;

    spec fn spec_initialized(&self) -> bool;

    spec fn spec_parent(&self) -> EntityId;

    spec fn spec_enabled(&self) -> bool;

    /// The rendering order: zero unless the component says otherwise.
    open spec fn spec_rendering_order(&self) -> i32 {
        0
    }

    fn id(&self) -> (r: ComponentId)
        ensures
            r == self.spec_id(),
    ;

    fn is_initialized(&self) -> (r: bool)
        ensures
            r == self.spec_initialized(),
    ;

    fn set_initialized(&mut self)
        ensures
            final(self).spec_initialized(),
            final(self).spec_id() == old(self).spec_id(),
            final(self).spec_parent() == old(self).spec_parent(),
            final(self).spec_enabled() == old(self).spec_enabled(),
            final(self).spec_rendering_order() == old(self).spec_rendering_order(),
    ;

    fn parent_entity_id(&self) -> (r: EntityId)
        ensures
            r == self.spec_parent(),
    ;

    fn set_parent_entity(&mut self, parent_id: EntityId)
        ensures
            final(self).spec_parent() == parent_id,
            final(self).spec_id() == old(self).spec_id(),
            final(self).spec_initialized() == old(self).spec_initialized(),
            final(self).spec_enabled() == old(self).spec_enabled(),
            final(self).spec_rendering_order() == old(self).spec_rendering_order(),
    ;

    fn is_enabled(&self) -> (r: bool)
        ensures
            r == self.spec_enabled(),
    ;

    fn set_enabled_state(&mut self, enabled_state: bool)
        ensures
            final(self).spec_enabled() == enabled_state,
            final(self).spec_id() == old(self).spec_id(),
            final(self).spec_initialized() == old(self).spec_initialized(),
            final(self).spec_parent() == old(self).spec_parent(),
            final(self).spec_rendering_order() == old(self).spec_rendering_order(),
    ;

    /// Lower order means it is rendered earlier; zero unless the component says otherwise
    /// (see `spec_rendering_order`).
    fn rendering_order(&self) -> (r: i32)
        ensures
            r == self.spec_rendering_order(),
    ;
}

} // verus!

verus! {

/// The components of `s` whose rendering order is `k`, in their order in `s`.
pub open spec fn with_rendering_order<C: ComponentDetails>(s: Seq<C>, k: i32) -> Seq<C> {
    s.filter(has_rendering_order::<C>(k))
}

/// Whether a component's rendering order is `k`.
pub open spec fn has_rendering_order<C: ComponentDetails>(k: i32) -> spec_fn(C) -> bool {
    |c: C| c.spec_rendering_order() == k
}

/// `s` lists its components in non-decreasing rendering order.
pub open spec fn sorted_by_rendering_order<C: ComponentDetails>(s: Seq<C>) -> bool {
    forall|i: int, j: int|
        0 <= i <= j < s.len() ==> s[i].spec_rendering_order() <= s[j].spec_rendering_order()
}

/// `r` is `s` sorted stably by rendering order: sorted, and for each order the components
/// that have it come in the same sequence as in `s`.
pub open spec fn stably_sorted_from<C: ComponentDetails>(r: Seq<C>, s: Seq<C>) -> bool {
    &&& r.len() == s.len()
    &&& sorted_by_rendering_order(r)
    &&& forall|k: i32| #[trigger] with_rendering_order(r, k) == with_rendering_order(s, k)
}

proof fn lemma_filter_none<A>(s: Seq<A>, pred: spec_fn(A) -> bool)
    requires
        forall|q: int| 0 <= q < s.len() ==> !pred(#[trigger] s[q]),
    ensures
        s.filter(pred) == Seq::<A>::empty(),
    decreases s.len(),
{
    reveal(Seq::filter);
    if s.len() > 0 {
        lemma_filter_none(s.drop_last(), pred);
    }
}

proof fn lemma_insert_keeps_groups<C: ComponentDetails>(s: Seq<C>, p: int, c: C, k: i32)
    requires
        0 <= p <= s.len(),
        forall|q: int| 0 <= q < p ==> (#[trigger] s[q]).spec_rendering_order() <= c.spec_rendering_order(),
        forall|q: int| p <= q < s.len() ==> (#[trigger] s[q]).spec_rendering_order() > c.spec_rendering_order(),
    ensures
        with_rendering_order(s.insert(p, c), k) == (if c.spec_rendering_order() == k {
            with_rendering_order(s, k).push(c)
        } else {
            with_rendering_order(s, k)
        }),
{
    let pred = has_rendering_order::<C>(k);
    let a = s.take(p);
    let b = s.skip(p);
    assert(s =~= a + b);
    assert(s.insert(p, c) =~= a.push(c) + b);
    Seq::filter_distributes_over_add(a.push(c), b, pred);
    Seq::filter_distributes_over_add(a, b, pred);
    a.lemma_filter_push(c, pred);
    if c.spec_rendering_order() == k {
        assert forall|q: int| 0 <= q < b.len() implies !pred(#[trigger] b[q]) by {
            assert(b[q] == s[p + q]);
        }
        lemma_filter_none(b, pred);
        assert(b.filter(pred) + Seq::<C>::empty() =~= b.filter(pred));
        assert(a.filter(pred).push(c) + b.filter(pred) =~= (a.filter(pred) + b.filter(pred)).push(c));
    }
}

/// Sorts components by rendering order, keeping the given order among components whose
/// rendering order is the same.
pub fn sort_by_rendering_order<C: ComponentDetails>(components: Vec<C>) -> (sorted: Vec<C>)
    ensures
        stably_sorted_from(sorted@, components@),
{
    let ghost orig = components@;
    let mut rest = components;
    let mut sorted: Vec<C> = Vec::new();
    let ghost mut done: int = 0;
    assert(orig.take(0) =~= Seq::<C>::empty());
    while rest.len() > 0
        invariant
            0 <= done <= orig.len(),
            rest@ == orig.skip(done),
            sorted@.len() == done,
            sorted_by_rendering_order(sorted@),
            forall|k: i32| #[trigger] with_rendering_order(sorted@, k) == with_rendering_order(orig.take(done), k),
        decreases rest.len(),
    {
        let c = rest.remove(0);
        let key = c.rendering_order();
        let mut p: usize = 0;
        while p < sorted.len() && sorted[p].rendering_order() <= key
            invariant
                0 <= p <= sorted@.len(),
                forall|q: int| 0 <= q < p ==> (#[trigger] sorted@[q]).spec_rendering_order() <= key,
            decreases sorted@.len() - p,
        {
            p = p + 1;
        }
        let ghost before = sorted@;
        proof {
            assert forall|q: int| p <= q < before.len() implies (#[trigger] before[q]).spec_rendering_order() > key by {
                assert(before[p as int].spec_rendering_order() > key);
            }
        }
        sorted.insert(p, c);
        proof {
            assert(orig.take(done + 1) =~= orig.take(done).push(c));
            assert forall|k: i32| #[trigger] with_rendering_order(sorted@, k) == with_rendering_order(orig.take(done + 1), k) by {
                lemma_insert_keeps_groups(before, p as int, c, k);
                orig.take(done).lemma_filter_push(c, has_rendering_order::<C>(k));
            }
            done = done + 1;
            assert(rest@ =~= orig.skip(done));
        }
    }
    proof {
        assert(orig.take(done) =~= orig);
    }
    sorted
}


/// A component of order `k` in `s` shows up among the components of order `k`.
proof fn lemma_member_in_group<C: ComponentDetails>(s: Seq<C>, q: int)
    requires
        0 <= q < s.len(),
    ensures
        with_rendering_order(s, s[q].spec_rendering_order()).len() > 0,
    decreases s.len(),
{
    let k = s[q].spec_rendering_order();
    let pred = has_rendering_order::<C>(k);
    assert(s =~= s.drop_last().push(s.last()));
    s.drop_last().lemma_filter_push(s.last(), pred);
    if q < s.len() - 1 {
        lemma_member_in_group(s.drop_last(), q);
    }
}

/// A group that is not empty has a member of that order.
proof fn lemma_group_has_member<C: ComponentDetails>(s: Seq<C>, k: i32) -> (q: int)
    requires
        with_rendering_order(s, k).len() > 0,
    ensures
        0 <= q < s.len(),
        s[q].spec_rendering_order() == k,
    decreases s.len(),
{
    let pred = has_rendering_order::<C>(k);
    if s.len() == 0 {
        reveal(Seq::filter);
        assert(false);
        0
    } else {
        assert(s =~= s.drop_last().push(s.last()));
        s.drop_last().lemma_filter_push(s.last(), pred);
        if s.last().spec_rendering_order() == k {
            s.len() - 1
        } else {
            lemma_group_has_member(s.drop_last(), k)
        }
    }
}

/// Sorting components stably by rendering order has one outcome only: two sequences that
/// are both stably sorted from the same components are the same sequence. So sorting twice
/// gives what sorting once gives.
pub proof fn lemma_stable_sort_unique<C: ComponentDetails>(a: Seq<C>, b: Seq<C>, s: Seq<C>)
    requires
        stably_sorted_from(a, s),
        stably_sorted_from(b, s),
    ensures
        a == b,
    decreases a.len(),
{
    if s.len() > 0 {
        let x = a.last();
        let y = b.last();
        let ka = x.spec_rendering_order();
        let kb = y.spec_rendering_order();
        assert(with_rendering_order(a, ka) == with_rendering_order(s, ka));
        assert(with_rendering_order(b, ka) == with_rendering_order(s, ka));
        assert(with_rendering_order(a, kb) == with_rendering_order(s, kb));
        assert(with_rendering_order(b, kb) == with_rendering_order(s, kb));
        lemma_member_in_group(a, a.len() - 1);
        lemma_member_in_group(b, b.len() - 1);
        let qb = lemma_group_has_member(b, ka);
        let qa = lemma_group_has_member(a, kb);
        assert(b[qb].spec_rendering_order() <= b[b.len() - 1].spec_rendering_order());
        assert(a[qa].spec_rendering_order() <= a[a.len() - 1].spec_rendering_order());
        assert(ka == kb);
        let pa = a.drop_last();
        let pb = b.drop_last();
        assert(a =~= pa.push(x));
        assert(b =~= pb.push(y));
        pa.lemma_filter_push(x, has_rendering_order::<C>(ka));
        pb.lemma_filter_push(y, has_rendering_order::<C>(ka));
        assert(with_rendering_order(a, ka).last() == x);
        assert(with_rendering_order(b, ka).last() == y);
        assert(x == y);
        assert forall|k: i32| #[trigger] with_rendering_order(pa, k) == with_rendering_order(pb, k) by {
            pa.lemma_filter_push(x, has_rendering_order::<C>(k));
            pb.lemma_filter_push(y, has_rendering_order::<C>(k));
            assert(with_rendering_order(a, k) == with_rendering_order(s, k));
            assert(with_rendering_order(b, k) == with_rendering_order(s, k));
            if k == ka {
                assert(with_rendering_order(pa, k) =~= with_rendering_order(a, k).drop_last());
                assert(with_rendering_order(pb, k) =~= with_rendering_order(b, k).drop_last());
            }
        }
        assert(sorted_by_rendering_order(pa));
        assert(sorted_by_rendering_order(pb));
        assert(stably_sorted_from(pb, pa)) by {
            assert forall|i: int, j: int| 0 <= i <= j < pb.len() implies pb[i].spec_rendering_order() <= pb[j].spec_rendering_order() by {
                assert(pb[i] == b[i] && pb[j] == b[j]);
            }
        }
        assert(stably_sorted_from(pa, pa)) by {
            assert forall|i: int, j: int| 0 <= i <= j < pa.len() implies pa[i].spec_rendering_order() <= pa[j].spec_rendering_order() by {
                assert(pa[i] == a[i] && pa[j] == a[j]);
            }
        }
        lemma_stable_sort_unique(pa, pb, pa);
    }
}


/// Sorting components that are already in rendering order leaves them as they are.
pub proof fn lemma_sorting_sorted_keeps_order<C: ComponentDetails>(r: Seq<C>, s: Seq<C>)
    requires
        sorted_by_rendering_order(s),
        stably_sorted_from(r, s),
    ensures
        r == s,
{
    lemma_stable_sort_unique(r, s, s);
}

} // verus!
