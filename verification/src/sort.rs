//! Stable sorting by a rank.
//!
//! `sorted_seq` says in which order a sequence comes out; `sort` computes it.
//! The order is a function of the input alone, so two runs on one input agree.

use vstd::prelude::*;

verus! {

/// A type whose values can be ranked: a strict weak order.
pub trait Ranked: Sized {
    /// `self` has to stand before `other`.
    spec fn before(&self, other: &Self) -> bool;

    /// Decides `before`.
    fn is_before(&self, other: &Self) -> (r: bool)
        ensures
            r == self.before(other),
    ;

    /// Of two values at most one stands before the other.
    proof fn lemma_asymmetric(a: &Self, b: &Self)
        requires
            a.before(b),
        ensures
            !b.before(a),
    ;

    /// "Does not stand before" is transitive.
    proof fn lemma_chain(a: &Self, b: &Self, c: &Self)
        requires
            !a.before(b),
            !b.before(c),
        ensures
            !a.before(c),
    ;
}

/// `s`, sorted, with `x` put behind every member that it does not have to
/// stand before.
pub open spec fn insert_sorted<T: Ranked>(s: Seq<T>, x: T) -> Seq<T>
    decreases s.len(),
{
    if s.len() == 0 {
        seq![x]
    } else if x.before(&s.last()) {
        insert_sorted(s.drop_last(), x).push(s.last())
    } else {
        s.push(x)
    }
}

/// The members of `s` in rank order; members of equal rank keep the order
/// they have in `s`.
pub open spec fn sorted_seq<T: Ranked>(s: Seq<T>) -> Seq<T>
    decreases s.len(),
{
    if s.len() == 0 {
        s
    } else {
        insert_sorted(sorted_seq(s.drop_last()), s.last())
    }
}

/// No member of `s` has to stand before an earlier one.
pub open spec fn in_rank_order<T: Ranked>(s: Seq<T>) -> bool {
    forall|i: int, j: int| #![trigger s[i], s[j]] 0 <= i < j < s.len() ==> !s[j].before(&s[i])
}

/// Where `insert_sorted` puts `x`: at `pos`, if `x` has to stand before all
/// from `pos` on and not before the member just ahead of `pos`.
pub proof fn lemma_insert_position<T: Ranked>(s: Seq<T>, x: T, pos: int)
    requires
        0 <= pos <= s.len(),
        forall|j: int| pos <= j < s.len() ==> x.before(&#[trigger] s[j]),
        pos > 0 ==> !x.before(&s[pos - 1]),
    ensures
        insert_sorted(s, x) == s.insert(pos, x),
    decreases s.len(),
{
    if s.len() == 0 {
        assert(s.insert(pos, x) =~= seq![x]);
    } else if pos == s.len() {
        assert(s.insert(pos, x) =~= s.push(x));
    } else {
        assert(x.before(&s[s.len() - 1]));
        lemma_insert_position(s.drop_last(), x, pos);
        assert(s.drop_last().insert(pos, x).push(s.last()) =~= s.insert(pos, x));
    }
}

/// `insert_sorted` adds one member and loses none.
pub proof fn lemma_insert_sorted_members<T: Ranked>(s: Seq<T>, x: T)
    ensures
        insert_sorted(s, x).len() == s.len() + 1,
        insert_sorted(s, x).to_multiset() == s.to_multiset().insert(x),
    decreases s.len(),
{
    broadcast use vstd::seq_lib::group_to_multiset_ensures;

    if s.len() == 0 {
        assert(s =~= Seq::<T>::empty());
    } else if x.before(&s.last()) {
        lemma_insert_sorted_members(s.drop_last(), x);
        assert(s.drop_last().push(s.last()) =~= s);
        assert(s.drop_last().to_multiset().insert(x).insert(s.last())
            =~= s.drop_last().to_multiset().insert(s.last()).insert(x));
    } else {
    }
}

/// Sorting rearranges: the result holds each member as often as the input.
pub proof fn lemma_sorted_seq_permutes<T: Ranked>(s: Seq<T>)
    ensures
        sorted_seq(s).len() == s.len(),
        sorted_seq(s).to_multiset() == s.to_multiset(),
    decreases s.len(),
{
    broadcast use vstd::seq_lib::group_to_multiset_ensures;

    if s.len() > 0 {
        lemma_sorted_seq_permutes(s.drop_last());
        lemma_insert_sorted_members(sorted_seq(s.drop_last()), s.last());
        assert(s.drop_last().push(s.last()) =~= s);
    }
}

/// Inserting into a sequence in rank order keeps it in rank order.
pub proof fn lemma_insert_sorted_in_order<T: Ranked>(s: Seq<T>, x: T)
    requires
        in_rank_order(s),
    ensures
        in_rank_order(insert_sorted(s, x)),
    decreases s.len(),
{
    let r = insert_sorted(s, x);
    if s.len() == 0 {
    } else if x.before(&s.last()) {
        let front = s.drop_last();
        assert(in_rank_order(front)) by {
            assert forall|i: int, j: int| #![trigger front[i], front[j]] 0 <= i < j < front.len() implies !front[j].before(
                &front[i],
            ) by {
                assert(!s[j].before(&s[i]));
            }
        }
        lemma_insert_sorted_in_order(front, x);
        lemma_insert_sorted_members(front, x);
        let mid = insert_sorted(front, x);
        assert forall|i: int, j: int| #![trigger r[i], r[j]] 0 <= i < j < r.len() implies !r[j].before(
            &r[i],
        ) by {
            if j < mid.len() {
                assert(!mid[j].before(&mid[i]));
            } else {
                // r[j] is s.last(); r[i] is x or a member of front
                broadcast use vstd::seq_lib::group_to_multiset_ensures;

                assert(mid.to_multiset().count(mid[i]) > 0);
                if mid[i] == x {
                    T::lemma_asymmetric(&x, &s.last());
                } else {
                    assert(front.to_multiset().count(mid[i]) > 0);
                    assert(front.contains(mid[i]));
                    let k = choose|k: int| 0 <= k < front.len() && front[k] == mid[i];
                    assert(!s[s.len() - 1].before(&s[k]));
                }
            }
        }
    } else {
        assert forall|i: int, j: int| #![trigger r[i], r[j]] 0 <= i < j < r.len() implies !r[j].before(
            &r[i],
        ) by {
            if j < s.len() {
                assert(!s[j].before(&s[i]));
            } else if i == s.len() - 1 {
            } else {
                assert(!s[s.len() - 1].before(&s[i]));
                T::lemma_chain(&x, &s.last(), &s[i]);
            }
        }
    }
}

/// What `sorted_seq` returns is in rank order.
pub proof fn lemma_sorted_seq_in_order<T: Ranked>(s: Seq<T>)
    ensures
        in_rank_order(sorted_seq(s)),
    decreases s.len(),
{
    if s.len() > 0 {
        lemma_sorted_seq_in_order(s.drop_last());
        lemma_insert_sorted_in_order(sorted_seq(s.drop_last()), s.last());
    }
}

/// `insert_sorted` puts `x` somewhere into `s`, ahead of members only that it
/// has to stand before, and leaves `s` as it is otherwise.
pub proof fn lemma_insert_sorted_is_insert<T: Ranked>(s: Seq<T>, x: T) -> (pos: int)
    ensures
        0 <= pos <= s.len(),
        insert_sorted(s, x) == s.insert(pos, x),
        forall|j: int| pos <= j < s.len() ==> x.before(&#[trigger] s[j]),
    decreases s.len(),
{
    if s.len() == 0 {
        assert(s.insert(0, x) =~= seq![x]);
        0
    } else if x.before(&s.last()) {
        let pos = lemma_insert_sorted_is_insert(s.drop_last(), x);
        assert(s.drop_last().insert(pos, x).push(s.last()) =~= s.insert(pos, x));
        assert forall|j: int| pos <= j < s.len() implies x.before(&#[trigger] s[j]) by {
            if j < s.len() - 1 {
                assert(s.drop_last()[j] == s[j]);
            }
        }
        pos
    } else {
        assert(s.insert(s.len() as int, x) =~= s.push(x));
        s.len() as int
    }
}

/// Neither of two values has to stand before the other.
pub open spec fn same_rank<T: Ranked>(a: T, b: T) -> bool {
    !a.before(&b) && !b.before(&a)
}

/// Sorting is stable. Let `place` number the members of the input in their
/// order. Then of two members of the sorted sequence that have the same rank
/// the one with the lower number stands first.
pub proof fn lemma_sorted_seq_stable<T: Ranked>(s: Seq<T>, place: spec_fn(T) -> int)
    requires
        forall|i: int, j: int| 0 <= i < j < s.len() ==> place(#[trigger] s[i]) < place(#[trigger] s[j]),
    ensures
        forall|i: int, j: int|
            0 <= i < j < sorted_seq(s).len() && same_rank(#[trigger] sorted_seq(s)[i], #[trigger] sorted_seq(s)[j])
                ==> place(sorted_seq(s)[i]) < place(sorted_seq(s)[j]),
    decreases s.len(),
{
    if s.len() > 0 {
        let front = s.drop_last();
        let x = s.last();
        lemma_sorted_seq_stable(front, place);
        lemma_sorted_seq_permutes(front);
        lemma_sorted_seq_members(front);
        let mid = sorted_seq(front);
        let pos = lemma_insert_sorted_is_insert(mid, x);
        let out = sorted_seq(s);
        assert forall|k: int| 0 <= k < mid.len() implies place(#[trigger] mid[k]) < place(x) by {
            assert(mid.contains(mid[k]));
            assert(front.contains(mid[k]));
            let m = choose|m: int| 0 <= m < front.len() && front[m] == mid[k];
            assert(place(s[m]) < place(s[s.len() - 1]));
        }
        assert forall|i: int, j: int|
            0 <= i < j < out.len() && same_rank(#[trigger] out[i], #[trigger] out[j]) implies place(out[i])
            < place(out[j]) by {
            if i == pos {
                assert(x.before(&mid[j - 1]));
            } else if j == pos {
                assert(place(mid[i]) < place(x));
            } else {
                let a = if i < pos {
                    i
                } else {
                    i - 1
                };
                let b = if j < pos {
                    j
                } else {
                    j - 1
                };
                assert(same_rank(mid[a], mid[b]));
            }
        }
    }
}

/// The sorted sequence has the members of the input, and no others.
pub proof fn lemma_sorted_seq_members<T: Ranked>(s: Seq<T>)
    ensures
        forall|x: T| #[trigger] sorted_seq(s).contains(x) <==> s.contains(x),
{
    broadcast use vstd::seq_lib::group_to_multiset_ensures;

    lemma_sorted_seq_permutes(s);
    assert forall|x: T| #[trigger] sorted_seq(s).contains(x) <==> s.contains(x) by {
        assert(sorted_seq(s).to_multiset().count(x) == s.to_multiset().count(x));
    }
}

/// A symmetric relation that holds between any two members of the input at
/// different places holds between any two members of the sorted sequence at
/// different places.
pub proof fn lemma_sorted_seq_pairwise<T: Ranked>(s: Seq<T>, rel: spec_fn(T, T) -> bool)
    requires
        forall|a: T, b: T| #[trigger] rel(a, b) ==> rel(b, a),
        forall|i: int, j: int| 0 <= i < j < s.len() ==> #[trigger] rel(s[i], s[j]),
    ensures
        forall|i: int, j: int|
            0 <= i < j < sorted_seq(s).len() ==> #[trigger] rel(sorted_seq(s)[i], sorted_seq(s)[j]),
    decreases s.len(),
{
    if s.len() > 0 {
        let front = s.drop_last();
        let x = s.last();
        lemma_sorted_seq_pairwise(front, rel);
        lemma_sorted_seq_permutes(front);
        let mid = sorted_seq(front);
        let pos = lemma_insert_sorted_is_insert(mid, x);
        let out = sorted_seq(s);
        assert forall|k: int| 0 <= k < mid.len() implies rel(#[trigger] mid[k], x) by {
            lemma_sorted_seq_members(front);
            assert(mid.contains(mid[k]));
            assert(front.contains(mid[k]));
            let m = choose|m: int| 0 <= m < front.len() && front[m] == mid[k];
            assert(rel(s[m], s[s.len() - 1]));
        }
        assert forall|i: int, j: int| 0 <= i < j < out.len() implies #[trigger] rel(out[i], out[j]) by {
            if i == pos {
                assert(rel(mid[j - 1], x));
            } else if j == pos {
                assert(rel(mid[i], x));
            } else {
                let a = if i < pos {
                    i
                } else {
                    i - 1
                };
                let b = if j < pos {
                    j
                } else {
                    j - 1
                };
                assert(rel(mid[a], mid[b]));
            }
        }
    }
}

/// Of two values one has to stand before the other.
pub open spec fn decided<T: Ranked>(a: T, b: T) -> bool {
    a.before(&b) || b.before(&a)
}

/// Every member of `s` has to stand before every later one.
pub open spec fn strictly_ordered<T: Ranked>(s: Seq<T>) -> bool {
    forall|i: int, j: int| #![trigger s[i], s[j]] 0 <= i < j < s.len() ==> s[i].before(&s[j])
}

/// There is one strict order of given members: two strictly ordered
/// sequences that hold the same members are the same sequence.
pub proof fn lemma_strictly_ordered_unique<T: Ranked>(a: Seq<T>, b: Seq<T>)
    requires
        strictly_ordered(a),
        strictly_ordered(b),
        a.to_multiset() == b.to_multiset(),
    ensures
        a == b,
    decreases a.len(),
{
    broadcast use vstd::seq_lib::group_to_multiset_ensures;
    broadcast use vstd::multiset::group_multiset_axioms;

    assert(a.len() == b.len()) by {
        vstd::seq_lib::to_multiset_len(a);
        vstd::seq_lib::to_multiset_len(b);
    }
    if a.len() == 0 {
        assert(a =~= b);
    } else {
        assert(a.contains(a[0]));
        assert(b.contains(b[0]));
        assert(b.to_multiset().count(a[0]) > 0);
        assert(a.to_multiset().count(b[0]) > 0);
        assert(b.contains(a[0]));
        assert(a.contains(b[0]));
        let j = choose|j: int| 0 <= j < b.len() && b[j] == a[0];
        let i = choose|i: int| 0 <= i < a.len() && a[i] == b[0];
        if j > 0 && i > 0 {
            assert(b[0].before(&b[j]));
            assert(a[0].before(&a[i]));
            T::lemma_asymmetric(&a[0], &b[0]);
        }
        assert(a[0] == b[0]);
        let a1 = a.remove(0);
        let b1 = b.remove(0);
        assert(a1.to_multiset() == b1.to_multiset());
        assert(strictly_ordered(a1)) by {
            assert forall|i: int, j: int| #![trigger a1[i], a1[j]] 0 <= i < j < a1.len() implies a1[i].before(
                &a1[j],
            ) by {
                assert(a1[i] == a[i + 1] && a1[j] == a[j + 1]);
            }
        }
        assert(strictly_ordered(b1)) by {
            assert forall|i: int, j: int| #![trigger b1[i], b1[j]] 0 <= i < j < b1.len() implies b1[i].before(
                &b1[j],
            ) by {
                assert(b1[i] == b[i + 1] && b1[j] == b[j + 1]);
            }
        }
        lemma_strictly_ordered_unique(a1, b1);
        assert(a =~= b) by {
            assert forall|k: int| 0 <= k < a.len() implies a[k] == b[k] by {
                if k > 0 {
                    assert(a1[k - 1] == a[k] && b1[k - 1] == b[k]);
                }
            }
        }
    }
}

/// A sequence in rank order whose members are all different and ranked
/// against each other is strictly ordered. `s` holds the same members.
proof fn lemma_in_order_is_strict<T: Ranked>(a: Seq<T>, s: Seq<T>)
    requires
        in_rank_order(a),
        a.to_multiset() == s.to_multiset(),
        s.no_duplicates(),
        forall|x: T, y: T| s.contains(x) && s.contains(y) && x != y ==> #[trigger] decided(x, y),
    ensures
        strictly_ordered(a),
{
    broadcast use vstd::seq_lib::group_to_multiset_ensures;
    broadcast use vstd::multiset::group_multiset_axioms;

    s.lemma_multiset_has_no_duplicates();
    a.lemma_multiset_has_no_duplicates_conv();
    assert forall|i: int, j: int| #![trigger a[i], a[j]] 0 <= i < j < a.len() implies a[i].before(&a[j]) by {
        assert(a[i] != a[j]);
        assert(a.contains(a[i]) && a.contains(a[j]));
        assert(s.to_multiset().count(a[i]) > 0 && s.to_multiset().count(a[j]) > 0);
        assert(s.contains(a[i]) && s.contains(a[j]));
        assert(decided(a[i], a[j]));
        assert(!a[j].before(&a[i]));
    }
}

/// Sorting does not go by the order of the input where the rank decides.
/// Two sequences that hold the same members, all different and any two of
/// them ranked against each other, come out of the sort as one sequence.
pub proof fn lemma_sorted_seq_ignores_order<T: Ranked>(s: Seq<T>, t: Seq<T>)
    requires
        s.to_multiset() == t.to_multiset(),
        s.no_duplicates(),
        forall|x: T, y: T| s.contains(x) && s.contains(y) && x != y ==> #[trigger] decided(x, y),
    ensures
        sorted_seq(s) == sorted_seq(t),
{
    lemma_sorted_seq_permutes(s);
    lemma_sorted_seq_permutes(t);
    lemma_sorted_seq_in_order(s);
    lemma_sorted_seq_in_order(t);
    lemma_in_order_is_strict(sorted_seq(s), s);
    lemma_in_order_is_strict(sorted_seq(t), s);
    lemma_strictly_ordered_unique(sorted_seq(s), sorted_seq(t));
}

/// Of the members of `s` those that `keep` holds of, each turned into what
/// `make` makes of it, in their order.
pub open spec fn picked<A, B>(s: Seq<A>, keep: spec_fn(A) -> bool, make: spec_fn(A) -> B) -> Seq<B>
    decreases s.len(),
{
    if s.len() == 0 {
        Seq::empty()
    } else if keep(s.last()) {
        picked(s.drop_last(), keep, make).push(make(s.last()))
    } else {
        picked(s.drop_last(), keep, make)
    }
}

/// One more member anywhere in the input adds what is made of it to what is
/// picked, if it is kept, and nothing otherwise.
proof fn lemma_picked_insert<A, B>(s: Seq<A>, k: int, x: A, keep: spec_fn(A) -> bool, make: spec_fn(A) -> B)
    requires
        0 <= k <= s.len(),
    ensures
        picked(s.insert(k, x), keep, make).to_multiset() == if keep(x) {
            picked(s, keep, make).to_multiset().insert(make(x))
        } else {
            picked(s, keep, make).to_multiset()
        },
    decreases s.len() - k,
{
    broadcast use vstd::seq_lib::group_to_multiset_ensures;
    broadcast use vstd::multiset::group_multiset_axioms;

    let t = s.insert(k, x);
    if k == s.len() {
        assert(t.drop_last() =~= s);
        assert(t.last() == x);
    } else {
        let front = s.drop_last();
        assert(t.drop_last() =~= front.insert(k, x));
        assert(t.last() == s.last());
        lemma_picked_insert(front, k, x, keep, make);
        let base = picked(front, keep, make).to_multiset();
        if keep(x) && keep(s.last()) {
            assert(base.insert(make(x)).insert(make(s.last())) =~= base.insert(make(s.last())).insert(make(x)));
        }
    }
}

/// What is picked of two sequences that hold the same members holds the same
/// members.
pub proof fn lemma_picked_ignores_order<A, B>(
    s: Seq<A>,
    t: Seq<A>,
    keep: spec_fn(A) -> bool,
    make: spec_fn(A) -> B,
)
    requires
        s.to_multiset() == t.to_multiset(),
    ensures
        picked(s, keep, make).to_multiset() == picked(t, keep, make).to_multiset(),
    decreases s.len(),
{
    broadcast use vstd::seq_lib::group_to_multiset_ensures;
    broadcast use vstd::multiset::group_multiset_axioms;

    assert(s.len() == t.len()) by {
        vstd::seq_lib::to_multiset_len(s);
        vstd::seq_lib::to_multiset_len(t);
    }
    if s.len() == 0 {
        assert(s =~= t);
    } else {
        let x = s.last();
        let front = s.drop_last();
        assert(front.push(x) =~= s);
        assert(s.contains(x));
        assert(t.to_multiset().count(x) > 0);
        assert(t.contains(x));
        let k = choose|k: int| 0 <= k < t.len() && t[k] == x;
        let rest = t.remove(k);
        assert(rest.insert(k, x) =~= t);
        assert(rest.to_multiset() =~= front.to_multiset()) by {
            assert(s.to_multiset() =~= front.to_multiset().insert(x));
            assert(rest.to_multiset() == t.to_multiset().remove(x));
        }
        lemma_picked_ignores_order(front, rest, keep, make);
        lemma_picked_insert(rest, k, x, keep, make);
    }
}

/// Every member of what is picked is made of a member of the input that is
/// kept.
pub proof fn lemma_picked_members<A, B>(s: Seq<A>, keep: spec_fn(A) -> bool, make: spec_fn(A) -> B, v: B)
    requires
        picked(s, keep, make).contains(v),
    ensures
        exists|x: A| s.contains(x) && keep(x) && #[trigger] make(x) == v,
    decreases s.len(),
{
    if s.len() > 0 {
        let front = s.drop_last();
        let out = picked(s, keep, make);
        let inner = picked(front, keep, make);
        let k = choose|k: int| 0 <= k < out.len() && out[k] == v;
        if keep(s.last()) && k == inner.len() {
            assert(s.contains(s.last()));
            assert(make(s.last()) == v);
        } else {
            assert(inner[k] == v);
            assert(inner.contains(v));
            lemma_picked_members(front, keep, make, v);
            let x = choose|x: A| front.contains(x) && keep(x) && #[trigger] make(x) == v;
            let m = choose|m: int| 0 <= m < front.len() && front[m] == x;
            assert(s[m] == x);
            assert(s.contains(x));
        }
    }
}

/// What is picked of members that are all different, and made so that
/// different members make different things, is all different.
pub proof fn lemma_picked_distinct<A, B>(s: Seq<A>, keep: spec_fn(A) -> bool, make: spec_fn(A) -> B)
    requires
        s.no_duplicates(),
        forall|x: A, y: A| #[trigger] make(x) == #[trigger] make(y) ==> x == y,
    ensures
        picked(s, keep, make).no_duplicates(),
    decreases s.len(),
{
    if s.len() > 0 {
        let front = s.drop_last();
        let inner = picked(front, keep, make);
        assert(front.no_duplicates()) by {
            assert forall|i: int, j: int| 0 <= i < front.len() && 0 <= j < front.len() && i != j implies front[i]
                != front[j] by {
                assert(front[i] == s[i] && front[j] == s[j]);
            }
        }
        lemma_picked_distinct(front, keep, make);
        if keep(s.last()) {
            let v = make(s.last());
            if inner.contains(v) {
                lemma_picked_members(front, keep, make, v);
                let x = choose|x: A| front.contains(x) && keep(x) && #[trigger] make(x) == v;
                let m = choose|m: int| 0 <= m < front.len() && front[m] == x;
                assert(s[m] == s[s.len() - 1]);
                assert(false);
            }
            let out = inner.push(v);
            assert forall|i: int, j: int| 0 <= i < out.len() && 0 <= j < out.len() && i != j implies out[i]
                != out[j] by {
                if i < inner.len() && j < inner.len() {
                    assert(inner[i] != inner[j]);
                } else if i < inner.len() {
                    assert(inner.contains(inner[i]));
                } else {
                    assert(inner.contains(inner[j]));
                }
            }
        }
    }
}

/// An item with the key that it is ranked by.
pub struct Keyed<K, T> {
    pub key: K,
    pub item: T,
}

impl<K: Ranked, T> Ranked for Keyed<K, T> {
    open spec fn before(&self, other: &Self) -> bool {
        self.key.before(&other.key)
    }

    fn is_before(&self, other: &Self) -> (r: bool) {
        self.key.is_before(&other.key)
    }

    proof fn lemma_asymmetric(a: &Self, b: &Self) {
        K::lemma_asymmetric(&a.key, &b.key);
    }

    proof fn lemma_chain(a: &Self, b: &Self, c: &Self) {
        K::lemma_chain(&a.key, &b.key, &c.key);
    }
}

/// The items of a sequence of keyed items.
pub open spec fn items_of<K, T>(s: Seq<Keyed<K, T>>) -> Seq<T> {
    Seq::new(s.len(), |i: int| s[i].item)
}

/// The items without their keys.
pub fn strip_keys<K, T>(v: Vec<Keyed<K, T>>) -> (out: Vec<T>)
    ensures
        out@ == items_of(v@),
{
    broadcast use vstd::std_specs::vec::axiom_spec_into_iter;

    let ghost all = v@;
    let mut out: Vec<T> = Vec::new();
    for pair in it: v.into_iter()
        invariant
            it.seq() == all,
            out.len() == it.index(),
            forall|j: int| 0 <= j < it.index() ==> out@[j] == all[j].item,
    {
        out.push(pair.item);
    }
    assert(out@ =~= items_of(all));
    out
}

/// Sorts `v` in place, stably.
pub fn sort<T: Ranked>(v: &mut Vec<T>)
    ensures
        final(v)@ == sorted_seq(old(v)@),
{
    let ghost orig = v@;
    let mut i: usize = 0;
    assert(v@.take(0) =~= sorted_seq(orig.take(0)));
    while i < v.len()
        invariant
            i <= v.len(),
            v@.len() == orig.len(),
            v@.take(i as int) == sorted_seq(orig.take(i as int)),
            v@.skip(i as int) == orig.skip(i as int),
        decreases v.len() - i,
    {
        let ghost front = v@.take(i as int);
        let ghost rest = v@.skip(i as int + 1);
        assert(v@[i as int] == orig[i as int]) by {
            assert(v@.skip(i as int)[0] == orig.skip(i as int)[0]);
        }
        let x = v.remove(i);
        assert(v@ =~= front + rest);
        let mut pos: usize = i;
        while pos > 0 && x.is_before(&v[pos - 1])
            invariant
                pos <= i,
                i < orig.len(),
                v@ == front + rest,
                front.len() == i,
                forall|j: int| pos <= j < i ==> x.before(&#[trigger] front[j]),
            decreases pos,
        {
            pos -= 1;
        }
        v.insert(pos, x);
        proof {
            lemma_insert_position(front, x, pos as int);
            assert(v@.take(i as int + 1) =~= front.insert(pos as int, x));
            assert(orig.take(i as int + 1).drop_last() =~= orig.take(i as int));
            assert(v@.skip(i as int + 1) =~= rest);
            assert(rest =~= orig.skip(i as int + 1)) by {
                assert forall|k: int| 0 <= k < rest.len() implies rest[k] == orig.skip(i as int + 1)[k] by {
                    assert(orig.skip(i as int)[k + 1] == orig[i + 1 + k]);
                }
            }
        }
        i += 1;
    }
    assert(v@.take(i as int) =~= v@);
    assert(orig.take(i as int) =~= orig);
}

} // verus!
