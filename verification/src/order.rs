//! Orders: stable insertion sorting, stated over a relation `after(a, b)`
//! ("`a` belongs after `b`"), where elements that neither belongs after keep
//! their order; and the code point order of texts.
use vstd::prelude::*;

verus! {

/// `e` inserted into `s` after every element that it does not belong before.
pub open spec fn insert_sorted<T>(s: Seq<T>, e: T, after: spec_fn(T, T) -> bool) -> Seq<T>
    decreases s.len(),
{
    if s.len() == 0 {
        seq![e]
    } else if !after(s.last(), e) {
        s.push(e)
    } else {
        insert_sorted(s.drop_last(), e, after).push(s.last())
    }
}

/// `s` sorted stably by `after`: each element inserted in turn.
pub open spec fn insertion_sorted<T>(s: Seq<T>, after: spec_fn(T, T) -> bool) -> Seq<T>
    decreases s.len(),
{
    if s.len() == 0 {
        s
    } else {
        insert_sorted(insertion_sorted(s.drop_last(), after), s.last(), after)
    }
}

/// `after` orders: no element belongs after one that belongs after it, and
/// "not after" is transitive.
pub open spec fn is_ordering<T>(after: spec_fn(T, T) -> bool) -> bool {
    &&& forall|a: T, b: T| #[trigger] after(a, b) ==> !after(b, a)
    &&& forall|a: T, b: T, c: T|
        !after(a, b) && !after(b, c) ==> !(#[trigger] after(a, c)) || #[trigger] after(a, b)
            || #[trigger] after(b, c)
}

/// No element of `s` belongs after a later one.
pub open spec fn is_sorted_by<T>(s: Seq<T>, after: spec_fn(T, T) -> bool) -> bool {
    forall|i: int, j: int| 0 <= i < j < s.len() ==> !after(#[trigger] s[i], #[trigger] s[j])
}

/// Inserting after the last element that `e` does not belong before: `p`
/// is where `e` lands.
pub proof fn lemma_insert_at<T>(s: Seq<T>, e: T, p: int, after: spec_fn(T, T) -> bool)
    requires
        0 <= p <= s.len(),
        forall|k: int| p <= k < s.len() ==> after(#[trigger] s[k], e),
        p == 0 || !after(s[p - 1], e),
    ensures
        insert_sorted(s, e, after) == s.take(p).push(e) + s.skip(p),
    decreases s.len(),
{
    if s.len() == 0 {
        assert(s.take(p).push(e) + s.skip(p) =~= seq![e]);
    } else if p == s.len() {
        assert(s.take(p).push(e) + s.skip(p) =~= s.push(e));
    } else {
        let t = s.drop_last();
        assert forall|k: int| p <= k < t.len() implies after(#[trigger] t[k], e) by {
            assert(t[k] == s[k]);
        }
        lemma_insert_at(t, e, p, after);
        assert(s.take(p).push(e) + s.skip(p) =~= (t.take(p).push(e) + t.skip(p)).push(s.last()));
    }
}

/// Insertion keeps the elements: it adds `e` to those of `s`.
pub proof fn lemma_insert_multiset<T>(s: Seq<T>, e: T, after: spec_fn(T, T) -> bool)
    ensures
        insert_sorted(s, e, after).to_multiset() == s.to_multiset().insert(e),
    decreases s.len(),
{
    broadcast use vstd::seq_lib::group_to_multiset_ensures;

    if s.len() == 0 {
        assert(seq![e] =~= Seq::<T>::empty().push(e));
    } else if !after(s.last(), e) {
    } else {
        lemma_insert_multiset(s.drop_last(), e, after);
        assert(s =~= s.drop_last().push(s.last()));
        assert(s.drop_last().to_multiset().insert(e).insert(s.last()) =~= s.drop_last().to_multiset().insert(
            s.last(),
        ).insert(e));
    }
}

/// Sorting keeps the elements: the result is a permutation of the input.
pub proof fn lemma_sorted_permutation<T>(s: Seq<T>, after: spec_fn(T, T) -> bool)
    ensures
        insertion_sorted(s, after).to_multiset() == s.to_multiset(),
        insertion_sorted(s, after).len() == s.len(),
    decreases s.len(),
{
    broadcast use vstd::seq_lib::group_to_multiset_ensures;

    if s.len() > 0 {
        lemma_sorted_permutation(s.drop_last(), after);
        lemma_insert_multiset(insertion_sorted(s.drop_last(), after), s.last(), after);
        assert(s =~= s.drop_last().push(s.last()));
        assert(insertion_sorted(s, after).len() == insertion_sorted(s, after).to_multiset().len());
    }
}

/// Inserting into a sorted sequence keeps it sorted.
pub proof fn lemma_insert_keeps_sorted<T>(s: Seq<T>, e: T, after: spec_fn(T, T) -> bool)
    requires
        is_ordering(after),
        is_sorted_by(s, after),
    ensures
        is_sorted_by(insert_sorted(s, e, after), after),
        insert_sorted(s, e, after).len() == s.len() + 1,
    decreases s.len(),
{
    if s.len() == 0 {
    } else if !after(s.last(), e) {
        let r = s.push(e);
        assert forall|i: int, j: int| 0 <= i < j < r.len() implies !after(
            #[trigger] r[i],
            #[trigger] r[j],
        ) by {
            if j == s.len() {
                if i < s.len() - 1 {
                    assert(!after(s[i], s.last()));
                    assert(!after(s[i], e) || after(s[i], s.last()) || after(s.last(), e));
                }
            } else {
                assert(r[i] == s[i] && r[j] == s[j]);
            }
        }
    } else {
        let t = s.drop_last();
        assert(is_sorted_by(t, after)) by {
            assert forall|i: int, j: int| 0 <= i < j < t.len() implies !after(
                #[trigger] t[i],
                #[trigger] t[j],
            ) by {
                assert(t[i] == s[i] && t[j] == s[j]);
            }
        }
        lemma_insert_keeps_sorted(t, e, after);
        let u = insert_sorted(t, e, after);
        let r = u.push(s.last());
        lemma_insert_multiset(t, e, after);
        assert forall|i: int, j: int| 0 <= i < j < r.len() implies !after(
            #[trigger] r[i],
            #[trigger] r[j],
        ) by {
            if j == u.len() {
                // Every element of `u` is `e` or an element of `t`.
                let x = u[i];
                assert(u.to_multiset().count(x) > 0) by {
                    broadcast use vstd::seq_lib::group_to_multiset_ensures;

                    assert(u.contains(x));
                }
                assert(t.to_multiset().insert(e).count(x) > 0);
                if x == e {
                    assert(after(s.last(), e));
                } else {
                    assert(t.to_multiset().count(x) > 0);
                    assert(t.contains(x)) by {
                        broadcast use vstd::seq_lib::group_to_multiset_ensures;

                    }
                    let k = choose|k: int| 0 <= k < t.len() && t[k] == x;
                    assert(s[k] == x);
                    assert(!after(s[k], s[s.len() - 1]));
                }
            } else {
                assert(r[i] == u[i] && r[j] == u[j]);
            }
        }
    }
}

/// Sorting sorts: no element of the result belongs after a later one.
pub proof fn lemma_sorted_is_sorted<T>(s: Seq<T>, after: spec_fn(T, T) -> bool)
    requires
        is_ordering(after),
    ensures
        is_sorted_by(insertion_sorted(s, after), after),
    decreases s.len(),
{
    if s.len() > 0 {
        lemma_sorted_is_sorted(s.drop_last(), after);
        lemma_insert_keeps_sorted(insertion_sorted(s.drop_last(), after), s.last(), after);
    }
}

/// `a` comes before `b` in code point order (the order of `String`s, since
/// UTF-8 keeps code point order byte by byte).
pub open spec fn text_before(a: Seq<char>, b: Seq<char>) -> bool
    decreases a.len(),
{
    if a.len() == 0 {
        b.len() > 0
    } else if b.len() == 0 {
        false
    } else if a[0] != b[0] {
        a[0] < b[0]
    } else {
        text_before(a.drop_first(), b.drop_first())
    }
}

/// No text comes before itself, and of two texts at most one comes first.
pub proof fn lemma_text_before_asymmetric(a: Seq<char>, b: Seq<char>)
    ensures
        text_before(a, b) ==> !text_before(b, a),
    decreases a.len(),
{
    if a.len() > 0 && b.len() > 0 && a[0] == b[0] {
        lemma_text_before_asymmetric(a.drop_first(), b.drop_first());
    }
}

/// Of two different texts one comes before the other.
pub proof fn lemma_text_before_total(a: Seq<char>, b: Seq<char>)
    ensures
        a != b ==> text_before(a, b) || text_before(b, a),
    decreases a.len(),
{
    if a.len() > 0 && b.len() > 0 && a[0] == b[0] {
        let (ta, tb) = (a.drop_first(), b.drop_first());
        lemma_text_before_total(ta, tb);
        if ta == tb {
            assert forall|i: int| 0 <= i < a.len() implies a[i] == b[i] by {
                if i > 0 {
                    assert(a[i] == ta[i - 1] && b[i] == tb[i - 1]);
                }
            }
            assert(a =~= b);
        } else {
            assert(text_before(a, b) == text_before(ta, tb));
            assert(text_before(b, a) == text_before(tb, ta));
        }
    } else if a.len() == 0 && b.len() == 0 {
        assert(a =~= b);
    }
}

/// Coming before is transitive.
pub proof fn lemma_text_before_transitive(a: Seq<char>, b: Seq<char>, c: Seq<char>)
    ensures
        text_before(a, b) && text_before(b, c) ==> text_before(a, c),
    decreases a.len(),
{
    if a.len() > 0 && b.len() > 0 && c.len() > 0 && a[0] == b[0] && b[0] == c[0] {
        lemma_text_before_transitive(a.drop_first(), b.drop_first(), c.drop_first());
    }
}

/// Whether text `a` comes before text `b`.
pub fn chars_before(a: &[char], b: &[char]) -> (r: bool)
    ensures
        r == text_before(a@, b@),
{
    let mut i: usize = 0;
    assert(a@.skip(0) =~= a@);
    assert(b@.skip(0) =~= b@);
    while i < a.len() && i < b.len()
        invariant
            i <= a@.len() && i <= b@.len(),
            text_before(a@, b@) == text_before(a@.skip(i as int), b@.skip(i as int)),
        decreases a@.len() - i,
    {
        let ghost sa = a@.skip(i as int);
        let ghost sb = b@.skip(i as int);
        if a[i] != b[i] {
            assert(sa[0] == a@[i as int] && sb[0] == b@[i as int]);
            return a[i] < b[i];
        }
        assert(sa.drop_first() =~= a@.skip(i + 1));
        assert(sb.drop_first() =~= b@.skip(i + 1));
        i = i + 1;
    }
    i == a.len() && i < b.len()
}

/// After an insertion at `j`, the elements past `j` are those that were one
/// place earlier.
pub proof fn lemma_insert_shift<A>(s: Seq<A>, j: int, x: A, b: int)
    requires
        0 <= j <= s.len(),
        j < b <= s.len(),
    ensures
        s.insert(j, x)[b] == s[b - 1],
{
    let front = s.subrange(0, j).push(x);
    let back = s.subrange(j, s.len() as int);
    assert(s.insert(j, x) == front + back);
    assert((front + back)[b] == back[b - front.len()]);
    assert(back[b - front.len()] == s[b - 1]);
}

} // verus!
