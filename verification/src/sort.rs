use vstd::prelude::*;

verus! {

/// Items that are ordered by an integer key.
pub trait SortKey {
    spec fn key(&self) -> int;

    fn sort_key(&self) -> (k: i64)
        ensures
            k == self.key(),
    ;
}

/// The predicate "has key `k`".
pub open spec fn key_is<T: SortKey>(k: int) -> spec_fn(T) -> bool {
    |x: T| x.key() == k
}

/// The keys of `s` never decrease.
pub open spec fn sorted_by_key<T: SortKey>(s: Seq<T>) -> bool {
    forall|i: int, j: int| 0 <= i <= j < s.len() ==> #[trigger] s[i].key() <= #[trigger] s[j].key()
}

/// For every key, `a` and `b` hold the same items with that key, in the
/// same order.
pub open spec fn same_order_per_key<T: SortKey>(a: Seq<T>, b: Seq<T>) -> bool {
    forall|k: int| #[trigger] a.filter(key_is::<T>(k)) == b.filter(key_is::<T>(k))
}

/// `r` is `s` sorted by key, with items of equal key kept in their
/// input order (a stable sort).
pub open spec fn is_stable_sort_of<T: SortKey>(r: Seq<T>, s: Seq<T>) -> bool {
    &&& r.len() == s.len()
    &&& sorted_by_key(r)
    &&& same_order_per_key(r, s)
}

proof fn lemma_filter_singleton<T>(x: T, p: spec_fn(T) -> bool)
    ensures
        seq![x].filter(p) == (if p(x) { seq![x] } else { Seq::<T>::empty() }),
{
    reveal(Seq::filter);
    assert(seq![x].drop_last() =~= Seq::<T>::empty());
    assert(Seq::<T>::empty().filter(p) =~= Seq::<T>::empty());
    assert(Seq::<T>::empty().push(x) =~= seq![x]);
}

/// Inserting `x` after every item of key at most `x.key()` and before every
/// item of greater key extends a stable sort by `x`.
proof fn lemma_insert_stable<T: SortKey>(prefix: Seq<T>, orig: Seq<T>, x: T, pos: int)
    requires
        is_stable_sort_of(prefix, orig),
        0 <= pos <= prefix.len(),
        forall|j: int| 0 <= j < pos ==> #[trigger] prefix[j].key() <= x.key(),
        forall|j: int| pos <= j < prefix.len() ==> #[trigger] prefix[j].key() > x.key(),
    ensures
        is_stable_sort_of(prefix.insert(pos, x), orig.push(x)),
{
    let ins = prefix.insert(pos, x);
    let front = prefix.take(pos);
    let back = prefix.skip(pos);
    assert(ins =~= front + seq![x] + back);
    assert(prefix =~= front + back);
    assert forall|i: int, j: int| 0 <= i <= j < ins.len() implies #[trigger] ins[i].key() <= #[trigger] ins[j].key() by {
        if j < pos {
            assert(ins[i] == prefix[i] && ins[j] == prefix[j]);
        } else if j == pos {
            if i < pos {
                assert(ins[i] == prefix[i]);
            }
        } else {
            assert(ins[j] == prefix[j - 1]);
            if i < pos {
                assert(ins[i] == prefix[i]);
            } else if i > pos {
                assert(ins[i] == prefix[i - 1]);
            }
        }
    }
    assert forall|k: int| #[trigger] ins.filter(key_is::<T>(k)) == orig.push(x).filter(key_is::<T>(k)) by {
        let p = key_is::<T>(k);
        Seq::filter_distributes_over_add(front + seq![x], back, p);
        Seq::filter_distributes_over_add(front, seq![x], p);
        Seq::filter_distributes_over_add(front, back, p);
        lemma_filter_singleton(x, p);
        orig.lemma_filter_push(x, p);
        assert(prefix.filter(p) == orig.filter(p));
        if k == x.key() {
            assert(back.all(|y: T| !p(y))) by {
                assert forall|j: int| 0 <= j < back.len() implies !p(#[trigger] back[j]) by {
                    assert(back[j] == prefix[pos + j]);
                }
            }
            back.lemma_all_neg_filter_empty(p);
            assert(back.filter(p) =~= Seq::<T>::empty());
            assert(ins.filter(p) =~= front.filter(p) + seq![x]);
            assert(prefix.filter(p) =~= front.filter(p));
            assert(orig.push(x).filter(p) =~= orig.filter(p).push(x));
        } else {
            assert(ins.filter(p) =~= front.filter(p) + back.filter(p));
        }
    }
}

/// Sorts `v` by key, keeping items of equal key in their input order
/// (as `slice::sort_by_key` does).
pub fn stable_sort_by_key<T: SortKey>(v: &mut Vec<T>)
    ensures
        is_stable_sort_of(final(v)@, old(v)@),
{
    let ghost orig = v@;
    let n = v.len();
    let mut i: usize = 0;
    while i < n
        invariant
            n == orig.len(),
            v@.len() == n,
            i <= n,
            is_stable_sort_of(v@.take(i as int), orig.take(i as int)),
            v@.skip(i as int) == orig.skip(i as int),
        decreases n - i,
    {
        let ghost prefix = v@.take(i as int);
        assert(v@[i as int] == orig[i as int]) by {
            assert(v@.skip(i as int)[0] == orig.skip(i as int)[0]);
        }
        let ghost before = v@;
        assert(before.subrange(i + 1, n as int) =~= orig.skip(i + 1)) by {
            assert forall|j: int| 0 <= j < n - i - 1 implies
                #[trigger] before.subrange(i + 1, n as int)[j] == orig.skip(i + 1)[j] by {
                assert(before.skip(i as int)[j + 1] == orig.skip(i as int)[j + 1]);
            }
        }
        let x = v.remove(i);
        let xk = x.sort_key();
        assert(v@ =~= prefix + orig.skip(i + 1));
        let mut pos: usize = i;
        while pos > 0 && v[pos - 1].sort_key() > xk
            invariant
                pos <= i,
                i < n,
                v@ == prefix + orig.skip(i + 1),
                prefix.len() == i,
                xk == x.key(),
                forall|j: int| pos <= j < i ==> #[trigger] prefix[j].key() > x.key(),
            decreases pos,
        {
            pos = pos - 1;
        }
        proof {
            assert(sorted_by_key(prefix));
            assert forall|j: int| 0 <= j < pos implies #[trigger] prefix[j].key() <= x.key() by {
                if pos > 0 {
                    assert(v@[pos - 1] == prefix[pos - 1]);
                    assert(prefix[j].key() <= prefix[pos - 1].key());
                }
            }
            lemma_insert_stable(prefix, orig.take(i as int), x, pos as int);
            assert(orig.take(i as int).push(x) =~= orig.take(i + 1));
        }
        v.insert(pos, x);
        assert(v@.take(i + 1) =~= prefix.insert(pos as int, x));
        assert(v@.skip(i + 1) =~= orig.skip(i + 1));
        i = i + 1;
    }
    assert(v@.take(n as int) =~= v@);
    assert(orig.take(n as int) =~= orig);
}

/// A stable sort of a sequence that is already sorted gives that sequence
/// back.
pub proof fn lemma_stable_sort_of_sorted<T: SortKey>(r: Seq<T>, s: Seq<T>)
    requires
        is_stable_sort_of(r, s),
        sorted_by_key(s),
    ensures
        r == s,
    decreases s.len(),
{
    if s.len() == 0 {
        assert(r =~= s);
    } else {
        let n = s.len() - 1;
        let x = s[n];
        let y = r[n];
        let rs = r.drop_last();
        let ss = s.drop_last();
        assert(ss.push(x) =~= s);
        assert(rs.push(y) =~= r);
        let k = x.key();
        let p = key_is::<T>(k);
        // y's key is at most k: y is an item of s, whose keys are at most k.
        let ky = y.key();
        let py = key_is::<T>(ky);
        r.lemma_filter_contains(py, n);
        assert(r.filter(py) == s.filter(py));
        s.lemma_filter_contains_rev(py, y);
        let iy = choose|i: int| 0 <= i < s.len() && s[i] == y;
        assert(s[iy].key() <= s[n].key());
        // y's key is at least k: x is an item of r, and y comes last in r.
        s.lemma_filter_contains(p, n);
        assert(r.filter(p) == s.filter(p));
        r.lemma_filter_contains_rev(p, x);
        let ix = choose|i: int| 0 <= i < r.len() && r[i] == x;
        assert(r[ix].key() <= r[n].key());
        assert(ky == k);
        ss.lemma_filter_push(x, p);
        rs.lemma_filter_push(y, p);
        assert(r.filter(p).last() == y);
        assert(s.filter(p).last() == x);
        assert(y == x);
        assert forall|k2: int| #[trigger] rs.filter(key_is::<T>(k2)) == ss.filter(key_is::<T>(k2)) by {
            let q = key_is::<T>(k2);
            ss.lemma_filter_push(x, q);
            rs.lemma_filter_push(y, q);
            assert(r.filter(q) == s.filter(q));
            if q(x) {
                assert(rs.filter(q) =~= r.filter(q).drop_last());
                assert(ss.filter(q) =~= s.filter(q).drop_last());
            }
        }
        assert(sorted_by_key(rs)) by {
            assert forall|i: int, j: int| 0 <= i <= j < rs.len() implies #[trigger] rs[i].key() <= #[trigger] rs[j].key() by {
                assert(rs[i] == r[i] && rs[j] == r[j]);
            }
        }
        assert(sorted_by_key(ss)) by {
            assert forall|i: int, j: int| 0 <= i <= j < ss.len() implies #[trigger] ss[i].key() <= #[trigger] ss[j].key() by {
                assert(ss[i] == s[i] && ss[j] == s[j]);
            }
        }
        lemma_stable_sort_of_sorted(rs, ss);
    }
}

} // verus!
