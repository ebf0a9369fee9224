//! Stable ordering of records by an integer key.
use vstd::prelude::*;

verus! {

/// Records that are ordered by an integer key.
pub trait SortKey {
    /// The key that records are ordered by.
    spec fn sort_key(&self) -> int;

    /// Whether the key of `self` is at most the key of `other`.
    fn key_le(&self, other: &Self) -> (r: bool)
        ensures
            r == (self.sort_key() <= other.sort_key()),
    ;
}

/// Whether the keys of `s` never decrease.
pub open spec fn sorted_by_key<T: SortKey>(s: Seq<T>) -> bool {
    forall|i: int, j: int| 0 <= i <= j < s.len() ==> #[trigger] s[i].sort_key() <= #[trigger] s[j].sort_key()
}

/// The records of `s` whose key is `k`, in their order in `s`.
pub open spec fn with_key<T: SortKey>(s: Seq<T>, k: int) -> Seq<T> {
    s.filter(key_is::<T>(k))
}

/// The predicate "has key `k`".
pub open spec fn key_is<T: SortKey>(k: int) -> spec_fn(T) -> bool {
    |e: T| e.sort_key() == k
}

/// `out` holds the records of `inp` ordered by key, records of equal key
/// keeping their order in `inp`.
pub open spec fn stably_sorted<T: SortKey>(out: Seq<T>, inp: Seq<T>) -> bool {
    &&& sorted_by_key(out)
    &&& forall|k: int| #[trigger] with_key(out, k) == with_key(inp, k)
}

proof fn lemma_with_key_none<T: SortKey>(s: Seq<T>, k: int)
    requires
        forall|i: int| 0 <= i < s.len() ==> #[trigger] s[i].sort_key() != k,
    ensures
        with_key(s, k) == Seq::<T>::empty(),
    decreases s.len(),
{
    reveal(Seq::filter);
    if s.len() > 0 {
        let t = s.drop_last();
        assert forall|i: int| 0 <= i < t.len() implies #[trigger] t[i].sort_key() != k by {
            assert(t[i] == s[i]);
        }
        lemma_with_key_none(t, k);
        assert(s.last().sort_key() != k);
    }
}

proof fn lemma_with_key_single<T: SortKey>(x: T, k: int)
    ensures
        with_key(seq![x], k) == (if x.sort_key() == k {
            seq![x]
        } else {
            Seq::<T>::empty()
        }),
{
    reveal_with_fuel(Seq::filter, 2);
    assert(seq![x].drop_last() =~= Seq::<T>::empty());
}

proof fn lemma_with_key_push<T: SortKey>(s: Seq<T>, x: T, k: int)
    ensures
        with_key(s.push(x), k) == (if x.sort_key() == k {
            with_key(s, k).push(x)
        } else {
            with_key(s, k)
        }),
{
    reveal(Seq::filter);
    assert(s.push(x).drop_last() =~= s);
}

/// Inserting `x` just after the records whose key is at most its own keeps
/// the order and stability invariant of `stable_sort`.
proof fn lemma_insert_step<T: SortKey>(r: Seq<T>, p: int, x: T, prefix: Seq<T>)
    requires
        0 <= p <= r.len(),
        sorted_by_key(r),
        forall|j: int| 0 <= j < p ==> #[trigger] r[j].sort_key() <= x.sort_key(),
        forall|j: int| p <= j < r.len() ==> #[trigger] r[j].sort_key() > x.sort_key(),
        forall|k: int| #[trigger] with_key(r, k) == with_key(prefix, k),
    ensures
        sorted_by_key(r.insert(p, x)),
        forall|k: int| #[trigger] with_key(r.insert(p, x), k) == with_key(prefix.push(x), k),
{
    let out = r.insert(p, x);
    let left = r.subrange(0, p);
    let right = r.subrange(p, r.len() as int);
    assert(out =~= left + seq![x] + right);
    assert(r =~= left + right);
    assert forall|i: int, j: int| 0 <= i <= j < out.len() implies #[trigger] out[i].sort_key()
        <= #[trigger] out[j].sort_key() by {
        if i < p && j < p {
            assert(out[i] == r[i] && out[j] == r[j]);
        } else if i < p && j == p {
            assert(out[i] == r[i]);
        } else if i < p {
            assert(out[i] == r[i] && out[j] == r[j - 1]);
        } else if i == p && j > p {
            assert(out[j] == r[j - 1]);
        } else if i > p {
            assert(out[i] == r[i - 1] && out[j] == r[j - 1]);
        }
    }
    assert forall|k: int| #[trigger] with_key(out, k) == with_key(prefix.push(x), k) by {
        let pred = key_is::<T>(k);
        Seq::filter_distributes_over_add(left + seq![x], right, pred);
        Seq::filter_distributes_over_add(left, seq![x], pred);
        Seq::filter_distributes_over_add(left, right, pred);
        lemma_with_key_single(x, k);
        lemma_with_key_push(prefix, x, k);
        if x.sort_key() == k {
            assert forall|i: int| 0 <= i < right.len() implies #[trigger] right[i].sort_key() != k by {
                assert(right[i] == r[p + i]);
            }
            lemma_with_key_none(right, k);
            assert(with_key(seq![x], k) == seq![x]);
            assert(with_key(left + seq![x], k) == with_key(left, k) + seq![x]);
            assert(with_key(out, k) == with_key(left, k) + seq![x] + Seq::<T>::empty());
            assert(with_key(out, k) =~= with_key(left, k).push(x));
            assert(with_key(r, k) =~= with_key(left, k));
            assert(with_key(r, k) == with_key(prefix, k));
            assert(with_key(prefix.push(x), k) == with_key(prefix, k).push(x));
        } else {
            assert(with_key(seq![x], k) == Seq::<T>::empty());
            assert(with_key(left + seq![x], k) =~= with_key(left, k));
            assert(with_key(out, k) =~= with_key(left, k) + with_key(right, k));
            assert(with_key(r, k) == with_key(left, k) + with_key(right, k));
            assert(with_key(r, k) == with_key(prefix, k));
            assert(with_key(prefix.push(x), k) == with_key(prefix, k));
        }
    }
}

proof fn lemma_contains_via_key<T: SortKey>(s: Seq<T>, x: T)
    ensures
        s.contains(x) <==> with_key(s, x.sort_key()).contains(x),
    decreases s.len(),
{
    reveal(Seq::filter);
    if s.len() > 0 {
        let d = s.drop_last();
        lemma_contains_via_key(d, x);
        assert(s == d.push(s.last()));
        if s.contains(x) {
            let i = choose|i: int| 0 <= i < s.len() && s[i] == x;
            if i < s.len() - 1 {
                assert(d[i] == x);
                let f = with_key(d, x.sort_key());
                let j = choose|j: int| 0 <= j < f.len() && f[j] == x;
                if key_is::<T>(x.sort_key())(s.last()) {
                    assert(with_key(s, x.sort_key())[j] == x);
                } else {
                    assert(with_key(s, x.sort_key()) == f);
                }
            } else {
                assert(s.last() == x);
                assert(key_is::<T>(x.sort_key())(s.last()));
                let f = with_key(s, x.sort_key());
                assert(f[f.len() - 1] == x);
            }
        }
        if with_key(s, x.sort_key()).contains(x) {
            let f = with_key(s, x.sort_key());
            let j = choose|j: int| 0 <= j < f.len() && f[j] == x;
            if key_is::<T>(x.sort_key())(s.last()) && j == f.len() - 1 {
                assert(s[s.len() - 1] == x);
            } else if key_is::<T>(x.sort_key())(s.last()) {
                assert(with_key(d, x.sort_key())[j] == x);
                let i = choose|i: int| 0 <= i < d.len() && d[i] == x;
                assert(s[i] == x);
            } else {
                assert(with_key(d, x.sort_key())[j] == x);
                let i = choose|i: int| 0 <= i < d.len() && d[i] == x;
                assert(s[i] == x);
            }
        }
    }
}

/// Sorting neither loses nor invents records: the sorted records are
/// exactly those of the input.
pub proof fn lemma_stably_sorted_same_records<T: SortKey>(out: Seq<T>, inp: Seq<T>, x: T)
    requires
        stably_sorted(out, inp),
    ensures
        out.contains(x) <==> inp.contains(x),
{
    lemma_contains_via_key(out, x);
    lemma_contains_via_key(inp, x);
    assert(with_key(out, x.sort_key()) == with_key(inp, x.sort_key()));
}

proof fn lemma_sorted_drop_last<T: SortKey>(s: Seq<T>)
    requires
        sorted_by_key(s),
        s.len() > 0,
    ensures
        sorted_by_key(s.drop_last()),
        forall|i: int| 0 <= i < s.len() ==> #[trigger] s[i].sort_key() <= s.last().sort_key(),
{
    let d = s.drop_last();
    assert forall|i: int, j: int| 0 <= i <= j < d.len() implies #[trigger] d[i].sort_key() <= #[trigger] d[j].sort_key() by {
        assert(d[i] == s[i] && d[j] == s[j]);
    }
    assert forall|i: int| 0 <= i < s.len() implies #[trigger] s[i].sort_key() <= s.last().sort_key() by {
        assert(s.last() == s[s.len() - 1]);
    }
}

/// Sorting is a function: there is only one stably sorted arrangement of
/// any sequence of records.
pub proof fn lemma_stably_sorted_unique<T: SortKey>(a: Seq<T>, b: Seq<T>, inp: Seq<T>)
    requires
        stably_sorted(a, inp),
        stably_sorted(b, inp),
    ensures
        a == b,
{
    assert forall|k: int| #[trigger] with_key(a, k) == with_key(b, k) by {
        assert(with_key(a, k) == with_key(inp, k));
        assert(with_key(b, k) == with_key(inp, k));
    }
    lemma_same_keys_sorted_equal(a, b);
}

proof fn lemma_same_keys_sorted_equal<T: SortKey>(a: Seq<T>, b: Seq<T>)
    requires
        sorted_by_key(a),
        sorted_by_key(b),
        forall|k: int| #[trigger] with_key(a, k) == with_key(b, k),
    ensures
        a == b,
    decreases a.len() + b.len(),
{
    if a.len() == 0 && b.len() == 0 {
        assert(a =~= b);
    } else if a.len() == 0 {
        let x = b[0];
        lemma_contains_via_key(b, x);
        lemma_contains_via_key(a, x);
        assert(b.contains(x));
        assert(with_key(a, x.sort_key()) == with_key(b, x.sort_key()));
    } else if b.len() == 0 {
        let x = a[0];
        lemma_contains_via_key(b, x);
        lemma_contains_via_key(a, x);
        assert(a.contains(x));
        assert(with_key(a, x.sort_key()) == with_key(b, x.sort_key()));
    } else {
        let x = a.last();
        let y = b.last();
        lemma_sorted_drop_last(a);
        lemma_sorted_drop_last(b);
        let da = a.drop_last();
        let db = b.drop_last();
        assert(a == da.push(x));
        assert(b == db.push(y));
        // The largest keys agree.
        lemma_contains_via_key(a, y);
        lemma_contains_via_key(b, y);
        lemma_contains_via_key(a, x);
        lemma_contains_via_key(b, x);
        assert(a.contains(x)) by {
            assert(a[a.len() - 1] == x);
        }
        assert(b.contains(y)) by {
            assert(b[b.len() - 1] == y);
        }
        assert(with_key(a, x.sort_key()) == with_key(b, x.sort_key()));
        assert(with_key(a, y.sort_key()) == with_key(b, y.sort_key()));
        let j = choose|j: int| 0 <= j < b.len() && b[j] == x;
        let i = choose|i: int| 0 <= i < a.len() && a[i] == y;
        assert(x.sort_key() <= y.sort_key());
        assert(y.sort_key() <= x.sort_key());
        let m = x.sort_key();
        lemma_with_key_push(da, x, m);
        lemma_with_key_push(db, y, m);
        assert(x == y) by {
            assert(y.sort_key() == m);
            assert(with_key(a, m) == with_key(da, m).push(x));
            assert(with_key(b, m) == with_key(db, m).push(y));
            assert(with_key(a, m).last() == x);
            assert(with_key(b, m).last() == y);
        }
        assert forall|k: int| #[trigger] with_key(da, k) == with_key(db, k) by {
            lemma_with_key_push(da, x, k);
            lemma_with_key_push(db, y, k);
            if k == m {
                assert(with_key(da, k) == with_key(a, k).drop_last());
                assert(with_key(db, k) == with_key(b, k).drop_last());
            } else {
                assert(with_key(da, k) == with_key(a, k));
                assert(with_key(db, k) == with_key(b, k));
            }
        }
        lemma_same_keys_sorted_equal(da, db);
    }
}

/// The records of `v` ordered by key; records of equal key keep their order
/// (std's `sort_by_key`, which is stable).
pub fn stable_sort<T: SortKey>(v: Vec<T>) -> (r: Vec<T>)
    ensures
        stably_sorted(r@, v@),
        r@.len() == v@.len(),
{
    let ghost orig = v@;
    let mut rest = v;
    let mut stack: Vec<T> = Vec::new();
    // Move the records onto a stack, so that popping it yields them in order.
    while rest.len() > 0
        invariant
            rest@ + stack@.reverse() == orig,
        decreases rest@.len(),
    {
        let x = rest.pop().unwrap();
        proof {
            assert(stack@.push(x).reverse() =~= seq![x] + stack@.reverse());
        }
        stack.push(x);
        assert(rest@ + stack@.reverse() =~= orig);
    }
    assert(stack@.reverse() =~= orig);
    let mut r: Vec<T> = Vec::new();
    let ghost mut done: Seq<T> = Seq::empty();
    proof {
        assert forall|k: int| #[trigger] with_key(r@, k) == with_key(done, k) by {
            assert(r@ =~= done);
        }
    }
    while stack.len() > 0
        invariant
            done + stack@.reverse() == orig,
            sorted_by_key(r@),
            r@.len() == done.len(),
            forall|k: int| #[trigger] with_key(r@, k) == with_key(done, k),
        decreases stack@.len(),
    {
        let ghost old_stack = stack@;
        let x = stack.pop().unwrap();
        let mut p: usize = r.len();
        while p > 0 && !r[p - 1].key_le(&x)
            invariant
                p <= r@.len(),
                sorted_by_key(r@),
                forall|j: int| p <= j < r@.len() ==> #[trigger] r@[j].sort_key() > x.sort_key(),
            decreases p,
        {
            p = p - 1;
        }
        proof {
            assert forall|j: int| 0 <= j < p implies #[trigger] r@[j].sort_key() <= x.sort_key() by {
                assert(r@[j].sort_key() <= r@[p - 1].sort_key());
            }
            lemma_insert_step(r@, p as int, x, done);
            assert(old_stack.reverse() =~= seq![x] + stack@.reverse());
            assert(done.push(x) + stack@.reverse() =~= done + old_stack.reverse());
            done = done.push(x);
        }
        r.insert(p, x);
    }
    assert(done =~= orig);
    r
}

} // verus!
