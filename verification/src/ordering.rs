//! Ordering texts the way `str`'s `Ord` does (by character code, then by length), and the
//! stable sort of items by a text key.
use vstd::prelude::*;

verus! {

/// `a` sorts before `b`: at their first difference `a` has the smaller character, or `a` is
/// a proper prefix of `b`.
pub open spec fn text_less(a: Seq<char>, b: Seq<char>) -> bool
    decreases a.len(),
{
    if a.len() == 0 {
        b.len() > 0
    } else if b.len() == 0 {
        false
    } else if a[0] != b[0] {
        a[0] < b[0]
    } else {
        text_less(a.drop_first(), b.drop_first())
    }
}

/// No text comes before itself.
pub proof fn lemma_text_less_irreflexive(a: Seq<char>)
    ensures
        !text_less(a, a),
    decreases a.len(),
{
    if a.len() > 0 {
        lemma_text_less_irreflexive(a.drop_first());
    }
}

/// Of two different texts exactly one comes first.
pub proof fn lemma_text_less_total(a: Seq<char>, b: Seq<char>)
    ensures
        text_less(a, b) || text_less(b, a) || a == b,
        !(text_less(a, b) && text_less(b, a)),
    decreases a.len(),
{
    if a.len() > 0 && b.len() > 0 {
        if a[0] == b[0] {
            lemma_text_less_total(a.drop_first(), b.drop_first());
            if a.drop_first() == b.drop_first() {
                assert(a =~= seq![a[0]] + a.drop_first());
                assert(b =~= seq![b[0]] + b.drop_first());
            }
        } else {
        }
    } else if a.len() == 0 && b.len() == 0 {
        assert(a =~= b);
    }
}

/// The order of texts is transitive.
pub proof fn lemma_text_less_transitive(a: Seq<char>, b: Seq<char>, c: Seq<char>)
    requires
        text_less(a, b),
        text_less(b, c),
    ensures
        text_less(a, c),
    decreases a.len(),
{
    if a.len() > 0 && b.len() > 0 && c.len() > 0 {
        if a[0] == b[0] && b[0] == c[0] {
            lemma_text_less_transitive(a.drop_first(), b.drop_first(), c.drop_first());
        }
    }
}

/// Item `i` with key `keys[i]` comes before item `j` in a stable sort.
pub open spec fn sorts_before(keys: Seq<Seq<char>>, i: int, j: int) -> bool {
    text_less(keys[i], keys[j]) || (keys[i] == keys[j] && i < j)
}

/// `order` lists every position once, by ascending key, equal keys in their original order.
pub open spec fn is_text_order(order: Seq<int>, keys: Seq<Seq<char>>) -> bool {
    &&& order.len() == keys.len()
    &&& forall|k: int| 0 <= k < order.len() ==> 0 <= #[trigger] order[k] < keys.len()
    &&& forall|j: int| 0 <= j < keys.len() ==> #[trigger] order.contains(j)
    &&& forall|k: int, l: int| 0 <= k < l < order.len() ==> sorts_before(keys, order[k], order[l])
}

proof fn lemma_sorts_before_facts(keys: Seq<Seq<char>>, i: int, j: int, m: int)
    ensures
        !sorts_before(keys, i, i),
        i != j ==> (sorts_before(keys, i, j) || sorts_before(keys, j, i)),
        !(sorts_before(keys, i, j) && sorts_before(keys, j, i)),
        sorts_before(keys, i, j) && sorts_before(keys, j, m) ==> sorts_before(keys, i, m),
{
    lemma_text_less_irreflexive(keys[i]);
    lemma_text_less_total(keys[i], keys[j]);
    lemma_text_less_total(keys[j], keys[m]);
    lemma_text_less_total(keys[i], keys[m]);
    if text_less(keys[i], keys[j]) && text_less(keys[j], keys[m]) {
        lemma_text_less_transitive(keys[i], keys[j], keys[m]);
    }
}

proof fn lemma_text_order_equal(o1: Seq<int>, o2: Seq<int>, keys: Seq<Seq<char>>)
    requires
        o1.len() == o2.len(),
        forall|x: int| o1.contains(x) <==> o2.contains(x),
        forall|a: int, b: int| 0 <= a < b < o1.len() ==> sorts_before(keys, o1[a], o1[b]),
        forall|a: int, b: int| 0 <= a < b < o2.len() ==> sorts_before(keys, o2[a], o2[b]),
    ensures
        o1 == o2,
    decreases o1.len(),
{
    if o1.len() > 0 {
        assert(o2.contains(o1[0]));
        let j = choose|j: int| 0 <= j < o2.len() && o2[j] == o1[0];
        assert(o1.contains(o2[0]));
        let k = choose|k: int| 0 <= k < o1.len() && o1[k] == o2[0];
        if j > 0 {
            assert(sorts_before(keys, o2[0], o2[j]));
            lemma_sorts_before_facts(keys, o2[0], o1[0], o1[0]);
            if k > 0 {
                assert(sorts_before(keys, o1[0], o1[k]));
            } else {
                lemma_sorts_before_facts(keys, o2[0], o2[0], o2[0]);
            }
            assert(false);
        }
        let r1 = o1.drop_first();
        let r2 = o2.drop_first();
        assert forall|m: int| 0 <= m < o1.len() && m != 0 implies #[trigger] o1[m] != o1[0] by {
            assert(sorts_before(keys, o1[0], o1[m]));
            lemma_sorts_before_facts(keys, o1[0], o1[0], o1[0]);
        }
        assert forall|m: int| 0 <= m < o2.len() && m != 0 implies #[trigger] o2[m] != o2[0] by {
            assert(sorts_before(keys, o2[0], o2[m]));
            lemma_sorts_before_facts(keys, o2[0], o2[0], o2[0]);
        }
        assert forall|x: int| r1.contains(x) <==> r2.contains(x) by {
            if r1.contains(x) {
                let a = choose|a: int| 0 <= a < r1.len() && r1[a] == x;
                assert(o1[a + 1] == x);
                assert(o2.contains(x));
                let b = choose|b: int| 0 <= b < o2.len() && o2[b] == x;
                assert(b != 0);
                assert(r2[b - 1] == x);
            }
            if r2.contains(x) {
                let a = choose|a: int| 0 <= a < r2.len() && r2[a] == x;
                assert(o2[a + 1] == x);
                assert(o1.contains(x));
                let b = choose|b: int| 0 <= b < o1.len() && o1[b] == x;
                assert(b != 0);
                assert(r1[b - 1] == x);
            }
        }
        assert forall|a: int, b: int| 0 <= a < b < r1.len() implies sorts_before(keys, r1[a], r1[b]) by {
            assert(r1[a] == o1[a + 1] && r1[b] == o1[b + 1]);
        }
        assert forall|a: int, b: int| 0 <= a < b < r2.len() implies sorts_before(keys, r2[a], r2[b]) by {
            assert(r2[a] == o2[a + 1] && r2[b] == o2[b + 1]);
        }
        lemma_text_order_equal(r1, r2, keys);
        assert(o1 =~= seq![o1[0]] + r1);
        assert(o2 =~= seq![o2[0]] + r2);
    }
}

/// A stable sort by text keys has only one result.
pub proof fn lemma_text_order_unique(o1: Seq<int>, o2: Seq<int>, keys: Seq<Seq<char>>)
    requires
        is_text_order(o1, keys),
        is_text_order(o2, keys),
    ensures
        o1 == o2,
{
    assert forall|x: int| o1.contains(x) <==> o2.contains(x) by {
        if o1.contains(x) {
            let a = choose|a: int| 0 <= a < o1.len() && o1[a] == x;
            assert(0 <= o1[a] < keys.len());
        }
        if o2.contains(x) {
            let a = choose|a: int| 0 <= a < o2.len() && o2[a] == x;
            assert(0 <= o2[a] < keys.len());
        }
    }
    lemma_text_order_equal(o1, o2, keys);
}

/// The stable sort order of items with the given keys.
pub open spec fn text_order_of(keys: Seq<Seq<char>>) -> Seq<int> {
    choose|o: Seq<int>| is_text_order(o, keys)
}

pub open spec fn key_views(keys: Seq<Vec<char>>) -> Seq<Seq<char>> {
    keys.map_values(|k: Vec<char>| k@)
}

pub open spec fn index_ints(v: Seq<usize>) -> Seq<int> {
    v.map_values(|x: usize| x as int)
}

/// Whether `a` sorts before `b`.
pub fn less_text(a: &[char], b: &[char]) -> (r: bool)
    ensures
        r == text_less(a@, b@),
{
    let mut i: usize = 0;
    assert(a@.subrange(0, a@.len() as int) =~= a@);
    assert(b@.subrange(0, b@.len() as int) =~= b@);
    while i < a.len() && i < b.len()
        invariant
            i <= a@.len(),
            i <= b@.len(),
            a@.subrange(0, i as int) == b@.subrange(0, i as int),
            text_less(a@, b@) == text_less(a@.subrange(i as int, a@.len() as int), b@.subrange(i as int, b@.len() as int)),
        decreases a.len() - i,
    {
        let ghost ra = a@.subrange(i as int, a@.len() as int);
        let ghost rb = b@.subrange(i as int, b@.len() as int);
        assert(ra[0] == a@[i as int]);
        assert(rb[0] == b@[i as int]);
        if a[i] != b[i] {
            return a[i] < b[i];
        }
        assert(ra.drop_first() =~= a@.subrange(i + 1, a@.len() as int));
        assert(rb.drop_first() =~= b@.subrange(i + 1, b@.len() as int));
        assert(a@.subrange(0, i + 1) =~= a@.subrange(0, i as int).push(a@[i as int]));
        assert(b@.subrange(0, i + 1) =~= b@.subrange(0, i as int).push(b@[i as int]));
        i = i + 1;
    }
    proof {
        assert(a@.subrange(0, a@.len() as int) =~= a@);
        assert(b@.subrange(0, b@.len() as int) =~= b@);
    }
    i < b.len()
}

/// The positions of items by ascending key, equal keys in their original order
/// (`sort_by` on the keys, which is stable).
pub fn stable_text_order(keys: &Vec<Vec<char>>) -> (r: Vec<usize>)
    ensures
        is_text_order(index_ints(r@), key_views(keys@)),
        index_ints(r@) == text_order_of(key_views(keys@)),
{
    let ghost ks = key_views(keys@);
    let mut out: Vec<usize> = Vec::new();
    let mut i: usize = 0;
    while i < keys.len()
        invariant
            i <= keys@.len(),
            ks == key_views(keys@),
            out@.len() == i,
            forall|k: int| 0 <= k < out@.len() ==> 0 <= #[trigger] out@[k] < i,
            forall|j: int| 0 <= j < i ==> #[trigger] index_ints(out@).contains(j),
            forall|k: int, l: int| 0 <= k < l < out@.len() ==> sorts_before(ks, out@[k] as int, out@[l] as int),
        decreases keys.len() - i,
    {
        let mut p: usize = 0;
        while p < out.len() && !less_text(keys[i].as_slice(), keys[out[p]].as_slice())
            invariant
                p <= out@.len(),
                i < keys@.len(),
                ks == key_views(keys@),
                forall|k: int| 0 <= k < out@.len() ==> 0 <= #[trigger] out@[k] < i,
                forall|k: int| 0 <= k < p ==> sorts_before(ks, out@[k] as int, i as int),
            decreases out.len() - p,
        {
            proof {
                assert(out@[p as int] < i);
                assert(ks[i as int] == keys@[i as int]@);
                assert(ks[out@[p as int] as int] == keys@[out@[p as int] as int]@);
                lemma_text_less_total(ks[i as int], ks[out@[p as int] as int]);
            }
            p = p + 1;
        }
        let ghost before = out@;
        proof {
            if p < out@.len() {
                assert(out@[p as int] < i);
                assert(ks[i as int] == keys@[i as int]@);
                assert(ks[out@[p as int] as int] == keys@[out@[p as int] as int]@);
                assert(sorts_before(ks, i as int, out@[p as int] as int));
            }
        }
        out.insert(p, i);
        proof {
            assert(out@ == before.insert(p as int, i));
            assert forall|k: int| 0 <= k < out@.len() implies 0 <= #[trigger] out@[k] < i + 1 by {
                if k < p {
                    assert(out@[k] == before[k]);
                } else if k > p {
                    assert(out@[k] == before[k - 1]);
                }
            }
            assert forall|j: int| 0 <= j < i + 1 implies #[trigger] index_ints(out@).contains(j) by {
                if j == i {
                    assert(index_ints(out@)[p as int] == j);
                } else {
                    assert(index_ints(before).contains(j));
                    let k = choose|k: int| 0 <= k < index_ints(before).len() && index_ints(before)[k] == j;
                    if k < p {
                        assert(index_ints(out@)[k] == j);
                    } else {
                        assert(index_ints(out@)[k + 1] == j);
                    }
                }
            }
            assert forall|k: int, l: int| 0 <= k < l < out@.len() implies sorts_before(ks, out@[k] as int, out@[l] as int) by {
                if l < p {
                    assert(out@[k] == before[k] && out@[l] == before[l]);
                } else if l == p {
                    assert(out@[k] == before[k]);
                } else if k < p {
                    assert(out@[k] == before[k] && out@[l] == before[l - 1]);
                    if p < before.len() {
                        lemma_sorts_before_facts(ks, before[k] as int, i as int, before[p as int] as int);
                        lemma_sorts_before_facts(ks, before[k] as int, before[p as int] as int, before[l - 1] as int);
                        lemma_sorts_before_facts(ks, i as int, before[p as int] as int, before[l - 1] as int);
                        if l - 1 > p {
                            assert(sorts_before(ks, before[p as int] as int, before[l - 1] as int));
                        }
                    }
                } else if k == p {
                    assert(out@[l] == before[l - 1]);
                    if l - 1 > p {
                        assert(sorts_before(ks, before[p as int] as int, before[l - 1] as int));
                        lemma_sorts_before_facts(ks, i as int, before[p as int] as int, before[l - 1] as int);
                    }
                } else {
                    assert(out@[k] == before[k - 1] && out@[l] == before[l - 1]);
                }
            }
        }
        i = i + 1;
    }
    proof {
        assert(is_text_order(index_ints(out@), ks));
        lemma_text_order_unique(index_ints(out@), text_order_of(ks), ks);
    }
    out
}

} // verus!
