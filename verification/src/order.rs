//! The order of text keys, and a stable sort by them.
//!
//! Lists that the user reads (peers, exit nodes) are sorted by a text key,
//! such as a lowercased name, the way `sort_by_key` does: by the key's order,
//! and items with equal keys keep the order they came in.

use vstd::prelude::*;

verus! {

/// Whether `a` sorts strictly before `b`: character by character by code
/// point, with a proper prefix first. On two strings' UTF-8 bytes this is
/// the order of `String`'s `Ord`, since UTF-8 keeps the order of code points.
pub open spec fn text_lt(a: Seq<char>, b: Seq<char>) -> bool
    decreases a.len(),
{
    if b.len() == 0 {
        false
    } else if a.len() == 0 {
        true
    } else if a[0] != b[0] {
        (a[0] as u32) < (b[0] as u32)
    } else {
        text_lt(a.drop_first(), b.drop_first())
    }
}

/// No text sorts before itself.
pub proof fn lemma_text_lt_irreflexive(a: Seq<char>)
    ensures
        !text_lt(a, a),
    decreases a.len(),
{
    if a.len() > 0 {
        lemma_text_lt_irreflexive(a.drop_first());
    }
}

/// The order of texts is transitive.
pub proof fn lemma_text_lt_transitive(a: Seq<char>, b: Seq<char>, c: Seq<char>)
    requires
        text_lt(a, b),
        text_lt(b, c),
    ensures
        text_lt(a, c),
    decreases a.len(),
{
    if a.len() > 0 && b.len() > 0 && c.len() > 0 && a[0] == b[0] && b[0] == c[0] {
        lemma_text_lt_transitive(a.drop_first(), b.drop_first(), c.drop_first());
    }
}

/// Of two different texts, one sorts before the other, and never both ways.
pub proof fn lemma_text_lt_total(a: Seq<char>, b: Seq<char>)
    ensures
        a != b ==> text_lt(a, b) || text_lt(b, a),
        !(text_lt(a, b) && text_lt(b, a)),
    decreases a.len(),
{
    if a.len() > 0 && b.len() > 0 {
        lemma_text_lt_total(a.drop_first(), b.drop_first());
        if a[0] == b[0] && a != b {
            assert(a =~= seq![a[0]] + a.drop_first());
            assert(b =~= seq![b[0]] + b.drop_first());
        }
        if a[0] != b[0] {
            vstd::utf8::char_u32_cast(a[0], a[0] as u32);
            vstd::utf8::char_u32_cast(b[0], b[0] as u32);
            assert((a[0] as u32) != (b[0] as u32));
        }
    } else if a.len() == 0 && b.len() == 0 {
        assert(a =~= b);
    }
}

/// Whether item `i` goes before item `j` when sorting by `keys` and keeping
/// items with equal keys in their order.
pub open spec fn goes_before(keys: Seq<Seq<char>>, i: int, j: int) -> bool {
    text_lt(keys[i], keys[j]) || (keys[i] == keys[j] && i < j)
}

/// Whether `order` lists each index below `n` exactly once.
pub open spec fn is_permutation(order: Seq<int>, n: nat) -> bool {
    &&& order.len() == n
    &&& forall|i: int| 0 <= i < n ==> 0 <= #[trigger] order[i] < n
    &&& forall|i: int, j: int| 0 <= i < j < n ==> order[i] != order[j]
}

/// Whether `order` puts the items in their sorted place.
pub open spec fn in_key_order(keys: Seq<Seq<char>>, order: Seq<int>) -> bool {
    forall|i: int, j: int|
        0 <= i < j < order.len() ==> goes_before(keys, #[trigger] order[i], #[trigger] order[j])
}

/// Whether `sorted` is `items` sorted by `keys`, items with equal keys in the
/// order they came in (what a stable `sort_by_key` leaves).
pub open spec fn stably_sorted<T>(items: Seq<T>, keys: Seq<Seq<char>>, sorted: Seq<T>) -> bool {
    exists|order: Seq<int>|
        {
            &&& #[trigger] is_permutation(order, items.len())
            &&& in_key_order(keys, order)
            &&& sorted.len() == items.len()
            &&& forall|i: int| 0 <= i < sorted.len() ==> sorted[i] == items[order[i]]
        }
}

/// Whether `a` sorts strictly before `b` (see [`text_lt`]).
pub fn text_less(a: &Vec<char>, b: &Vec<char>) -> (r: bool)
    ensures
        r == text_lt(a@, b@),
{
    let mut i: usize = 0;
    assert(a@.skip(0) =~= a@);
    assert(b@.skip(0) =~= b@);
    while i < a.len() && i < b.len() && a[i] == b[i]
        invariant
            i <= a@.len(),
            i <= b@.len(),
            text_lt(a@, b@) == text_lt(a@.skip(i as int), b@.skip(i as int)),
        decreases a@.len() - i,
    {
        assert(a@.skip(i as int).drop_first() =~= a@.skip(i + 1));
        assert(b@.skip(i as int).drop_first() =~= b@.skip(i + 1));
        i = i + 1;
    }
    if i == b.len() {
        false
    } else if i == a.len() {
        true
    } else {
        assert(a@.skip(i as int)[0] == a@[i as int]);
        assert(b@.skip(i as int)[0] == b@[i as int]);
        (a[i] as u32) < (b[i] as u32)
    }
}

/// With `order` in key order and the item at `p` not before key `keys[m]`,
/// an item `m` below every listed index goes before every item from `p` on.
proof fn lemma_goes_before_tail(keys: Seq<Seq<char>>, order: Seq<int>, p: int, m: int)
    requires
        0 <= p < order.len(),
        in_key_order(keys, order),
        !text_lt(keys[order[p]], keys[m]),
        forall|i: int| 0 <= i < order.len() ==> m < #[trigger] order[i],
    ensures
        forall|q: int| p <= q < order.len() ==> goes_before(keys, m, #[trigger] order[q]),
{
    assert forall|q: int| p <= q < order.len() implies goes_before(keys, m, #[trigger] order[q]) by {
        let kp = keys[order[p]];
        let kq = keys[order[q]];
        let km = keys[m];
        lemma_text_lt_total(kp, km);
        // kp is km or after it
        if q > p {
            assert(goes_before(keys, order[p], order[q]));
            if text_lt(kp, kq) {
                if text_lt(km, kp) {
                    lemma_text_lt_transitive(km, kp, kq);
                }
            }
        }
        assert(m < order[q]);
    }
}

/// `items` sorted by `keys`, items with equal keys in the order they came in.
pub fn sort_by_text_keys<T>(items: Vec<T>, keys: Vec<Vec<char>>) -> (r: Vec<T>)
    requires
        items@.len() == keys@.len(),
    ensures
        stably_sorted(items@, keys.deep_view(), r@),
{
    let ghost orig = items@;
    let ghost ks = keys.deep_view();
    let ghost n = items@.len();
    let mut items = items;
    let mut keys = keys;
    let mut out: Vec<T> = Vec::new();
    let mut out_keys: Vec<Vec<char>> = Vec::new();
    let ghost mut order: Seq<int> = Seq::empty();
    while items.len() > 0
        invariant
            n == orig.len(),
            ks.len() == n,
            items@.len() == keys@.len(),
            items@.len() <= n,
            items@ == orig.subrange(0, items@.len() as int),
            keys.deep_view() == ks.subrange(0, keys@.len() as int),
            out@.len() == n - items@.len(),
            out_keys@.len() == out@.len(),
            order.len() == out@.len(),
            forall|i: int|
                0 <= i < order.len() ==> items@.len() <= #[trigger] order[i] < n,
            forall|i: int, j: int| 0 <= i < j < order.len() ==> order[i] != order[j],
            forall|i: int| 0 <= i < order.len() ==> out@[i] == orig[#[trigger] order[i]],
            forall|i: int| 0 <= i < order.len() ==> out_keys@[i]@ == ks[#[trigger] order[i]],
            in_key_order(ks, order),
        decreases items@.len(),
    {
        let ghost m = items@.len() - 1;
        let ghost kd = keys.deep_view();
        let x = items.pop().unwrap();
        let kx = keys.pop().unwrap();
        assert(kd[m] == kx@);
        assert(kx@ == ks[m]);
        let mut p: usize = 0;
        while p < out_keys.len() && text_less(&out_keys[p], &kx)
            invariant
                p <= out_keys@.len(),
                forall|i: int| 0 <= i < p ==> text_lt(#[trigger] out_keys@[i]@, kx@),
            decreases out_keys@.len() - p,
        {
            p = p + 1;
        }
        proof {
            assert forall|i: int| 0 <= i < p implies goes_before(ks, #[trigger] order[i], m) by {
                assert(text_lt(out_keys@[i]@, kx@));
            }
            if p < order.len() {
                assert(!text_lt(out_keys@[p as int]@, kx@));
                lemma_goes_before_tail(ks, order, p as int, m);
            }
        }
        let ghost old_order = order;
        let ghost old_out = out@;
        let ghost old_keys = out_keys@;
        out.insert(p, x);
        out_keys.insert(p, kx);
        proof {
            order = old_order.insert(p as int, m);
            assert forall|i: int, j: int| 0 <= i < j < order.len() implies goes_before(
                ks,
                #[trigger] order[i],
                #[trigger] order[j],
            ) by {
                if i < p && j < p {
                    assert(order[i] == old_order[i] && order[j] == old_order[j]);
                } else if i < p && j == p {
                    assert(order[i] == old_order[i]);
                } else if i < p && j > p {
                    assert(order[i] == old_order[i] && order[j] == old_order[j - 1]);
                    assert(goes_before(ks, old_order[i], old_order[j - 1]));
                } else if i == p {
                    assert(order[j] == old_order[j - 1]);
                } else {
                    assert(order[i] == old_order[i - 1] && order[j] == old_order[j - 1]);
                    assert(goes_before(ks, old_order[i - 1], old_order[j - 1]));
                }
            }
            assert forall|i: int| 0 <= i < order.len() implies out@[i] == orig[#[trigger] order[i]] by {
                if i < p {
                    assert(out@[i] == old_out[i]);
                } else if i > p {
                    assert(out@[i] == old_out[i - 1]);
                    assert(order[i] == old_order[i - 1]);
                }
            }
            assert forall|i: int| 0 <= i < order.len() implies out_keys@[i]@ == ks[#[trigger] order[i]] by {
                if i < p {
                    assert(out_keys@[i] == old_keys[i]);
                } else if i > p {
                    assert(out_keys@[i] == old_keys[i - 1]);
                    assert(order[i] == old_order[i - 1]);
                }
            }
            assert forall|i: int, j: int| 0 <= i < j < order.len() implies order[i] != order[j] by {
                if i < p && j < p {
                } else if i < p && j == p {
                    assert(old_order[i] > m);
                } else if i < p {
                    assert(order[j] == old_order[j - 1]);
                } else if i == p {
                    assert(order[j] == old_order[j - 1]);
                    assert(old_order[j - 1] > m);
                } else {
                    assert(order[i] == old_order[i - 1] && order[j] == old_order[j - 1]);
                }
            }
            assert forall|i: int| 0 <= i < order.len() implies items@.len() <= #[trigger] order[i]
                < n by {
                if i < p {
                    assert(order[i] == old_order[i]);
                } else if i > p {
                    assert(order[i] == old_order[i - 1]);
                }
            }
            assert(items@ =~= orig.subrange(0, items@.len() as int));
            assert(keys.deep_view() =~= ks.subrange(0, keys@.len() as int));
        }
    }
    proof {
        assert(is_permutation(order, orig.len()));
    }
    out
}

/// Whether `sorted` holds the items of `items`, each once, in ascending
/// order of their `keys`.
pub open spec fn sorted_by_number<T>(items: Seq<T>, keys: Seq<i64>, sorted: Seq<T>) -> bool {
    exists|order: Seq<int>|
        {
            &&& #[trigger] is_permutation(order, items.len())
            &&& sorted.len() == items.len()
            &&& forall|i: int| 0 <= i < sorted.len() ==> sorted[i] == items[order[i]]
            &&& forall|i: int, j: int|
                0 <= i < j < sorted.len() ==> keys[#[trigger] order[i]] <= keys[#[trigger] order[j]]
        }
}

/// `items` in ascending order of `keys`.
pub fn sort_by_number<T>(items: Vec<T>, keys: Vec<i64>) -> (r: Vec<T>)
    requires
        items@.len() == keys@.len(),
    ensures
        sorted_by_number(items@, keys@, r@),
{
    let ghost orig = items@;
    let ghost ks = keys@;
    let ghost n = items@.len();
    let mut items = items;
    let mut keys = keys;
    let mut out: Vec<T> = Vec::new();
    let mut out_keys: Vec<i64> = Vec::new();
    let ghost mut order: Seq<int> = Seq::empty();
    while items.len() > 0
        invariant
            n == orig.len(),
            ks.len() == n,
            items@.len() == keys@.len(),
            items@.len() <= n,
            items@ == orig.subrange(0, items@.len() as int),
            keys@ == ks.subrange(0, keys@.len() as int),
            out@.len() == n - items@.len(),
            out_keys@.len() == out@.len(),
            order.len() == out@.len(),
            forall|i: int|
                0 <= i < order.len() ==> items@.len() <= #[trigger] order[i] < n,
            forall|i: int, j: int| 0 <= i < j < order.len() ==> order[i] != order[j],
            forall|i: int| 0 <= i < order.len() ==> out@[i] == orig[#[trigger] order[i]],
            forall|i: int| 0 <= i < order.len() ==> out_keys@[i] == ks[#[trigger] order[i]],
            forall|i: int, j: int|
                0 <= i < j < order.len() ==> ks[#[trigger] order[i]] <= ks[#[trigger] order[j]],
        decreases items@.len(),
    {
        let ghost m = items@.len() - 1;
        let x = items.pop().unwrap();
        let kx = keys.pop().unwrap();
        let mut p: usize = 0;
        while p < out_keys.len() && out_keys[p] < kx
            invariant
                p <= out_keys@.len(),
                forall|i: int| 0 <= i < p ==> #[trigger] out_keys@[i] < kx,
            decreases out_keys@.len() - p,
        {
            p = p + 1;
        }
        let ghost old_order = order;
        let ghost old_out = out@;
        let ghost old_keys = out_keys@;
        out.insert(p, x);
        out_keys.insert(p, kx);
        proof {
            order = old_order.insert(p as int, m);
            assert(ks[m] == kx);
            assert forall|i: int, j: int| 0 <= i < j < order.len() implies ks[#[trigger] order[i]]
                <= ks[#[trigger] order[j]] by {
                if i < p && j < p {
                    assert(order[i] == old_order[i] && order[j] == old_order[j]);
                } else if i < p && j == p {
                    assert(order[i] == old_order[i]);
                    assert(old_keys[i] < kx);
                } else if i < p && j > p {
                    assert(order[i] == old_order[i] && order[j] == old_order[j - 1]);
                } else if i == p {
                    assert(order[j] == old_order[j - 1]);
                    assert(!(old_keys[p as int] < kx));
                    if j - 1 > p {
                        assert(ks[old_order[p as int]] <= ks[old_order[j - 1]]);
                    }
                } else {
                    assert(order[i] == old_order[i - 1] && order[j] == old_order[j - 1]);
                }
            }
            assert forall|i: int| 0 <= i < order.len() implies out@[i] == orig[#[trigger] order[i]] by {
                if i < p {
                    assert(out@[i] == old_out[i]);
                } else if i > p {
                    assert(out@[i] == old_out[i - 1]);
                    assert(order[i] == old_order[i - 1]);
                }
            }
            assert forall|i: int| 0 <= i < order.len() implies out_keys@[i] == ks[#[trigger] order[i]] by {
                if i < p {
                    assert(out_keys@[i] == old_keys[i]);
                } else if i > p {
                    assert(out_keys@[i] == old_keys[i - 1]);
                    assert(order[i] == old_order[i - 1]);
                }
            }
            assert forall|i: int, j: int| 0 <= i < j < order.len() implies order[i] != order[j] by {
                if i < p && j < p {
                } else if i < p && j == p {
                    assert(old_order[i] > m);
                } else if i < p {
                    assert(order[j] == old_order[j - 1]);
                } else if i == p {
                    assert(order[j] == old_order[j - 1]);
                    assert(old_order[j - 1] > m);
                } else {
                    assert(order[i] == old_order[i - 1] && order[j] == old_order[j - 1]);
                }
            }
            assert forall|i: int| 0 <= i < order.len() implies items@.len() <= #[trigger] order[i]
                < n by {
                if i < p {
                    assert(order[i] == old_order[i]);
                } else if i > p {
                    assert(order[i] == old_order[i - 1]);
                }
            }
            assert(items@ =~= orig.subrange(0, items@.len() as int));
            assert(keys@ =~= ks.subrange(0, keys@.len() as int));
        }
    }
    proof {
        assert(is_permutation(order, orig.len()));
    }
    out
}

} // verus!
