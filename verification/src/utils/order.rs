//! Text in order: the order of strings by their characters, and a stable sort of items by a
//! text key.

use vstd::prelude::*;

verus! {

broadcast use vstd::seq_lib::to_multiset_insert, vstd::seq_lib::to_multiset_build;

/// `a` comes no later than `b`: compared character by character, by code point, a prefix first.
/// This is the order of `str`, whose bytes compare as their characters do.
pub open spec fn lex_le(a: Seq<char>, b: Seq<char>) -> bool
    decreases a.len(),
{
    if a.len() == 0 {
        true
    } else if b.len() == 0 {
        false
    } else if a[0] != b[0] {
        a[0] < b[0]
    } else {
        lex_le(a.drop_first(), b.drop_first())
    }
}

/// Any two texts compare one way or the other.
pub proof fn lemma_lex_total(a: Seq<char>, b: Seq<char>)
    ensures
        lex_le(a, b) || lex_le(b, a),
    decreases a.len(),
{
    if a.len() > 0 && b.len() > 0 && a[0] == b[0] {
        lemma_lex_total(a.drop_first(), b.drop_first());
    }
}

/// Every text comes no later than itself.
pub proof fn lemma_lex_reflexive(a: Seq<char>)
    ensures
        lex_le(a, a),
    decreases a.len(),
{
    if a.len() > 0 {
        lemma_lex_reflexive(a.drop_first());
    }
}

/// The order is transitive.
pub proof fn lemma_lex_transitive(a: Seq<char>, b: Seq<char>, c: Seq<char>)
    requires
        lex_le(a, b),
        lex_le(b, c),
    ensures
        lex_le(a, c),
    decreases a.len(),
{
    if a.len() > 0 && b.len() > 0 && c.len() > 0 && a[0] == b[0] && b[0] == c[0] {
        lemma_lex_transitive(a.drop_first(), b.drop_first(), c.drop_first());
    }
}

/// Whether `a` comes no later than `b`.
pub fn chars_le(a: &[char], b: &[char]) -> (r: bool)
    ensures
        r == lex_le(a@, b@),
{
    let mut i: usize = 0;
    assert(a@.skip(0) =~= a@);
    assert(b@.skip(0) =~= b@);
    while i < a.len() && i < b.len() && a[i] == b[i]
        invariant
            i <= a@.len(),
            i <= b@.len(),
            lex_le(a@, b@) == lex_le(a@.skip(i as int), b@.skip(i as int)),
        decreases a@.len() - i,
    {
        let ghost sa = a@.skip(i as int);
        let ghost sb = b@.skip(i as int);
        assert(sa.drop_first() =~= a@.skip(i + 1));
        assert(sb.drop_first() =~= b@.skip(i + 1));
        i = i + 1;
    }
    let ghost sa = a@.skip(i as int);
    let ghost sb = b@.skip(i as int);
    if i == a.len() {
        assert(sa.len() == 0);
        true
    } else if i == b.len() {
        assert(sb.len() == 0);
        false
    } else {
        assert(sa[0] == a@[i as int] && sb[0] == b@[i as int]);
        a[i] < b[i]
    }
}

/// Where a stable insertion puts an item with key `k` among `s`: before the first item whose key
/// comes later, so after every one it scanned with a key no later.
pub open spec fn insert_pos<T>(s: Seq<(Seq<char>, T)>, k: Seq<char>) -> int
    decreases s.len(),
{
    if s.len() == 0 {
        0
    } else if !lex_le(s[0].0, k) {
        0
    } else {
        1 + insert_pos(s.drop_first(), k)
    }
}

/// `s` sorted by key, stably: each item is inserted in turn, after those before it whose keys
/// are no later. Items with equal keys keep their order.
pub open spec fn sorted_by_key<T>(s: Seq<(Seq<char>, T)>) -> Seq<(Seq<char>, T)>
    decreases s.len(),
{
    if s.len() == 0 {
        Seq::empty()
    } else {
        let p = sorted_by_key(s.drop_last());
        p.insert(insert_pos(p, s.last().0), s.last())
    }
}

/// Keys that never go down.
pub open spec fn keys_ordered<T>(s: Seq<(Seq<char>, T)>) -> bool {
    forall|i: int, j: int| 0 <= i < j < s.len() ==> lex_le(#[trigger] s[i].0, #[trigger] s[j].0)
}

proof fn lemma_insert_pos<T>(s: Seq<(Seq<char>, T)>, k: Seq<char>)
    ensures
        0 <= insert_pos(s, k) <= s.len(),
        forall|i: int| 0 <= i < insert_pos(s, k) ==> lex_le(#[trigger] s[i].0, k),
        insert_pos(s, k) < s.len() ==> !lex_le(s[insert_pos(s, k)].0, k),
    decreases s.len(),
{
    if s.len() > 0 && lex_le(s[0].0, k) {
        lemma_insert_pos(s.drop_first(), k);
        assert forall|i: int| 0 <= i < insert_pos(s, k) implies lex_le(#[trigger] s[i].0, k) by {
            if i > 0 {
                assert(s[i] == s.drop_first()[i - 1]);
            }
        }
    }
}

proof fn lemma_insert_keeps_order<T>(p: Seq<(Seq<char>, T)>, x: (Seq<char>, T))
    requires
        keys_ordered(p),
    ensures
        keys_ordered(p.insert(insert_pos(p, x.0), x)),
{
    let j = insert_pos(p, x.0);
    lemma_insert_pos(p, x.0);
    let q = p.insert(j, x);
    if j < p.len() {
        lemma_lex_total(p[j].0, x.0);
    }
    assert forall|a: int, b: int| 0 <= a < b < q.len() implies lex_le(#[trigger] q[a].0, #[trigger] q[b].0) by {
        if b < j {
        } else if b == j {
            assert(q[a] == p[a]);
        } else if a == j {
            assert(q[b] == p[b - 1]);
            if b - 1 > j {
                lemma_lex_transitive(x.0, p[j].0, p[b - 1].0);
            }
        } else if a < j {
            assert(q[a] == p[a]);
            assert(q[b] == p[b - 1]);
        } else {
            assert(q[a] == p[a - 1]);
            assert(q[b] == p[b - 1]);
        }
    }
}

/// The items sorted by key come in order of their keys.
pub proof fn law_sorted_by_key_is_ordered<T>(s: Seq<(Seq<char>, T)>)
    ensures
        keys_ordered(sorted_by_key(s)),
    decreases s.len(),
{
    if s.len() > 0 {
        law_sorted_by_key_is_ordered(s.drop_last());
        lemma_insert_keeps_order(sorted_by_key(s.drop_last()), s.last());
    }
}

/// Sorting by key keeps every item, as often as it came: it only reorders.
pub proof fn law_sorted_by_key_keeps_the_items<T>(s: Seq<(Seq<char>, T)>)
    ensures
        sorted_by_key(s).to_multiset() == s.to_multiset(),
    decreases s.len(),
{
    if s.len() > 0 {
        law_sorted_by_key_keeps_the_items(s.drop_last());
        let p = sorted_by_key(s.drop_last());
        lemma_insert_pos(p, s.last().0);
        assert(s.drop_last().push(s.last()) =~= s);
        assert(s.to_multiset() == s.drop_last().to_multiset().insert(s.last()));
        assert(p.insert(insert_pos(p, s.last().0), s.last()).to_multiset() == p.to_multiset().insert(s.last()));
    } else {
        assert(sorted_by_key(s) =~= s);
    }
}

/// The values of the items, without their keys.
pub open spec fn values_of<T>(s: Seq<(Seq<char>, T)>) -> Seq<T> {
    s.map_values(|p: (Seq<char>, T)| p.1)
}

/// Sorting by key keeps every value, as often as it came.
pub proof fn law_sorted_by_key_keeps_the_values<T>(s: Seq<(Seq<char>, T)>)
    ensures
        values_of(sorted_by_key(s)).to_multiset() == values_of(s).to_multiset(),
    decreases s.len(),
{
    if s.len() > 0 {
        let front = s.drop_last();
        let x = s.last();
        law_sorted_by_key_keeps_the_values(front);
        let p = sorted_by_key(front);
        let pos = insert_pos(p, x.0);
        lemma_insert_pos(p, x.0);
        assert(values_of(p.insert(pos, x)) =~= values_of(p).insert(pos, x.1));
        assert(values_of(s) =~= values_of(front).push(x.1));
        assert(values_of(p).insert(pos, x.1).to_multiset() == values_of(p).to_multiset().insert(x.1));
        assert(values_of(front).push(x.1).to_multiset() == values_of(front).to_multiset().insert(x.1));
    } else {
        assert(sorted_by_key(s) =~= s);
    }
}

/// The items of `s` with key `k`, in their order.
pub open spec fn with_key<T>(s: Seq<(Seq<char>, T)>, k: Seq<char>) -> Seq<(Seq<char>, T)>
    decreases s.len(),
{
    if s.len() == 0 {
        Seq::empty()
    } else if s.last().0 == k {
        with_key(s.drop_last(), k).push(s.last())
    } else {
        with_key(s.drop_last(), k)
    }
}

proof fn lemma_with_key_concat<T>(a: Seq<(Seq<char>, T)>, b: Seq<(Seq<char>, T)>, k: Seq<char>)
    ensures
        with_key(a + b, k) == with_key(a, k) + with_key(b, k),
    decreases b.len(),
{
    if b.len() == 0 {
        assert(a + b =~= a);
        assert(with_key(a, k) + with_key(b, k) =~= with_key(a, k));
    } else {
        lemma_with_key_concat(a, b.drop_last(), k);
        assert((a + b).drop_last() =~= a + b.drop_last());
        assert((a + b).last() == b.last());
        if b.last().0 == k {
            assert(with_key(a, k) + with_key(b.drop_last(), k).push(b.last()) =~= (with_key(a, k)
                + with_key(b.drop_last(), k)).push(b.last()));
        }
    }
}

proof fn lemma_with_key_none<T>(s: Seq<(Seq<char>, T)>, k: Seq<char>)
    requires
        forall|i: int| 0 <= i < s.len() ==> (#[trigger] s[i]).0 != k,
    ensures
        with_key(s, k) == Seq::<(Seq<char>, T)>::empty(),
    decreases s.len(),
{
    if s.len() > 0 {
        assert(s.last() == s[s.len() - 1]);
        assert forall|i: int| 0 <= i < s.drop_last().len() implies (#[trigger] s.drop_last()[i]).0 != k by {
            assert(s.drop_last()[i] == s[i]);
        }
        lemma_with_key_none(s.drop_last(), k);
    }
}

/// Sorting by key is stable: the items with any one key come in the order they had.
pub proof fn law_sorted_by_key_is_stable<T>(s: Seq<(Seq<char>, T)>, k: Seq<char>)
    ensures
        with_key(sorted_by_key(s), k) == with_key(s, k),
    decreases s.len(),
{
    if s.len() > 0 {
        let front = s.drop_last();
        let x = s.last();
        law_sorted_by_key_is_stable(front, k);
        law_sorted_by_key_is_ordered(front);
        let p = sorted_by_key(front);
        let pos = insert_pos(p, x.0);
        lemma_insert_pos(p, x.0);
        let before = p.take(pos);
        let after = p.skip(pos);
        assert(p =~= before + after);
        assert(p.insert(pos, x) =~= before + seq![x] + after);
        lemma_with_key_concat(before + seq![x], after, k);
        lemma_with_key_concat(before, seq![x], k);
        lemma_with_key_concat(before, after, k);
        assert(seq![x].drop_last() =~= Seq::<(Seq<char>, T)>::empty());
        if x.0 == k {
            assert(after.len() == p.len() - pos);
            assert forall|i: int| 0 <= i < after.len() implies (#[trigger] after[i]).0 != k by {
                assert(pos < p.len());
                assert(after[i] == p[pos + i]);
                assert(!lex_le(p[pos].0, k));
                if i > 0 {
                    assert(lex_le(p[pos].0, p[pos + i].0));
                } else {
                    lemma_lex_reflexive(k);
                }
            }
            lemma_with_key_none(after, k);
            assert(seq![x].last() == x);
            assert(with_key(seq![x].drop_last(), k) =~= Seq::<(Seq<char>, T)>::empty());
            assert(with_key(seq![x], k) =~= seq![x]);
            assert(with_key(p, k) =~= with_key(before, k) + with_key(after, k));
            assert(with_key(before, k) + seq![x] =~= with_key(before, k).push(x));
        } else {
            assert(seq![x].last() == x);
            assert(with_key(seq![x].drop_last(), k) =~= Seq::<(Seq<char>, T)>::empty());
            assert(with_key(seq![x], k) =~= Seq::<(Seq<char>, T)>::empty());
            assert(with_key(before, k) + Seq::<(Seq<char>, T)>::empty() =~= with_key(before, k));
        }
    }
}

/// Sorts by key, stably: exactly `sorted_by_key`, which orders the keys and keeps every item.
pub fn sort_by_key(items: Vec<(Vec<char>, String)>) -> (r: Vec<(Vec<char>, String)>)
    ensures
        keyed(r@) == sorted_by_key(keyed(items@)),
{
    let mut r: Vec<(Vec<char>, String)> = Vec::new();
    let mut rest = items;
    let ghost all = keyed(items@);
    while rest.len() > 0
        invariant
            r@.len() + rest@.len() == all.len(),
            keyed(r@) == sorted_by_key(all.take(all.len() - rest@.len())),
            keyed(rest@) == all.skip(all.len() - rest@.len()),
        decreases rest@.len(),
    {
        let ghost n = all.len() - rest@.len();
        let ghost before = keyed(r@);
        let ghost old_rest = rest@;
        let item = rest.remove(0);
        assert(rest@ =~= old_rest.drop_first());
        assert forall|i: int| 0 <= i < rest@.len() implies #[trigger] keyed(rest@)[i] == all.skip(n + 1)[i] by {
            assert(keyed(old_rest)[i + 1] == all.skip(n)[i + 1]);
        }
        assert(keyed(rest@) =~= all.skip(n + 1));
        assert(keyed(old_rest)[0] == all.skip(n)[0]);
        let mut j: usize = 0;
        assert(before.skip(0) =~= before);
        while j < r.len() && chars_le(r[j].0.as_slice(), item.0.as_slice())
            invariant
                j <= r@.len(),
                keyed(r@) == before,
                insert_pos(before, item.0@) == j + insert_pos(before.skip(j as int), item.0@),
            decreases r@.len() - j,
        {
            let ghost t = before.skip(j as int);
            assert(t.drop_first() =~= before.skip(j + 1));
            assert(t[0] == before[j as int]);
            j = j + 1;
        }
        proof {
            let t = before.skip(j as int);
            if j < r@.len() {
                assert(t[0] == before[j as int]);
            }
        }
        let ghost x = (item.0@, item.1);
        r.insert(j, item);
        assert(all.take(n + 1).drop_last() =~= all.take(n));
        assert(all.take(n + 1).last() == x) by {
            assert(all.skip(n)[0] == all[n]);
        }
        assert(keyed(r@) =~= before.insert(j as int, x));
    }
    assert(all.take(all.len() as int) =~= all);
    r
}

/// Items keyed by a text, with each key taken as its characters.
pub open spec fn keyed(v: Seq<(Vec<char>, String)>) -> Seq<(Seq<char>, String)> {
    v.map_values(|p: (Vec<char>, String)| (p.0@, p.1))
}

} // verus!
