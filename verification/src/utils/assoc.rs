//! Maps keyed by strings, kept as lists of pairs with distinct keys. Version profiles carry
//! such maps (natives by system, classifier downloads by name); inserting a key that is there
//! replaces its value and keeps its place.

use vstd::prelude::*;

verus! {

/// The first position of `key`, if any.
pub open spec fn assoc_find<V>(l: Seq<(String, V)>, key: Seq<char>) -> Option<int>
    decreases l.len(),
{
    if l.len() == 0 {
        None
    } else {
        match assoc_find(l.drop_last(), key) {
            Some(i) => Some(i),
            None => if l.last().0@ == key {
                Some(l.len() - 1)
            } else {
                None
            },
        }
    }
}

/// No key occurs twice.
pub open spec fn keys_unique<V>(l: Seq<(String, V)>) -> bool {
    forall|i: int, j: int| 0 <= i < j < l.len() ==> #[trigger] l[i].0@ != #[trigger] l[j].0@
}

/// The map the list stands for.
pub open spec fn assoc_view<V>(l: Seq<(String, V)>) -> Map<Seq<char>, V>
    decreases l.len(),
{
    if l.len() == 0 {
        Map::empty()
    } else {
        assoc_view(l.drop_last()).insert(l.last().0@, l.last().1)
    }
}

/// `l` with `key` mapped to `value`: its value replaced where the key is, appended otherwise.
pub open spec fn assoc_insert<V>(l: Seq<(String, V)>, key: String, value: V) -> Seq<(String, V)> {
    match assoc_find(l, key@) {
        Some(i) => l.update(i, (l[i].0, value)),
        None => l.push((key, value)),
    }
}

/// `l` with every pair of `more` inserted in turn, as `HashMap::extend` does.
pub open spec fn assoc_extend<V>(l: Seq<(String, V)>, more: Seq<(String, V)>) -> Seq<(String, V)>
    decreases more.len(),
{
    if more.len() == 0 {
        l
    } else {
        let front = assoc_extend(l, more.drop_last());
        assoc_insert(front, more.last().0, more.last().1)
    }
}

pub proof fn lemma_assoc_find<V>(l: Seq<(String, V)>, key: Seq<char>)
    ensures
        match assoc_find(l, key) {
            Some(i) => 0 <= i < l.len() && l[i].0@ == key && forall|j: int|
                0 <= j < i ==> #[trigger] l[j].0@ != key,
            None => forall|j: int| 0 <= j < l.len() ==> #[trigger] l[j].0@ != key,
        },
    decreases l.len(),
{
    if l.len() > 0 {
        let front = l.drop_last();
        lemma_assoc_find(front, key);
        assert forall|j: int| 0 <= j < front.len() implies #[trigger] l[j] == front[j] by {}
    }
}

pub proof fn lemma_assoc_view_keys<V>(l: Seq<(String, V)>)
    ensures
        forall|key: Seq<char>| #[trigger] assoc_view(l).contains_key(key) <==> exists|i: int|
            0 <= i < l.len() && l[i].0@ == key,
    decreases l.len(),
{
    if l.len() > 0 {
        lemma_assoc_view_keys(l.drop_last());
        let front = l.drop_last();
        assert forall|key: Seq<char>| #[trigger] assoc_view(l).contains_key(key) <==> exists|i: int|
            0 <= i < l.len() && l[i].0@ == key by {
            if assoc_view(l).contains_key(key) && key != l.last().0@ {
                assert(assoc_view(front).contains_key(key));
                let i = choose|i: int| 0 <= i < front.len() && front[i].0@ == key;
                assert(l[i] == front[i]);
            }
            if exists|i: int| 0 <= i < l.len() && l[i].0@ == key {
                let i = choose|i: int| 0 <= i < l.len() && l[i].0@ == key;
                if i < l.len() - 1 {
                    assert(front[i] == l[i]);
                    assert(assoc_view(front).contains_key(key));
                }
            }
        }
    }
}

/// With distinct keys, the map gives each key the value next to it.
pub proof fn lemma_assoc_view_value<V>(l: Seq<(String, V)>, i: int)
    requires
        keys_unique(l),
        0 <= i < l.len(),
    ensures
        assoc_view(l).contains_key(l[i].0@),
        assoc_view(l)[l[i].0@] == l[i].1,
    decreases l.len(),
{
    let front = l.drop_last();
    if i < l.len() - 1 {
        assert(keys_unique(front)) by {
            assert forall|a: int, b: int| 0 <= a < b < front.len() implies #[trigger] front[a].0@
                != #[trigger] front[b].0@ by {
                assert(front[a] == l[a] && front[b] == l[b]);
            }
        }
        assert(front[i] == l[i]);
        lemma_assoc_view_value(front, i);
        assert(l[i].0@ != l.last().0@);
    }
}

/// Inserting keeps the keys distinct and maps the key to the value, as a map insert does.
pub proof fn lemma_assoc_insert<V>(l: Seq<(String, V)>, key: String, value: V)
    requires
        keys_unique(l),
    ensures
        keys_unique(assoc_insert(l, key, value)),
        assoc_view(assoc_insert(l, key, value)) == assoc_view(l).insert(key@, value),
{
    lemma_assoc_find(l, key@);
    let r = assoc_insert(l, key, value);
    lemma_assoc_view_keys(l);
    lemma_assoc_view_keys(r);
    match assoc_find(l, key@) {
        Some(i) => {
            assert(keys_unique(r)) by {
                assert forall|a: int, b: int| 0 <= a < b < r.len() implies #[trigger] r[a].0@
                    != #[trigger] r[b].0@ by {
                    assert(r[a].0 == l[a].0 && r[b].0 == l[b].0);
                }
            }
            assert forall|k: Seq<char>| assoc_view(l).insert(key@, value).contains_key(k)
                implies #[trigger] assoc_view(r).contains_key(k) by {
                if k != key@ {
                    assert(assoc_view(l).contains_key(k));
                    let j = choose|j: int| 0 <= j < l.len() && l[j].0@ == k;
                    assert(r[j].0 == l[j].0);
                } else {
                    assert(r[i].0 == l[i].0);
                }
            }
            assert forall|k: Seq<char>| #[trigger] assoc_view(r).contains_key(k)
                implies assoc_view(l).insert(key@, value).contains_key(k) by {
                let j = choose|j: int| 0 <= j < r.len() && r[j].0@ == k;
                assert(r[j].0 == l[j].0);
            }
            assert forall|k: Seq<char>| #[trigger] assoc_view(r).contains_key(k) implies assoc_view(
                r,
            )[k] == assoc_view(l).insert(key@, value)[k] by {
                let j = choose|j: int| 0 <= j < r.len() && r[j].0@ == k;
                lemma_assoc_view_value(r, j);
                if j != i {
                    assert(r[j] == l[j]);
                    lemma_assoc_view_value(l, j);
                }
            }
            assert(assoc_view(r) =~= assoc_view(l).insert(key@, value));
        },
        None => {
            assert(r.drop_last() =~= l);
            assert(keys_unique(r)) by {
                assert forall|a: int, b: int| 0 <= a < b < r.len() implies #[trigger] r[a].0@
                    != #[trigger] r[b].0@ by {
                    if b < l.len() {
                        assert(r[a] == l[a] && r[b] == l[b]);
                    } else {
                        assert(r[a] == l[a]);
                    }
                }
            }
        },
    }
}

/// Extending keeps the keys distinct, and the map is the first one with the second laid over
/// it: a key of `more` takes its value from `more`.
pub proof fn lemma_assoc_extend<V>(l: Seq<(String, V)>, more: Seq<(String, V)>)
    requires
        keys_unique(l),
    ensures
        keys_unique(assoc_extend(l, more)),
        assoc_view(assoc_extend(l, more)) == assoc_view(l).union_prefer_right(assoc_view(more)),
    decreases more.len(),
{
    if more.len() == 0 {
        assert(assoc_view(l).union_prefer_right(assoc_view(more)) =~= assoc_view(l));
    } else {
        lemma_assoc_extend(l, more.drop_last());
        let front = assoc_extend(l, more.drop_last());
        lemma_assoc_insert(front, more.last().0, more.last().1);
        assert(assoc_view(l).union_prefer_right(assoc_view(more)) =~= assoc_view(l).union_prefer_right(
            assoc_view(more.drop_last()),
        ).insert(more.last().0@, more.last().1));
    }
}

/// The position of `key` in `l`, by a scan from the front.
pub fn assoc_position<V>(l: &Vec<(String, V)>, key: &String) -> (r: Option<usize>)
    ensures
        match r {
            Some(i) => assoc_find(l@, key@) == Some(i as int),
            None => assoc_find(l@, key@) is None,
        },
{
    let mut i: usize = 0;
    while i < l.len()
        invariant
            i <= l.len(),
            forall|j: int| 0 <= j < i ==> #[trigger] l@[j].0@ != key@,
        decreases l.len() - i,
    {
        if l[i].0 == *key {
            proof {
                lemma_assoc_find(l@, key@);
                if assoc_find(l@, key@) != Some(i as int) {
                    let k = assoc_find(l@, key@)->0;
                    assert(l@[k].0@ == key@);
                }
            }
            return Some(i);
        }
        i = i + 1;
    }
    proof {
        lemma_assoc_find(l@, key@);
        if assoc_find(l@, key@) is Some {
            let k = assoc_find(l@, key@)->0;
            assert(l@[k].0@ == key@);
        }
    }
    None
}

/// Maps `key` to `value` in `l`, as `HashMap::insert` does.
pub fn assoc_set<V>(l: &mut Vec<(String, V)>, key: String, value: V)
    ensures
        final(l)@ == assoc_insert(old(l)@, key, value),
{
    proof {
        lemma_assoc_find(l@, key@);
    }
    match assoc_position(l, &key) {
        Some(i) => {
            let (old_key, _old_value) = l.remove(i);
            l.insert(i, (old_key, value));
            assert(l@ =~= old(l)@.update(i as int, (old(l)@[i as int].0, value)));
        },
        None => {
            l.push((key, value));
        },
    }
}

/// Inserts every pair of `more` into `l` in turn, as `HashMap::extend` does.
pub fn assoc_extend_with<V>(l: &mut Vec<(String, V)>, more: Vec<(String, V)>)
    ensures
        final(l)@ == assoc_extend(old(l)@, more@),
{
    let ghost all = more@;
    let mut rest = more;
    let ghost mut k: int = 0;
    while rest.len() > 0
        invariant
            k + rest@.len() == all.len(),
            0 <= k,
            rest@ == all.skip(k),
            l@ == assoc_extend(old(l)@, all.take(k)),
        decreases rest.len(),
    {
        let (key, value) = rest.remove(0);
        assert(all.take(k + 1).drop_last() =~= all.take(k));
        assert(all.take(k + 1).last() == all[k]);
        assert(all[k] == (key, value));
        assoc_set(l, key, value);
        proof {
            k = k + 1;
        }
        assert(rest@ =~= all.skip(k));
    }
    assert(all.take(k) =~= all);
}

} // verus!
