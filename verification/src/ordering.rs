//! Sorting of strings and of ordered values.
use vstd::prelude::*;
use crate::text::{lemma_seq_lt_irreflexive, lemma_seq_lt_total, lemma_seq_lt_transitive, seq_lt, str_compare};

verus! {

/// Values with a strict total order on their views and a three-way comparison.
pub trait Ordered: View + Sized {
    spec fn key_lt(a: Self::V, b: Self::V) -> bool;

    proof fn lemma_irreflexive(a: Self::V)
        ensures
            !Self::key_lt(a, a),
    ;

    proof fn lemma_transitive(a: Self::V, b: Self::V, c: Self::V)
        requires
            Self::key_lt(a, b),
            Self::key_lt(b, c),
        ensures
            Self::key_lt(a, c),
    ;

    proof fn lemma_total(a: Self::V, b: Self::V)
        ensures
            Self::key_lt(a, b) || a == b || Self::key_lt(b, a),
    ;

    fn compare(&self, other: &Self) -> (r: i8)
        ensures
            r == -1 <==> Self::key_lt(self@, other@),
            r == 0 <==> self@ == other@,
            r == 1 <==> Self::key_lt(other@, self@),
    ;
}

impl Ordered for String {
    open spec fn key_lt(a: Seq<char>, b: Seq<char>) -> bool {
        seq_lt(a, b)
    }

    proof fn lemma_irreflexive(a: Seq<char>) {
        lemma_seq_lt_irreflexive(a);
    }

    proof fn lemma_transitive(a: Seq<char>, b: Seq<char>, c: Seq<char>) {
        lemma_seq_lt_transitive(a, b, c);
    }

    proof fn lemma_total(a: Seq<char>, b: Seq<char>) {
        lemma_seq_lt_total(a, b);
    }

    fn compare(&self, other: &Self) -> (r: i8) {
        str_compare(self.as_str(), other.as_str())
    }
}

/// The views of a sequence of values.
pub open spec fn views<T: View>(s: Seq<T>) -> Seq<T::V> {
    s.map_values(|x: T| x@)
}

/// Strictly increasing, hence free of duplicates.
pub open spec fn sorted_strict<T: Ordered>(s: Seq<T::V>) -> bool {
    forall|i: int, j: int| 0 <= i < j < s.len() ==> T::key_lt(#[trigger] s[i], #[trigger] s[j])
}

/// Inserts `x` at its place in a strictly sorted vector unless an equal value is present.
pub fn insert_unique<T: Ordered>(v: &mut Vec<T>, x: T)
    requires
        sorted_strict::<T>(views(old(v)@)),
    ensures
        sorted_strict::<T>(views(final(v)@)),
        views(final(v)@).to_set() == views(old(v)@).to_set().insert(x@),
{
    let ghost old_views = views(v@);
    let mut i: usize = 0;
    let n = v.len();
    while i < n
        invariant
            n == v.len(),
            i <= n,
            v@ == old(v)@,
            old_views == views(v@),
            forall|j: int| 0 <= j < i ==> T::key_lt(#[trigger] views(v@)[j], x@),
        ensures
            i <= n,
            v@ == old(v)@,
            old_views == views(v@),
            forall|j: int| 0 <= j < i ==> T::key_lt(#[trigger] views(v@)[j], x@),
            i < n ==> !T::key_lt(views(v@)[i as int], x@),
        decreases n - i,
    {
        let c = v[i].compare(&x);
        if c != -1 {
            break;
        }
        i = i + 1;
    }
    if i < n && v[i].compare(&x) == 0 {
        proof {
            assert(views(v@)[i as int] == x@);
            assert(views(v@).to_set().insert(x@) =~= views(v@).to_set()) by {
                assert(views(v@).to_set().contains(x@));
            }
        }
        return;
    }
    proof {
        if i < n {
            assert(T::key_lt(x@, views(v@)[i as int])) by {
                T::lemma_total(views(v@)[i as int], x@);
            }
        }
    }
    let ghost before = views(v@);
    v.insert(i, x);
    proof {
        let after = views(v@);
        assert(after =~= before.insert(i as int, x@));
        assert forall|a: int, b: int| 0 <= a < b < after.len() implies T::key_lt(
            #[trigger] after[a],
            #[trigger] after[b],
        ) by {
            if a < i && b < i {
            } else if a < i && b == i {
            } else if a < i && b > i {
                assert(after[b] == before[b - 1]);
                if (i as int) < n {
                    assert(T::key_lt(x@, before[i as int]));
                    if b - 1 > i {
                        T::lemma_transitive(x@, before[i as int], before[b - 1]);
                    }
                    T::lemma_transitive(before[a], x@, before[b - 1]);
                }
            } else if a == i {
                assert(after[b] == before[b - 1]);
                if b - 1 > i {
                    T::lemma_transitive(x@, before[i as int], before[b - 1]);
                }
            } else {
                assert(after[a] == before[a - 1]);
                assert(after[b] == before[b - 1]);
            }
        }
        assert forall|y: T::V| #[trigger] after.to_set().contains(y) <==> before.to_set().insert(x@).contains(y) by {
            if after.to_set().contains(y) {
                let k = choose|k: int| 0 <= k < after.len() && after[k] == y;
                if k < i {
                    assert(before[k] == y);
                } else if k > i {
                    assert(before[k - 1] == y);
                }
            }
            if before.to_set().contains(y) {
                let k = choose|k: int| 0 <= k < before.len() && before[k] == y;
                if k < i {
                    assert(after[k] == y);
                } else {
                    assert(after[k + 1] == y);
                }
            }
            if y == x@ {
                assert(after[i as int] == y);
            }
        }
        assert(after.to_set() =~= before.to_set().insert(x@));
    }
}

/// The values of `v` in strictly increasing order with duplicates removed.
pub fn sort_unique<T: Ordered>(v: Vec<T>) -> (r: Vec<T>)
    ensures
        sorted_strict::<T>(views(r@)),
        views(r@).to_set() == views(v@).to_set(),
{
    let ghost source = views(v@);
    let mut r: Vec<T> = Vec::new();
    let mut rest = v;
    proof {
        assert(views(r@).to_set() =~= Set::empty());
        assert(views(r@).to_set().union(views(rest@).to_set()) =~= source.to_set());
    }
    // Values move over from the back; the order of insertion does not matter.
    while rest.len() > 0
        invariant
            sorted_strict::<T>(views(r@)),
            views(r@).to_set().union(views(rest@).to_set()) == source.to_set(),
        decreases rest.len(),
    {
        let ghost before_rest = views(rest@);
        let ghost before_r = views(r@);
        let x = rest.pop().unwrap();
        proof {
            assert(before_rest =~= views(rest@).push(x@));
        }
        insert_unique(&mut r, x);
        proof {
            assert(views(r@).to_set().union(views(rest@).to_set()) =~= source.to_set()) by {
                assert forall|y: T::V| source.to_set().contains(y) implies #[trigger] views(r@).to_set().union(
                    views(rest@).to_set(),
                ).contains(y) by {
                    if before_rest.to_set().contains(y) {
                        let k = choose|k: int| 0 <= k < before_rest.len() && before_rest[k] == y;
                        if k < before_rest.len() - 1 {
                            assert(views(rest@)[k] == y);
                        }
                    }
                }
                assert forall|y: T::V| #[trigger] views(r@).to_set().union(views(rest@).to_set()).contains(
                    y,
                ) implies source.to_set().contains(y) by {
                    if views(rest@).to_set().contains(y) {
                        let k = choose|k: int| 0 <= k < views(rest@).len() && views(rest@)[k] == y;
                        assert(before_rest[k] == y);
                    }
                    if y == x@ {
                        assert(before_rest[before_rest.len() - 1] == y);
                    }
                }
            }
        }
    }
    proof {
        assert(views(rest@).to_set() =~= Set::empty());
        assert(views(r@).to_set().union(Set::empty()) =~= views(r@).to_set());
    }
    r
}

/// Sorted by code point order; equal neighbours are allowed.
pub open spec fn sorted_texts(s: Seq<Seq<char>>) -> bool {
    forall|i: int, j: int| 0 <= i < j < s.len() ==> !seq_lt(#[trigger] s[j], #[trigger] s[i])
}

/// The strings in sorted order, duplicates kept.
pub fn sort_strings(v: &Vec<String>) -> (r: Vec<String>)
    ensures
        sorted_texts(views(r@)),
        views(r@).to_multiset() == views(v@).to_multiset(),
{
    let mut r: Vec<String> = Vec::new();
    let mut i: usize = 0;
    proof {
        assert(views(v@.take(0)) =~= Seq::<Seq<char>>::empty());
        assert(views(r@) =~= Seq::<Seq<char>>::empty());
    }
    while i < v.len()
        invariant
            i <= v.len(),
            sorted_texts(views(r@)),
            views(r@).to_multiset() == views(v@.take(i as int)).to_multiset(),
        decreases v.len() - i,
    {
        let x = &v[i];
        let mut p: usize = 0;
        while p < r.len()
            invariant
                p <= r.len(),
                forall|k: int| 0 <= k < p ==> !seq_lt(x@, #[trigger] r@[k]@),
            ensures
                p <= r.len(),
                forall|k: int| 0 <= k < p ==> !seq_lt(x@, #[trigger] r@[k]@),
                p < r.len() ==> seq_lt(x@, r@[p as int]@),
            decreases r.len() - p,
        {
            if str_compare(x.as_str(), r[p].as_str()) == -1 {
                break;
            }
            p = p + 1;
        }
        let ghost old_r = views(r@);
        r.insert(p, x.clone());
        proof {
            let n = views(r@);
            assert(n =~= old_r.insert(p as int, x@));
            assert forall|a: int, b: int| 0 <= a < b < n.len() implies !seq_lt(#[trigger] n[b], #[trigger] n[a]) by {
                if b < p {
                    assert(n[a] == old_r[a] && n[b] == old_r[b]);
                } else if a > p {
                    assert(n[a] == old_r[a - 1] && n[b] == old_r[b - 1]);
                } else if b == p {
                    assert(n[a] == old_r[a] && n[b] == x@);
                } else if a == p {
                    assert(n[a] == x@ && n[b] == old_r[b - 1]);
                    assert(seq_lt(x@, old_r[p as int]));
                    if seq_lt(old_r[b - 1], x@) {
                        lemma_seq_lt_transitive(old_r[b - 1], x@, old_r[p as int]);
                        if b - 1 > p {
                            assert(!seq_lt(old_r[b - 1], old_r[p as int]));
                        } else {
                            lemma_seq_lt_irreflexive(old_r[p as int]);
                        }
                    }
                } else {
                    assert(n[a] == old_r[a] && n[b] == old_r[b - 1]);
                }
            }
            assert(views(v@.take(i + 1)) =~= views(v@.take(i as int)).push(x@));
            vstd::seq_lib::to_multiset_insert(old_r, p as int, x@);
            vstd::seq_lib::to_multiset_build(views(v@.take(i as int)), x@);
        }
        i = i + 1;
    }
    proof {
        assert(v@.take(v.len() as int) =~= v@);
    }
    r
}

/// The keys of a map held as key/value pairs are strictly increasing, so
/// each key occurs once and the pairs are in key order.
pub open spec fn keys_sorted(p: Seq<(String, String)>) -> bool {
    forall|i: int, j: int| 0 <= i < j < p.len() ==> seq_lt(#[trigger] p[i].0@, #[trigger] p[j].0@)
}

/// Whether the keys of the pairs are strictly increasing.
pub fn check_keys_sorted(p: &Vec<(String, String)>) -> (r: bool)
    ensures
        r == keys_sorted(p@),
{
    if p.len() == 0 {
        return true;
    }
    let mut k: usize = 1;
    while k < p.len()
        invariant
            1 <= k <= p.len(),
            forall|i: int, j: int| 0 <= i < j < k ==> seq_lt(#[trigger] p@[i].0@, #[trigger] p@[j].0@),
        decreases p.len() - k,
    {
        if str_compare(p[k - 1].0.as_str(), p[k].0.as_str()) != -1 {
            proof {
                assert(!seq_lt(p@[k - 1].0@, p@[k as int].0@));
            }
            return false;
        }
        proof {
            assert forall|i: int, j: int| 0 <= i < j < k + 1 implies seq_lt(#[trigger] p@[i].0@, #[trigger] p@[j].0@) by {
                if j == k && i < k - 1 {
                    assert(seq_lt(p@[i].0@, p@[k - 1].0@));
                    lemma_seq_lt_transitive(p@[i].0@, p@[k - 1].0@, p@[j].0@);
                }
            }
        }
        k = k + 1;
    }
    true
}

} // verus!
