//! Ordering of records by a text key: the stable sort that gives every list
//! this crate reports a fixed order.

use vstd::prelude::*;
use crate::text::lemma_precedes_irreflexive;
use crate::text::lemma_precedes_total;
use crate::text::lemma_precedes_transitive;
use crate::text::precedes;
use crate::text::text_precedes;

verus! {

/// A record that is listed in the order of a text key, such as a label by
/// its name.
pub trait Keyed: DeepView {
    /// The key of a record, read from its value.
    spec fn key_of(v: Self::V) -> Seq<char>;

    /// The key of this record.
    fn key(&self) -> (k: &String)
        ensures
            k@ == Self::key_of(self.deep_view()),
    ;
}

impl Keyed for String {
    open spec fn key_of(v: Seq<char>) -> Seq<char> {
        v
    }

    fn key(&self) -> (k: &String) {
        self
    }
}

/// No record of `s` comes after a record whose key precedes its own.
pub open spec fn is_sorted<T: Keyed>(s: Seq<T::V>) -> bool {
    forall|i: int, j: int| 0 <= i < j < s.len() ==> !precedes(T::key_of(s[j]), T::key_of(s[i]))
}

/// `t` with `x` put in front of the first record whose key does not precede
/// the key of `x`.
pub open spec fn insert_sorted<T: Keyed>(x: T::V, t: Seq<T::V>) -> Seq<T::V>
    decreases t.len(),
{
    if t.len() > 0 && precedes(T::key_of(t[0]), T::key_of(x)) {
        seq![t[0]] + insert_sorted::<T>(x, t.drop_first())
    } else {
        seq![x] + t
    }
}

/// The records of `s` in the order of their keys; records with the same key
/// keep the order they have in `s`.
pub open spec fn sorted_seq<T: Keyed>(s: Seq<T::V>) -> Seq<T::V>
    decreases s.len(),
{
    if s.len() == 0 {
        s
    } else {
        insert_sorted::<T>(s[0], sorted_seq::<T>(s.drop_first()))
    }
}

proof fn lemma_insert_at<T: Keyed>(x: T::V, t: Seq<T::V>, j: int)
    requires
        0 <= j <= t.len(),
        forall|k: int| 0 <= k < j ==> precedes(T::key_of(t[k]), T::key_of(x)),
        j < t.len() ==> !precedes(T::key_of(t[j]), T::key_of(x)),
    ensures
        insert_sorted::<T>(x, t) == t.insert(j, x),
    decreases j,
{
    if j == 0 {
        assert(seq![x] + t =~= t.insert(0, x));
    } else {
        let rest = t.drop_first();
        assert forall|k: int| 0 <= k < j - 1 implies precedes(
            T::key_of(rest[k]),
            T::key_of(x),
        ) by {
            assert(rest[k] == t[k + 1]);
        }
        if j < t.len() {
            assert(rest[j - 1] == t[j]);
        }
        lemma_insert_at::<T>(x, rest, j - 1);
        assert(seq![t[0]] + rest.insert(j - 1, x) =~= t.insert(j, x));
    }
}

/// Inserting keeps every record and adds the new one.
pub proof fn lemma_insert_members<T: Keyed>(x: T::V, t: Seq<T::V>)
    ensures
        insert_sorted::<T>(x, t).len() == t.len() + 1,
        insert_sorted::<T>(x, t).to_multiset() == t.to_multiset().insert(x),
        forall|y: T::V| #[trigger]
            insert_sorted::<T>(x, t).contains(y) <==> (y == x || t.contains(y)),
    decreases t.len(),
{
    broadcast use vstd::seq_lib::group_to_multiset_ensures;

    let r = insert_sorted::<T>(x, t);
    if t.len() > 0 && precedes(T::key_of(t[0]), T::key_of(x)) {
        let rest = t.drop_first();
        lemma_insert_members::<T>(x, rest);
        let inner = insert_sorted::<T>(x, rest);
        assert(t =~= seq![t[0]] + rest);
        vstd::seq_lib::lemma_multiset_commutative(seq![t[0]], rest);
        vstd::seq_lib::lemma_multiset_commutative(seq![t[0]], inner);
        assert(r.to_multiset() =~= t.to_multiset().insert(x));
        assert forall|y: T::V| #[trigger] r.contains(y) <==> (y == x || t.contains(y)) by {
            if r.contains(y) {
                let i = choose|i: int| 0 <= i < r.len() && r[i] == y;
                if i > 0 {
                    assert(inner[i - 1] == y);
                    assert(inner.contains(y));
                    if y != x {
                        let k = choose|k: int| 0 <= k < rest.len() && rest[k] == y;
                        assert(t[k + 1] == y);
                    }
                } else {
                    assert(t[0] == y);
                }
            }
            if y == x {
                assert(inner.contains(x));
                let k = choose|k: int| 0 <= k < inner.len() && inner[k] == x;
                assert(r[k + 1] == x);
            }
            if t.contains(y) {
                let k = choose|k: int| 0 <= k < t.len() && t[k] == y;
                if k == 0 {
                    assert(r[0] == y);
                } else {
                    assert(rest[k - 1] == y);
                    assert(inner.contains(y));
                    let m = choose|m: int| 0 <= m < inner.len() && inner[m] == y;
                    assert(r[m + 1] == y);
                }
            }
        }
    } else {
        vstd::seq_lib::lemma_multiset_commutative(seq![x], t);
        assert(seq![x].to_multiset() =~= vstd::multiset::Multiset::<T::V>::empty().insert(x)) by {
            assert(seq![x] =~= Seq::<T::V>::empty().push(x));
        }
        assert(r.to_multiset() =~= t.to_multiset().insert(x));
        assert forall|y: T::V| #[trigger] r.contains(y) <==> (y == x || t.contains(y)) by {
            if r.contains(y) {
                let i = choose|i: int| 0 <= i < r.len() && r[i] == y;
                if i > 0 {
                    assert(t[i - 1] == y);
                }
            }
            if y == x {
                assert(r[0] == x);
            }
            if t.contains(y) {
                let k = choose|k: int| 0 <= k < t.len() && t[k] == y;
                assert(r[k + 1] == y);
            }
        }
    }
}

/// Inserting into a sorted list gives a sorted list.
pub proof fn lemma_insert_sorted<T: Keyed>(x: T::V, t: Seq<T::V>)
    requires
        is_sorted::<T>(t),
    ensures
        is_sorted::<T>(insert_sorted::<T>(x, t)),
    decreases t.len(),
{
    let r = insert_sorted::<T>(x, t);
    if t.len() > 0 && precedes(T::key_of(t[0]), T::key_of(x)) {
        let rest = t.drop_first();
        assert(is_sorted::<T>(rest)) by {
            assert forall|i: int, j: int| 0 <= i < j < rest.len() implies !precedes(
                T::key_of(rest[j]),
                T::key_of(rest[i]),
            ) by {
                assert(rest[i] == t[i + 1] && rest[j] == t[j + 1]);
            }
        }
        lemma_insert_sorted::<T>(x, rest);
        lemma_insert_members::<T>(x, rest);
        let inner = insert_sorted::<T>(x, rest);
        assert forall|i: int, j: int| 0 <= i < j < r.len() implies !precedes(
            T::key_of(r[j]),
            T::key_of(r[i]),
        ) by {
            if i == 0 {
                let y = r[j];
                assert(inner[j - 1] == y);
                assert(inner.contains(y));
                if y == x {
                    lemma_precedes_total(T::key_of(t[0]), T::key_of(x));
                } else {
                    let k = choose|k: int| 0 <= k < rest.len() && rest[k] == y;
                    assert(t[k + 1] == y);
                }
            } else {
                assert(r[i] == inner[i - 1] && r[j] == inner[j - 1]);
            }
        }
    } else {
        assert forall|i: int, j: int| 0 <= i < j < r.len() implies !precedes(
            T::key_of(r[j]),
            T::key_of(r[i]),
        ) by {
            if i == 0 {
                assert(r[j] == t[j - 1]);
                if j - 1 > 0 && precedes(T::key_of(t[j - 1]), T::key_of(x)) {
                    // t[0] does not precede x, and t[j - 1] does not precede t[0]
                    lemma_precedes_total(T::key_of(t[0]), T::key_of(x));
                    lemma_precedes_total(T::key_of(t[j - 1]), T::key_of(t[0]));
                    if precedes(T::key_of(x), T::key_of(t[0])) {
                        lemma_precedes_transitive(
                            T::key_of(t[j - 1]),
                            T::key_of(x),
                            T::key_of(t[0]),
                        );
                    }
                }
            } else {
                assert(r[i] == t[i - 1] && r[j] == t[j - 1]);
            }
        }
    }
}

/// What `sorted_seq` gives is sorted, and holds the records it was given.
pub proof fn lemma_sorted_seq<T: Keyed>(s: Seq<T::V>)
    ensures
        is_sorted::<T>(sorted_seq::<T>(s)),
        sorted_seq::<T>(s).len() == s.len(),
        sorted_seq::<T>(s).to_multiset() == s.to_multiset(),
        forall|y: T::V| #[trigger] sorted_seq::<T>(s).contains(y) <==> s.contains(y),
    decreases s.len(),
{
    broadcast use vstd::seq_lib::group_to_multiset_ensures;

    if s.len() > 0 {
        let rest = s.drop_first();
        let inner = sorted_seq::<T>(rest);
        lemma_sorted_seq::<T>(rest);
        lemma_insert_sorted::<T>(s[0], inner);
        lemma_insert_members::<T>(s[0], inner);
        assert(s =~= seq![s[0]] + rest);
        vstd::seq_lib::lemma_multiset_commutative(seq![s[0]], rest);
        assert(seq![s[0]].to_multiset() =~= vstd::multiset::Multiset::<T::V>::empty().insert(
            s[0],
        )) by {
            assert(seq![s[0]] =~= Seq::<T::V>::empty().push(s[0]));
        }
        assert(sorted_seq::<T>(s).to_multiset() =~= s.to_multiset());
        assert forall|y: T::V| #[trigger] sorted_seq::<T>(s).contains(y) <==> s.contains(y) by {
            if s.contains(y) {
                let k = choose|k: int| 0 <= k < s.len() && s[k] == y;
                if k > 0 {
                    assert(rest[k - 1] == y);
                }
            }
            if rest.contains(y) {
                let k = choose|k: int| 0 <= k < rest.len() && rest[k] == y;
                assert(s[k + 1] == y);
            }
            assert(s[0] == s[0]);
        }
    }
}

/// Sorts `v` by key; records with the same key keep their order.
pub fn sort_by_key<T: Keyed>(v: Vec<T>) -> (r: Vec<T>)
    ensures
        r.deep_view() == sorted_seq::<T>(v.deep_view()),
        is_sorted::<T>(r.deep_view()),
{
    let ghost orig = v.deep_view();
    let mut rest = v;
    let mut out: Vec<T> = Vec::new();
    assert(orig.skip(orig.len() as int) =~= Seq::<T::V>::empty());
    assert(out.deep_view() =~= Seq::<T::V>::empty());
    while rest.len() > 0
        invariant
            rest.len() <= orig.len(),
            rest.deep_view() == orig.take(rest.len() as int),
            out.deep_view() == sorted_seq::<T>(orig.skip(rest.len() as int)),
            out.len() + rest.len() == orig.len(),
        decreases rest.len(),
    {
        let ghost n = rest.len() as int;
        let ghost before = rest.deep_view();
        let x = rest.pop().unwrap();
        proof {
            assert(x.deep_view() == before[n - 1]);
            assert(rest.deep_view() =~= orig.take(n - 1));
            assert(orig.skip(n - 1).drop_first() =~= orig.skip(n));
            assert(orig.skip(n - 1)[0] == orig[n - 1]);
            lemma_sorted_seq::<T>(orig.skip(n));
        }
        let mut j: usize = 0;
        while j < out.len() && text_precedes(out[j].key().as_str(), x.key().as_str())
            invariant
                j <= out.len(),
                forall|k: int|
                    0 <= k < j ==> precedes(
                        T::key_of(out.deep_view()[k]),
                        T::key_of(x.deep_view()),
                    ),
            decreases out.len() - j,
        {
            j += 1;
        }
        proof {
            lemma_insert_at::<T>(x.deep_view(), out.deep_view(), j as int);
        }
        let ghost prev = out.deep_view();
        let ghost xv = x.deep_view();
        out.insert(j, x);
        assert(out.deep_view() =~= prev.insert(j as int, xv));
    }
    proof {
        assert(orig.skip(0) =~= orig);
        lemma_sorted_seq::<T>(orig);
    }
    out
}

/// A list of no record or of one record is its own sorted form.
pub proof fn lemma_sorted_small<T: Keyed>(s: Seq<T::V>)
    requires
        s.len() <= 1,
    ensures
        sorted_seq::<T>(s) == s,
{
    if s.len() == 1 {
        assert(s.drop_first() =~= Seq::<T::V>::empty());
        assert(sorted_seq::<T>(s.drop_first()) =~= Seq::<T::V>::empty());
        assert(insert_sorted::<T>(s[0], Seq::<T::V>::empty()) =~= seq![s[0]]);
        assert(seq![s[0]] =~= s);
    } else {
        assert(s =~= Seq::<T::V>::empty());
    }
}

/// No two records of `s` have the same key.
pub open spec fn distinct_keys<T: Keyed>(s: Seq<T::V>) -> bool {
    forall|i: int, j: int| 0 <= i < j < s.len() ==> T::key_of(s[i]) != T::key_of(s[j])
}

/// Some record of `s` has the key `key`.
pub open spec fn has_key<T: Keyed>(s: Seq<T::V>, key: Seq<char>) -> bool {
    exists|i: int| 0 <= i < s.len() && T::key_of(s[i]) == key
}

/// Inserting puts the new record at some position and moves no other.
pub proof fn lemma_insert_position<T: Keyed>(x: T::V, t: Seq<T::V>) -> (j: int)
    ensures
        0 <= j <= t.len(),
        insert_sorted::<T>(x, t) == t.insert(j, x),
    decreases t.len(),
{
    if t.len() > 0 && precedes(T::key_of(t[0]), T::key_of(x)) {
        let rest = t.drop_first();
        let k = lemma_insert_position::<T>(x, rest);
        assert(seq![t[0]] + rest.insert(k, x) =~= t.insert(k + 1, x));
        k + 1
    } else {
        assert(seq![x] + t =~= t.insert(0, x));
        0
    }
}

/// Sorting keeps keys distinct.
pub proof fn lemma_sorted_distinct<T: Keyed>(s: Seq<T::V>)
    requires
        distinct_keys::<T>(s),
    ensures
        distinct_keys::<T>(sorted_seq::<T>(s)),
    decreases s.len(),
{
    if s.len() > 0 {
        let rest = s.drop_first();
        assert(distinct_keys::<T>(rest)) by {
            assert forall|i: int, j: int| 0 <= i < j < rest.len() implies T::key_of(rest[i])
                != T::key_of(rest[j]) by {
                assert(rest[i] == s[i + 1] && rest[j] == s[j + 1]);
            }
        }
        lemma_sorted_distinct::<T>(rest);
        lemma_sorted_seq::<T>(rest);
        let inner = sorted_seq::<T>(rest);
        let x = s[0];
        let p = lemma_insert_position::<T>(x, inner);
        let r = inner.insert(p, x);
        assert forall|k: int| 0 <= k < inner.len() implies T::key_of(#[trigger] inner[k])
            != T::key_of(x) by {
            assert(inner.contains(inner[k]));
            assert(rest.contains(inner[k]));
            let m = choose|m: int| 0 <= m < rest.len() && rest[m] == inner[k];
            assert(s[m + 1] == rest[m]);
        }
        assert forall|i: int, j: int| 0 <= i < j < r.len() implies T::key_of(r[i]) != T::key_of(
            r[j],
        ) by {
            let a = if i < p {
                i
            } else {
                i - 1
            };
            let b = if j < p {
                j
            } else {
                j - 1
            };
            if i != p && j != p {
                assert(r[i] == inner[a] && r[j] == inner[b]);
            } else if i == p {
                assert(r[j] == inner[b]);
            } else {
                assert(r[i] == inner[a]);
            }
        }
    }
}

/// Two sorted lists with distinct keys that hold the same keys hold them
/// at the same positions.
pub proof fn lemma_sorted_keys_unique<T: Keyed>(s: Seq<T::V>, t: Seq<T::V>)
    requires
        is_sorted::<T>(s),
        is_sorted::<T>(t),
        distinct_keys::<T>(s),
        distinct_keys::<T>(t),
        forall|i: int| 0 <= i < s.len() ==> has_key::<T>(t, T::key_of(#[trigger] s[i])),
        forall|j: int| 0 <= j < t.len() ==> has_key::<T>(s, T::key_of(#[trigger] t[j])),
    ensures
        s.len() == t.len(),
        forall|i: int| 0 <= i < s.len() ==> T::key_of(#[trigger] s[i]) == T::key_of(t[i]),
    decreases s.len(),
{
    if s.len() == 0 {
        if t.len() > 0 {
            assert(has_key::<T>(s, T::key_of(t[0])));
        }
    } else {
        assert(has_key::<T>(t, T::key_of(s[0])));
        let j = choose|j: int| 0 <= j < t.len() && T::key_of(t[j]) == T::key_of(s[0]);
        assert(has_key::<T>(s, T::key_of(t[0])));
        let i = choose|i: int| 0 <= i < s.len() && T::key_of(s[i]) == T::key_of(t[0]);
        if j > 0 {
            lemma_precedes_total(T::key_of(t[0]), T::key_of(t[j]));
            if i > 0 {
                assert(!precedes(T::key_of(s[i]), T::key_of(s[0])));
            } else {
                lemma_precedes_irreflexive(T::key_of(s[0]));
            }
        }
        assert(T::key_of(s[0]) == T::key_of(t[0]));
        let s1 = s.drop_first();
        let t1 = t.drop_first();
        assert forall|a: int, b: int| 0 <= a < b < s1.len() implies !precedes(
            T::key_of(s1[b]),
            T::key_of(s1[a]),
        ) && T::key_of(s1[a]) != T::key_of(s1[b]) by {
            assert(s1[a] == s[a + 1] && s1[b] == s[b + 1]);
        }
        assert forall|a: int, b: int| 0 <= a < b < t1.len() implies !precedes(
            T::key_of(t1[b]),
            T::key_of(t1[a]),
        ) && T::key_of(t1[a]) != T::key_of(t1[b]) by {
            assert(t1[a] == t[a + 1] && t1[b] == t[b + 1]);
        }
        assert forall|a: int| 0 <= a < s1.len() implies has_key::<T>(
            t1,
            T::key_of(#[trigger] s1[a]),
        ) by {
            assert(s1[a] == s[a + 1]);
            assert(has_key::<T>(t, T::key_of(s[a + 1])));
            let m = choose|m: int| 0 <= m < t.len() && T::key_of(t[m]) == T::key_of(s[a + 1]);
            assert(m > 0);
            assert(t1[m - 1] == t[m]);
        }
        assert forall|b: int| 0 <= b < t1.len() implies has_key::<T>(
            s1,
            T::key_of(#[trigger] t1[b]),
        ) by {
            assert(t1[b] == t[b + 1]);
            assert(has_key::<T>(s, T::key_of(t[b + 1])));
            let m = choose|m: int| 0 <= m < s.len() && T::key_of(s[m]) == T::key_of(t[b + 1]);
            assert(m > 0);
            assert(s1[m - 1] == s[m]);
        }
        lemma_sorted_keys_unique::<T>(s1, t1);
        assert forall|k: int| 0 <= k < s.len() implies T::key_of(#[trigger] s[k]) == T::key_of(
            t[k],
        ) by {
            if k > 0 {
                assert(s1[k - 1] == s[k] && t1[k - 1] == t[k]);
            }
        }
    }
}

} // verus!
