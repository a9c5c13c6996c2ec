//! Order-preserving removal of repeated strings.

use crate::text::{contains_string, lemma_strings_push, strings};
use vstd::prelude::*;

verus! {

/// The elements of `s` in their order, each kept only where it occurs first.
pub open spec fn stable_dedup<T>(s: Seq<T>) -> Seq<T>
    decreases s.len(),
{
    if s.len() == 0 {
        Seq::empty()
    } else {
        let kept = stable_dedup(s.drop_last());
        if s.drop_last().contains(s.last()) {
            kept
        } else {
            kept.push(s.last())
        }
    }
}

/// `s` holds `x` at index `i` and nowhere before it.
pub open spec fn is_first_position<T>(s: Seq<T>, x: T, i: int) -> bool {
    &&& 0 <= i < s.len()
    &&& s[i] == x
    &&& forall|k: int| 0 <= k < i ==> s[k] != x
}

/// The index at which `x` first occurs in `s`, for an `x` that `s` holds.
pub open spec fn first_position<T>(s: Seq<T>, x: T) -> int {
    choose|i: int| is_first_position(s, x, i)
}

/// Whether `r` holds no element twice, holds exactly the elements of `s`,
/// and lists them in the order in which they first occur in `s`.
pub open spec fn lists_first_occurrences<T>(s: Seq<T>, r: Seq<T>) -> bool {
    &&& r.no_duplicates()
    &&& forall|x: T| #[trigger] r.contains(x) <==> s.contains(x)
    &&& forall|i: int, j: int|
        0 <= i < j < r.len() ==> first_position(s, #[trigger] r[i]) < first_position(
            s,
            #[trigger] r[j],
        )
}

/// `stable_dedup(s)` holds exactly the elements of `s`.
pub proof fn lemma_stable_dedup_same_elements<T>(s: Seq<T>)
    ensures
        forall|x: T| #[trigger] stable_dedup(s).contains(x) <==> s.contains(x),
    decreases s.len(),
{
    if s.len() > 0 {
        let front = s.drop_last();
        lemma_stable_dedup_same_elements(front);
        assert forall|x: T| #[trigger] stable_dedup(s).contains(x) <==> s.contains(x) by {
            let kept = stable_dedup(front);
            if stable_dedup(s).contains(x) {
                let i = choose|i: int| 0 <= i < stable_dedup(s).len() && stable_dedup(s)[i] == x;
                if i < kept.len() {
                    assert(kept[i] == x);
                    assert(kept.contains(x));
                    assert(front.contains(x));
                    let k = choose|k: int| 0 <= k < front.len() && front[k] == x;
                    assert(s[k] == x);
                } else {
                    assert(s[s.len() - 1] == x);
                }
            }
            if s.contains(x) {
                let k = choose|k: int| 0 <= k < s.len() && s[k] == x;
                if k < front.len() {
                    assert(front[k] == x);
                    assert(front.contains(x));
                    assert(kept.contains(x));
                    let i = choose|i: int| 0 <= i < kept.len() && kept[i] == x;
                    assert(stable_dedup(s)[i] == x);
                } else {
                    if front.contains(x) {
                        assert(kept.contains(x));
                        let i = choose|i: int| 0 <= i < kept.len() && kept[i] == x;
                        assert(stable_dedup(s)[i] == x);
                    } else {
                        assert(stable_dedup(s)[kept.len() as int] == x);
                    }
                }
            }
        }
    }
}

/// Appending one element appends it to the result unless it was there already.
pub proof fn lemma_stable_dedup_push<T>(s: Seq<T>, x: T)
    ensures
        stable_dedup(s.push(x)) == if stable_dedup(s).contains(x) {
            stable_dedup(s)
        } else {
            stable_dedup(s).push(x)
        },
{
    lemma_stable_dedup_same_elements(s);
    assert(s.push(x).drop_last() =~= s);
}

/// A first position in `s` stays the first position when `s` is extended.
pub proof fn lemma_first_position_extends<T>(s: Seq<T>, rest: Seq<T>, x: T, i: int)
    requires
        is_first_position(s, x, i),
    ensures
        is_first_position(s + rest, x, i),
{
    assert((s + rest)[i] == s[i]);
    assert forall|k: int| 0 <= k < i implies (s + rest)[k] != x by {
        assert((s + rest)[k] == s[k]);
    }
}

/// An element that occurs in `s` has exactly one first position.
pub proof fn lemma_first_position<T>(s: Seq<T>, x: T)
    requires
        s.contains(x),
    ensures
        is_first_position(s, x, first_position(s, x)),
        forall|i: int| is_first_position(s, x, i) ==> i == first_position(s, x),
    decreases s.len(),
{
    let front = s.drop_last();
    if front.contains(x) {
        lemma_first_position(front, x);
        assert(front + seq![s.last()] =~= s);
        lemma_first_position_extends(front, seq![s.last()], x, first_position(front, x));
    } else {
        let i = choose|i: int| 0 <= i < s.len() && s[i] == x;
        if i < front.len() {
            assert(front[i] == x);
        }
        assert forall|k: int| 0 <= k < s.len() - 1 implies s[k] != x by {
            assert(front[k] == s[k]);
        }
        assert(is_first_position(s, x, s.len() - 1));
    }
}

/// The law of order-preserving deduplication: the result holds no element
/// twice, holds exactly the elements of the input, and lists them in the
/// order in which they first occur there.
pub proof fn lemma_stable_dedup_keeps_first_occurrences<T>(s: Seq<T>)
    ensures
        lists_first_occurrences(s, stable_dedup(s)),
    decreases s.len(),
{
    lemma_stable_dedup_same_elements(s);
    if s.len() > 0 {
        let front = s.drop_last();
        let kept = stable_dedup(front);
        let all = stable_dedup(s);
        lemma_stable_dedup_keeps_first_occurrences(front);
        lemma_stable_dedup_same_elements(front);
        assert(front + seq![s.last()] =~= s);
        assert forall|i: int, j: int| 0 <= i < j < all.len() implies first_position(
            s,
            #[trigger] all[i],
        ) < first_position(s, #[trigger] all[j]) by {
            assert(kept[i] == all[i]);
            assert(kept.contains(all[i]));
            assert(front.contains(all[i]));
            lemma_first_position(front, all[i]);
            lemma_first_position_extends(
                front,
                seq![s.last()],
                all[i],
                first_position(front, all[i]),
            );
            assert(s.contains(all[i]));
            lemma_first_position(s, all[i]);
            if j < kept.len() {
                assert(kept[j] == all[j]);
                assert(kept.contains(all[j]));
                assert(front.contains(all[j]));
                lemma_first_position(front, all[j]);
                lemma_first_position_extends(
                    front,
                    seq![s.last()],
                    all[j],
                    first_position(front, all[j]),
                );
                assert(s.contains(all[j]));
                lemma_first_position(s, all[j]);
            } else {
                assert(all[j] == s.last());
                assert(s.contains(all[j]));
                lemma_first_position(s, all[j]);
                if first_position(s, all[j]) < front.len() {
                    assert(front[first_position(s, all[j])] == all[j]);
                }
            }
        }
        assert forall|i: int, j: int| 0 <= i < all.len() && 0 <= j < all.len() && i != j implies all[i]
            != all[j] by {
            if i < kept.len() && j < kept.len() {
                assert(kept[i] != kept[j]);
            } else if i < kept.len() {
                assert(kept.contains(kept[i]));
            } else if j < kept.len() {
                assert(kept.contains(kept[j]));
            }
        }
    }
}

/// Only one sequence lists the first occurrences of `s`: `stable_dedup(s)`.
pub proof fn lemma_first_occurrences_are_unique<T>(s: Seq<T>, r: Seq<T>)
    requires
        lists_first_occurrences(s, r),
    ensures
        r == stable_dedup(s),
    decreases s.len(),
{
    if s.len() == 0 {
        if r.len() > 0 {
            assert(r.contains(r[0]));
        }
        assert(r =~= stable_dedup(s));
    } else {
        let front = s.drop_last();
        let last = s.last();
        assert(front + seq![last] =~= s);
        assert(s.contains(last)) by {
            assert(s[s.len() - 1] == last);
        }
        assert forall|x: T| front.contains(x) implies s.contains(x) && first_position(s, x)
            == first_position(front, x) by {
            lemma_first_position(front, x);
            lemma_first_position_extends(front, seq![last], x, first_position(front, x));
            assert(s[first_position(front, x)] == x);
            lemma_first_position(s, x);
        }
        if front.contains(last) {
            assert forall|x: T| #[trigger] r.contains(x) <==> front.contains(x) by {
                if s.contains(x) {
                    let i = choose|i: int| 0 <= i < s.len() && s[i] == x;
                    if i < front.len() {
                        assert(front[i] == x);
                    }
                }
            }
            assert forall|i: int, j: int| 0 <= i < j < r.len() implies first_position(
                front,
                #[trigger] r[i],
            ) < first_position(front, #[trigger] r[j]) by {
                assert(r.contains(r[i]));
                assert(r.contains(r[j]));
            }
            lemma_first_occurrences_are_unique(front, r);
        } else {
            lemma_first_position(s, last);
            assert(first_position(s, last) == s.len() - 1) by {
                if first_position(s, last) < front.len() {
                    assert(front[first_position(s, last)] == last);
                }
            }
            assert(r.contains(last));
            let p = choose|p: int| 0 <= p < r.len() && r[p] == last;
            if p < r.len() - 1 {
                let other = r[r.len() - 1];
                assert(r.contains(other));
                lemma_first_position(s, other);
            }
            let rest = r.drop_last();
            assert forall|x: T| #[trigger] rest.contains(x) <==> front.contains(x) by {
                if rest.contains(x) {
                    let i = choose|i: int| 0 <= i < rest.len() && rest[i] == x;
                    assert(r[i] == x);
                    assert(r.contains(x));
                    let k = choose|k: int| 0 <= k < s.len() && s[k] == x;
                    assert(front[k] == x);
                }
                if front.contains(x) {
                    assert(r.contains(x));
                    let i = choose|i: int| 0 <= i < r.len() && r[i] == x;
                    assert(rest[i] == x);
                }
            }
            assert forall|i: int, j: int| 0 <= i < j < rest.len() implies first_position(
                front,
                #[trigger] rest[i],
            ) < first_position(front, #[trigger] rest[j]) by {
                assert(rest.contains(rest[i]));
                assert(rest.contains(rest[j]));
                assert(rest[i] == r[i] && rest[j] == r[j]);
            }
            assert(rest.no_duplicates()) by {
                assert forall|i: int, j: int|
                    0 <= i < rest.len() && 0 <= j < rest.len() && i != j implies rest[i]
                    != rest[j] by {
                    assert(rest[i] == r[i] && rest[j] == r[j]);
                }
            }
            lemma_first_occurrences_are_unique(front, rest);
            assert(r =~= rest.push(last));
        }
    }
}

/// Merging two lists: the result holds no element twice, holds exactly the
/// elements of either list, and lists them in the order of their first
/// occurrence when the first list is read before the second.
pub proof fn lemma_merge_of_two<T>(a: Seq<T>, b: Seq<T>)
    ensures
        seq![a, b].flatten() == a + b,
        stable_dedup(a + b).no_duplicates(),
        forall|x: T| #[trigger] stable_dedup(a + b).contains(x) <==> a.contains(x) || b.contains(x),
        forall|i: int, j: int|
            0 <= i < j < stable_dedup(a + b).len() ==> first_position(
                a + b,
                #[trigger] stable_dedup(a + b)[i],
            ) < first_position(a + b, #[trigger] stable_dedup(a + b)[j]),
        forall|x: T| a.contains(x) ==> first_position(a + b, x) == first_position(a, x),
        forall|x: T|
            !a.contains(x) && b.contains(x) ==> first_position(a + b, x) == a.len()
                + first_position(b, x),
{
    lemma_stable_dedup_keeps_first_occurrences(a + b);
    assert(seq![a, b].flatten() == a + b) by {
        let empty: Seq<Seq<T>> = Seq::empty();
        assert(seq![a, b] =~= empty.push(a).push(b));
        empty.lemma_flatten_push(a);
        empty.push(a).lemma_flatten_push(b);
        assert(empty.flatten() =~= Seq::<T>::empty());
        assert(Seq::<T>::empty() + a =~= a);
    }
    assert forall|x: T| (a + b).contains(x) <==> a.contains(x) || b.contains(x) by {
        if (a + b).contains(x) {
            let i = choose|i: int| 0 <= i < (a + b).len() && (a + b)[i] == x;
            if i < a.len() {
                assert(a[i] == x);
            } else {
                assert(b[i - a.len()] == x);
            }
        }
        if a.contains(x) {
            let i = choose|i: int| 0 <= i < a.len() && a[i] == x;
            assert((a + b)[i] == x);
        }
        if b.contains(x) {
            let i = choose|i: int| 0 <= i < b.len() && b[i] == x;
            assert((a + b)[a.len() + i] == x);
        }
    }
    assert forall|x: T| a.contains(x) implies first_position(a + b, x) == first_position(a, x) by {
        lemma_first_position(a, x);
        lemma_first_position_extends(a, b, x, first_position(a, x));
        lemma_first_position(a + b, x);
    }
    assert forall|x: T| !a.contains(x) && b.contains(x) implies first_position(a + b, x) == a.len()
        + first_position(b, x) by {
        lemma_first_position(b, x);
        let i = first_position(b, x);
        assert((a + b)[a.len() + i] == x);
        assert forall|k: int| 0 <= k < a.len() + i implies (a + b)[k] != x by {
            if k < a.len() {
                if a[k] == x {
                    assert(a.contains(x));
                }
            } else {
                assert((a + b)[k] == b[k - a.len()]);
            }
        }
        assert(is_first_position(a + b, x, a.len() + i));
        lemma_first_position(a + b, x);
    }
}

/// Joins the lists in order and keeps each string where it occurs first.
pub fn merge_and_deduplicate(vectors: Vec<Vec<String>>) -> (merged: Vec<String>)
    ensures
        strings(merged@) == stable_dedup(
            vectors@.map_values(|v: Vec<String>| strings(v@)).flatten(),
        ),
        lists_first_occurrences(
            vectors@.map_values(|v: Vec<String>| strings(v@)).flatten(),
            strings(merged@),
        ),
{
    let ghost lists = vectors@.map_values(|v: Vec<String>| strings(v@));
    proof {
        lemma_stable_dedup_keeps_first_occurrences(lists.flatten());
    }
    let mut merged: Vec<String> = Vec::new();
    let mut i: usize = 0;
    assert(lists.take(0) =~= Seq::empty());
    while i < vectors.len()
        invariant
            i <= vectors.len(),
            lists == vectors@.map_values(|v: Vec<String>| strings(v@)),
            strings(merged@) == stable_dedup(lists.take(i as int).flatten()),
        decreases vectors.len() - i,
    {
        let list = &vectors[i];
        let ghost done = lists.take(i as int).flatten();
        let mut j: usize = 0;
        assert(strings(list@).take(0) =~= Seq::empty());
        assert(done + strings(list@).take(0) =~= done);
        while j < list.len()
            invariant
                j <= list.len(),
                strings(merged@) == stable_dedup(done + strings(list@).take(j as int)),
            decreases list.len() - j,
        {
            let ghost before = merged@;
            proof {
                lemma_stable_dedup_push(done + strings(list@).take(j as int), list@[j as int]@);
                assert((done + strings(list@).take(j as int)).push(list@[j as int]@) =~= done
                    + strings(list@).take(j + 1));
            }
            if !contains_string(&merged, &list[j]) {
                merged.push(list[j].clone());
                proof {
                    lemma_strings_push(before, merged@, merged@[merged@.len() - 1]);
                }
            }
            j += 1;
        }
        proof {
            assert(strings(list@).take(list@.len() as int) =~= strings(list@));
            assert(lists.take(i + 1) =~= lists.take(i as int).push(lists[i as int]));
            lists.take(i as int).lemma_flatten_push(lists[i as int]);
        }
        i += 1;
    }
    assert(lists.take(vectors@.len() as int) =~= lists);
    merged
}

/// Keeps each string of the list where it occurs first.
pub fn deduplicate(vec: Vec<String>) -> (distinct: Vec<String>)
    ensures
        strings(distinct@) == stable_dedup(strings(vec@)),
        lists_first_occurrences(strings(vec@), strings(distinct@)),
{
    proof {
        lemma_stable_dedup_keeps_first_occurrences(strings(vec@));
    }
    let mut distinct: Vec<String> = Vec::new();
    let mut i: usize = 0;
    assert(strings(vec@).take(0) =~= Seq::empty());
    while i < vec.len()
        invariant
            i <= vec.len(),
            strings(distinct@) == stable_dedup(strings(vec@).take(i as int)),
        decreases vec.len() - i,
    {
        let ghost before = distinct@;
        proof {
            lemma_stable_dedup_push(strings(vec@).take(i as int), vec@[i as int]@);
            assert(strings(vec@).take(i as int).push(vec@[i as int]@) =~= strings(vec@).take(
                i + 1,
            ));
        }
        if !contains_string(&distinct, &vec[i]) {
            distinct.push(vec[i].clone());
            proof {
                lemma_strings_push(before, distinct@, distinct@[distinct@.len() - 1]);
            }
        }
        i += 1;
    }
    assert(strings(vec@).take(vec@.len() as int) =~= strings(vec@));
    distinct
}

} // verus!
