//! Facts about sequences of client identifiers without duplicates.
use vstd::prelude::*;

verus! {

/// The sequence with the first occurrence of `id` removed (unchanged when `id` does not occur).
pub open spec fn remove_value(s: Seq<u64>, id: u64) -> Seq<u64> {
    if s.contains(id) {
        s.remove(s.index_of(id))
    } else {
        s
    }
}

/// The elements of `s` that do not occur in `t`, in their order.
pub open spec fn without(s: Seq<u64>, t: Seq<u64>) -> Seq<u64> {
    s.filter(|x: u64| !t.contains(x))
}

/// In a sequence without duplicates, the index of an element is the only position holding it.
pub proof fn lemma_index_unique(s: Seq<u64>, i: int)
    requires
        s.no_duplicates(),
        0 <= i < s.len(),
    ensures
        s.contains(s[i]),
        s.index_of(s[i]) == i,
{
    assert(s.contains(s[i]));
    let j = s.index_of(s[i]);
    assert(0 <= j < s.len() && s[j] == s[i]);
}

/// Removing a position from a sequence without duplicates removes exactly that element.
pub proof fn lemma_remove_at(s: Seq<u64>, i: int)
    requires
        s.no_duplicates(),
        0 <= i < s.len(),
    ensures
        s.remove(i).no_duplicates(),
        s.remove(i).to_set() == s.to_set().remove(s[i]),
        !s.remove(i).contains(s[i]),
        remove_value(s, s[i]) == s.remove(i),
        s.remove(i).len() == s.len() - 1,
{
    lemma_index_unique(s, i);
    let r = s.remove(i);
    assert forall|a: int, b: int| 0 <= a < r.len() && 0 <= b < r.len() && a != b implies r[a]
        != r[b] by {
        let sa = if a < i {
            a
        } else {
            a + 1
        };
        let sb = if b < i {
            b
        } else {
            b + 1
        };
        assert(r[a] == s[sa] && r[b] == s[sb]);
    }
    assert forall|x: u64| r.contains(x) implies x != s[i] by {
        let k = choose|k: int| 0 <= k < r.len() && r[k] == x;
        let sk = if k < i {
            k
        } else {
            k + 1
        };
        assert(r[k] == s[sk]);
    }
    assert(r.to_set() =~= s.to_set().remove(s[i])) by {
        assert forall|x: u64| r.to_set().contains(x) <==> s.to_set().remove(s[i]).contains(x) by {
            if r.contains(x) {
                let k = choose|k: int| 0 <= k < r.len() && r[k] == x;
                let sk = if k < i {
                    k
                } else {
                    k + 1
                };
                assert(r[k] == s[sk]);
            }
            if s.contains(x) && x != s[i] {
                let k = choose|k: int| 0 <= k < s.len() && s[k] == x;
                if k < i {
                    assert(r[k] == x);
                } else {
                    assert(k != i);
                    assert(r[k - 1] == x);
                }
            }
        }
    }
}

/// Putting a new element in front keeps the sequence free of duplicates.
pub proof fn lemma_push_front(s: Seq<u64>, id: u64)
    requires
        s.no_duplicates(),
        !s.contains(id),
    ensures
        (seq![id] + s).no_duplicates(),
        (seq![id] + s).to_set() == s.to_set().insert(id),
        (seq![id] + s).contains(id),
        (seq![id] + s).index_of(id) == 0,
        (seq![id] + s).remove(0) == s,
{
    let r = seq![id] + s;
    assert forall|a: int, b: int| 0 <= a < r.len() && 0 <= b < r.len() && a != b implies r[a]
        != r[b] by {
        if a == 0 {
            assert(r[b] == s[b - 1]);
        } else if b == 0 {
            assert(r[a] == s[a - 1]);
        } else {
            assert(r[a] == s[a - 1] && r[b] == s[b - 1]);
        }
    }
    assert(r[0] == id);
    lemma_index_unique(r, 0);
    assert(r.to_set() =~= s.to_set().insert(id)) by {
        assert forall|x: u64| r.contains(x) <==> s.to_set().insert(id).contains(x) by {
            if r.contains(x) {
                let k = choose|k: int| 0 <= k < r.len() && r[k] == x;
                if k > 0 {
                    assert(s[k - 1] == x);
                }
            }
            if s.contains(x) {
                let k = choose|k: int| 0 <= k < s.len() && s[k] == x;
                assert(r[k + 1] == x);
            }
        }
    }
    assert(r.remove(0) =~= s);
}

/// Inserting an element that does not occur keeps the sequence free of duplicates.
pub proof fn lemma_insert_at(s: Seq<u64>, i: int, id: u64)
    requires
        s.no_duplicates(),
        !s.contains(id),
        0 <= i <= s.len(),
    ensures
        s.insert(i, id).no_duplicates(),
        s.insert(i, id).to_set() == s.to_set().insert(id),
{
    s.insert_ensures(i, id);
    let r = s.insert(i, id);
    let src = |k: int|
        if k < i {
            k
        } else {
            k - 1
        };
    assert forall|a: int, b: int| 0 <= a < r.len() && 0 <= b < r.len() && a != b implies r[a]
        != r[b] by {
        if a == i {
            assert(r[b] == s[src(b)]);
        } else if b == i {
            assert(r[a] == s[src(a)]);
        } else {
            assert(r[a] == s[src(a)] && r[b] == s[src(b)]);
        }
    }
    assert(r.to_set() =~= s.to_set().insert(id)) by {
        assert forall|x: u64| r.contains(x) <==> s.to_set().insert(id).contains(x) by {
            if r.contains(x) {
                let k = choose|k: int| 0 <= k < r.len() && r[k] == x;
                if k != i {
                    assert(s[src(k)] == x);
                }
            }
            if s.contains(x) {
                let k = choose|k: int| 0 <= k < s.len() && s[k] == x;
                if k < i {
                    assert(r[k] == x);
                } else {
                    assert(r[k + 1] == x);
                }
            }
            if x == id {
                assert(r[i] == x);
            }
        }
    }
}

/// Position of the first occurrence of `id` in `v`, if any.
pub fn position(v: &Vec<u64>, id: u64) -> (r: Option<usize>)
    ensures
        r matches Some(i) ==> i < v@.len() && v@[i as int] == id && forall|j: int|
            0 <= j < i ==> v@[j] != id,
        r is None ==> !v@.contains(id),
{
    let mut i: usize = 0;
    while i < v.len()
        invariant
            i <= v@.len(),
            forall|j: int| 0 <= j < i ==> v@[j] != id,
        decreases v@.len() - i,
    {
        if v[i] == id {
            return Some(i);
        }
        i += 1;
    }
    None
}

/// An element occurs in a concatenation exactly when it occurs in one of the parts.
pub proof fn lemma_concat_contains(a: Seq<u64>, b: Seq<u64>)
    ensures
        forall|x: u64| #[trigger] (a + b).contains(x) <==> a.contains(x) || b.contains(x),
{
    assert forall|x: u64| #[trigger] (a + b).contains(x) <==> a.contains(x) || b.contains(x) by {
        if (a + b).contains(x) {
            let k = choose|k: int| 0 <= k < (a + b).len() && (a + b)[k] == x;
            if k < a.len() {
                assert(a[k] == x);
            } else {
                assert(b[k - a.len()] == x);
            }
        }
        if a.contains(x) {
            let k = choose|k: int| 0 <= k < a.len() && a[k] == x;
            assert((a + b)[k] == x);
        }
        if b.contains(x) {
            let k = choose|k: int| 0 <= k < b.len() && b[k] == x;
            assert((a + b)[a.len() + k] == x);
        }
    }
}

/// Filtering keeps a sequence whose every element passes as it is.
pub proof fn lemma_filter_keeps_all(s: Seq<u64>, pred: spec_fn(u64) -> bool)
    requires
        forall|i: int| 0 <= i < s.len() ==> pred(#[trigger] s[i]),
    ensures
        s.filter(pred) == s,
    decreases s.len(),
{
    reveal(Seq::filter);
    if s.len() > 0 {
        let d = s.drop_last();
        assert forall|i: int| 0 <= i < d.len() implies pred(#[trigger] d[i]) by {
            assert(d[i] == s[i]);
        }
        lemma_filter_keeps_all(d, pred);
        assert(pred(s[s.len() - 1]));
        assert(d.push(s.last()) =~= s);
    }
}

/// Filtering out a value that was pushed onto a sequence without it gives the sequence back.
pub proof fn lemma_filter_out_pushed(s: Seq<u64>, x: u64)
    requires
        !s.contains(x),
    ensures
        s.push(x).filter(|w: u64| w != x) == s,
{
    reveal(Seq::filter);
    let t = s.push(x);
    assert(t.drop_last() =~= s);
    assert forall|i: int| 0 <= i < s.len() implies (|w: u64| w != x)(#[trigger] s[i]) by {
        assert(s.contains(s[i]));
    }
    lemma_filter_keeps_all(s, |w: u64| w != x);
}

/// Filtering a sequence none of whose elements passes leaves nothing.
pub proof fn lemma_filter_drops_all(s: Seq<u64>, pred: spec_fn(u64) -> bool)
    requires
        forall|i: int| 0 <= i < s.len() ==> !pred(#[trigger] s[i]),
    ensures
        s.filter(pred) == Seq::<u64>::empty(),
    decreases s.len(),
{
    reveal(Seq::filter);
    if s.len() > 0 {
        let d = s.drop_last();
        assert forall|i: int| 0 <= i < d.len() implies !pred(#[trigger] d[i]) by {
            assert(d[i] == s[i]);
        }
        lemma_filter_drops_all(d, pred);
        assert(!pred(s[s.len() - 1]));
    }
}

/// The position of the first occurrence of `x` in `s`.
pub open spec fn first_position(s: Seq<u64>, x: u64) -> int {
    choose|i: int| 0 <= i < s.len() && s[i] == x && forall|j: int| 0 <= j < i ==> s[j] != x
}

/// A position holding `x` with no `x` before it is the first position of `x`.
pub proof fn lemma_position_is_first(s: Seq<u64>, x: u64, i: int)
    requires
        0 <= i < s.len(),
        s[i] == x,
        forall|j: int| 0 <= j < i ==> s[j] != x,
    ensures
        first_position(s, x) == i,
{
    let c = first_position(s, x);
    assert(0 <= c < s.len() && s[c] == x && forall|j: int| 0 <= j < c ==> s[j] != x);
    if c < i {
        assert(s[c] != x);
    }
    if c > i {
        assert(s[i] != x);
    }
}

} // verus!
