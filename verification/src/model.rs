//! The mathematical model of the member set: a strictly sorted sequence of
//! member identifiers, with insertion and removal defined as spec functions.

use vstd::prelude::*;

verus! {

/// A member identifier: an opaque, totally ordered value handed in by the
/// host's identity system, modelled as a machine integer.
pub type MemberId = u64;

/// The ordering discipline of the member set: strictly increasing. Strictness
/// also guarantees that no identifier occurs twice.
pub open spec fn sorted_strict(s: Seq<MemberId>) -> bool {
    forall|i: int, j: int| 0 <= i < j < s.len() ==> s[i] < s[j]
}

/// The registry's state invariant: at most two members, kept strictly sorted.
pub open spec fn valid_members(s: Seq<MemberId>) -> bool {
    &&& s.len() <= 2
    &&& sorted_strict(s)
}

/// Insertion of a value into a sorted sequence at its sorted position.
pub open spec fn insert_sorted(s: Seq<MemberId>, x: MemberId) -> Seq<MemberId>
    decreases s.len(),
{
    if s.len() == 0 {
        seq![x]
    } else if x < s[0] {
        seq![x] + s
    } else {
        seq![s[0]] + insert_sorted(s.drop_first(), x)
    }
}

/// Removal of the first occurrence of a value from a sequence; a sequence
/// that does not contain the value is returned unchanged.
pub open spec fn remove_sorted(s: Seq<MemberId>, x: MemberId) -> Seq<MemberId>
    decreases s.len(),
{
    if s.len() == 0 {
        s
    } else if s[0] == x {
        s.drop_first()
    } else {
        seq![s[0]] + remove_sorted(s.drop_first(), x)
    }
}

/// In a strictly sorted sequence any two distinct positions hold distinct
/// values.
pub proof fn lemma_sorted_strict_distinct(s: Seq<MemberId>)
    requires
        sorted_strict(s),
    ensures
        s.no_duplicates(),
{
    assert forall|i: int, j: int|
        0 <= i < s.len() && 0 <= j < s.len() && i != j implies s[i] != s[j] by {
        if i < j {
            assert(s[i] < s[j]);
        } else {
            assert(s[j] < s[i]);
        }
    }
}

/// Dropping the first element of a strictly sorted sequence keeps it strictly
/// sorted.
pub proof fn lemma_drop_first_sorted(s: Seq<MemberId>)
    requires
        sorted_strict(s),
        s.len() > 0,
    ensures
        sorted_strict(s.drop_first()),
{
    assert forall|i: int, j: int|
        0 <= i < j < s.drop_first().len() implies s.drop_first()[i] < s.drop_first()[j] by {
        assert(s.drop_first()[i] == s[i + 1]);
        assert(s.drop_first()[j] == s[j + 1]);
    }
}

/// In a strictly sorted sequence split at position `p`, with everything below
/// `p` smaller than `x` and everything from `p` on at least `x`, the sequence
/// contains `x` exactly when position `p` exists and holds it.
pub proof fn lemma_sorted_window_contains(s: Seq<MemberId>, x: MemberId, p: int)
    requires
        sorted_strict(s),
        0 <= p <= s.len(),
        forall|k: int| 0 <= k < p ==> s[k] < x,
        forall|k: int| p <= k < s.len() ==> s[k] >= x,
    ensures
        s.contains(x) <==> (p < s.len() && s[p] == x),
{
    if p < s.len() && s[p] == x {
        assert(s.contains(x));
    }
    if s.contains(x) {
        let j = choose|j: int| 0 <= j < s.len() && s[j] == x;
        if j < p {
            assert(s[j] < x);
        } else if j > p {
            assert(s[p] < s[j]);
        }
        assert(j == p);
    }
}

/// Inserting `x` at the position `p` that splits a strictly sorted sequence
/// into values below `x` and values above `x` is exactly sorted insertion.
pub proof fn lemma_insert_sorted_at(s: Seq<MemberId>, x: MemberId, p: int)
    requires
        sorted_strict(s),
        0 <= p <= s.len(),
        forall|k: int| 0 <= k < p ==> s[k] < x,
        forall|k: int| p <= k < s.len() ==> s[k] > x,
    ensures
        insert_sorted(s, x) == s.insert(p, x),
    decreases s.len(),
{
    if s.len() == 0 {
        assert(insert_sorted(s, x) =~= s.insert(p, x));
    } else if x < s[0] {
        assert(p == 0);
        assert(insert_sorted(s, x) =~= s.insert(p, x));
    } else {
        assert(p > 0) by {
            if p == 0 {
                assert(s[0] > x);
            }
        }
        let t = s.drop_first();
        lemma_drop_first_sorted(s);
        assert forall|k: int| 0 <= k < p - 1 implies t[k] < x by {
            assert(t[k] == s[k + 1]);
        }
        assert forall|k: int| p - 1 <= k < t.len() implies t[k] > x by {
            assert(t[k] == s[k + 1]);
        }
        lemma_insert_sorted_at(t, x, p - 1);
        assert(insert_sorted(s, x) =~= s.insert(p, x));
    }
}

/// Sorted insertion of a fresh value keeps the sequence strictly sorted and
/// grows it by one.
pub proof fn lemma_insert_sorted_props(s: Seq<MemberId>, x: MemberId)
    requires
        sorted_strict(s),
        !s.contains(x),
    ensures
        sorted_strict(insert_sorted(s, x)),
        insert_sorted(s, x).len() == s.len() + 1,
        forall|y: MemberId| #[trigger] insert_sorted(s, x).contains(y) <==> (s.contains(y) || y
            == x),
    decreases s.len(),
{
    let r = insert_sorted(s, x);
    if s.len() == 0 {
        assert(r =~= seq![x]);
        assert forall|y: MemberId| #[trigger] r.contains(y) implies s.contains(y) || y == x by {
            let j = choose|j: int| 0 <= j < r.len() && r[j] == y;
            assert(j == 0);
        }
        assert(r[0] == x);
        assert(r.contains(x));
    } else if x < s[0] {
        assert(r =~= seq![x] + s);
        assert forall|i: int, j: int| 0 <= i < j < r.len() implies r[i] < r[j] by {
            if i == 0 {
                assert(r[0] == x);
                assert(r[j] == s[j - 1]);
                if j > 1 {
                    assert(s[0] < s[j - 1]);
                }
            } else {
                assert(r[i] == s[i - 1]);
                assert(r[j] == s[j - 1]);
            }
        }
        assert forall|y: MemberId| #[trigger] r.contains(y) implies s.contains(y) || y == x by {
            let j = choose|j: int| 0 <= j < r.len() && r[j] == y;
            if j > 0 {
                assert(s[j - 1] == y);
            }
        }
        assert forall|y: MemberId| s.contains(y) || y == x implies #[trigger] r.contains(y) by {
            if s.contains(y) {
                let j = choose|j: int| 0 <= j < s.len() && s[j] == y;
                assert(r[j + 1] == y);
            } else {
                assert(r[0] == y);
            }
        }
    } else {
        let t = s.drop_first();
        lemma_drop_first_sorted(s);
        assert(s[0] != x) by {
            if s[0] == x {
                assert(s.contains(x));
            }
        }
        assert(!t.contains(x)) by {
            if t.contains(x) {
                let j = choose|j: int| 0 <= j < t.len() && t[j] == x;
                assert(s[j + 1] == x);
                assert(s.contains(x));
            }
        }
        lemma_insert_sorted_props(t, x);
        let rt = insert_sorted(t, x);
        assert(r =~= seq![s[0]] + rt);
        assert forall|i: int, j: int| 0 <= i < j < r.len() implies r[i] < r[j] by {
            if i == 0 {
                assert(r[j] == rt[j - 1]);
                assert(rt.contains(rt[j - 1]));
                if t.contains(rt[j - 1]) {
                    let k = choose|k: int| 0 <= k < t.len() && t[k] == rt[j - 1];
                    assert(s[k + 1] == rt[j - 1]);
                    assert(s[0] < s[k + 1]);
                } else {
                    assert(rt[j - 1] == x);
                    assert(s[0] < x);
                }
            } else {
                assert(r[i] == rt[i - 1]);
                assert(r[j] == rt[j - 1]);
            }
        }
        assert forall|y: MemberId| #[trigger] r.contains(y) implies s.contains(y) || y == x by {
            let j = choose|j: int| 0 <= j < r.len() && r[j] == y;
            if j == 0 {
                assert(s[0] == y);
                assert(s.contains(y));
            } else {
                assert(rt[j - 1] == y);
                assert(rt.contains(y));
                if t.contains(y) {
                    let k = choose|k: int| 0 <= k < t.len() && t[k] == y;
                    assert(s[k + 1] == y);
                    assert(s.contains(y));
                }
            }
        }
        assert forall|y: MemberId| s.contains(y) || y == x implies #[trigger] r.contains(y) by {
            if s.contains(y) {
                let j = choose|j: int| 0 <= j < s.len() && s[j] == y;
                if j == 0 {
                    assert(r[0] == y);
                } else {
                    assert(t[j - 1] == y);
                    assert(t.contains(y));
                    assert(rt.contains(y));
                    let k = choose|k: int| 0 <= k < rt.len() && rt[k] == y;
                    assert(r[k + 1] == y);
                }
            } else {
                assert(rt.contains(x));
                let k = choose|k: int| 0 <= k < rt.len() && rt[k] == x;
                assert(r[k + 1] == x);
            }
        }
    }
}

/// Removing the value at position `i` of a strictly sorted sequence is
/// exactly what `remove_sorted` does for that value.
pub proof fn lemma_remove_sorted_at(s: Seq<MemberId>, x: MemberId, i: int)
    requires
        sorted_strict(s),
        0 <= i < s.len(),
        s[i] == x,
    ensures
        remove_sorted(s, x) == s.remove(i),
    decreases s.len(),
{
    if i == 0 {
        assert(remove_sorted(s, x) =~= s.remove(0));
    } else {
        assert(s[0] < s[i]);
        let t = s.drop_first();
        lemma_drop_first_sorted(s);
        assert(t[i - 1] == s[i]);
        lemma_remove_sorted_at(t, x, i - 1);
        assert(remove_sorted(s, x) =~= s.remove(i));
    }
}

/// Removing a present value from a strictly sorted sequence keeps it strictly
/// sorted and shrinks it by one.
pub proof fn lemma_remove_sorted_props(s: Seq<MemberId>, x: MemberId)
    requires
        sorted_strict(s),
        s.contains(x),
    ensures
        sorted_strict(remove_sorted(s, x)),
        remove_sorted(s, x).len() == s.len() - 1,
{
    let i = choose|i: int| 0 <= i < s.len() && s[i] == x;
    lemma_remove_sorted_at(s, x, i);
    lemma_remove_preserves_sorted(s, i);
}

/// Removing any position of a strictly sorted sequence keeps it strictly
/// sorted.
pub proof fn lemma_remove_preserves_sorted(s: Seq<MemberId>, i: int)
    requires
        sorted_strict(s),
        0 <= i < s.len(),
    ensures
        sorted_strict(s.remove(i)),
{
    let r = s.remove(i);
    assert forall|a: int, b: int| 0 <= a < b < r.len() implies r[a] < r[b] by {
        let ra: int = if a < i {
            a
        } else {
            a + 1
        };
        let rb: int = if b < i {
            b
        } else {
            b + 1
        };
        assert(r[a] == s[ra]);
        assert(r[b] == s[rb]);
        assert(s[ra] < s[rb]);
    }
}

} // verus!
