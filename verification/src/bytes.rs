//! The order of peer identities: byte strings compared byte by byte, a proper
//! prefix coming before every string it starts.

use vstd::prelude::*;

verus! {

/// A list of byte vectors as a sequence of byte strings.
pub open spec fn views(list: Seq<Vec<u8>>) -> Seq<Seq<u8>> {
    list.map_values(|bytes: Vec<u8>| bytes@)
}

/// `a` comes strictly before `b`.
pub open spec fn precedes(a: Seq<u8>, b: Seq<u8>) -> bool
    decreases a.len(),
{
    if b.len() == 0 {
        false
    } else if a.len() == 0 {
        true
    } else if a[0] != b[0] {
        a[0] < b[0]
    } else {
        precedes(a.drop_first(), b.drop_first())
    }
}

/// Where one byte string stands relative to another.
#[derive(Clone, Copy, Debug, PartialEq, Eq, Structural)]
pub enum Rank {
    Below,
    Equal,
    Above,
}

/// The rank of `a` relative to `b`.
pub open spec fn rank(a: Seq<u8>, b: Seq<u8>) -> Rank {
    if a == b {
        Rank::Equal
    } else if precedes(a, b) {
        Rank::Below
    } else {
        Rank::Above
    }
}

/// No byte string comes before itself.
pub proof fn lemma_precedes_irreflexive(a: Seq<u8>)
    ensures
        !precedes(a, a),
    decreases a.len(),
{
    if a.len() > 0 {
        lemma_precedes_irreflexive(a.drop_first());
    }
}

/// Of two different byte strings one comes before the other.
pub proof fn lemma_precedes_total(a: Seq<u8>, b: Seq<u8>)
    ensures
        a == b || precedes(a, b) || precedes(b, a),
    decreases a.len(),
{
    if a.len() == 0 || b.len() == 0 {
        if a.len() == 0 && b.len() == 0 {
            assert(a =~= b);
        }
    } else if a[0] == b[0] {
        lemma_precedes_total(a.drop_first(), b.drop_first());
        if a.drop_first() == b.drop_first() {
            assert(a =~= seq![a[0]] + a.drop_first());
            assert(b =~= seq![b[0]] + b.drop_first());
        }
    }
}

/// The order is transitive.
pub proof fn lemma_precedes_transitive(a: Seq<u8>, b: Seq<u8>, c: Seq<u8>)
    requires
        precedes(a, b),
        precedes(b, c),
    ensures
        precedes(a, c),
    decreases a.len(),
{
    if a.len() > 0 && a[0] == b[0] && b[0] == c[0] {
        lemma_precedes_transitive(a.drop_first(), b.drop_first(), c.drop_first());
    }
}

/// Two byte strings never come before each other.
pub proof fn lemma_precedes_asymmetric(a: Seq<u8>, b: Seq<u8>)
    requires
        precedes(a, b),
    ensures
        !precedes(b, a),
        a != b,
{
    lemma_precedes_irreflexive(a);
    if precedes(b, a) {
        lemma_precedes_transitive(a, b, a);
    }
}

/// Every element of `s` comes before the elements that follow it.
pub open spec fn ascending(s: Seq<Seq<u8>>) -> bool {
    forall|i: int, j: int| 0 <= i < j < s.len() ==> precedes(#[trigger] s[i], #[trigger] s[j])
}

/// The members of a finite set of byte strings, in ascending order.
pub open spec fn sorted(set: Set<Seq<u8>>) -> Seq<Seq<u8>> {
    choose|s: Seq<Seq<u8>>| ascending(s) && s.to_set() == set
}

/// An ascending sequence names nothing twice.
pub proof fn lemma_ascending_distinct(s: Seq<Seq<u8>>)
    requires
        ascending(s),
    ensures
        s.no_duplicates(),
{
    assert forall|i: int, j: int| 0 <= i < s.len() && 0 <= j < s.len() && i != j implies s[i]
        != s[j] by {
        if i < j {
            lemma_precedes_asymmetric(s[i], s[j]);
        } else {
            lemma_precedes_asymmetric(s[j], s[i]);
        }
    }
}

/// Two ascending sequences with the same members agree on their first `n` places.
proof fn lemma_ascending_agree(p: Seq<Seq<u8>>, q: Seq<Seq<u8>>, n: int)
    requires
        ascending(p),
        ascending(q),
        p.to_set() == q.to_set(),
        0 <= n <= p.len(),
        p.len() == q.len(),
    ensures
        forall|k: int| 0 <= k < n ==> p[k] == q[k],
    decreases n,
{
    if n > 0 {
        lemma_ascending_agree(p, q, n - 1);
        lemma_ascending_distinct(p);
        lemma_ascending_distinct(q);
        let i = n - 1;
        assert(p.to_set().contains(p[i]));
        assert(q.contains(p[i]));
        let j = choose|j: int| 0 <= j < q.len() && q[j] == p[i];
        assert(q.to_set().contains(q[i]));
        assert(p.contains(q[i]));
        let k = choose|k: int| 0 <= k < p.len() && p[k] == q[i];
        if j < i {
            assert(p[j] == q[j]);
        } else if j > i {
            assert(precedes(q[i], q[j]));
            if k < i {
                assert(p[k] == q[k]);
            } else if k > i {
                assert(precedes(p[i], p[k]));
                lemma_precedes_asymmetric(p[i], p[k]);
            } else {
                lemma_precedes_irreflexive(p[i]);
            }
        }
    }
}

/// A set of byte strings has at most one ascending enumeration.
pub proof fn lemma_ascending_unique(p: Seq<Seq<u8>>, q: Seq<Seq<u8>>)
    requires
        ascending(p),
        ascending(q),
        p.to_set() == q.to_set(),
    ensures
        p == q,
{
    lemma_ascending_distinct(p);
    lemma_ascending_distinct(q);
    p.unique_seq_to_set();
    q.unique_seq_to_set();
    lemma_ascending_agree(p, q, p.len() as int);
    assert(p =~= q);
}

/// An ascending sequence is the sorted enumeration of its own members, and as
/// long as the set it enumerates.
pub proof fn lemma_sorted(s: Seq<Seq<u8>>)
    requires
        ascending(s),
    ensures
        sorted(s.to_set()) == s,
        s.to_set().finite(),
        s.to_set().len() == s.len(),
{
    lemma_ascending_unique(sorted(s.to_set()), s);
    lemma_ascending_distinct(s);
    s.unique_seq_to_set();
}

/// Putting a byte string between the elements that come before it and those
/// that come after it keeps an ascending sequence ascending.
pub proof fn lemma_ascending_insert(s: Seq<Seq<u8>>, at: int, x: Seq<u8>)
    requires
        ascending(s),
        0 <= at <= s.len(),
        forall|j: int| 0 <= j < at ==> precedes(#[trigger] s[j], x),
        forall|j: int| at <= j < s.len() ==> precedes(x, #[trigger] s[j]),
    ensures
        ascending(s.insert(at, x)),
        s.insert(at, x).to_set() == s.to_set().insert(x),
{
    let t = s.insert(at, x);
    assert forall|i: int, j: int| 0 <= i < j < t.len() implies precedes(
        #[trigger] t[i],
        #[trigger] t[j],
    ) by {
        let i0 = if i < at { i } else { i - 1 };
        let j0 = if j < at { j } else { j - 1 };
        if i != at && j != at {
            assert(precedes(s[i0], s[j0]));
        }
    }
    assert forall|y: Seq<u8>| t.to_set().contains(y) <==> s.to_set().insert(x).contains(y) by {
        if t.contains(y) {
            let i = t.index_of(y);
            if i != at {
                let i0 = if i < at { i } else { i - 1 };
                assert(s[i0] == y);
            }
        }
        if s.contains(y) {
            let i0 = s.index_of(y);
            let i = if i0 < at { i0 } else { i0 + 1 };
            assert(t[i] == y);
        }
        if y == x {
            assert(t[at] == y);
        }
    }
    assert(t.to_set() =~= s.to_set().insert(x));
}

/// The place at which a byte string that is not in an ascending sequence
/// belongs: after everything that comes before it, before everything else.
proof fn lemma_place(s: Seq<Seq<u8>>, x: Seq<u8>) -> (at: int)
    requires
        ascending(s),
        !s.contains(x),
    ensures
        0 <= at <= s.len(),
        forall|j: int| 0 <= j < at ==> precedes(#[trigger] s[j], x),
        forall|j: int| at <= j < s.len() ==> precedes(x, #[trigger] s[j]),
    decreases s.len(),
{
    if s.len() == 0 {
        0
    } else {
        let last = s.last();
        let front = s.drop_last();
        assert(s.contains(last));
        if precedes(last, x) {
            assert forall|j: int| 0 <= j < s.len() implies precedes(#[trigger] s[j], x) by {
                if j < s.len() - 1 {
                    lemma_precedes_transitive(s[j], last, x);
                }
            }
            s.len() as int
        } else {
            lemma_precedes_total(last, x);
            assert forall|i: int, j: int| 0 <= i < j < front.len() implies precedes(
                #[trigger] front[i],
                #[trigger] front[j],
            ) by {
                assert(precedes(s[i], s[j]));
            }
            assert(!front.contains(x)) by {
                if front.contains(x) {
                    let i = front.index_of(x);
                    assert(s[i] == x);
                }
            }
            let at = lemma_place(front, x);
            assert forall|j: int| 0 <= j < at implies precedes(#[trigger] s[j], x) by {
                assert(front[j] == s[j]);
            }
            assert forall|j: int| at <= j < s.len() implies precedes(x, #[trigger] s[j]) by {
                if j < s.len() - 1 {
                    assert(front[j] == s[j]);
                }
            }
            at
        }
    }
}

/// Every finite set of byte strings has an ascending enumeration, and `sorted`
/// is the one it has: it lists every member once and nothing else.
pub proof fn lemma_sorted_lists(set: Set<Seq<u8>>)
    requires
        set.finite(),
    ensures
        ascending(sorted(set)),
        sorted(set).to_set() == set,
        sorted(set).len() == set.len(),
        sorted(set).no_duplicates(),
    decreases set.len(),
{
    if set.len() == 0 {
        let none = Seq::<Seq<u8>>::empty();
        assert(set =~= Set::<Seq<u8>>::empty());
        assert(none.to_set() =~= set);
        assert(ascending(none) && none.to_set() == set);
    } else {
        let x = set.choose();
        let rest = set.remove(x);
        lemma_sorted_lists(rest);
        let most = sorted(rest);
        assert(!most.contains(x)) by {
            if most.contains(x) {
                assert(most.to_set().contains(x));
            }
        }
        let at = lemma_place(most, x);
        lemma_ascending_insert(most, at, x);
        let all = most.insert(at, x);
        assert(rest.insert(x) =~= set);
        assert(ascending(all) && all.to_set() == set);
    }
    lemma_sorted(sorted(set));
    lemma_ascending_distinct(sorted(set));
}

/// Compares two byte strings.
pub fn compare(a: &Vec<u8>, b: &Vec<u8>) -> (r: Rank)
    ensures
        r == rank(a@, b@),
        r == Rank::Above ==> precedes(b@, a@),
{
    let mut i: usize = 0;
    assert(a@.skip(0) =~= a@ && b@.skip(0) =~= b@);
    while i < a.len() && i < b.len()
        invariant
            i <= a.len(),
            i <= b.len(),
            a@.take(i as int) == b@.take(i as int),
            precedes(a@, b@) == precedes(a@.skip(i as int), b@.skip(i as int)),
        decreases a.len() - i,
    {
        if a[i] != b[i] {
            assert(a@.take(i as int + 1)[i as int] != b@.take(i as int + 1)[i as int]);
            assert(a@ != b@);
            assert(a@.skip(i as int)[0] == a@[i as int]);
            assert(b@.skip(i as int)[0] == b@[i as int]);
            if a[i] < b[i] {
                return Rank::Below;
            } else {
                proof {
                    lemma_precedes_total(a@, b@);
                }
                return Rank::Above;
            }
        }
        proof {
            assert(a@.skip(i as int)[0] == a@[i as int]);
            assert(b@.skip(i as int)[0] == b@[i as int]);
            assert(a@.skip(i as int).drop_first() =~= a@.skip(i as int + 1));
            assert(b@.skip(i as int).drop_first() =~= b@.skip(i as int + 1));
            assert(a@.take(i as int + 1) =~= a@.take(i as int).push(a@[i as int]));
            assert(b@.take(i as int + 1) =~= b@.take(i as int).push(b@[i as int]));
        }
        i += 1;
    }
    if a.len() == b.len() {
        assert(a@ =~= a@.take(i as int));
        assert(b@ =~= b@.take(i as int));
        Rank::Equal
    } else if a.len() < b.len() {
        assert(a@.skip(i as int).len() == 0);
        Rank::Below
    } else {
        assert(b@.skip(i as int).len() == 0);
        proof {
            lemma_precedes_total(a@, b@);
        }
        Rank::Above
    }
}

} // verus!
