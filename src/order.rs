//! Lexicographic order on byte strings, and sorting by it.
use vstd::prelude::*;
use vstd::seq_lib::*;

verus! {

/// `a` is lexicographically at most `b`.
pub open spec fn bytes_le(a: Seq<u8>, b: Seq<u8>) -> bool
    decreases a.len(),
{
    if a.len() == 0 {
        true
    } else if b.len() == 0 {
        false
    } else if a[0] != b[0] {
        a[0] < b[0]
    } else {
        bytes_le(a.drop_first(), b.drop_first())
    }
}

/// The byte strings that a list of buffers holds.
pub open spec fn views(s: Seq<Vec<u8>>) -> Seq<Seq<u8>> {
    s.map_values(|v: Vec<u8>| v@)
}

/// Every earlier element is at most every later one.
pub open spec fn sorted_bytes(s: Seq<Seq<u8>>) -> bool {
    forall|i: int, j: int| 0 <= i < j < s.len() ==> bytes_le(#[trigger] s[i], #[trigger] s[j])
}

/// The one sorted sequence whose elements are those of `m`.
pub open spec fn canonical_of(m: vstd::multiset::Multiset<Seq<u8>>) -> Seq<Seq<u8>> {
    choose|t: Seq<Seq<u8>>| sorted_bytes(t) && t.to_multiset() == m
}

/// The one sorted arrangement of the elements of `s`.
pub open spec fn canonical_order(s: Seq<Seq<u8>>) -> Seq<Seq<u8>> {
    canonical_of(s.to_multiset())
}

pub proof fn lemma_bytes_le_reflexive(a: Seq<u8>)
    ensures
        bytes_le(a, a),
    decreases a.len(),
{
    if a.len() > 0 {
        lemma_bytes_le_reflexive(a.drop_first());
    }
}

pub proof fn lemma_bytes_le_total(a: Seq<u8>, b: Seq<u8>)
    ensures
        bytes_le(a, b) || bytes_le(b, a),
    decreases a.len(),
{
    if a.len() > 0 && b.len() > 0 && a[0] == b[0] {
        lemma_bytes_le_total(a.drop_first(), b.drop_first());
    }
}

pub proof fn lemma_bytes_le_antisymmetric(a: Seq<u8>, b: Seq<u8>)
    requires
        bytes_le(a, b),
        bytes_le(b, a),
    ensures
        a == b,
    decreases a.len(),
{
    if a.len() > 0 {
        lemma_bytes_le_antisymmetric(a.drop_first(), b.drop_first());
        assert(a =~= seq![a[0]] + a.drop_first());
        assert(b =~= seq![b[0]] + b.drop_first());
    } else {
        assert(b.len() == 0);
        assert(a =~= b);
    }
}

pub proof fn lemma_bytes_le_transitive(a: Seq<u8>, b: Seq<u8>, c: Seq<u8>)
    requires
        bytes_le(a, b),
        bytes_le(b, c),
    ensures
        bytes_le(a, c),
    decreases a.len(),
{
    if a.len() > 0 && b.len() > 0 && c.len() > 0 && a[0] == b[0] && b[0] == c[0] {
        lemma_bytes_le_transitive(a.drop_first(), b.drop_first(), c.drop_first());
    }
}

/// Two sorted sequences with the same elements are equal.
pub proof fn lemma_sorted_unique(a: Seq<Seq<u8>>, b: Seq<Seq<u8>>)
    requires
        sorted_bytes(a),
        sorted_bytes(b),
        a.to_multiset() == b.to_multiset(),
    ensures
        a == b,
    decreases a.len(),
{
    to_multiset_len(a);
    to_multiset_len(b);
    if a.len() == 0 {
        assert(a =~= b);
    } else {
        to_multiset_contains(a, a[0]);
        to_multiset_contains(b, a[0]);
        to_multiset_contains(a, b[0]);
        to_multiset_contains(b, b[0]);
        assert(a.contains(a[0]));
        assert(b.contains(b[0]));
        let j = choose|j: int| 0 <= j < b.len() && b[j] == a[0];
        let i = choose|i: int| 0 <= i < a.len() && a[i] == b[0];
        lemma_bytes_le_reflexive(a[0]);
        lemma_bytes_le_reflexive(b[0]);
        assert(bytes_le(b[0], b[j]));
        assert(bytes_le(a[0], a[i]));
        lemma_bytes_le_antisymmetric(a[0], b[0]);
        to_multiset_remove(a, 0);
        to_multiset_remove(b, 0);
        assert(a.remove(0) =~= a.drop_first());
        assert(b.remove(0) =~= b.drop_first());
        lemma_sorted_unique(a.drop_first(), b.drop_first());
        assert(a =~= seq![a[0]] + a.drop_first());
        assert(b =~= seq![b[0]] + b.drop_first());
    }
}

/// A sorted arrangement of `s` is its canonical order.
pub proof fn lemma_canonical_order(s: Seq<Seq<u8>>, t: Seq<Seq<u8>>)
    requires
        sorted_bytes(t),
        t.to_multiset() == s.to_multiset(),
    ensures
        canonical_order(s) == t,
{
    let c = canonical_order(s);
    assert(sorted_bytes(c) && c.to_multiset() == s.to_multiset());
    lemma_sorted_unique(c, t);
}

/// Compares two byte strings lexicographically.
pub fn bytes_le_exec(a: &Vec<u8>, b: &Vec<u8>) -> (r: bool)
    ensures
        r == bytes_le(a@, b@),
{
    let mut i: usize = 0;
    proof {
        assert(a@.skip(0) =~= a@);
        assert(b@.skip(0) =~= b@);
    }
    while i < a.len() && i < b.len()
        invariant
            i <= a@.len(),
            i <= b@.len(),
            bytes_le(a@, b@) == bytes_le(a@.skip(i as int), b@.skip(i as int)),
        decreases a@.len() - i,
    {
        if a[i] != b[i] {
            return a[i] < b[i];
        }
        proof {
            assert(a@.skip(i as int).drop_first() =~= a@.skip(i + 1));
            assert(b@.skip(i as int).drop_first() =~= b@.skip(i + 1));
        }
        i = i + 1;
    }
    i == a.len()
}

/// Sorts byte strings lexicographically.
pub fn sort_bytes(items: Vec<Vec<u8>>) -> (r: Vec<Vec<u8>>)
    ensures
        sorted_bytes(views(r@)),
        views(r@).to_multiset() == views(items@).to_multiset(),
{
    broadcast use vstd::multiset::group_multiset_axioms;

    let mut sorted: Vec<Vec<u8>> = Vec::new();
    let mut rest = items;
    proof {
        to_multiset_len(views(sorted@));
        vstd::multiset::lemma_multiset_empty_len(views(sorted@).to_multiset());
        assert(views(sorted@).to_multiset().add(views(rest@).to_multiset()) =~= views(items@).to_multiset());
    }
    while rest.len() > 0
        invariant
            sorted_bytes(views(sorted@)),
            views(sorted@).to_multiset().add(views(rest@).to_multiset()) == views(items@).to_multiset(),
        decreases rest@.len(),
    {
        let ghost before = views(rest@);
        let x = rest.pop().unwrap();
        proof {
            assert(before =~= views(rest@).push(x@));
            to_multiset_build(views(rest@), x@);
        }
        let mut p: usize = 0;
        while p < sorted.len() && bytes_le_exec(&sorted[p], &x)
            invariant
                p <= sorted@.len(),
                forall|k: int| 0 <= k < p ==> bytes_le(#[trigger] views(sorted@)[k], x@),
            decreases sorted@.len() - p,
        {
            p = p + 1;
        }
        let ghost old_sorted = views(sorted@);
        proof {
            if p < sorted@.len() {
                lemma_bytes_le_total(old_sorted[p as int], x@);
                assert forall|j: int| p <= j < old_sorted.len() implies bytes_le(
                    x@,
                    #[trigger] old_sorted[j],
                ) by {
                    if j > p {
                        lemma_bytes_le_transitive(x@, old_sorted[p as int], old_sorted[j]);
                    }
                }
            }
        }
        sorted.insert(p, x);
        proof {
            let now = views(sorted@);
            assert(now =~= old_sorted.insert(p as int, x@));
            to_multiset_insert(old_sorted, p as int, x@);
            assert forall|i: int, j: int| 0 <= i < j < now.len() implies bytes_le(
                #[trigger] now[i],
                #[trigger] now[j],
            ) by {
                if j < p {
                    assert(now[i] == old_sorted[i]);
                    assert(now[j] == old_sorted[j]);
                } else if i < p && j == p {
                } else if i < p && j > p {
                    assert(now[j] == old_sorted[j - 1]);
                } else if i == p {
                    assert(now[j] == old_sorted[j - 1]);
                } else {
                    assert(now[i] == old_sorted[i - 1]);
                    assert(now[j] == old_sorted[j - 1]);
                }
            }
            assert(now.to_multiset().add(views(rest@).to_multiset()) =~= views(items@).to_multiset());
        }
    }
    proof {
        to_multiset_len(views(rest@));
        vstd::multiset::lemma_multiset_empty_len(views(rest@).to_multiset());
        assert(views(sorted@).to_multiset().add(views(rest@).to_multiset()) =~= views(sorted@).to_multiset());
    }
    sorted
}

} // verus!
