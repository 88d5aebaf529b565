//! Questions kept as a sequence in ascending order of identifier, and the map
//! from identifier to question that such a sequence stands for.
use vstd::prelude::*;
use crate::ids::{id_lt, lemma_id_order};
use crate::types::QuestionView;

verus! {

/// Every identifier comes strictly before those that follow it.
pub open spec fn ids_ascending(s: Seq<QuestionView>) -> bool {
    forall|i: int, j: int| 0 <= i < j < s.len() ==> #[trigger] id_lt(s[i].id, s[j].id)
}

/// Some question of `s` has the identifier `k`.
pub open spec fn has_id(s: Seq<QuestionView>, k: Seq<char>) -> bool {
    exists|i: int| 0 <= i < s.len() && #[trigger] s[i].id == k
}

/// The map from identifier to question that `s` holds.
pub open spec fn listing_map(s: Seq<QuestionView>) -> Map<Seq<char>, QuestionView> {
    Map::new(
        |k: Seq<char>| has_id(s, k),
        |k: Seq<char>| s[choose|i: int| 0 <= i < s.len() && #[trigger] s[i].id == k],
    )
}

/// `s` lists the questions of `m`, each once, in ascending order of identifier.
pub open spec fn is_sorted_listing(s: Seq<QuestionView>, m: Map<Seq<char>, QuestionView>) -> bool {
    &&& ids_ascending(s)
    &&& forall|i: int| 0 <= i < s.len() ==> m.contains_key(#[trigger] s[i].id) && m[s[i].id] == s[i]
    &&& forall|k: Seq<char>| #[trigger] m.contains_key(k) ==> has_id(s, k)
}

/// In an ascending sequence each question is the one that its identifier maps to.
pub proof fn lemma_lookup(s: Seq<QuestionView>, i: int)
    requires
        ids_ascending(s),
        0 <= i < s.len(),
    ensures
        listing_map(s).contains_key(s[i].id),
        listing_map(s)[s[i].id] == s[i],
{
    let k = s[i].id;
    assert(has_id(s, k));
    let j = choose|j: int| 0 <= j < s.len() && #[trigger] s[j].id == k;
    if j != i {
        lemma_id_order(k, k, k);
        if i < j {
            assert(id_lt(s[i].id, s[j].id));
        } else {
            assert(id_lt(s[j].id, s[i].id));
        }
    }
}

/// An ascending sequence is a sorted listing of the map it holds.
pub proof fn lemma_sorted_listing(s: Seq<QuestionView>)
    requires
        ids_ascending(s),
    ensures
        is_sorted_listing(s, listing_map(s)),
{
    assert forall|i: int| 0 <= i < s.len() implies listing_map(s).contains_key(
        #[trigger] s[i].id,
    ) && listing_map(s)[s[i].id] == s[i] by {
        lemma_lookup(s, i);
    }
}

/// An ascending sequence holds as many questions as its map.
pub proof fn lemma_listing_len(s: Seq<QuestionView>)
    requires
        ids_ascending(s),
    ensures
        listing_map(s).dom().finite(),
        listing_map(s).len() == s.len(),
{
    let ids = s.map_values(|q: QuestionView| q.id);
    assert(ids.no_duplicates()) by {
        assert forall|i: int, j: int| 0 <= i < ids.len() && 0 <= j < ids.len() && i != j implies ids[i] != ids[j] by {
            lemma_id_order(s[i].id, s[j].id, s[i].id);
            if i < j {
                assert(id_lt(s[i].id, s[j].id));
            } else {
                assert(id_lt(s[j].id, s[i].id));
            }
        }
    }
    ids.unique_seq_to_set();
    assert(listing_map(s).dom() =~= ids.to_set()) by {
        assert forall|k: Seq<char>| listing_map(s).dom().contains(k) implies ids.to_set().contains(k) by {
            let i = choose|i: int| 0 <= i < s.len() && #[trigger] s[i].id == k;
            assert(ids[i] == k);
        }
        assert forall|k: Seq<char>| ids.to_set().contains(k) implies listing_map(s).dom().contains(k) by {
            let i = choose|i: int| 0 <= i < ids.len() && ids[i] == k;
            assert(s[i].id == k);
        }
    }
}

/// A sorted listing of `m` holds `m` and as many questions as `m`.
pub proof fn lemma_sorted_listing_len(s: Seq<QuestionView>, m: Map<Seq<char>, QuestionView>)
    requires
        is_sorted_listing(s, m),
    ensures
        m =~= listing_map(s),
        m.dom().finite(),
        m.len() == s.len(),
{
    assert forall|k: Seq<char>| #[trigger] m.contains_key(k) == listing_map(s).contains_key(k) by {
        if has_id(s, k) {
            let i = choose|i: int| 0 <= i < s.len() && #[trigger] s[i].id == k;
            assert(m.contains_key(s[i].id));
        }
    }
    assert forall|k: Seq<char>| #[trigger] m.contains_key(k) implies m[k] == listing_map(s)[k] by {
        let i = choose|i: int| 0 <= i < s.len() && #[trigger] s[i].id == k;
        lemma_lookup(s, i);
    }
    assert(m =~= listing_map(s));
    lemma_listing_len(s);
}

/// Where `k` falls between positions `p - 1` and `p`, it comes before every
/// identifier from `p` on, and no question of `s` has it.
pub proof fn lemma_gap(s: Seq<QuestionView>, p: int, k: Seq<char>)
    requires
        ids_ascending(s),
        0 <= p <= s.len(),
        forall|i: int| 0 <= i < p ==> id_lt(#[trigger] s[i].id, k),
        p < s.len() ==> id_lt(k, s[p].id),
    ensures
        forall|i: int| p <= i < s.len() ==> id_lt(k, #[trigger] s[i].id),
        !has_id(s, k),
        !listing_map(s).contains_key(k),
{
    assert forall|i: int| p <= i < s.len() implies id_lt(k, #[trigger] s[i].id) by {
        if i > p {
            assert(id_lt(s[p].id, s[i].id));
            lemma_id_order(k, s[p].id, s[i].id);
        }
    }
    if has_id(s, k) {
        let j = choose|j: int| 0 <= j < s.len() && #[trigger] s[j].id == k;
        lemma_id_order(k, k, k);
        if j < p {
            assert(id_lt(s[j].id, k));
        } else {
            assert(id_lt(k, s[j].id));
        }
    }
}

/// Inserting `q` at its place keeps the order and adds `q` to the map.
pub proof fn lemma_insert(s: Seq<QuestionView>, p: int, q: QuestionView)
    requires
        ids_ascending(s),
        0 <= p <= s.len(),
        forall|i: int| 0 <= i < p ==> id_lt(#[trigger] s[i].id, q.id),
        p < s.len() ==> id_lt(q.id, s[p].id),
    ensures
        ids_ascending(s.insert(p, q)),
        listing_map(s.insert(p, q)) =~= listing_map(s).insert(q.id, q),
{
    lemma_gap(s, p, q.id);
    let t = s.insert(p, q);
    assert forall|i: int, j: int| 0 <= i < j < t.len() implies #[trigger] id_lt(t[i].id, t[j].id) by {
        if j < p {
            assert(t[i] == s[i] && t[j] == s[j]);
        } else if j == p {
            assert(t[i] == s[i]);
        } else if i < p {
            assert(t[i] == s[i] && t[j] == s[j - 1]);
            lemma_id_order(s[i].id, q.id, s[j - 1].id);
        } else if i == p {
            assert(t[j] == s[j - 1]);
        } else {
            assert(t[i] == s[i - 1] && t[j] == s[j - 1]);
        }
    }
    let m = listing_map(s).insert(q.id, q);
    assert forall|k: Seq<char>| #[trigger] listing_map(t).contains_key(k) == m.contains_key(k) by {
        if has_id(t, k) {
            let j = choose|j: int| 0 <= j < t.len() && #[trigger] t[j].id == k;
            if j < p {
                assert(s[j].id == k);
            } else if j > p {
                assert(s[j - 1].id == k);
            }
        }
        if has_id(s, k) {
            let j = choose|j: int| 0 <= j < s.len() && #[trigger] s[j].id == k;
            if j < p {
                assert(t[j].id == k);
            } else {
                assert(t[j + 1].id == k);
            }
        }
        if k == q.id {
            assert(t[p].id == k);
        }
    }
    assert forall|k: Seq<char>| #[trigger] m.contains_key(k) implies listing_map(t)[k] == m[k] by {
        assert(listing_map(t).contains_key(k));
        let j = choose|j: int| 0 <= j < t.len() && #[trigger] t[j].id == k;
        lemma_lookup(t, j);
        if j < p {
            lemma_lookup(s, j);
        } else if j > p {
            lemma_lookup(s, j - 1);
        }
    }
}

/// Replacing the question at `p` by one with the same identifier keeps the
/// order and replaces it in the map.
pub proof fn lemma_replace(s: Seq<QuestionView>, p: int, q: QuestionView)
    requires
        ids_ascending(s),
        0 <= p < s.len(),
        q.id == s[p].id,
    ensures
        ids_ascending(s.update(p, q)),
        listing_map(s.update(p, q)) =~= listing_map(s).insert(q.id, q),
{
    let t = s.update(p, q);
    assert forall|i: int, j: int| 0 <= i < j < t.len() implies #[trigger] id_lt(t[i].id, t[j].id) by {
        assert(t[i].id == s[i].id && t[j].id == s[j].id);
    }
    let m = listing_map(s).insert(q.id, q);
    assert forall|k: Seq<char>| #[trigger] listing_map(t).contains_key(k) == m.contains_key(k) by {
        if has_id(t, k) {
            let j = choose|j: int| 0 <= j < t.len() && #[trigger] t[j].id == k;
            assert(s[j].id == k);
        }
        if has_id(s, k) {
            let j = choose|j: int| 0 <= j < s.len() && #[trigger] s[j].id == k;
            assert(t[j].id == k);
        }
    }
    assert forall|k: Seq<char>| #[trigger] m.contains_key(k) implies listing_map(t)[k] == m[k] by {
        assert(listing_map(t).contains_key(k));
        let j = choose|j: int| 0 <= j < t.len() && #[trigger] t[j].id == k;
        lemma_lookup(t, j);
        if j != p {
            lemma_lookup(s, j);
            lemma_id_order(k, k, k);
            if j < p {
                assert(id_lt(s[j].id, s[p].id));
            } else {
                assert(id_lt(s[p].id, s[j].id));
            }
        }
    }
}

/// Removing the question at `p` keeps the order and removes its identifier
/// from the map.
pub proof fn lemma_remove(s: Seq<QuestionView>, p: int)
    requires
        ids_ascending(s),
        0 <= p < s.len(),
    ensures
        ids_ascending(s.remove(p)),
        listing_map(s.remove(p)) =~= listing_map(s).remove(s[p].id),
{
    let t = s.remove(p);
    let k0 = s[p].id;
    assert forall|i: int, j: int| 0 <= i < j < t.len() implies #[trigger] id_lt(t[i].id, t[j].id) by {
        if j < p {
            assert(t[i] == s[i] && t[j] == s[j]);
        } else if i < p {
            assert(t[i] == s[i] && t[j] == s[j + 1]);
        } else {
            assert(t[i] == s[i + 1] && t[j] == s[j + 1]);
        }
    }
    let m = listing_map(s).remove(k0);
    assert forall|k: Seq<char>| #[trigger] listing_map(t).contains_key(k) == m.contains_key(k) by {
        if has_id(t, k) {
            let j = choose|j: int| 0 <= j < t.len() && #[trigger] t[j].id == k;
            lemma_id_order(k0, k0, k0);
            if j < p {
                assert(s[j].id == k);
                assert(id_lt(s[j].id, s[p].id));
            } else {
                assert(s[j + 1].id == k);
                assert(id_lt(s[p].id, s[j + 1].id));
            }
        }
        if has_id(s, k) && k != k0 {
            let j = choose|j: int| 0 <= j < s.len() && #[trigger] s[j].id == k;
            if j < p {
                assert(t[j].id == k);
            } else {
                assert(t[j - 1].id == k);
            }
        }
    }
    assert forall|k: Seq<char>| #[trigger] m.contains_key(k) implies listing_map(t)[k] == m[k] by {
        assert(listing_map(t).contains_key(k));
        let j = choose|j: int| 0 <= j < t.len() && #[trigger] t[j].id == k;
        lemma_lookup(t, j);
        if j < p {
            lemma_lookup(s, j);
        } else {
            lemma_lookup(s, j + 1);
        }
    }
}

} // verus!
