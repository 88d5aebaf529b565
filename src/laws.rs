//! Properties of the store that relate several operations.
use vstd::prelude::*;
use crate::ids::{id_lt, lemma_id_order};
use crate::listing::{has_id, ids_ascending, is_sorted_listing, lemma_sorted_listing_len};
use crate::store::{add_question_model, update_question_model};
use crate::types::{QuestionUpdateView, QuestionView};

verus! {

/// The questions after adding each of `qs` in turn to the questions `m`.
pub open spec fn add_all(m: Map<Seq<char>, QuestionView>, qs: Seq<QuestionView>) -> Map<
    Seq<char>,
    QuestionView,
>
    decreases qs.len(),
{
    if qs.len() == 0 {
        m
    } else {
        add_question_model(add_all(m, qs.drop_last()), qs.last())
    }
}

/// No two questions of `qs` share an identifier.
pub open spec fn ids_distinct(qs: Seq<QuestionView>) -> bool {
    forall|i: int, j: int|
        0 <= i < qs.len() && 0 <= j < qs.len() && i != j ==> #[trigger] qs[i].id != #[trigger] qs[j].id
}

/// `q` is one of the questions of `s`.
pub open spec fn occurs(s: Seq<QuestionView>, q: QuestionView) -> bool {
    exists|i: int| 0 <= i < s.len() && s[i] == q
}

proof fn lemma_add_all_distinct(qs: Seq<QuestionView>)
    requires
        ids_distinct(qs),
    ensures
        forall|k: Seq<char>|
            #[trigger] add_all(Map::empty(), qs).contains_key(k) <==> has_id(qs, k),
        forall|i: int|
            0 <= i < qs.len() ==> add_all(Map::empty(), qs)[#[trigger] qs[i].id] == qs[i],
        add_all(Map::empty(), qs).dom().finite(),
        add_all(Map::empty(), qs).len() == qs.len(),
    decreases qs.len(),
{
    if qs.len() > 0 {
        let pre = qs.drop_last();
        let n = pre.len() as int;
        assert(ids_distinct(pre)) by {
            assert forall|i: int, j: int|
                0 <= i < pre.len() && 0 <= j < pre.len() && i != j implies #[trigger] pre[i].id
                != #[trigger] pre[j].id by {
                assert(pre[i] == qs[i] && pre[j] == qs[j]);
            }
        }
        lemma_add_all_distinct(pre);
        let m0 = add_all(Map::empty(), pre);
        assert(!m0.contains_key(qs[n].id)) by {
            if has_id(pre, qs[n].id) {
                let j = choose|j: int| 0 <= j < pre.len() && #[trigger] pre[j].id == qs[n].id;
                assert(qs[j].id == qs[n].id);
            }
        }
        assert forall|k: Seq<char>| #[trigger]
            add_all(Map::empty(), qs).contains_key(k) <==> has_id(qs, k) by {
            if has_id(pre, k) {
                let j = choose|j: int| 0 <= j < pre.len() && #[trigger] pre[j].id == k;
                assert(qs[j].id == k);
            }
            if has_id(qs, k) && k != qs[n].id {
                let j = choose|j: int| 0 <= j < qs.len() && #[trigger] qs[j].id == k;
                assert(pre[j].id == k);
            }
        }
        assert forall|i: int| 0 <= i < qs.len() implies add_all(Map::empty(), qs)[#[trigger] qs[i].id]
            == qs[i] by {
            if i < n {
                assert(pre[i] == qs[i]);
            }
        }
        assert(add_all(Map::empty(), qs).dom() == m0.dom().insert(qs[n].id));
    } else {
        assert(add_all(Map::empty(), qs).dom() =~= Set::<Seq<char>>::empty());
    }
}

proof fn lemma_listing_holds(
    qs: Seq<QuestionView>,
    m: Map<Seq<char>, QuestionView>,
    listing: Seq<QuestionView>,
)
    requires
        forall|k: Seq<char>| #[trigger] m.contains_key(k) <==> has_id(qs, k),
        forall|i: int| 0 <= i < qs.len() ==> m[#[trigger] qs[i].id] == qs[i],
        is_sorted_listing(listing, m),
    ensures
        forall|i: int| 0 <= i < qs.len() ==> #[trigger] occurs(listing, qs[i]),
        forall|j: int| 0 <= j < listing.len() ==> #[trigger] occurs(qs, listing[j]),
{
    assert forall|i: int| 0 <= i < qs.len() implies #[trigger] occurs(listing, qs[i]) by {
        let k = qs[i].id;
        assert(has_id(qs, k));
        assert(m.contains_key(k));
        let j = choose|j: int| 0 <= j < listing.len() && #[trigger] listing[j].id == k;
        assert(listing[j] == qs[i]);
        assert(occurs(listing, qs[i]));
    }
    assert forall|j: int| 0 <= j < listing.len() implies #[trigger] occurs(qs, listing[j]) by {
        let k = listing[j].id;
        assert(m.contains_key(k));
        let i = choose|i: int| 0 <= i < qs.len() && #[trigger] qs[i].id == k;
        assert(listing[j] == qs[i]);
        assert(occurs(qs, listing[j]));
    }
}

/// Adding questions with pairwise distinct identifiers, in any order, and
/// then listing the store gives exactly those questions, in strictly ascending
/// order of identifier, each once. With `lemma_listing_unique` the listing does not
/// depend on the order of the additions.
pub proof fn lemma_listing_after_adds(qs: Seq<QuestionView>, listing: Seq<QuestionView>)
    requires
        ids_distinct(qs),
        is_sorted_listing(listing, add_all(Map::empty(), qs)),
    ensures
        ids_ascending(listing),
        listing.len() == qs.len(),
        forall|i: int| 0 <= i < qs.len() ==> #[trigger] occurs(listing, qs[i]),
        forall|j: int| 0 <= j < listing.len() ==> #[trigger] occurs(qs, listing[j]),
{
    lemma_add_all_distinct(qs);
    lemma_sorted_listing_len(listing, add_all(Map::empty(), qs));
    lemma_listing_holds(qs, add_all(Map::empty(), qs), listing);
}

/// A map of questions has one sorted listing: two sorted listings of the same
/// questions are equal.
pub proof fn lemma_listing_unique(
    m: Map<Seq<char>, QuestionView>,
    a: Seq<QuestionView>,
    b: Seq<QuestionView>,
)
    requires
        is_sorted_listing(a, m),
        is_sorted_listing(b, m),
    ensures
        a == b,
    decreases a.len(),
{
    if a.len() == 0 && b.len() > 0 {
        assert(m.contains_key(b[0].id));
    } else if a.len() > 0 && b.len() == 0 {
        assert(m.contains_key(a[0].id));
    } else if a.len() > 0 {
        let ka = a[0].id;
        let kb = b[0].id;
        assert(m.contains_key(ka) && m.contains_key(kb));
        let j = choose|j: int| 0 <= j < b.len() && #[trigger] b[j].id == ka;
        let i = choose|i: int| 0 <= i < a.len() && #[trigger] a[i].id == kb;
        if ka != kb {
            assert(id_lt(b[0].id, b[j].id));
            assert(id_lt(a[0].id, a[i].id));
            lemma_id_order(ka, kb, ka);
        }
        assert(a[0] == b[0]);
        let m2 = m.remove(ka);
        let a2 = a.drop_first();
        let b2 = b.drop_first();
        lemma_id_order(ka, ka, ka);
        assert(is_sorted_listing(a2, m2)) by {
            assert forall|x: int| 0 <= x < a2.len() implies m2.contains_key(#[trigger] a2[x].id)
                && m2[a2[x].id] == a2[x] by {
                assert(a2[x] == a[x + 1]);
                assert(id_lt(a[0].id, a[x + 1].id));
            }
            assert forall|k: Seq<char>| #[trigger] m2.contains_key(k) implies has_id(a2, k) by {
                assert(m.contains_key(k));
                let y = choose|y: int| 0 <= y < a.len() && #[trigger] a[y].id == k;
                assert(a2[y - 1].id == k);
            }
        }
        assert(is_sorted_listing(b2, m2)) by {
            assert forall|x: int| 0 <= x < b2.len() implies m2.contains_key(#[trigger] b2[x].id)
                && m2[b2[x].id] == b2[x] by {
                assert(b2[x] == b[x + 1]);
                assert(id_lt(b[0].id, b[x + 1].id));
            }
            assert forall|k: Seq<char>| #[trigger] m2.contains_key(k) implies has_id(b2, k) by {
                assert(m.contains_key(k));
                let y = choose|y: int| 0 <= y < b.len() && #[trigger] b[y].id == k;
                assert(b2[y - 1].id == k);
            }
        }
        lemma_listing_unique(m2, a2, b2);
        assert(a =~= b) by {
            assert forall|x: int| 0 <= x < a.len() implies a[x] == b[x] by {
                if x > 0 {
                    assert(a[x] == a2[x - 1] && b[x] == b2[x - 1]);
                }
            }
        }
    }
}

/// After `q` is added under a new identifier, adding `q2` with the same
/// identifier finds it taken (so `add_question` reports `DuplicateId`) and
/// leaves `q` stored unchanged.
pub proof fn lemma_second_add_is_duplicate(
    m: Map<Seq<char>, QuestionView>,
    q: QuestionView,
    q2: QuestionView,
)
    requires
        !m.contains_key(q.id),
        q2.id == q.id,
    ensures
        add_question_model(m, q).contains_key(q2.id),
        add_question_model(add_question_model(m, q), q2) == add_question_model(m, q),
        add_question_model(add_question_model(m, q), q2)[q.id] == q,
{
}

/// Updating an identifier that names no question leaves the questions, and so
/// their number, unchanged.
pub proof fn lemma_update_missing_unchanged(
    m: Map<Seq<char>, QuestionView>,
    id: Seq<char>,
    p: QuestionUpdateView,
)
    requires
        !m.contains_key(id),
    ensures
        update_question_model(m, id, p) == m,
        update_question_model(m, id, p).len() == m.len(),
{
}

/// A question added under a new identifier is found under it with all its
/// fields as given.
pub proof fn lemma_add_then_get(m: Map<Seq<char>, QuestionView>, q: QuestionView)
    requires
        !m.contains_key(q.id),
    ensures
        add_question_model(m, q).contains_key(q.id),
        add_question_model(m, q)[q.id] == q,
{
}

} // verus!
