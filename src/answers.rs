//! Answers kept as a sequence with pairwise distinct identifiers, and the map
//! from identifier to answer that such a sequence stands for.
use vstd::prelude::*;
use crate::types::AnswerView;

verus! {

/// No two answers of `s` share an identifier.
pub open spec fn answer_ids_distinct(s: Seq<AnswerView>) -> bool {
    forall|i: int, j: int|
        0 <= i < s.len() && 0 <= j < s.len() && i != j ==> #[trigger] s[i].id != #[trigger] s[j].id
}

/// Some answer of `s` has the identifier `k`.
pub open spec fn has_answer_id(s: Seq<AnswerView>, k: Seq<char>) -> bool {
    exists|i: int| 0 <= i < s.len() && #[trigger] s[i].id == k
}

/// The map from identifier to answer that `s` holds.
pub open spec fn answer_map(s: Seq<AnswerView>) -> Map<Seq<char>, AnswerView> {
    Map::new(
        |k: Seq<char>| has_answer_id(s, k),
        |k: Seq<char>| s[choose|i: int| 0 <= i < s.len() && #[trigger] s[i].id == k],
    )
}

/// Appending an answer with a new identifier adds it to the map.
pub proof fn lemma_push_answer(s: Seq<AnswerView>, a: AnswerView)
    requires
        answer_ids_distinct(s),
        !has_answer_id(s, a.id),
    ensures
        answer_ids_distinct(s.push(a)),
        answer_map(s.push(a)) =~= answer_map(s).insert(a.id, a),
{
    let t = s.push(a);
    let n = s.len() as int;
    assert forall|i: int, j: int|
        0 <= i < t.len() && 0 <= j < t.len() && i != j implies #[trigger] t[i].id
        != #[trigger] t[j].id by {
        if i < n && j < n {
            assert(t[i] == s[i] && t[j] == s[j]);
        } else if i < n {
            assert(t[i] == s[i]);
        } else {
            assert(t[j] == s[j]);
        }
    }
    let m = answer_map(s).insert(a.id, a);
    assert forall|k: Seq<char>| #[trigger] answer_map(t).contains_key(k) == m.contains_key(k) by {
        if has_answer_id(t, k) {
            let j = choose|j: int| 0 <= j < t.len() && #[trigger] t[j].id == k;
            if j < n {
                assert(s[j].id == k);
            }
        }
        if has_answer_id(s, k) {
            let j = choose|j: int| 0 <= j < s.len() && #[trigger] s[j].id == k;
            assert(t[j].id == k);
        }
        if k == a.id {
            assert(t[n].id == k);
        }
    }
    assert forall|k: Seq<char>| #[trigger] m.contains_key(k) implies answer_map(t)[k] == m[k] by {
        assert(answer_map(t).contains_key(k));
        let j = choose|j: int| 0 <= j < t.len() && #[trigger] t[j].id == k;
        if j < n {
            assert(s[j].id == k);
            let j2 = choose|j2: int| 0 <= j2 < s.len() && #[trigger] s[j2].id == k;
            assert(t[j2].id == k);
        } else {
            assert(!has_answer_id(s, a.id));
        }
    }
}

} // verus!
