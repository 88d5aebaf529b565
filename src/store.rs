//! The store: questions by identifier, answers by identifier, and the
//! operations on them. Exclusive access for writers is given by `&mut self`;
//! callers that share a store between tasks hold it behind a reader/writer lock.
use vstd::prelude::*;
use crate::answers::{answer_ids_distinct, answer_map, has_answer_id, lemma_push_answer};
use crate::error::DatabaseError;
use crate::ids::{compare_ids, id_lt, is_valid_id, valid_id, IdOrder};
use crate::listing::{
    ids_ascending,
    is_sorted_listing,
    lemma_gap,
    lemma_insert,
    lemma_listing_len,
    lemma_lookup,
    lemma_remove,
    lemma_replace,
    lemma_sorted_listing,
    listing_map,
};
use crate::pagination::{paginate, window, PaginationError, PaginationParams};
use crate::types::{apply_patch, Answer, AnswerView, Question, QuestionUpdate, QuestionUpdateView, QuestionView};

verus! {

/// What a store holds: questions and answers, each by identifier.
pub struct DbView {
    pub questions: Map<Seq<char>, QuestionView>,
    pub answers: Map<Seq<char>, AnswerView>,
}

pub open spec fn question_views(s: Seq<Question>) -> Seq<QuestionView> {
    s.map_values(|q: Question| q@)
}

pub open spec fn answer_views(s: Seq<Answer>) -> Seq<AnswerView> {
    s.map_values(|a: Answer| a@)
}

/// The questions after adding `q`: unchanged where its identifier is taken.
pub open spec fn add_question_model(
    m: Map<Seq<char>, QuestionView>,
    q: QuestionView,
) -> Map<Seq<char>, QuestionView> {
    if m.contains_key(q.id) {
        m
    } else {
        m.insert(q.id, q)
    }
}

/// The questions after updating the one named `id` with `p`: unchanged where
/// there is none.
pub open spec fn update_question_model(
    m: Map<Seq<char>, QuestionView>,
    id: Seq<char>,
    p: QuestionUpdateView,
) -> Map<Seq<char>, QuestionView> {
    if m.contains_key(id) {
        m.insert(id, apply_patch(m[id], p))
    } else {
        m
    }
}

/// `e` reports that the identifier `id` is taken.
pub open spec fn is_duplicate_id(e: DatabaseError, id: Seq<char>) -> bool {
    match e {
        DatabaseError::DuplicateId(d) => d@ == id,
        _ => false,
    }
}

/// `e` reports that the identifier `id` is malformed.
pub open spec fn is_unprocessable_id(e: DatabaseError, id: Seq<char>) -> bool {
    match e {
        DatabaseError::UnprocessableId(d) => d@ == id,
        _ => false,
    }
}

/// `c` is one of the 64 characters of nanoid's URL-safe alphabet.
pub open spec fn is_url_safe_char(c: char) -> bool {
    ||| c == '_'
    ||| c == '-'
    ||| ('0' as int) <= (c as int) <= ('9' as int)
    ||| ('a' as int) <= (c as int) <= ('z' as int)
    ||| ('A' as int) <= (c as int) <= ('Z' as int)
}

/// Length of the identifiers given to new answers.
pub const ANSWER_ID_LEN: usize = 21;

/// Relies on `nanoid::format` called with `nanoid::rngs::default` and
/// `nanoid::alphabet::SAFE`: a random string of the requested number of
/// characters, each drawn from that ASCII alphabet.
#[verifier::external_body]
fn random_answer_id() -> (r: String)
    ensures
        r@.len() == ANSWER_ID_LEN,
        forall|i: int| 0 <= i < r@.len() ==> is_url_safe_char(#[trigger] r@[i]),
{
    nanoid::format(nanoid::rngs::default, &nanoid::alphabet::SAFE, ANSWER_ID_LEN)
}

/// The in-memory store of questions and answers.
pub struct Database {
    questions: Vec<Question>,
    answers: Vec<Answer>,
}

impl View for Database {
    type V = DbView;

    closed spec fn view(&self) -> DbView {
        DbView {
            questions: listing_map(question_views(self.questions@)),
            answers: answer_map(answer_views(self.answers@)),
        }
    }
}

impl Database {
    /// Questions are held in ascending order of identifier; answer
    /// identifiers are distinct.
    pub closed spec fn wf(&self) -> bool {
        &&& ids_ascending(question_views(self.questions@))
        &&& answer_ids_distinct(answer_views(self.answers@))
    }

    /// Every question, in ascending order of identifier.
    pub closed spec fn listing(&self) -> Seq<QuestionView> {
        question_views(self.questions@)
    }

    /// Each question and each answer is stored under its own identifier.
    pub proof fn lemma_keys_are_ids(&self)
        requires
            self.wf(),
        ensures
            forall|k: Seq<char>| #[trigger] self@.questions.contains_key(k) ==> self@.questions[k].id == k,
            forall|k: Seq<char>| #[trigger] self@.answers.contains_key(k) ==> self@.answers[k].id == k,
    {
    }

    /// An empty store.
    pub fn new() -> (r: Self)
        ensures
            r.wf(),
            r@.questions == Map::<Seq<char>, QuestionView>::empty(),
            r@.answers == Map::<Seq<char>, AnswerView>::empty(),
    {
        let r = Database { questions: Vec::new(), answers: Vec::new() };
        assert(r@.questions =~= Map::<Seq<char>, QuestionView>::empty());
        assert(r@.answers =~= Map::<Seq<char>, AnswerView>::empty());
        r
    }

    /// The position at which `key` stands or would stand among the questions,
    /// and whether it stands there.
    fn find_question(&self, key: &str) -> (r: (usize, bool))
        requires
            self.wf(),
        ensures
            r.0 <= self.listing().len(),
            forall|i: int| 0 <= i < r.0 ==> id_lt(#[trigger] self.listing()[i].id, key@),
            r.1 ==> r.0 < self.listing().len() && self.listing()[r.0 as int].id == key@,
            !r.1 ==> (r.0 < self.listing().len() ==> id_lt(key@, self.listing()[r.0 as int].id)),
    {
        let mut i: usize = 0;
        while i < self.questions.len()
            invariant
                i <= self.questions@.len(),
                forall|j: int| 0 <= j < i ==> id_lt(#[trigger] self.listing()[j].id, key@),
            decreases self.questions@.len() - i,
        {
            match compare_ids(self.questions[i].id.as_str(), key) {
                IdOrder::Less => {},
                IdOrder::Equal => {
                    return (i, true);
                },
                IdOrder::Greater => {
                    return (i, false);
                },
            }
            i = i + 1;
        }
        (i, false)
    }

    /// Whether an answer has the identifier `key`.
    fn has_answer(&self, key: &str) -> (r: bool)
        ensures
            r == has_answer_id(answer_views(self.answers@), key@),
    {
        let ghost s = answer_views(self.answers@);
        let mut i: usize = 0;
        while i < self.answers.len()
            invariant
                i <= self.answers@.len(),
                s == answer_views(self.answers@),
                forall|j: int| 0 <= j < i ==> #[trigger] s[j].id != key@,
            decreases self.answers@.len() - i,
        {
            if compare_ids(self.answers[i].id.as_str(), key) == IdOrder::Equal {
                assert(s[i as int].id == key@);
                return true;
            }
            i = i + 1;
        }
        false
    }

    /// Every question, as independent copies, in ascending order of identifier.
    pub fn list_sorted(&self) -> (r: Vec<Question>)
        requires
            self.wf(),
        ensures
            question_views(r@) == self.listing(),
            is_sorted_listing(self.listing(), self@.questions),
            self.listing().len() == self@.questions.len(),
    {
        proof {
            lemma_sorted_listing(self.listing());
            lemma_listing_len(self.listing());
        }
        let mut out: Vec<Question> = Vec::new();
        let mut i: usize = 0;
        while i < self.questions.len()
            invariant
                i <= self.questions@.len(),
                out@.len() == i,
                forall|j: int| 0 <= j < i ==> (#[trigger] out@[j])@ == self.questions@[j]@,
            decreases self.questions@.len() - i,
        {
            out.push(self.questions[i].duplicate());
            i = i + 1;
        }
        assert(question_views(out@) =~= self.listing());
        out
    }

    /// The page of the sorted questions that `params` selects.
    pub fn get_questions(&self, params: &PaginationParams) -> (r: Result<Vec<Question>, PaginationError>)
        requires
            self.wf(),
        ensures
            is_sorted_listing(self.listing(), self@.questions),
            self.listing().len() == self@.questions.len(),
            match window(self.listing().len() as int, params.start, params.end) {
                Some((lo, hi)) => r is Ok && question_views(r->Ok_0@) == self.listing().subrange(lo, hi),
                None => r is Err && r->Err_0 == PaginationError::InvalidRange,
            },
    {
        let all = self.list_sorted();
        let ghost whole = all@;
        let r = paginate(all, params);
        proof {
            if let Some((lo, hi)) = window(self.listing().len() as int, params.start, params.end) {
                assert(question_views(whole.subrange(lo, hi)) =~= question_views(whole).subrange(lo, hi));
            }
        }
        r
    }

    /// A copy of the question with identifier `qid`.
    pub fn get_question_by_id(&self, qid: String) -> (r: Result<Question, DatabaseError>)
        requires
            self.wf(),
        ensures
            self@.questions.contains_key(qid@) ==> r is Ok && r->Ok_0@ == self@.questions[qid@]
                && r->Ok_0@.id == qid@,
            !self@.questions.contains_key(qid@) ==> r == Err::<Question, DatabaseError>(DatabaseError::NotFound),
    {
        let (p, found) = self.find_question(qid.as_str());
        if found {
            proof {
                lemma_lookup(self.listing(), p as int);
            }
            Ok(self.questions[p].duplicate())
        } else {
            proof {
                lemma_gap(self.listing(), p as int, qid@);
            }
            Err(DatabaseError::NotFound)
        }
    }

    /// Adds `q`, unless a question with its identifier exists.
    pub fn add_question(&mut self, q: Question) -> (r: Result<(), DatabaseError>)
        requires
            old(self).wf(),
        ensures
            final(self).wf(),
            final(self)@.questions == add_question_model(old(self)@.questions, q@),
            final(self)@.answers == old(self)@.answers,
            old(self)@.questions.contains_key(q@.id) ==> r is Err && is_duplicate_id(r->Err_0, q@.id),
            !old(self)@.questions.contains_key(q@.id) ==> r is Ok,
    {
        let (p, found) = self.find_question(q.id.as_str());
        if found {
            proof {
                lemma_lookup(self.listing(), p as int);
            }
            let d = q.id.clone();
            Err(DatabaseError::DuplicateId(d))
        } else {
            proof {
                lemma_gap(self.listing(), p as int, q@.id);
                lemma_insert(self.listing(), p as int, q@);
            }
            let ghost before = self.questions@;
            self.questions.insert(p, q);
            assert(question_views(self.questions@) =~= question_views(before).insert(p as int, q@));
            Ok(())
        }
    }

    /// Replaces the title, body and tags of the question `qid` with those of `patch`.
    pub fn update_question(&mut self, qid: &str, patch: QuestionUpdate) -> (r: Result<(), DatabaseError>)
        requires
            old(self).wf(),
        ensures
            final(self).wf(),
            valid_id(qid@) ==> final(self)@.questions == update_question_model(old(self)@.questions, qid@, patch@),
            final(self)@.answers == old(self)@.answers,
            !valid_id(qid@) ==> r is Err && is_unprocessable_id(r->Err_0, qid@) && final(self)@ == old(self)@,
            valid_id(qid@) && !old(self)@.questions.contains_key(qid@) ==> r == Err::<(), DatabaseError>(DatabaseError::NotFound),
            valid_id(qid@) && old(self)@.questions.contains_key(qid@) ==> r is Ok,
    {
        if !is_valid_id(qid) {
            return Err(DatabaseError::UnprocessableId(qid.to_owned()));
        }
        let (p, found) = self.find_question(qid);
        if !found {
            proof {
                lemma_gap(self.listing(), p as int, qid@);
            }
            return Err(DatabaseError::NotFound);
        }
        proof {
            lemma_lookup(self.listing(), p as int);
        }
        let ghost before = self.questions@;
        let current = self.questions.remove(p);
        let updated = current.patched(patch);
        self.questions.insert(p, updated);
        proof {
            lemma_replace(question_views(before), p as int, updated@);
            assert(question_views(self.questions@) =~= question_views(before).update(p as int, updated@));
        }
        Ok(())
    }

    /// Removes the question `qid`. Its answers are kept.
    pub fn delete_question(&mut self, qid: &str) -> (r: Result<(), DatabaseError>)
        requires
            old(self).wf(),
        ensures
            final(self).wf(),
            final(self)@.answers == old(self)@.answers,
            !valid_id(qid@) ==> r is Err && is_unprocessable_id(r->Err_0, qid@) && final(self)@ == old(self)@,
            valid_id(qid@) && !old(self)@.questions.contains_key(qid@) ==> r == Err::<(), DatabaseError>(DatabaseError::NotFound) && final(self)@ == old(self)@,
            valid_id(qid@) && old(self)@.questions.contains_key(qid@) ==> r is Ok && final(self)@.questions == old(self)@.questions.remove(qid@),
    {
        if !is_valid_id(qid) {
            return Err(DatabaseError::UnprocessableId(qid.to_owned()));
        }
        let (p, found) = self.find_question(qid);
        if !found {
            proof {
                lemma_gap(self.listing(), p as int, qid@);
            }
            return Err(DatabaseError::NotFound);
        }
        let ghost before = self.questions@;
        self.questions.remove(p);
        proof {
            lemma_remove(question_views(before), p as int);
            assert(question_views(self.questions@) =~= question_views(before).remove(p as int));
        }
        Ok(())
    }

    /// Adds the answer `a`, unless its identifier is taken or its question
    /// does not exist.
    pub fn add_answer(&mut self, a: Answer) -> (r: Result<(), DatabaseError>)
        requires
            old(self).wf(),
        ensures
            final(self).wf(),
            final(self)@.questions == old(self)@.questions,
            old(self)@.answers.contains_key(a@.id) ==> r is Err && is_duplicate_id(r->Err_0, a@.id) && final(self)@ == old(self)@,
            !old(self)@.answers.contains_key(a@.id) && !old(self)@.questions.contains_key(a@.question_id)
                ==> r == Err::<(), DatabaseError>(DatabaseError::NotFound) && final(self)@ == old(self)@,
            !old(self)@.answers.contains_key(a@.id) && old(self)@.questions.contains_key(a@.question_id)
                ==> r is Ok && final(self)@.answers == old(self)@.answers.insert(a@.id, a@),
    {
        if self.has_answer(a.id.as_str()) {
            let d = a.id.clone();
            return Err(DatabaseError::DuplicateId(d));
        }
        let (p, found) = self.find_question(a.question_id.as_str());
        if !found {
            proof {
                lemma_gap(self.listing(), p as int, a@.question_id);
            }
            return Err(DatabaseError::NotFound);
        }
        proof {
            lemma_lookup(self.listing(), p as int);
            lemma_push_answer(answer_views(self.answers@), a@);
        }
        let ghost before = self.answers@;
        self.answers.push(a);
        assert(answer_views(self.answers@) =~= answer_views(before).push(a@));
        Ok(())
    }

    /// Answers the question `qid` with `content` under a fresh random
    /// identifier, which is returned.
    pub fn post_answer(&mut self, content: String, qid: String) -> (r: Result<String, DatabaseError>)
        requires
            old(self).wf(),
        ensures
            final(self).wf(),
            final(self)@.questions == old(self)@.questions,
            old(self)@.questions.contains_key(qid@) ==> r is Ok || r->Err_0 is DuplicateId,
            match r {
                Ok(id) => {
                    &&& id@.len() == ANSWER_ID_LEN
                    &&& forall|i: int| 0 <= i < id@.len() ==> is_url_safe_char(#[trigger] id@[i])
                    &&& old(self)@.questions.contains_key(qid@)
                    &&& !old(self)@.answers.contains_key(id@)
                    &&& final(self)@.answers == old(self)@.answers.insert(
                        id@,
                        AnswerView { id: id@, content: content@, question_id: qid@ },
                    )
                },
                Err(e) => {
                    &&& final(self)@ == old(self)@
                    &&& (e is DuplicateId && old(self)@.answers.contains_key(e->DuplicateId_0@))
                        || (e == DatabaseError::NotFound && !old(self)@.questions.contains_key(qid@))
                },
            },
    {
        let id = random_answer_id();
        let a = Answer::new(id.clone(), content, qid);
        match self.add_answer(a) {
            Ok(()) => Ok(id),
            Err(e) => Err(e),
        }
    }
}

} // verus!
