//! The records held by the store.
use vstd::prelude::*;

verus! {

/// What a question is, as plain sequences.
pub struct QuestionView {
    pub id: Seq<char>,
    pub title: Seq<char>,
    pub content: Seq<char>,
    pub tags: Option<Seq<Seq<char>>>,
}

/// A question: an identifier, a title, a body and optional tags.
#[derive(Debug, Clone)]
pub struct Question {
    pub id: String,
    pub title: String,
    pub content: String,
    pub tags: Option<Vec<String>>,
}

pub open spec fn tags_view(tags: Option<Vec<String>>) -> Option<Seq<Seq<char>>> {
    match tags {
        Some(v) => Some(v.deep_view()),
        None => None,
    }
}

impl View for Question {
    type V = QuestionView;

    open spec fn view(&self) -> QuestionView {
        QuestionView {
            id: self.id@,
            title: self.title@,
            content: self.content@,
            tags: tags_view(self.tags),
        }
    }
}

/// Copies a list of tags, string by string.
pub fn copy_tags(tags: &Option<Vec<String>>) -> (r: Option<Vec<String>>)
    ensures
        tags_view(r) == tags_view(*tags),
{
    match tags {
        None => None,
        Some(v) => {
            let mut out: Vec<String> = Vec::new();
            let mut i: usize = 0;
            while i < v.len()
                invariant
                    i <= v@.len(),
                    out@.len() == i,
                    forall|j: int| 0 <= j < i ==> out@[j]@ == v@[j]@,
                decreases v@.len() - i,
            {
                out.push(v[i].clone());
                i = i + 1;
            }
            assert(out.deep_view() =~= v.deep_view());
            Some(out)
        },
    }
}

impl Question {
    pub fn new(id: String, title: String, content: String, tags: Option<Vec<String>>) -> (r:
        Self)
        ensures
            r@ == (QuestionView {
                id: id@,
                title: title@,
                content: content@,
                tags: tags_view(tags),
            }),
    {
        Question { id, title, content, tags }
    }

    pub fn title(&self) -> (r: &String)
        ensures
            r@ == self@.title,
    {
        &self.title
    }

    pub fn content(&self) -> (r: &String)
        ensures
            r@ == self@.content,
    {
        &self.content
    }

    pub fn tags(&self) -> (r: &Option<Vec<String>>)
        ensures
            tags_view(*r) == self@.tags,
    {
        &self.tags
    }

    /// An independent copy with the same fields.
    pub fn duplicate(&self) -> (r: Question)
        ensures
            r@ == self@,
    {
        Question {
            id: self.id.clone(),
            title: self.title.clone(),
            content: self.content.clone(),
            tags: copy_tags(&self.tags),
        }
    }

    /// This question with the title, body and tags of `patch`; the identifier stays.
    pub fn patched(self, patch: QuestionUpdate) -> (r: Question)
        ensures
            r@ == apply_patch(self@, patch@),
    {
        Question { id: self.id, title: patch.title, content: patch.content, tags: patch.tags }
    }
}

/// New title, body and tags for an existing question. It carries no identifier.
#[derive(Debug, Clone)]
pub struct QuestionUpdate {
    pub title: String,
    pub content: String,
    pub tags: Option<Vec<String>>,
}

pub struct QuestionUpdateView {
    pub title: Seq<char>,
    pub content: Seq<char>,
    pub tags: Option<Seq<Seq<char>>>,
}

impl View for QuestionUpdate {
    type V = QuestionUpdateView;

    open spec fn view(&self) -> QuestionUpdateView {
        QuestionUpdateView { title: self.title@, content: self.content@, tags: tags_view(self.tags) }
    }
}

/// The question `q` after an update with `p`: its identifier is kept.
pub open spec fn apply_patch(q: QuestionView, p: QuestionUpdateView) -> QuestionView {
    QuestionView { id: q.id, title: p.title, content: p.content, tags: p.tags }
}

/// What an answer is, as plain sequences.
pub struct AnswerView {
    pub id: Seq<char>,
    pub content: Seq<char>,
    pub question_id: Seq<char>,
}

/// An answer to the question named by `question_id`.
#[derive(Debug, Clone)]
pub struct Answer {
    pub id: String,
    pub content: String,
    pub question_id: String,
}

impl View for Answer {
    type V = AnswerView;

    open spec fn view(&self) -> AnswerView {
        AnswerView { id: self.id@, content: self.content@, question_id: self.question_id@ }
    }
}

impl Answer {
    pub fn new(id: String, content: String, qid: String) -> (r: Self)
        ensures
            r@ == (AnswerView { id: id@, content: content@, question_id: qid@ }),
    {
        Answer { id, content, question_id: qid }
    }

    pub fn content(&self) -> (r: &String)
        ensures
            r@ == self@.content,
    {
        &self.content
    }

}

} // verus!
