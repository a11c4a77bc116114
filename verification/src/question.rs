//! Questions and their identifiers.

use vstd::prelude::*;
use vstd::std_specs::cmp::PartialEqSpecImpl;

verus! {

/// The identifier of a question: a piece of text chosen by whoever files the
/// question. Two identifiers are the same when their texts are.
#[derive(Debug, Hash)]
pub struct QuestionId(pub String);

impl View for QuestionId {
    type V = Seq<char>;

    open spec fn view(&self) -> Seq<char> {
        self.0@
    }
}

impl Clone for QuestionId {
    fn clone(&self) -> (r: Self)
        ensures
            r@ == self@,
    {
        QuestionId(self.0.clone())
    }
}

impl PartialEq for QuestionId {
    fn eq(&self, other: &QuestionId) -> (r: bool) {
        self.0 == other.0
    }
}

impl Eq for QuestionId {

}

impl PartialEqSpecImpl for QuestionId {
    open spec fn obeys_eq_spec() -> bool {
        true
    }

    open spec fn eq_spec(&self, other: &QuestionId) -> bool {
        self@ == other@
    }
}

/// A question as it is filed and listed.
#[derive(Debug)]
pub struct Question {
    pub id: QuestionId,
    pub title: String,
    pub content: String,
    pub tags: Option<Vec<String>>,
}

/// What a question says, as plain text.
pub struct QuestionView {
    pub id: Seq<char>,
    pub title: Seq<char>,
    pub content: Seq<char>,
    pub tags: Option<Seq<Seq<char>>>,
}

impl View for Question {
    type V = QuestionView;

    open spec fn view(&self) -> QuestionView {
        QuestionView {
            id: self.id@,
            title: self.title@,
            content: self.content@,
            tags: self.tags.deep_view(),
        }
    }
}

/// What each question of a list says, in the list's order.
pub open spec fn views(questions: Seq<Question>) -> Seq<QuestionView> {
    questions.map_values(|q: Question| q@)
}

impl Clone for Question {
    fn clone(&self) -> (r: Self)
        ensures
            r@ == self@,
    {
        let tags = match &self.tags {
            Some(list) => {
                let copy = list.clone();
                assert(copy.deep_view() =~= list.deep_view());
                Some(copy)
            },
            None => None,
        };
        Question {
            id: self.id.clone(),
            title: self.title.clone(),
            content: self.content.clone(),
            tags,
        }
    }
}

} // verus!
