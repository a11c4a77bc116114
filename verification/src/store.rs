//! The store of questions: at most one question per identifier, kept in the
//! order in which the identifiers first arrived.

use vstd::prelude::*;
use crate::question::{views, Question, QuestionId, QuestionView};

verus! {

/// No identifier occurs at two positions of `list`.
pub open spec fn distinct_ids(list: Seq<QuestionView>) -> bool {
    forall|i: int, j: int| 0 <= i < j < list.len() ==> list[i].id != list[j].id
}

/// The questions of `list` by identifier; of two with one identifier the
/// later one counts.
pub open spec fn by_id(list: Seq<QuestionView>) -> Map<Seq<char>, QuestionView>
    decreases list.len(),
{
    if list.len() == 0 {
        Map::empty()
    } else {
        by_id(list.drop_last()).insert(list.last().id, list.last())
    }
}

/// `list` holds each entry of `map` once and nothing else.
pub open spec fn is_listing_of(list: Seq<QuestionView>, map: Map<Seq<char>, QuestionView>) -> bool {
    &&& distinct_ids(list)
    &&& forall|i: int|
        0 <= i < list.len() ==> map.contains_key(#[trigger] list[i].id) && map[list[i].id]
            == list[i]
    &&& forall|id: Seq<char>| #[trigger]
        map.contains_key(id) ==> exists|i: int| 0 <= i < list.len() && #[trigger] list[i].id == id
}

/// The first position of `list` whose question has the identifier `id`.
pub open spec fn position_of(list: Seq<QuestionView>, id: Seq<char>) -> Option<int> {
    if exists|i: int| 0 <= i < list.len() && #[trigger] list[i].id == id {
        Some(choose|i: int| 0 <= i < list.len() && #[trigger] list[i].id == id)
    } else {
        None
    }
}

/// `list` after the question `q` was filed: `q` takes the place of the
/// question with its identifier, or the last place where there is none.
pub open spec fn filed(list: Seq<QuestionView>, q: QuestionView) -> Seq<QuestionView> {
    match position_of(list, q.id) {
        Some(i) => list.update(i, q),
        None => list.push(q),
    }
}

/// The keys of `by_id(list)` are the identifiers that occur in `list`.
pub proof fn lemma_by_id_keys(list: Seq<QuestionView>, id: Seq<char>)
    ensures
        by_id(list).contains_key(id) <==> exists|i: int|
            0 <= i < list.len() && #[trigger] list[i].id == id,
        by_id(list).dom().finite(),
    decreases list.len(),
{
    if list.len() > 0 {
        let front = list.drop_last();
        lemma_by_id_keys(front, id);
        if by_id(list).contains_key(id) {
            if list.last().id == id {
                assert(list[list.len() - 1].id == id);
            } else {
                let i = choose|i: int| 0 <= i < front.len() && #[trigger] front[i].id == id;
                assert(list[i].id == id);
            }
        }
        if exists|i: int| 0 <= i < list.len() && #[trigger] list[i].id == id {
            let i = choose|i: int| 0 <= i < list.len() && #[trigger] list[i].id == id;
            if i < list.len() - 1 {
                assert(front[i].id == id);
            }
        }
    }
}

/// A list without a repeated identifier lists its own `by_id`, entry for
/// entry.
pub proof fn lemma_by_id_listing(list: Seq<QuestionView>)
    requires
        distinct_ids(list),
    ensures
        is_listing_of(list, by_id(list)),
        by_id(list).dom().finite(),
        by_id(list).len() == list.len(),
    decreases list.len(),
{
    if list.len() > 0 {
        let front = list.drop_last();
        let last = list.last();
        assert forall|i: int, j: int| 0 <= i < j < front.len() implies front[i].id
            != front[j].id by {
            assert(front[i] == list[i] && front[j] == list[j]);
        }
        lemma_by_id_listing(front);
        lemma_by_id_keys(front, last.id);
        if by_id(front).contains_key(last.id) {
            let i = choose|i: int| 0 <= i < front.len() && #[trigger] front[i].id == last.id;
            assert(list[i].id == list[list.len() - 1].id);
        }
        assert forall|i: int| 0 <= i < list.len() implies by_id(list).contains_key(
            #[trigger] list[i].id,
        ) && by_id(list)[list[i].id] == list[i] by {
            if i < list.len() - 1 {
                assert(front[i] == list[i]);
                assert(by_id(front).contains_key(front[i].id));
            }
        }
        assert forall|id: Seq<char>| #[trigger] by_id(list).contains_key(id) implies exists|i: int|
            0 <= i < list.len() && #[trigger] list[i].id == id by {
            lemma_by_id_keys(list, id);
        }
    } else {
        assert(by_id(list).dom() =~= Set::empty());
    }
}

/// Filing a question keeps the identifiers distinct and is an insertion into
/// `by_id`.
pub proof fn lemma_filed(list: Seq<QuestionView>, q: QuestionView)
    requires
        distinct_ids(list),
    ensures
        distinct_ids(filed(list, q)),
        by_id(filed(list, q)) == by_id(list).insert(q.id, q),
{
    let after = filed(list, q);
    let target = by_id(list).insert(q.id, q);
    lemma_by_id_listing(list);
    match position_of(list, q.id) {
        Some(p) => {
            assert forall|i: int, j: int| 0 <= i < j < after.len() implies after[i].id
                != after[j].id by {
                assert(after[i].id == list[i].id && after[j].id == list[j].id);
            }
        },
        None => {
            assert forall|i: int, j: int| 0 <= i < j < after.len() implies after[i].id
                != after[j].id by {
                if j == list.len() {
                    assert(list[i].id != q.id);
                }
            }
        },
    }
    lemma_by_id_listing(after);
    assert forall|id: Seq<char>| by_id(after).contains_key(id) <==> target.contains_key(id) by {
        lemma_by_id_keys(after, id);
        lemma_by_id_keys(list, id);
        if by_id(after).contains_key(id) {
            let i = choose|i: int| 0 <= i < after.len() && #[trigger] after[i].id == id;
            if id != q.id {
                assert(list[i].id == id);
            }
        }
        if target.contains_key(id) {
            if id == q.id {
                match position_of(list, q.id) {
                    Some(p) => {
                        assert(after[p].id == id);
                    },
                    None => {
                        assert(after[list.len() as int].id == id);
                    },
                }
            } else {
                let i = choose|i: int| 0 <= i < list.len() && #[trigger] list[i].id == id;
                assert(after[i].id == id);
            }
        }
    }
    assert forall|id: Seq<char>| by_id(after).contains_key(id) implies by_id(after)[id]
        == target[id] by {
        let i = choose|i: int| 0 <= i < after.len() && #[trigger] after[i].id == id;
        assert(by_id(after)[after[i].id] == after[i]);
        if id != q.id {
            assert(list[i] == after[i]);
            assert(by_id(list)[list[i].id] == list[i]);
        } else {
            match position_of(list, q.id) {
                Some(p) => {
                    assert(after[p].id == q.id);
                    assert(i == p);
                },
                None => {
                    if i < list.len() {
                        assert(list[i].id == q.id);
                    }
                },
            }
        }
    }
    assert(by_id(after) =~= target);
}

/// A map has one listing up to order: whatever lists it has its size and
/// gives it back by identifier.
pub proof fn lemma_listing_determines_map(list: Seq<QuestionView>, map: Map<Seq<char>, QuestionView>)
    requires
        is_listing_of(list, map),
    ensures
        map == by_id(list),
        map.dom().finite(),
        map.len() == list.len(),
{
    lemma_by_id_listing(list);
    assert forall|id: Seq<char>| map.contains_key(id) <==> by_id(list).contains_key(id) by {
        lemma_by_id_keys(list, id);
        if by_id(list).contains_key(id) {
            let i = choose|i: int| 0 <= i < list.len() && #[trigger] list[i].id == id;
            assert(map.contains_key(list[i].id));
        }
    }
    assert forall|id: Seq<char>| map.contains_key(id) implies map[id] == by_id(list)[id] by {
        let i = choose|i: int| 0 <= i < list.len() && #[trigger] list[i].id == id;
        assert(map[list[i].id] == list[i]);
        assert(by_id(list)[list[i].id] == list[i]);
    }
    assert(map =~= by_id(list));
}

/// A store that holds nothing lists nothing.
pub proof fn lemma_empty_store_lists_nothing(list: Seq<QuestionView>)
    requires
        is_listing_of(list, Map::<Seq<char>, QuestionView>::empty()),
    ensures
        list == Seq::<QuestionView>::empty(),
{
    if list.len() > 0 {
        assert(Map::<Seq<char>, QuestionView>::empty().contains_key(list[0].id));
    }
    assert(list =~= Seq::<QuestionView>::empty());
}

/// Once `q` is filed, whatever the store held before, a listing of the store
/// holds `q` at one position and no question with the identifier of `q` at
/// any other.
pub proof fn lemma_filed_question_listed_once(
    map: Map<Seq<char>, QuestionView>,
    q: QuestionView,
    list: Seq<QuestionView>,
)
    requires
        is_listing_of(list, map.insert(q.id, q)),
    ensures
        exists|i: int|
            0 <= i < list.len() && #[trigger] list[i] == q && forall|j: int|
                0 <= j < list.len() && (#[trigger] list[j]).id == q.id ==> j == i,
{
    let after = map.insert(q.id, q);
    assert(after.contains_key(q.id));
    let i = choose|i: int| 0 <= i < list.len() && #[trigger] list[i].id == q.id;
    assert(after[list[i].id] == list[i]);
    assert(list[i] == q);
    assert forall|j: int| 0 <= j < list.len() && (#[trigger] list[j]).id == q.id implies j
        == i by {
        if j < i {
            assert(list[j].id != list[i].id);
        } else if i < j {
            assert(list[i].id != list[j].id);
        }
    }
}

/// Filing two questions under one identifier leaves what filing the second
/// alone leaves.
pub proof fn lemma_second_filing_wins(
    map: Map<Seq<char>, QuestionView>,
    first: QuestionView,
    second: QuestionView,
)
    requires
        first.id == second.id,
    ensures
        map.insert(first.id, first).insert(second.id, second) == map.insert(second.id, second),
{
    assert(map.insert(first.id, first).insert(second.id, second) =~= map.insert(
        second.id,
        second,
    ));
}

/// Filing two questions with different identifiers leaves both in the store,
/// in whichever order they are filed.
pub proof fn lemma_filings_of_distinct_ids_commute(
    map: Map<Seq<char>, QuestionView>,
    a: QuestionView,
    b: QuestionView,
)
    requires
        a.id != b.id,
    ensures
        map.insert(a.id, a).insert(b.id, b) == map.insert(b.id, b).insert(a.id, a),
        map.insert(a.id, a).insert(b.id, b).contains_key(a.id),
        map.insert(a.id, a).insert(b.id, b).contains_key(b.id),
        map.insert(a.id, a).insert(b.id, b)[a.id] == a,
        map.insert(a.id, a).insert(b.id, b)[b.id] == b,
{
    assert(map.insert(a.id, a).insert(b.id, b) =~= map.insert(b.id, b).insert(a.id, a));
}

/// The questions of the service. It holds at most one question per
/// identifier; a question filed under an identifier that is taken replaces
/// the one that was there.
pub struct Store {
    questions: Vec<Question>,
}

impl View for Store {
    type V = Map<Seq<char>, QuestionView>;

    /// The stored questions by identifier.
    open spec fn view(&self) -> Map<Seq<char>, QuestionView> {
        by_id(self.listing())
    }
}

impl Store {
    #[verifier::type_invariant]
    spec fn well_formed(self) -> bool {
        distinct_ids(views(self.questions@))
    }

    /// The stored questions in the order in which `list_all` hands them out.
    pub closed spec fn listing(&self) -> Seq<QuestionView> {
        views(self.questions@)
    }

    /// A store that holds no question.
    pub fn new() -> (store: Store)
        ensures
            store.listing() == Seq::<QuestionView>::empty(),
            store@ == Map::<Seq<char>, QuestionView>::empty(),
    {
        let store = Store { questions: Vec::new() };
        assert(store.listing() =~= Seq::<QuestionView>::empty());
        store
    }

    /// How many questions are stored.
    pub fn len(&self) -> (n: usize)
        ensures
            n == self.listing().len(),
            n == self@.len(),
            is_listing_of(self.listing(), self@),
    {
        proof {
            use_type_invariant(self);
            lemma_by_id_listing(self.listing());
        }
        self.questions.len()
    }

    /// Where the question with the identifier `id` is kept, if there is one.
    fn find(&self, id: &QuestionId) -> (found: Option<usize>)
        ensures
            distinct_ids(self.listing()),
            match found {
                Some(i) => position_of(self.listing(), id@) == Some(i as int),
                None => position_of(self.listing(), id@).is_none(),
            },
    {
        proof {
            use_type_invariant(self);
        }
        let ghost list = self.listing();
        let mut i: usize = 0;
        while i < self.questions.len()
            invariant
                i <= self.questions.len(),
                list == self.listing(),
                list == views(self.questions@),
                distinct_ids(list),
                forall|j: int| 0 <= j < i ==> (#[trigger] list[j]).id != id@,
            decreases self.questions.len() - i,
        {
            if self.questions[i].id == *id {
                proof {
                    assert(list[i as int].id == id@);
                    let p = position_of(list, id@).unwrap();
                    assert(list[p].id == list[i as int].id);
                }
                return Some(i);
            }
            i += 1;
        }
        None
    }

    /// Files `question` under its identifier. A question that was stored
    /// under that identifier is replaced and keeps its place in the listing;
    /// otherwise the new question comes last.
    pub fn insert(&mut self, question: Question)
        ensures
            final(self)@ == old(self)@.insert(question.id@, question@),
            final(self).listing() == filed(old(self).listing(), question@),
            is_listing_of(final(self).listing(), final(self)@),
    {
        let ghost before = self.listing();
        proof {
            use_type_invariant(&*self);
            lemma_filed(before, question@);
            lemma_by_id_listing(filed(before, question@));
        }
        let found = self.find(&question.id);
        let mut questions: Vec<Question> = Vec::new();
        core::mem::swap(&mut self.questions, &mut questions);
        match found {
            Some(i) => {
                assert(views(questions@.update(i as int, question)) =~= before.update(
                    i as int,
                    question@,
                ));
                questions.set(i, question);
            },
            None => {
                assert(views(questions@.push(question)) =~= before.push(question@));
                questions.push(question);
            },
        }
        self.questions = questions;
    }

    /// Every stored question, each once.
    pub fn list_all(&self) -> (all: Vec<Question>)
        ensures
            views(all@) == self.listing(),
            is_listing_of(self.listing(), self@),
            all@.len() == self@.len(),
    {
        proof {
            use_type_invariant(self);
            lemma_by_id_listing(self.listing());
        }
        let mut all: Vec<Question> = Vec::new();
        let mut i: usize = 0;
        while i < self.questions.len()
            invariant
                i <= self.questions.len(),
                all@.len() == i,
                forall|j: int| 0 <= j < i ==> (#[trigger] all@[j])@ == self.questions@[j]@,
            decreases self.questions.len() - i,
        {
            all.push(self.questions[i].clone());
            i += 1;
        }
        assert(views(all@) =~= self.listing());
        all
    }
}

} // verus!
