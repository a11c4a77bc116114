use qa_service::{Question, QuestionId, Store};

fn filed(id: &str, title: &str) -> Question {
    Question {
        id: QuestionId(id.to_string()),
        title: title.to_string(),
        content: format!("about {}", title),
        tags: Some(vec!["faq".to_string()]),
    }
}

fn ids(list: &[Question]) -> Vec<String> {
    list.iter().map(|q| q.id.0.clone()).collect()
}

#[test]
fn new_store_lists_nothing() {
    let store = Store::new();
    assert!(store.list_all().is_empty());
    assert_eq!(store.len(), 0);
}

#[test]
fn filed_question_is_listed_once_as_filed() {
    let mut store = Store::new();
    store.insert(filed("1", "first"));
    store.insert(filed("2", "second"));
    store.insert(Question {
        id: QuestionId("3".to_string()),
        title: "third".to_string(),
        content: "body".to_string(),
        tags: Some(vec!["a".to_string(), "b".to_string()]),
    });
    let all = store.list_all();
    let hits: Vec<&Question> = all.iter().filter(|q| q.id.0 == "3").collect();
    assert_eq!(hits.len(), 1);
    assert_eq!(hits[0].title, "third");
    assert_eq!(hits[0].content, "body");
    assert_eq!(hits[0].tags, Some(vec!["a".to_string(), "b".to_string()]));
    assert_eq!(all.len(), 3);
}

#[test]
fn second_filing_under_an_identifier_wins() {
    let mut store = Store::new();
    store.insert(filed("1", "old title"));
    store.insert(Question {
        id: QuestionId("1".to_string()),
        title: "new title".to_string(),
        content: "new content".to_string(),
        tags: None,
    });
    let all = store.list_all();
    assert_eq!(all.len(), 1);
    assert_eq!(store.len(), 1);
    assert_eq!(all[0].id.0, "1");
    assert_eq!(all[0].title, "new title");
    assert_eq!(all[0].content, "new content");
    assert_eq!(all[0].tags, None);
}

#[test]
fn filing_the_same_question_twice_leaves_one() {
    let mut store = Store::new();
    store.insert(filed("7", "seven"));
    store.insert(filed("7", "seven"));
    let all = store.list_all();
    assert_eq!(all.len(), 1);
    assert_eq!(all[0].title, "seven");
}

#[test]
fn replaced_question_keeps_its_place() {
    let mut store = Store::new();
    store.insert(filed("a", "one"));
    store.insert(filed("b", "two"));
    store.insert(filed("c", "three"));
    store.insert(filed("b", "two again"));
    let all = store.list_all();
    assert_eq!(ids(&all), vec!["a", "b", "c"]);
    assert_eq!(all[1].title, "two again");
    assert_eq!(all[0].title, "one");
    assert_eq!(all[2].title, "three");
}

#[test]
fn new_identifier_comes_last() {
    let mut store = Store::new();
    store.insert(filed("z", "one"));
    store.insert(filed("a", "two"));
    store.insert(filed("m", "three"));
    assert_eq!(ids(&store.list_all()), vec!["z", "a", "m"]);
}

#[test]
fn distinct_identifiers_are_both_kept_in_either_order() {
    let mut one = Store::new();
    one.insert(filed("A", "a"));
    one.insert(filed("B", "b"));
    let mut other = Store::new();
    other.insert(filed("B", "b"));
    other.insert(filed("A", "a"));
    for store in [&one, &other] {
        let all = store.list_all();
        assert_eq!(all.len(), 2);
        let a: Vec<&Question> = all.iter().filter(|q| q.id.0 == "A").collect();
        let b: Vec<&Question> = all.iter().filter(|q| q.id.0 == "B").collect();
        assert_eq!(a.len(), 1);
        assert_eq!(b.len(), 1);
        assert_eq!(a[0].title, "a");
        assert_eq!(b[0].title, "b");
    }
}

#[test]
fn identifiers_differ_by_any_character() {
    let mut store = Store::new();
    store.insert(filed("q1", "one"));
    store.insert(filed("Q1", "two"));
    store.insert(filed("q1 ", "three"));
    store.insert(filed("", "four"));
    assert_eq!(store.len(), 4);
    store.insert(filed("", "five"));
    assert_eq!(store.len(), 4);
    assert_eq!(store.list_all()[3].title, "five");
}

#[test]
fn listing_is_a_snapshot() {
    let mut store = Store::new();
    store.insert(filed("1", "first"));
    let before = store.list_all();
    store.insert(filed("2", "second"));
    store.insert(filed("1", "changed"));
    assert_eq!(before.len(), 1);
    assert_eq!(before[0].title, "first");
    assert_eq!(store.list_all()[0].title, "changed");
}

#[test]
fn identifiers_compare_by_their_text() {
    assert!(QuestionId("x".to_string()) == QuestionId("x".to_string()));
    assert!(QuestionId("x".to_string()) != QuestionId("y".to_string()));
    assert!(QuestionId("".to_string()) == QuestionId(String::new()));
}

#[test]
fn clone_keeps_every_field() {
    let q = filed("1", "first");
    let copy = q.clone();
    assert_eq!(copy.id.0, "1");
    assert_eq!(copy.title, "first");
    assert_eq!(copy.content, "about first");
    assert_eq!(copy.tags, Some(vec!["faq".to_string()]));
    let bare = Question { id: QuestionId("2".to_string()), title: String::new(), content: String::new(), tags: None };
    assert_eq!(bare.clone().tags, None);
    let empty = Question { id: QuestionId("3".to_string()), title: String::new(), content: String::new(), tags: Some(Vec::new()) };
    assert_eq!(empty.clone().tags, Some(Vec::new()));
}
