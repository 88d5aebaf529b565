use question_store::error::DatabaseError;
use question_store::ids::{compare_ids, is_valid_id, IdOrder};
use question_store::pagination::{page_bounds, paginate, PaginationError, PaginationParams};
use question_store::store::{Database, ANSWER_ID_LEN};
use question_store::types::{Answer, Question, QuestionUpdate};

fn question(id: &str) -> Question {
    Question::new(
        id.to_string(),
        format!("title {}", id),
        format!("content {}", id),
        Some(vec!["tag".to_string(), id.to_string()]),
    )
}

fn ten_questions() -> Database {
    let mut db = Database::new();
    for i in [7, 2, 9, 0, 4, 1, 8, 3, 6, 5] {
        db.add_question(question(&i.to_string())).unwrap();
    }
    db
}

fn ids(qs: &[Question]) -> Vec<String> {
    qs.iter().map(|q| q.id.clone()).collect()
}

fn window(start: Option<usize>, end: Option<usize>) -> PaginationParams {
    PaginationParams { start, end }
}

#[test]
fn listing_is_sorted_whatever_the_order_of_insertion() {
    let mut a = Database::new();
    let mut b = Database::new();
    for id in ["pear", "apple", "fig", "banana", "apricot"] {
        a.add_question(question(id)).unwrap();
    }
    for id in ["fig", "apricot", "pear", "banana", "apple"] {
        b.add_question(question(id)).unwrap();
    }
    let expected = vec!["apple", "apricot", "banana", "fig", "pear"];
    assert_eq!(ids(&a.list_sorted()), expected);
    assert_eq!(ids(&b.list_sorted()), expected);
}

#[test]
fn listing_orders_ids_as_strings() {
    let mut db = Database::new();
    for id in ["9", "10", "1", "b", "B", "ab", "a"] {
        db.add_question(question(id)).unwrap();
    }
    assert_eq!(ids(&db.list_sorted()), vec!["1", "10", "9", "B", "a", "ab", "b"]);
}

#[test]
fn empty_store_lists_nothing() {
    let db = Database::new();
    assert!(db.list_sorted().is_empty());
    let page = db.get_questions(&window(None, None)).unwrap();
    assert!(page.is_empty());
}

#[test]
fn second_add_with_same_id_is_duplicate_and_keeps_first() {
    let mut db = Database::new();
    db.add_question(question("q1")).unwrap();
    let other = Question::new("q1".to_string(), "other".to_string(), "x".to_string(), None);
    assert_eq!(db.add_question(other), Err(DatabaseError::DuplicateId("q1".to_string())));
    let stored = db.get_question_by_id("q1".to_string()).unwrap();
    assert_eq!(stored.title(), "title q1");
    assert_eq!(stored.content(), "content q1");
    assert_eq!(db.list_sorted().len(), 1);
}

#[test]
fn update_of_missing_id_is_not_found() {
    let mut db = ten_questions();
    let patch = QuestionUpdate { title: "t".to_string(), content: "c".to_string(), tags: None };
    assert_eq!(db.update_question("42", patch), Err(DatabaseError::NotFound));
    assert_eq!(db.list_sorted().len(), 10);
}

#[test]
fn update_of_empty_id_is_unprocessable() {
    let mut db = ten_questions();
    let patch = QuestionUpdate { title: "t".to_string(), content: "c".to_string(), tags: None };
    assert_eq!(db.update_question("", patch), Err(DatabaseError::UnprocessableId(String::new())));
    assert_eq!(db.list_sorted().len(), 10);
}

#[test]
fn update_replaces_fields_and_keeps_id() {
    let mut db = ten_questions();
    let patch = QuestionUpdate {
        title: "new title".to_string(),
        content: "new content".to_string(),
        tags: None,
    };
    assert_eq!(db.update_question("3", patch), Ok(()));
    let q = db.get_question_by_id("3".to_string()).unwrap();
    assert_eq!(q.id, "3");
    assert_eq!(q.title(), "new title");
    assert_eq!(q.content(), "new content");
    assert_eq!(q.tags(), &None);
    assert_eq!(db.list_sorted().len(), 10);
}

#[test]
fn delete_of_empty_id_is_unprocessable() {
    let mut db = ten_questions();
    assert_eq!(db.delete_question(""), Err(DatabaseError::UnprocessableId(String::new())));
    assert_eq!(ids(&db.list_sorted()).len(), 10);
}

#[test]
fn delete_of_missing_id_is_not_found() {
    let mut db = ten_questions();
    assert_eq!(db.delete_question("x"), Err(DatabaseError::NotFound));
    assert_eq!(db.list_sorted().len(), 10);
}

#[test]
fn delete_removes_the_question() {
    let mut db = ten_questions();
    assert_eq!(db.delete_question("4"), Ok(()));
    assert_eq!(ids(&db.list_sorted()), vec!["0", "1", "2", "3", "5", "6", "7", "8", "9"]);
    assert!(matches!(db.get_question_by_id("4".to_string()), Err(DatabaseError::NotFound)));
}

#[test]
fn get_of_missing_id_is_not_found() {
    let db = ten_questions();
    assert!(matches!(db.get_question_by_id("10".to_string()), Err(DatabaseError::NotFound)));
}

#[test]
fn added_question_reads_back_equal() {
    let mut db = Database::new();
    let q = Question::new(
        "round".to_string(),
        "A title".to_string(),
        "Some content".to_string(),
        Some(vec!["x".to_string(), "y".to_string()]),
    );
    db.add_question(q.clone()).unwrap();
    let r = db.get_question_by_id("round".to_string()).unwrap();
    assert_eq!(r.id, q.id);
    assert_eq!(r.title(), q.title());
    assert_eq!(r.content(), q.content());
    assert_eq!(r.tags(), q.tags());
}

#[test]
fn added_question_without_tags_reads_back_without_tags() {
    let mut db = Database::new();
    let q = Question::new("n".to_string(), "t".to_string(), String::new(), None);
    db.add_question(q).unwrap();
    let r = db.get_question_by_id("n".to_string()).unwrap();
    assert_eq!(r.tags(), &None);
    assert_eq!(r.content(), "");
}

#[test]
fn page_two_to_four() {
    let db = ten_questions();
    let page = db.get_questions(&window(Some(2), Some(4))).unwrap();
    assert_eq!(ids(&page), vec!["2", "3", "4"]);
}

#[test]
fn page_is_clamped_to_the_listing() {
    let db = ten_questions();
    let page = db.get_questions(&window(Some(8), Some(20))).unwrap();
    assert_eq!(ids(&page), vec!["8", "9"]);
}

#[test]
fn page_past_the_end_is_invalid() {
    let db = ten_questions();
    assert!(matches!(
        db.get_questions(&window(Some(11), Some(12))),
        Err(PaginationError::InvalidRange)
    ));
}

#[test]
fn no_window_gives_everything() {
    let db = ten_questions();
    let page = db.get_questions(&window(None, None)).unwrap();
    assert_eq!(ids(&page), vec!["0", "1", "2", "3", "4", "5", "6", "7", "8", "9"]);
}

#[test]
fn one_sided_window_is_invalid() {
    let db = ten_questions();
    assert!(matches!(db.get_questions(&window(Some(2), None)), Err(PaginationError::InvalidRange)));
    assert!(matches!(db.get_questions(&window(None, Some(2))), Err(PaginationError::InvalidRange)));
}

#[test]
fn page_bounds_edge_cases() {
    assert_eq!(page_bounds(10, &window(Some(10), Some(12))), Ok((10, 10)));
    assert_eq!(page_bounds(10, &window(Some(5), Some(4))), Ok((5, 5)));
    assert_eq!(page_bounds(10, &window(Some(6), Some(4))), Err(PaginationError::InvalidRange));
    assert_eq!(page_bounds(10, &window(Some(0), Some(usize::MAX))), Ok((0, 10)));
    assert_eq!(page_bounds(0, &window(Some(0), Some(0))), Ok((0, 0)));
    assert_eq!(page_bounds(3, &window(None, None)), Ok((0, 3)));
}

#[test]
fn paginate_plain_vector() {
    let v: Vec<u32> = (0..10).collect();
    assert_eq!(paginate(v.clone(), &window(Some(2), Some(4))), Ok(vec![2, 3, 4]));
    assert_eq!(paginate(v.clone(), &window(Some(8), Some(20))), Ok(vec![8, 9]));
    assert_eq!(paginate(v.clone(), &window(Some(11), Some(12))), Err(PaginationError::InvalidRange));
    assert_eq!(paginate(v.clone(), &window(None, None)), Ok(v));
}

#[test]
fn answer_to_missing_question_is_not_found_and_not_stored() {
    let mut db = Database::new();
    let a = Answer::new("a1".to_string(), "because".to_string(), "q1".to_string());
    assert_eq!(db.add_answer(a.clone()), Err(DatabaseError::NotFound));
    db.add_question(question("q1")).unwrap();
    assert_eq!(db.add_answer(a.clone()), Ok(()));
    assert_eq!(db.add_answer(a), Err(DatabaseError::DuplicateId("a1".to_string())));
}

#[test]
fn answer_to_deleted_question_is_not_found() {
    let mut db = ten_questions();
    db.delete_question("5").unwrap();
    let a = Answer::new("a".to_string(), "c".to_string(), "5".to_string());
    assert_eq!(db.add_answer(a), Err(DatabaseError::NotFound));
}

#[test]
fn duplicate_answer_id_is_checked_first() {
    let mut db = ten_questions();
    let a = Answer::new("a".to_string(), "c".to_string(), "1".to_string());
    db.add_answer(a).unwrap();
    let b = Answer::new("a".to_string(), "d".to_string(), "missing".to_string());
    assert_eq!(db.add_answer(b), Err(DatabaseError::DuplicateId("a".to_string())));
}

#[test]
fn posted_answer_gets_a_fresh_url_safe_id() {
    let mut db = ten_questions();
    let id = db.post_answer("an answer".to_string(), "3".to_string()).unwrap();
    assert_eq!(id.chars().count(), ANSWER_ID_LEN);
    assert!(id.chars().all(|c| c == '_' || c == '-' || c.is_ascii_alphanumeric()));
    let again = Answer::new(id.clone(), "x".to_string(), "3".to_string());
    assert_eq!(db.add_answer(again), Err(DatabaseError::DuplicateId(id)));
}

#[test]
fn posted_answer_to_missing_question_is_not_found() {
    let mut db = ten_questions();
    assert_eq!(db.post_answer("x".to_string(), "nope".to_string()), Err(DatabaseError::NotFound));
}

#[test]
fn compare_ids_is_lexicographic() {
    assert_eq!(compare_ids("10", "9"), IdOrder::Less);
    assert_eq!(compare_ids("a", "ab"), IdOrder::Less);
    assert_eq!(compare_ids("ab", "a"), IdOrder::Greater);
    assert_eq!(compare_ids("same", "same"), IdOrder::Equal);
    assert_eq!(compare_ids("", ""), IdOrder::Equal);
    assert_eq!(compare_ids("Z", "a"), IdOrder::Less);
    assert_eq!(compare_ids("é", "z"), IdOrder::Greater);
}

#[test]
fn empty_id_is_invalid() {
    assert!(!is_valid_id(""));
    assert!(is_valid_id("x"));
}

#[test]
fn answer_fields_are_kept() {
    let a = Answer::new("i".to_string(), "c".to_string(), "q".to_string());
    assert_eq!(a.id, "i");
    assert_eq!(a.content(), "c");
    assert_eq!(a.question_id, "q");
}
