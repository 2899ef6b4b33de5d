use quizzbuzz::document::{Document, Value};
use quizzbuzz::error::Error;
use quizzbuzz::gateway::{
    create_record, edit_record, fetched_quiz, new_record, quizzes_from, recent, removal_tags,
    removed_by_tag, replacement,
};
use quizzbuzz::id::{id_text, parse_id};
use quizzbuzz::search::{contains_text, search_pattern, search_results, title_matches};
use quizzbuzz::structs::{Question, Quiz, QuizRequest};

fn s(x: &str) -> String {
    x.to_string()
}

fn sample_request() -> QuizRequest {
    QuizRequest {
        title: s("T1"),
        author: s("A"),
        questions: vec![Question {
            question: s("Q"),
            correct_answer: s("C"),
            incorrect_answers: vec![s("X"), s("Y")],
        }],
        tags: vec![s("science")],
    }
}

fn record(id_byte: u8, title: &str, added_at: i64) -> Document {
    let req = QuizRequest { title: s(title), ..sample_request() };
    req.to_new_document(vec![id_byte; 12], added_at)
}

fn quiz(title: &str, added_at: i64) -> Quiz {
    Quiz {
        id: s("000000000000000000000000"),
        title: s(title),
        author: s("A"),
        questions: vec![],
        added_at,
        tags: vec![],
    }
}

fn find<'a>(store: &'a [Document], id: &[u8]) -> Option<&'a Document> {
    store.iter().find(|d| matches!(d.get("_id"), Some(Value::ObjectId(b)) if b.as_slice() == id))
}

#[test]
fn parse_id_accepts_24_hex_digits() {
    let b = parse_id("0123456789abcdefABCDEF00").unwrap();
    assert_eq!(b, vec![0x01, 0x23, 0x45, 0x67, 0x89, 0xab, 0xcd, 0xef, 0xab, 0xcd, 0xef, 0x00]);
}

#[test]
fn parse_id_refuses_malformed_text() {
    assert_eq!(parse_id("not-an-id"), Err(Error::InvalidIdentifier(s("not-an-id"))));
    assert!(matches!(parse_id("0123456789abcdef0123456"), Err(Error::InvalidIdentifier(_))));
    assert!(matches!(parse_id("0123456789abcdef012345678"), Err(Error::InvalidIdentifier(_))));
    assert!(matches!(parse_id("0123456789abcdef0123456g"), Err(Error::InvalidIdentifier(_))));
    assert!(matches!(parse_id(""), Err(Error::InvalidIdentifier(_))));
}

#[test]
fn id_text_is_lowercase_hex() {
    let b = vec![0x5f, 0x00, 0xAB, 1, 2, 3, 4, 5, 6, 7, 8, 0xff];
    assert_eq!(id_text(&b), "5f00ab0102030405060708ff");
    assert_eq!(parse_id(&id_text(&b)).unwrap(), b);
}

#[test]
fn question_value_round_trip() {
    let q = sample_request().questions[0].clone();
    let back = Question::from_value(&q.to_value()).unwrap();
    assert_eq!(back.question, "Q");
    assert_eq!(back.correct_answer, "C");
    assert_eq!(back.incorrect_answers, vec![s("X"), s("Y")]);
}

#[test]
fn question_of_wrong_shape_is_mapping_error() {
    assert_eq!(Question::from_value(&Value::Other).err(), Some(Error::Mapping));
    let d = Document { entries: vec![(s("question"), Value::Str(s("Q")))] };
    assert_eq!(Question::from_value(&Value::Doc(d)).err(), Some(Error::Mapping));
}

#[test]
fn stored_record_reads_back() {
    let d = record(7, "T1", 1_600_000_000_000);
    let q = Quiz::from_document(&d).unwrap();
    assert_eq!(q.id, "070707070707070707070707");
    assert_eq!(q.title, "T1");
    assert_eq!(q.author, "A");
    assert_eq!(q.added_at, 1_600_000_000_000);
    assert_eq!(q.tags, vec![s("science")]);
    assert_eq!(q.questions.len(), 1);
    assert_eq!(q.questions[0].incorrect_answers, vec![s("X"), s("Y")]);
}

#[test]
fn record_missing_a_field_is_mapping_error() {
    let mut d = record(7, "T1", 5);
    d.entries.retain(|(k, _)| k != "tags");
    assert_eq!(Quiz::from_document(&d).err(), Some(Error::Mapping));
    let mut d = record(7, "T1", 5);
    d.entries.retain(|(k, _)| k != "_id");
    assert_eq!(Quiz::from_document(&d).err(), Some(Error::Mapping));
}

#[test]
fn record_field_of_wrong_shape_is_mapping_error() {
    let mut d = record(7, "T1", 5);
    for e in d.entries.iter_mut() {
        if e.0 == "added_at" {
            e.1 = Value::Str(s("yesterday"));
        }
    }
    assert_eq!(Quiz::from_document(&d).err(), Some(Error::Mapping));
    let mut d = record(7, "T1", 5);
    for e in d.entries.iter_mut() {
        if e.0 == "tags" {
            e.1 = Value::Array(vec![Value::Str(s("a")), Value::Other]);
        }
    }
    assert_eq!(Quiz::from_document(&d).err(), Some(Error::Mapping));
}

#[test]
fn edit_replacement_has_no_identifier() {
    let d = sample_request().to_document(42);
    assert!(d.get("_id").is_none());
    assert!(matches!(d.get("added_at"), Some(Value::DateTime(42))));
    assert!(matches!(d.get("title"), Some(Value::Str(t)) if t == "T1"));
}

#[test]
fn fetch_of_missing_record_is_not_found() {
    assert_eq!(fetched_quiz(None).err(), Some(Error::NotFound));
}

#[test]
fn fetch_of_present_record_reads_it() {
    let d = record(1, "T1", 3);
    assert_eq!(fetched_quiz(Some(&d)).unwrap().title, "T1");
}

#[test]
fn listing_fails_on_one_bad_record() {
    let docs = vec![record(1, "a", 1), Document { entries: vec![] }];
    assert_eq!(quizzes_from(&docs).err(), Some(Error::Mapping));
    let docs = vec![record(1, "a", 1), record(2, "b", 2)];
    let qs = quizzes_from(&docs).unwrap();
    assert_eq!(qs.len(), 2);
    assert_eq!(qs[0].title, "a");
    assert_eq!(qs[1].title, "b");
    assert!(quizzes_from(&vec![]).unwrap().is_empty());
}

#[test]
fn recent_keeps_eight_newest_first() {
    let qs: Vec<Quiz> = (0..10).map(|i| quiz(&format!("q{}", i), [5, 1, 9, 3, 7, 0, 8, 2, 6, 4][i])).collect();
    let r = recent(qs);
    let times: Vec<i64> = r.iter().map(|q| q.added_at).collect();
    assert_eq!(times, vec![9, 8, 7, 6, 5, 4, 3, 2]);
    for w in r.windows(2) {
        assert!(w[0].added_at >= w[1].added_at);
    }
}

#[test]
fn recent_of_few_keeps_all() {
    let r = recent(vec![quiz("a", 1), quiz("b", 3), quiz("c", 2)]);
    let titles: Vec<&str> = r.iter().map(|q| q.title.as_str()).collect();
    assert_eq!(titles, vec!["b", "c", "a"]);
    assert!(recent(vec![]).is_empty());
}

#[test]
fn recent_keeps_listing_order_among_equal_times() {
    let r = recent(vec![quiz("a", 1), quiz("b", 1), quiz("c", 2), quiz("d", 1)]);
    let titles: Vec<&str> = r.iter().map(|q| q.title.as_str()).collect();
    assert_eq!(titles, vec!["c", "a", "b", "d"]);
}

#[test]
fn search_matches_case_insensitive_substring() {
    assert!(title_matches("xabcy", "ABC"));
    assert!(title_matches("ABC", "abc"));
    assert!(title_matches("anything", ""));
    assert!(!title_matches("xabdy", "ABC"));
    assert!(!title_matches("ab", "abc"));
}

#[test]
fn contains_text_is_exact() {
    assert!(contains_text("hello", "ell"));
    assert!(contains_text("hello", "hello"));
    assert!(!contains_text("hello", "Ell"));
    assert!(!contains_text("", "a"));
    assert!(contains_text("", ""));
}

#[test]
fn search_pattern_escapes_operators() {
    assert_eq!(search_pattern("a.c"), "a\\.c");
    assert_eq!(search_pattern("(x)*"), "\\(x\\)\\*");
    assert_eq!(search_pattern("plain"), "plain");
    assert_eq!(search_pattern(""), "");
}

#[test]
fn search_results_keep_matching_titles() {
    let docs = vec![record(1, "xabcy", 1), record(2, "other", 2), record(3, "ABC", 3)];
    let qs = search_results("ABC", &docs).unwrap();
    let titles: Vec<&str> = qs.iter().map(|q| q.title.as_str()).collect();
    assert_eq!(titles, vec!["xabcy", "ABC"]);
    let bad = vec![Document { entries: vec![] }];
    assert_eq!(search_results("ABC", &bad).err(), Some(Error::Mapping));
}

#[test]
fn removal_matches_whole_tag_list_only() {
    assert!(removed_by_tag(&vec![s("funner")]));
    assert!(!removed_by_tag(&vec![s("funner"), s("science")]));
    assert!(!removed_by_tag(&vec![]));
    assert!(!removed_by_tag(&vec![s("fun")]));
    assert_eq!(removal_tags(), vec![s("funner")]);
}

#[test]
fn new_record_uses_given_identifier() {
    let (text, d) = new_record(&sample_request(), vec![0xab; 12], 99);
    assert_eq!(text, "abababababababababababab");
    let q = Quiz::from_document(&d).unwrap();
    assert_eq!(q.id, text);
    assert_eq!(q.added_at, 99);
}

#[test]
fn create_record_answers_with_its_identifier() {
    let (text, d) = create_record(&sample_request());
    assert_eq!(text.len(), 24);
    let q = Quiz::from_document(&d).unwrap();
    assert_eq!(q.id, text);
    assert_eq!(parse_id(&text).unwrap().len(), 12);
}

#[test]
fn edit_decisions() {
    assert_eq!(edit_record("not-an-id", &sample_request()).err(), Some(Error::InvalidIdentifier(s("not-an-id"))));
    let (b, d) = replacement("0000000000000000000000ff", &sample_request(), 77).unwrap();
    assert_eq!(b, vec![0, 0, 0, 0, 0, 0, 0, 0, 0, 0, 0, 0xff]);
    assert!(matches!(d.get("added_at"), Some(Value::DateTime(77))));
    let (b, _) = edit_record("0000000000000000000000FF", &sample_request()).unwrap();
    assert_eq!(b[11], 0xff);
}

#[test]
fn status_codes() {
    assert_eq!(Error::InvalidIdentifier(s("x")).status_code(), 400);
    assert_eq!(Error::Mapping.status_code(), 400);
    assert_eq!(Error::NotFound.status_code(), 404);
    assert_eq!(Error::Connection.status_code(), 500);
    assert_eq!(Error::BadRequest.status_code(), 400);
}

#[test]
fn create_fetch_delete_scenario() {
    let mut store: Vec<Document> = Vec::new();
    let (id, d) = create_record(&sample_request());
    store.push(d);
    let key = parse_id(&id).unwrap();
    let q = fetched_quiz(find(&store, &key)).unwrap();
    assert_eq!(q.id, id);
    assert_eq!(q.title, "T1");
    assert_eq!(q.author, "A");
    assert_eq!(q.questions[0].question, "Q");
    assert_eq!(q.questions[0].correct_answer, "C");
    assert_eq!(q.questions[0].incorrect_answers, vec![s("X"), s("Y")]);
    assert_eq!(q.tags, vec![s("science")]);
    store.retain(|d| !matches!(d.get("_id"), Some(Value::ObjectId(b)) if *b == key));
    assert_eq!(fetched_quiz(find(&store, &key)).err(), Some(Error::NotFound));
}

#[test]
fn fetch_with_unknown_well_formed_id_is_not_found() {
    let store = vec![record(1, "a", 1)];
    let key = parse_id("ffffffffffffffffffffffff").unwrap();
    assert_eq!(fetched_quiz(find(&store, &key)).err(), Some(Error::NotFound));
}
