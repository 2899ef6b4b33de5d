use crate::error::Error;
use crate::id::{hex_bytes, hex_text, id_text, is_id_text, lemma_id_round_trip, ID_BYTES};
use crate::structs::{
    question_views, request_of, texts, Question, QuestionView, Quiz, QuizRequest, QuizView,
    RequestView,
};
use vstd::prelude::*;
use vstd::string::*;

verus! {

pub const ID: &'static str = "_id";
pub const TITLE: &'static str = "title";
pub const AUTHOR: &'static str = "author";
pub const QUESTIONS: &'static str = "questions";
pub const ADDED_AT: &'static str = "added_at";
pub const TAGS: &'static str = "tags";
pub const QUESTION: &'static str = "question";
pub const CORRECT_ANSWER: &'static str = "correct_answer";
pub const INCORRECT_ANSWERS: &'static str = "incorrect_answers";

/// A value held in a stored record, as far as quiz records use them.
#[derive(Debug)]
pub enum Value {
    Str(String),
    Array(Vec<Value>),
    Doc(Document),
    /// A store identifier, twelve bytes.
    ObjectId(Vec<u8>),
    /// A timestamp in milliseconds since the Unix epoch.
    DateTime(i64),
    /// Any other kind of value, which no quiz field accepts.
    Other,
}

/// A stored record: named fields in order. The store keeps each name once.
#[derive(Debug)]
pub struct Document {
    pub entries: Vec<(String, Value)>,
}

/// The value of the first field with the given name.
pub open spec fn lookup(e: Seq<(String, Value)>, key: Seq<char>) -> Option<Value>
    decreases e.len(),
{
    if e.len() == 0 {
        None
    } else if e[0].0@ == key {
        Some(e[0].1)
    } else {
        lookup(e.drop_first(), key)
    }
}

/// The field of a record with the given name.
pub open spec fn field(d: Document, key: Seq<char>) -> Option<Value> {
    lookup(d.entries@, key)
}

/// The text a value holds, if it is a string.
pub open spec fn text_of(v: Option<Value>) -> Option<Seq<char>> {
    match v {
        Some(Value::Str(s)) => Some(s@),
        _ => None,
    }
}

/// The characters of a string value; nothing for another value.
pub open spec fn chars_of(v: Value) -> Seq<char> {
    match v {
        Value::Str(s) => s@,
        _ => Seq::empty(),
    }
}

/// The texts an array holds, if it is an array of strings only.
pub open spec fn texts_of(v: Option<Value>) -> Option<Seq<Seq<char>>> {
    match v {
        Some(Value::Array(items)) => if forall|i: int|
            0 <= i < items@.len() ==> #[trigger] items@[i] is Str {
            Some(items@.map_values(|x: Value| chars_of(x)))
        } else {
            None
        },
        _ => None,
    }
}

/// The question a value holds, if it is a record with the three question
/// fields of the right shapes.
pub open spec fn question_of(v: Value) -> Option<QuestionView> {
    match v {
        Value::Doc(d) => {
            let q = text_of(field(d, QUESTION@));
            let c = text_of(field(d, CORRECT_ANSWER@));
            let w = texts_of(field(d, INCORRECT_ANSWERS@));
            if q is Some && c is Some && w is Some {
                Some(
                    QuestionView {
                        question: q.unwrap(),
                        correct_answer: c.unwrap(),
                        incorrect_answers: w.unwrap(),
                    },
                )
            } else {
                None
            }
        },
        _ => None,
    }
}

/// The questions an array holds, if every item is a well-formed question.
pub open spec fn questions_of(v: Option<Value>) -> Option<Seq<QuestionView>> {
    match v {
        Some(Value::Array(items)) => if forall|i: int|
            0 <= i < items@.len() ==> #[trigger] question_of(items@[i]) is Some {
            Some(items@.map_values(|x: Value| question_of(x).unwrap()))
        } else {
            None
        },
        _ => None,
    }
}

/// The identifier text of an identifier value.
pub open spec fn id_of(v: Option<Value>) -> Option<Seq<char>> {
    match v {
        Some(Value::ObjectId(b)) => if b@.len() == ID_BYTES {
            Some(hex_text(b@))
        } else {
            None
        },
        _ => None,
    }
}

/// The time a timestamp value holds.
pub open spec fn time_of(v: Option<Value>) -> Option<i64> {
    match v {
        Some(Value::DateTime(t)) => Some(t),
        _ => None,
    }
}

/// The quiz a stored record holds: it must have all six fields, each of the
/// right shape; nothing is filled in by default.
pub open spec fn quiz_of(d: Document) -> Option<QuizView> {
    let id = id_of(field(d, ID@));
    let title = text_of(field(d, TITLE@));
    let author = text_of(field(d, AUTHOR@));
    let questions = questions_of(field(d, QUESTIONS@));
    let added_at = time_of(field(d, ADDED_AT@));
    let tags = texts_of(field(d, TAGS@));
    if id is Some && title is Some && author is Some && questions is Some && added_at is Some
        && tags is Some {
        Some(
            QuizView {
                id: id.unwrap(),
                title: title.unwrap(),
                author: author.unwrap(),
                questions: questions.unwrap(),
                added_at: added_at.unwrap(),
                tags: tags.unwrap(),
            },
        )
    } else {
        None
    }
}

/// The fields of the record that stores a request: all of a quiz's but its
/// identifier, which the store assigns on insertion.
pub open spec fn stores_request(d: Document, r: RequestView, added_at: i64) -> bool {
    &&& text_of(field(d, TITLE@)) == Some(r.title)
    &&& text_of(field(d, AUTHOR@)) == Some(r.author)
    &&& questions_of(field(d, QUESTIONS@)) == Some(r.questions)
    &&& time_of(field(d, ADDED_AT@)) == Some(added_at)
    &&& texts_of(field(d, TAGS@)) == Some(r.tags)
    &&& field(d, ID@) is None
}

proof fn lemma_lookup_skip(e: Seq<(String, Value)>, key: Seq<char>, i: int)
    requires
        0 <= i < e.len(),
        e[i].0@ != key,
    ensures
        lookup(e.skip(i), key) == lookup(e.skip(i + 1), key),
{
    assert(e.skip(i).drop_first() =~= e.skip(i + 1));
}

impl Document {
    /// The value of the field with the given name, if the record has one.
    pub fn get(&self, key: &str) -> (r: Option<&Value>)
        ensures
            r is Some == field(*self, key@) is Some,
            r matches Some(v) ==> field(*self, key@) == Some(*v),
    {
        let k = key.to_owned();
        let mut i: usize = 0;
        assert(self.entries@.skip(0) =~= self.entries@);
        while i < self.entries.len()
            invariant
                i <= self.entries@.len(),
                k@ == key@,
                lookup(self.entries@.skip(i as int), key@) == field(*self, key@),
            decreases self.entries@.len() - i,
        {
            if self.entries[i].0 == k {
                return Some(&self.entries[i].1);
            }
            proof {
                lemma_lookup_skip(self.entries@, key@, i as int);
            }
            i += 1;
        }
        None
    }
}

/// Reads a string field.
fn text_field(d: &Document, key: &str) -> (r: Result<String, Error>)
    ensures
        r is Ok == text_of(field(*d, key@)) is Some,
        r matches Ok(s) ==> text_of(field(*d, key@)) == Some(s@),
        r matches Err(e) ==> e == Error::Mapping,
{
    match d.get(key) {
        Some(Value::Str(s)) => Ok(s.clone()),
        _ => Err(Error::Mapping),
    }
}

/// Reads a field that holds an array of strings.
fn texts_field(d: &Document, key: &str) -> (r: Result<Vec<String>, Error>)
    ensures
        r is Ok == texts_of(field(*d, key@)) is Some,
        r matches Ok(s) ==> texts_of(field(*d, key@)) == Some(texts(s@)),
        r matches Err(e) ==> e == Error::Mapping,
{
    let v = d.get(key);
    match v {
        Some(Value::Array(items)) => {
            let mut out: Vec<String> = Vec::new();
            let mut i: usize = 0;
            while i < items.len()
                invariant
                    i <= items@.len(),
                    field(*d, key@) == Some(Value::Array(*items)),
                    out@.len() == i,
                    forall|j: int| 0 <= j < i ==> #[trigger] items@[j] is Str,
                    forall|j: int| 0 <= j < i ==> #[trigger] out@[j]@ == chars_of(items@[j]),
                decreases items@.len() - i,
            {
                match &items[i] {
                    Value::Str(s) => {
                        out.push(s.clone());
                    },
                    _ => {
                        assert(!(items@[i as int] is Str));
                        return Err(Error::Mapping);
                    },
                }
                i += 1;
            }
            assert(texts(out@) =~= items@.map_values(|x: Value| chars_of(x)));
            Ok(out)
        },
        _ => Err(Error::Mapping),
    }
}

/// Stores a list of strings as an array value.
fn texts_value(s: &Vec<String>) -> (r: Value)
    ensures
        texts_of(Some(r)) == Some(texts(s@)),
{
    let mut items: Vec<Value> = Vec::new();
    let mut i: usize = 0;
    while i < s.len()
        invariant
            i <= s@.len(),
            items@.len() == i,
            forall|j: int| 0 <= j < i ==> #[trigger] items@[j] is Str,
            forall|j: int| 0 <= j < i ==> #[trigger] chars_of(items@[j]) == s@[j]@,
        decreases s@.len() - i,
    {
        items.push(Value::Str(s[i].clone()));
        i += 1;
    }
    let r = Value::Array(items);
    assert(items@.map_values(|x: Value| chars_of(x)) =~= texts(s@));
    r
}

/// Appending a field leaves the fields already present as they were.
pub proof fn lemma_lookup_push(e: Seq<(String, Value)>, k: String, v: Value, key: Seq<char>)
    ensures
        lookup(e.push((k, v)), key) == (if lookup(e, key) is Some {
            lookup(e, key)
        } else if k@ == key {
            Some(v)
        } else {
            None
        }),
    decreases e.len(),
{
    if e.len() == 0 {
        assert(e.push((k, v)).drop_first() =~= e);
    } else {
        assert(e.push((k, v)).drop_first() =~= e.drop_first().push((k, v)));
        lemma_lookup_push(e.drop_first(), k, v, key);
    }
}

/// The names of the fields of a record differ from one another.
proof fn lemma_names_differ()
    ensures
        ID@ != TITLE@ && ID@ != AUTHOR@ && ID@ != QUESTIONS@ && ID@ != ADDED_AT@ && ID@ != TAGS@,
        TITLE@ != AUTHOR@ && TITLE@ != QUESTIONS@ && TITLE@ != ADDED_AT@ && TITLE@ != TAGS@,
        AUTHOR@ != QUESTIONS@ && AUTHOR@ != ADDED_AT@ && AUTHOR@ != TAGS@,
        QUESTIONS@ != ADDED_AT@ && QUESTIONS@ != TAGS@ && ADDED_AT@ != TAGS@,
        QUESTION@ != CORRECT_ANSWER@ && QUESTION@ != INCORRECT_ANSWERS@,
        CORRECT_ANSWER@ != INCORRECT_ANSWERS@,
{
    reveal_strlit("_id");
    reveal_strlit("title");
    reveal_strlit("author");
    reveal_strlit("questions");
    reveal_strlit("added_at");
    reveal_strlit("tags");
    reveal_strlit("question");
    reveal_strlit("correct_answer");
    reveal_strlit("incorrect_answers");
    assert(ID@.len() == 3 && TITLE@.len() == 5 && AUTHOR@.len() == 6);
    assert(QUESTIONS@.len() == 9 && ADDED_AT@.len() == 8 && TAGS@.len() == 4);
    assert(QUESTION@.len() == 8 && CORRECT_ANSWER@.len() == 14 && INCORRECT_ANSWERS@.len() == 17);
}

impl Document {
    /// A record with no fields.
    pub fn new() -> (r: Document)
        ensures
            r.entries@.len() == 0,
    {
        Document { entries: Vec::new() }
    }

    /// Appends a field.
    pub fn push_field(&mut self, key: &str, v: Value)
        ensures
            final(self).entries@.len() == old(self).entries@.len() + 1,
            forall|name: Seq<char>| #[trigger]
                field(*final(self), name) == (if field(*old(self), name) is Some {
                    field(*old(self), name)
                } else if key@ == name {
                    Some(v)
                } else {
                    None
                }),
    {
        let k = key.to_owned();
        proof {
            assert forall|name: Seq<char>| #[trigger]
                lookup(self.entries@.push((k, v)), name) == (if lookup(self.entries@, name) is Some {
                    lookup(self.entries@, name)
                } else if key@ == name {
                    Some(v)
                } else {
                    None
                }) by {
                lemma_lookup_push(self.entries@, k, v, name);
            }
        }
        self.entries.push((k, v));
    }
}

impl Question {
    /// The record value that stores this question, with the fields
    /// `question`, `correct_answer` and `incorrect_answers`.
    pub fn to_value(&self) -> (r: Value)
        ensures
            question_of(r) == Some(self@),
            r matches Value::Doc(d) && d.entries@.len() == 3,
    {
        proof {
            lemma_names_differ();
        }
        let mut d = Document::new();
        d.push_field(QUESTION, Value::Str(self.question.clone()));
        d.push_field(CORRECT_ANSWER, Value::Str(self.correct_answer.clone()));
        d.push_field(INCORRECT_ANSWERS, texts_value(&self.incorrect_answers));
        Value::Doc(d)
    }

    /// Reads a question from its record value; a missing field, or one of
    /// the wrong shape, is a `Mapping` error.
    pub fn from_value(v: &Value) -> (r: Result<Question, Error>)
        ensures
            r is Ok == question_of(*v) is Some,
            r matches Ok(q) ==> question_of(*v) == Some(q@),
            r matches Err(e) ==> e == Error::Mapping,
    {
        match v {
            Value::Doc(d) => {
                let question = text_field(d, QUESTION)?;
                let correct_answer = text_field(d, CORRECT_ANSWER)?;
                let incorrect_answers = texts_field(d, INCORRECT_ANSWERS)?;
                Ok(Question { question, correct_answer, incorrect_answers })
            },
            _ => Err(Error::Mapping),
        }
    }
}

/// Stores a list of questions as an array value.
fn questions_value(qs: &Vec<Question>) -> (r: Value)
    ensures
        questions_of(Some(r)) == Some(question_views(qs@)),
{
    let mut items: Vec<Value> = Vec::new();
    let mut i: usize = 0;
    while i < qs.len()
        invariant
            i <= qs@.len(),
            items@.len() == i,
            forall|j: int| 0 <= j < i ==> #[trigger] question_of(items@[j]) == Some(qs@[j]@),
        decreases qs@.len() - i,
    {
        items.push(qs[i].to_value());
        i += 1;
    }
    let r = Value::Array(items);
    assert(items@.map_values(|x: Value| question_of(x).unwrap()) =~= question_views(qs@));
    r
}

/// Reads a field that holds an array of questions.
fn questions_field(d: &Document, key: &str) -> (r: Result<Vec<Question>, Error>)
    ensures
        r is Ok == questions_of(field(*d, key@)) is Some,
        r matches Ok(qs) ==> questions_of(field(*d, key@)) == Some(question_views(qs@)),
        r matches Err(e) ==> e == Error::Mapping,
{
    match d.get(key) {
        Some(Value::Array(items)) => {
            let mut out: Vec<Question> = Vec::new();
            let mut i: usize = 0;
            while i < items.len()
                invariant
                    i <= items@.len(),
                    field(*d, key@) == Some(Value::Array(*items)),
                    out@.len() == i,
                    forall|j: int| 0 <= j < i ==> #[trigger] question_of(items@[j]) == Some(
                        out@[j]@,
                    ),
                decreases items@.len() - i,
            {
                let q = Question::from_value(&items[i])?;
                out.push(q);
                i += 1;
            }
            assert(question_views(out@) =~= items@.map_values(
                |x: Value| question_of(x).unwrap(),
            ));
            Ok(out)
        },
        _ => Err(Error::Mapping),
    }
}

/// A record that stores a request under an identifier, as a creation
/// writes it.
pub open spec fn stores_created(d: Document, r: RequestView, added_at: i64, id: Seq<u8>) -> bool {
    &&& text_of(field(d, TITLE@)) == Some(r.title)
    &&& text_of(field(d, AUTHOR@)) == Some(r.author)
    &&& questions_of(field(d, QUESTIONS@)) == Some(r.questions)
    &&& time_of(field(d, ADDED_AT@)) == Some(added_at)
    &&& texts_of(field(d, TAGS@)) == Some(r.tags)
    &&& field(d, ID@) matches Some(Value::ObjectId(b)) && b@ == id
}

impl QuizRequest {
    /// The record that stores this request with the given timestamp, without
    /// an identifier: the replacement that an edit writes.
    pub fn to_document(&self, added_at: i64) -> (r: Document)
        ensures
            stores_request(r, self@, added_at),
            r.entries@.len() == 5,
    {
        proof {
            lemma_names_differ();
        }
        let mut d = Document::new();
        d.push_field(TITLE, Value::Str(self.title.clone()));
        d.push_field(AUTHOR, Value::Str(self.author.clone()));
        d.push_field(QUESTIONS, questions_value(&self.questions));
        d.push_field(ADDED_AT, Value::DateTime(added_at));
        d.push_field(TAGS, texts_value(&self.tags));
        d
    }

    /// The record that a creation inserts: the request's fields, the
    /// timestamp, and the identifier chosen for the new quiz.
    pub fn to_new_document(&self, id: Vec<u8>, added_at: i64) -> (r: Document)
        ensures
            stores_created(r, self@, added_at, id@),
            r.entries@.len() == 6,
    {
        proof {
            lemma_names_differ();
        }
        let ghost b = id@;
        let mut d = Document::new();
        d.push_field(ID, Value::ObjectId(id));
        d.push_field(TITLE, Value::Str(self.title.clone()));
        d.push_field(AUTHOR, Value::Str(self.author.clone()));
        d.push_field(QUESTIONS, questions_value(&self.questions));
        d.push_field(ADDED_AT, Value::DateTime(added_at));
        d.push_field(TAGS, texts_value(&self.tags));
        d
    }
}

impl Quiz {
    /// Reads a quiz from its stored record. Every field must be present and
    /// of the right shape, or the result is a `Mapping` error.
    pub fn from_document(d: &Document) -> (r: Result<Quiz, Error>)
        ensures
            r is Ok == quiz_of(*d) is Some,
            r matches Ok(q) ==> quiz_of(*d) == Some(q@),
            r matches Err(e) ==> e == Error::Mapping,
    {
        let id = match d.get(ID) {
            Some(Value::ObjectId(b)) => {
                if b.len() != ID_BYTES {
                    return Err(Error::Mapping);
                }
                id_text(b)
            },
            _ => {
                return Err(Error::Mapping);
            },
        };
        let title = text_field(d, TITLE)?;
        let author = text_field(d, AUTHOR)?;
        let questions = questions_field(d, QUESTIONS)?;
        let added_at = match d.get(ADDED_AT) {
            Some(Value::DateTime(t)) => *t,
            _ => {
                return Err(Error::Mapping);
            },
        };
        let tags = texts_field(d, TAGS)?;
        Ok(Quiz { id, title, author, questions, added_at, tags })
    }
}

/// A record written by a creation reads back as a quiz with the request's
/// title, author, questions and tags, the timestamp given, and the text form
/// of the identifier chosen; that text reads back as the same identifier.
pub proof fn lemma_created_reads_back(d: Document, r: RequestView, added_at: i64, id: Seq<u8>)
    requires
        id.len() == ID_BYTES,
        stores_created(d, r, added_at, id),
    ensures
        quiz_of(d) == Some(
            QuizView {
                id: hex_text(id),
                title: r.title,
                author: r.author,
                questions: r.questions,
                added_at,
                tags: r.tags,
            },
        ),
        request_of(quiz_of(d).unwrap()) == r,
        is_id_text(hex_text(id)),
        hex_bytes(hex_text(id)) == id,
{
    lemma_id_round_trip(id);
}

} // verus!
