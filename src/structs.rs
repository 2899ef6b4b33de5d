use vstd::prelude::*;

verus! {

/// One question of a quiz, with its right answer and the wrong ones offered.
#[derive(Debug, Clone)]
pub struct Question {
    pub question: String,
    pub correct_answer: String,
    pub incorrect_answers: Vec<String>,
}

/// A stored quiz. `added_at` is in milliseconds since the Unix epoch, as the
/// store keeps its timestamps.
#[derive(Debug, Clone)]
pub struct Quiz {
    pub id: String,
    pub title: String,
    pub author: String,
    pub questions: Vec<Question>,
    pub added_at: i64,
    pub tags: Vec<String>,
}

/// What a client sends to create or replace a quiz: no identifier and no
/// timestamp, which the service assigns.
#[derive(Debug, Clone)]
pub struct QuizRequest {
    pub title: String,
    pub author: String,
    pub questions: Vec<Question>,
    pub tags: Vec<String>,
}

pub struct QuestionView {
    pub question: Seq<char>,
    pub correct_answer: Seq<char>,
    pub incorrect_answers: Seq<Seq<char>>,
}

pub struct QuizView {
    pub id: Seq<char>,
    pub title: Seq<char>,
    pub author: Seq<char>,
    pub questions: Seq<QuestionView>,
    pub added_at: i64,
    pub tags: Seq<Seq<char>>,
}

pub struct RequestView {
    pub title: Seq<char>,
    pub author: Seq<char>,
    pub questions: Seq<QuestionView>,
    pub tags: Seq<Seq<char>>,
}

/// The characters of each string.
pub open spec fn texts(s: Seq<String>) -> Seq<Seq<char>> {
    s.map_values(|x: String| x@)
}

/// The view of each question.
pub open spec fn question_views(s: Seq<Question>) -> Seq<QuestionView> {
    s.map_values(|q: Question| q@)
}

impl View for Question {
    type V = QuestionView;

    open spec fn view(&self) -> QuestionView {
        QuestionView {
            question: self.question@,
            correct_answer: self.correct_answer@,
            incorrect_answers: texts(self.incorrect_answers@),
        }
    }
}

impl View for Quiz {
    type V = QuizView;

    open spec fn view(&self) -> QuizView {
        QuizView {
            id: self.id@,
            title: self.title@,
            author: self.author@,
            questions: question_views(self.questions@),
            added_at: self.added_at,
            tags: texts(self.tags@),
        }
    }
}

impl View for QuizRequest {
    type V = RequestView;

    open spec fn view(&self) -> RequestView {
        RequestView {
            title: self.title@,
            author: self.author@,
            questions: question_views(self.questions@),
            tags: texts(self.tags@),
        }
    }
}

/// The request that would replace a quiz with its own content.
pub open spec fn request_of(q: QuizView) -> RequestView {
    RequestView { title: q.title, author: q.author, questions: q.questions, tags: q.tags }
}

} // verus!
