use crate::document::{quiz_of, Document};
use crate::error::Error;
use crate::gateway::{quiz_views, quizzes_of};
use crate::structs::{Quiz, QuizView};
use vstd::prelude::*;
use vstd::string::*;

verus! {

/// What `str::to_lowercase` makes of a text.
pub uninterp spec fn lower_of(s: Seq<char>) -> Seq<char>;

/// Relies on `str::to_lowercase`: the result depends on the characters alone,
/// and the empty text stays empty.
#[verifier::external_body]
fn lowercase(s: &str) -> (r: String)
    ensures
        r@ == lower_of(s@),
        s@.len() == 0 ==> r@.len() == 0,
{
    s.to_lowercase()
}

/// `part` occurs in `text` as a run of consecutive characters.
pub open spec fn contains(text: Seq<char>, part: Seq<char>) -> bool {
    exists|i: int| 0 <= i && i + part.len() <= text.len() && #[trigger] text.subrange(i, i + part.len()) == part
}

/// A title matches a search when the query, both case-folded, occurs in it
/// anywhere.
pub open spec fn title_matches_spec(title: Seq<char>, query: Seq<char>) -> bool {
    contains(lower_of(title), lower_of(query))
}

/// The quizzes whose titles match a search, in order.
pub open spec fn matching(qs: Seq<QuizView>, query: Seq<char>) -> Seq<QuizView>
    decreases qs.len(),
{
    if qs.len() == 0 {
        Seq::empty()
    } else {
        let rest = matching(qs.drop_last(), query);
        if title_matches_spec(qs.last().title, query) {
            rest.push(qs.last())
        } else {
            rest
        }
    }
}

/// The characters of a text, one per element.
fn chars_of(s: &str) -> (r: Vec<char>)
    ensures
        r@ == s@,
{
    let n = s.unicode_len();
    let mut r: Vec<char> = Vec::new();
    let mut i: usize = 0;
    while i < n
        invariant
            n == s@.len(),
            i <= n,
            r@ == s@.take(i as int),
        decreases n - i,
    {
        r.push(s.get_char(i));
        assert(s@.take(i as int + 1) =~= s@.take(i as int).push(s@[i as int]));
        i += 1;
    }
    assert(s@.take(n as int) =~= s@);
    r
}

/// Whether `part` occurs in `text` as a run of consecutive characters.
pub fn contains_text(text: &str, part: &str) -> (r: bool)
    ensures
        r == contains(text@, part@),
{
    let t = chars_of(text);
    let p = chars_of(part);
    if p.len() > t.len() {
        return false;
    }
    let mut i: usize = 0;
    while i <= t.len() - p.len()
        invariant
            t@ == text@,
            p@ == part@,
            p@.len() <= t@.len(),
            i <= t@.len() - p@.len() + 1,
            forall|k: int| 0 <= k < i ==> #[trigger] t@.subrange(k, k + p@.len()) != p@,
        decreases t@.len() - p@.len() + 1 - i,
    {
        let mut j: usize = 0;
        while j < p.len() && t[i + j] == p[j]
            invariant
                i + p@.len() <= t@.len(),
                t@.len() <= usize::MAX,
                j <= p@.len(),
                forall|m: int| 0 <= m < j ==> t@[i + m] == p@[m],
            decreases p@.len() - j,
        {
            j += 1;
        }
        if j == p.len() {
            assert(t@.subrange(i as int, i + p@.len()) =~= p@);
            return true;
        }
        assert(t@.subrange(i as int, i + p@.len())[j as int] != p@[j as int]);
        i += 1;
    }
    proof {
        if contains(text@, part@) {
            let k = choose|k: int|
                0 <= k && k + part@.len() <= text@.len() && #[trigger] text@.subrange(
                    k,
                    k + part@.len(),
                ) == part@;
            assert(t@.subrange(k, k + p@.len()) != p@);
        }
    }
    false
}

/// Whether a title matches a search: case-insensitive, anywhere in the title.
pub fn title_matches(title: &str, query: &str) -> (r: bool)
    ensures
        r == title_matches_spec(title@, query@),
{
    let t = lowercase(title);
    let q = lowercase(query);
    contains_text(t.as_str(), q.as_str())
}

/// The quizzes of a search: the records the store returned, read as quizzes,
/// keeping those whose title matches the query.
pub fn search_results(query: &str, docs: &Vec<Document>) -> (r: Result<Vec<Quiz>, Error>)
    ensures
        r is Ok == quizzes_of(docs@) is Some,
        r matches Ok(qs) ==> quiz_views(qs@) == matching(quizzes_of(docs@).unwrap(), query@),
        r matches Err(e) ==> e == Error::Mapping,
{
    let ghost all = docs@.map_values(|d: Document| quiz_of(d).unwrap());
    let mut out: Vec<Quiz> = Vec::new();
    let mut i: usize = 0;
    while i < docs.len()
        invariant
            i <= docs@.len(),
            all == docs@.map_values(|d: Document| quiz_of(d).unwrap()),
            forall|j: int| 0 <= j < i ==> #[trigger] quiz_of(docs@[j]) is Some,
            quiz_views(out@) == matching(all.take(i as int), query@),
        decreases docs@.len() - i,
    {
        let q = Quiz::from_document(&docs[i])?;
        let keep = title_matches(q.title.as_str(), query);
        proof {
            assert(all.take(i as int + 1).drop_last() =~= all.take(i as int));
            assert(all.take(i as int + 1).last() == q@);
        }
        let ghost prev = out@;
        let ghost qv = q@;
        if keep {
            out.push(q);
            proof {
                assert(quiz_views(out@) =~= quiz_views(prev).push(qv));
            }
        }
        i += 1;
    }
    assert(all.take(docs@.len() as int) =~= all);
    Ok(out)
}

/// A character with a meaning of its own in a store's regular expressions.
pub open spec fn is_pattern_meta(c: char) -> bool {
    c == '\\' || c == '.' || c == '+' || c == '*' || c == '?' || c == '(' || c == ')' || c == '|'
        || c == '[' || c == ']' || c == '{' || c == '}' || c == '^' || c == '$'
}

/// A text with a backslash before each character that a regular expression
/// would read as an operator, so that the expression matches the text itself.
pub open spec fn escaped(s: Seq<char>) -> Seq<char>
    decreases s.len(),
{
    if s.len() == 0 {
        Seq::empty()
    } else {
        let r = escaped(s.drop_last());
        if is_pattern_meta(s.last()) {
            r.push('\\').push(s.last())
        } else {
            r.push(s.last())
        }
    }
}

/// The pattern that the store's case-insensitive regular-expression filter is
/// given for a title search: the query with its operators escaped, so that
/// the store looks for the query itself, anywhere in the title.
pub fn search_pattern(query: &str) -> (r: String)
    ensures
        r@ == escaped(query@),
{
    let n = query.unicode_len();
    let mut r = String::new();
    let mut i: usize = 0;
    while i < n
        invariant
            n == query@.len(),
            i <= n,
            r@ == escaped(query@.take(i as int)),
        decreases n - i,
    {
        let c = query.get_char(i);
        proof {
            reveal_strlit("\\");
            assert(query@.take(i as int + 1).drop_last() =~= query@.take(i as int));
        }
        if c == '\\' || c == '.' || c == '+' || c == '*' || c == '?' || c == '(' || c == ')' || c
            == '|' || c == '[' || c == ']' || c == '{' || c == '}' || c == '^' || c == '$' {
            r.append("\\");
        }
        r.append(query.substring_char(i, i + 1));
        proof {
            assert(query@.subrange(i as int, i + 1) =~= seq![c]);
            assert(r@ =~= escaped(query@.take(i as int + 1)));
        }
        i += 1;
    }
    assert(query@.take(n as int) =~= query@);
    r
}

} // verus!
