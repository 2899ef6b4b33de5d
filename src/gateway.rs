use crate::document::{quiz_of, stores_created, stores_request, Document};
use crate::id::{hex_bytes, hex_text, id_text, is_id_text, parse_id, ID_BYTES};
use crate::error::Error;
use crate::structs::{request_of, texts, Quiz, QuizRequest, QuizView, RequestView};
use vstd::multiset::Multiset;
use vstd::prelude::*;

verus! {

broadcast use vstd::seq_lib::group_to_multiset_ensures;

/// How many quizzes the recent listing holds at most.
pub const RECENT_LIMIT: usize = 8;

/// The quizzes that a list of records holds, if every record is well formed.
pub open spec fn quizzes_of(docs: Seq<Document>) -> Option<Seq<QuizView>> {
    if forall|i: int| 0 <= i < docs.len() ==> #[trigger] quiz_of(docs[i]) is Some {
        Some(docs.map_values(|d: Document| quiz_of(d).unwrap()))
    } else {
        None
    }
}

/// The views of a list of quizzes.
pub open spec fn quiz_views(qs: Seq<Quiz>) -> Seq<QuizView> {
    qs.map_values(|q: Quiz| q@)
}

/// Newest first: each timestamp is at least the next one's.
pub open spec fn newest_first(qs: Seq<Quiz>) -> bool {
    forall|i: int, j: int| 0 <= i < j < qs.len() ==> qs[i].added_at >= qs[j].added_at
}

/// The smaller of two lengths.
pub open spec fn min_len(a: int, b: int) -> int {
    if a < b {
        a
    } else {
        b
    }
}

/// The outcome of looking a quiz up by identifier: no record is `NotFound`,
/// a record is read as a quiz.
pub fn fetched_quiz(found: Option<&Document>) -> (r: Result<Quiz, Error>)
    ensures
        found is None ==> r == Err::<Quiz, Error>(Error::NotFound),
        found matches Some(d) ==> {
            &&& r is Ok == quiz_of(*d) is Some
            &&& r matches Ok(q) ==> quiz_of(*d) == Some(q@)
            &&& r matches Err(e) ==> e == Error::Mapping
        },
{
    match found {
        None => Err(Error::NotFound),
        Some(d) => Quiz::from_document(d),
    }
}

/// Reads every record of a listing as a quiz, in order; one that is not
/// well formed fails the whole listing with `Mapping`.
pub fn quizzes_from(docs: &Vec<Document>) -> (r: Result<Vec<Quiz>, Error>)
    ensures
        r is Ok == quizzes_of(docs@) is Some,
        r matches Ok(qs) ==> quizzes_of(docs@) == Some(quiz_views(qs@)),
        r matches Err(e) ==> e == Error::Mapping,
{
    let mut out: Vec<Quiz> = Vec::new();
    let mut i: usize = 0;
    while i < docs.len()
        invariant
            i <= docs@.len(),
            out@.len() == i,
            forall|j: int| 0 <= j < i ==> #[trigger] quiz_of(docs@[j]) == Some(out@[j]@),
        decreases docs@.len() - i,
    {
        match Quiz::from_document(&docs[i]) {
            Ok(q) => out.push(q),
            Err(e) => {
                return Err(e);
            },
        }
        i += 1;
    }
    assert(quiz_views(out@) =~= docs@.map_values(|d: Document| quiz_of(d).unwrap()));
    Ok(out)
}

/// `all` is `input` put in order of timestamp, newest first, where `idx`
/// gives the place in `input` of each element of `all`; quizzes with equal
/// timestamps keep the order they had in `input`.
pub open spec fn time_ordered(input: Seq<Quiz>, all: Seq<Quiz>, idx: Seq<int>) -> bool {
    &&& all.len() == input.len()
    &&& idx.len() == all.len()
    &&& forall|m: int| 0 <= m < all.len() ==> 0 <= #[trigger] idx[m] < input.len()
    &&& forall|m: int| 0 <= m < all.len() ==> #[trigger] all[m] == input[idx[m]]
    &&& forall|m: int, n: int| 0 <= m < n < all.len() ==> idx[m] != idx[n]
    &&& newest_first(all)
    &&& forall|m: int, n: int|
        0 <= m < n < all.len() && all[m].added_at == all[n].added_at ==> idx[m] < idx[n]
}

/// The newest quizzes, at most eight, newest first; among equal timestamps
/// the order of the listing is kept. That is, the first eight of the
/// quizzes put in order of timestamp, newest first.
pub fn recent(quizzes: Vec<Quiz>) -> (r: Vec<Quiz>)
    ensures
        r@.len() <= RECENT_LIMIT,
        r@.len() == min_len(quizzes@.len() as int, RECENT_LIMIT as int),
        newest_first(r@),
        exists|all: Seq<Quiz>, idx: Seq<int>|
            #![trigger time_ordered(quizzes@, all, idx)]
            time_ordered(quizzes@, all, idx) && all.to_multiset() == quizzes@.to_multiset()
                && r@ == all.take(r@.len() as int),
{
    let ghost input = quizzes@;
    let ghost mut idx: Seq<int> = Seq::empty();
    let mut rest = quizzes;
    let mut out: Vec<Quiz> = Vec::new();
    while rest.len() > 0
        invariant
            out@.to_multiset().add(rest@.to_multiset()) == input.to_multiset(),
            out@.len() + rest@.len() == input.len(),
            rest@ == input.take(rest@.len() as int),
            idx.len() == out@.len(),
            forall|m: int| 0 <= m < out@.len() ==> rest@.len() <= #[trigger] idx[m] < input.len(),
            forall|m: int| 0 <= m < out@.len() ==> #[trigger] out@[m] == input[idx[m]],
            forall|m: int, n: int| 0 <= m < n < out@.len() ==> idx[m] != idx[n],
            newest_first(out@),
            forall|m: int, n: int|
                0 <= m < n < out@.len() && out@[m].added_at == out@[n].added_at ==> idx[m]
                    < idx[n],
        decreases rest@.len(),
    {
        let ghost before = rest@;
        let q = rest.pop().unwrap();
        let ghost k = rest@.len() as int;
        proof {
            assert(before == rest@.push(q));
            assert(rest@ =~= input.take(k));
            assert(q == input[k]);
        }
        let mut pos: usize = 0;
        while pos < out.len() && out[pos].added_at > q.added_at
            invariant
                pos <= out@.len(),
                forall|j: int| 0 <= j < pos ==> #[trigger] out@[j].added_at > q.added_at,
            decreases out@.len() - pos,
        {
            pos += 1;
        }
        let ghost prev = out@;
        let ghost prev_idx = idx;
        out.insert(pos, q);
        proof {
            idx = prev_idx.insert(pos as int, k);
            assert forall|m: int| 0 <= m < out@.len() implies #[trigger] out@[m] == input[idx[m]]
                && rest@.len() <= idx[m] < input.len() by {
                if m < pos {
                } else if m == pos {
                } else {
                    assert(out@[m] == prev[m - 1]);
                    assert(idx[m] == prev_idx[m - 1]);
                }
            }
            assert forall|m: int, n: int| 0 <= m < n < out@.len() implies idx[m] != idx[n] by {
                if m < pos && n > pos {
                    assert(idx[n] == prev_idx[n - 1]);
                } else if m > pos {
                    assert(idx[n] == prev_idx[n - 1]);
                    assert(idx[m] == prev_idx[m - 1]);
                } else if m == pos {
                    assert(idx[n] == prev_idx[n - 1]);
                }
            }
            assert forall|i: int, j: int| 0 <= i < j < out@.len() implies out@[i].added_at
                >= out@[j].added_at by {
                if i < pos && j == pos {
                } else if i < pos && j > pos {
                    assert(out@[j] == prev[j - 1]);
                } else if i == pos && j > pos {
                    assert(out@[j] == prev[j - 1]);
                    if pos < prev.len() {
                        assert(prev[pos as int].added_at <= q.added_at);
                        assert(prev[pos as int].added_at >= prev[j - 1].added_at || j - 1 == pos);
                    }
                } else {
                }
            }
            assert forall|m: int, n: int|
                0 <= m < n < out@.len() && out@[m].added_at == out@[n].added_at implies idx[m]
                < idx[n] by {
                if m < pos && n == pos {
                } else if m < pos && n > pos {
                    assert(out@[n] == prev[n - 1]);
                    assert(idx[n] == prev_idx[n - 1]);
                } else if m == pos {
                    assert(idx[n] == prev_idx[n - 1]);
                } else if m > pos {
                    assert(out@[n] == prev[n - 1]);
                    assert(idx[n] == prev_idx[n - 1]);
                    assert(out@[m] == prev[m - 1]);
                    assert(idx[m] == prev_idx[m - 1]);
                } else {
                }
            }
            assert(out@.to_multiset() == prev.to_multiset().insert(q));
        }
    }
    let ghost all = out@;
    if out.len() > RECENT_LIMIT {
        out.truncate(RECENT_LIMIT);
    }
    proof {
        assert(rest@.to_multiset() =~= Multiset::empty());
        assert(all.to_multiset() =~= input.to_multiset());
        assert(out@ == all.take(out@.len() as int));
        assert(time_ordered(input, all, idx));
    }
    out
}

/// The tag list that the bulk removal matches, as a whole.
pub const REMOVED_TAG: &'static str = "funner";

/// Relies on chrono's `Utc::now` and `DateTime::timestamp_millis`: the
/// current time in milliseconds since the Unix epoch. Nothing is known of
/// the value.
#[verifier::external_body]
fn now_millis() -> (r: i64) {
    chrono::Utc::now().timestamp_millis()
}

/// Relies on bson's `ObjectId::new` and `ObjectId::bytes`: a fresh
/// identifier, twelve bytes.
#[verifier::external_body]
fn fresh_id() -> (r: Vec<u8>)
    ensures
        r@.len() == ID_BYTES,
{
    mongodb::bson::oid::ObjectId::new().bytes().to_vec()
}

/// The record that creates a quiz under the given identifier and timestamp,
/// and the identifier's text, which the creation answers with.
pub fn new_record(request: &QuizRequest, id: Vec<u8>, added_at: i64) -> (r: (String, Document))
    requires
        id@.len() == ID_BYTES,
    ensures
        r.0@ == hex_text(id@),
        is_id_text(r.0@),
        hex_bytes(r.0@) == id@,
        stores_created(r.1, request@, added_at, id@),
{
    let text = id_text(&id);
    proof {
        crate::id::lemma_id_round_trip(id@);
    }
    (text, request.to_new_document(id, added_at))
}

/// The record that creates a quiz from a request, under a fresh identifier
/// and the current time, and the identifier's text.
pub fn create_record(request: &QuizRequest) -> (r: (String, Document))
    ensures
        is_id_text(r.0@),
        r.0@ == hex_text(hex_bytes(r.0@)),
        exists|t: i64| #[trigger] stores_created(r.1, request@, t, hex_bytes(r.0@)),
{
    let id = fresh_id();
    let now = now_millis();
    let r = new_record(request, id, now);
    assert(stores_created(r.1, request@, now, hex_bytes(r.0@)));
    r
}

/// The identifier and replacement record of an edit with the given
/// timestamp. The identifier must be well formed; whether it names a quiz is
/// the store's affair, and an edit of none changes nothing.
pub fn replacement(id: &str, request: &QuizRequest, added_at: i64) -> (r: Result<(Vec<u8>, Document), Error>)
    ensures
        r is Ok <==> is_id_text(id@),
        r matches Ok(p) ==> p.0@ == hex_bytes(id@) && stores_request(p.1, request@, added_at),
        r matches Err(e) ==> e matches Error::InvalidIdentifier(t) && t@ == id@,
{
    let b = parse_id(id)?;
    Ok((b, request.to_document(added_at)))
}

/// The identifier and replacement record of an edit made now.
pub fn edit_record(id: &str, request: &QuizRequest) -> (r: Result<(Vec<u8>, Document), Error>)
    ensures
        r is Ok <==> is_id_text(id@),
        r matches Ok(p) ==> p.0@ == hex_bytes(id@) && exists|t: i64| #[trigger] stores_request(p.1, request@, t),
        r matches Err(e) ==> e matches Error::InvalidIdentifier(t) && t@ == id@,
{
    let now = now_millis();
    let r = replacement(id, request, now);
    proof {
        if r is Ok {
            assert(stores_request(r->Ok_0.1, request@, now));
        }
    }
    r
}

/// The tag list that the bulk removal matches: exactly one tag, "funner".
pub open spec fn removed_tags() -> Seq<Seq<char>> {
    seq![REMOVED_TAG@]
}

/// The filter value of the bulk removal: the whole tag list it matches.
pub fn removal_tags() -> (r: Vec<String>)
    ensures
        texts(r@) == removed_tags(),
{
    let r = vec![REMOVED_TAG.to_owned()];
    assert(texts(r@) =~= removed_tags());
    r
}

/// Whether the bulk removal takes a quiz with these tags: only when the
/// list is exactly the one tag "funner", not when it merely holds it.
pub fn removed_by_tag(tags: &Vec<String>) -> (r: bool)
    ensures
        r == (texts(tags@) == removed_tags()),
{
    let t = REMOVED_TAG.to_owned();
    let r = tags.len() == 1 && tags[0] == t;
    proof {
        if tags@.len() == 1 {
            assert(texts(tags@)[0] == tags@[0]@);
            if tags@[0]@ == t@ {
                assert(texts(tags@) =~= removed_tags());
            }
        } else {
            assert(texts(tags@).len() != removed_tags().len());
        }
    }
    r
}

/// Creating a quiz and then fetching it by the identifier the creation
/// answered with gives a quiz with that identifier and the request's title,
/// author, questions and tags: the identifier reads back as the one stored
/// under, and the stored record reads back as such a quiz.
pub proof fn lemma_create_then_fetch(
    request: RequestView,
    record: Document,
    returned_id: Seq<char>,
    added_at: i64,
)
    requires
        is_id_text(returned_id),
        returned_id == hex_text(hex_bytes(returned_id)),
        stores_created(record, request, added_at, hex_bytes(returned_id)),
    ensures
        quiz_of(record) matches Some(q) && q.id == returned_id && request_of(q) == request
            && q.added_at == added_at,
{
    crate::document::lemma_created_reads_back(record, request, added_at, hex_bytes(returned_id));
}

} // verus!
