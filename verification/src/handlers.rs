//! The handler logic of the six endpoints: what each one computes and
//! returns for every parsed request, with the status codes and the exact
//! texts of the response messages. The HTTP layer outside the library only
//! parses requests into the schema types and renders these results as JSON.

use vstd::prelude::*;

use crate::note::Note;
use crate::schema::{CreateNoteSchema, FilterOptions, FilterOptionsView, UpdatedNoteSchema};
use crate::store::{
    contains_id, find_note, ids_sorted, merged_note, page_slice, remove_id, replace_note,
    title_taken, title_taken_by_other, views_of, CreateNoteError, EditNoteError, NotesStore,
};
use crate::text::dec_digits;
use crate::text::u64_to_string;

verus! {

/// Relies on `chrono::Utc::now` (read through `timestamp_millis`): the
/// current time as milliseconds since the Unix epoch. Nothing is promised
/// of the reading; every caller holds for any value that comes back.
/// `Utc::now` itself aborts when the system clock reads before the epoch.
#[verifier::external_body]
fn now_timestamp_millis() -> i64 {
    chrono::Utc::now().timestamp_millis()
}

/// The page asked for, defaulting to 1.
pub open spec fn effective_page(o: FilterOptionsView) -> usize {
    match o.page {
        Some(p) => p,
        None => 1usize,
    }
}

/// The page size asked for, defaulting to 10.
pub open spec fn effective_limit(o: FilterOptionsView) -> usize {
    match o.limit {
        Some(l) => l,
        None => 10usize,
    }
}

/// How many notes the listing skips: a full page for each page before the
/// one asked for.
pub open spec fn list_offset(o: FilterOptionsView) -> int {
    (effective_page(o) - 1) * effective_limit(o)
}

/// Whether the list options lie in the valid range: a page, when given,
/// is at least 1. The HTTP layer checks this before it calls the list
/// handler and rejects the request otherwise.
pub fn filter_valid(opts: &FilterOptions) -> (r: bool)
    ensures
        r == (effective_page(opts@) >= 1),
{
    match opts.page {
        Some(p) => p >= 1,
        None => true,
    }
}

/// List one page of notes: at most `limit` notes, ascending by id,
/// starting `(page - 1) * limit` notes in.
pub fn note_list_handler(store: &NotesStore, opts: &FilterOptions) -> (r: Vec<Note>)
    requires
        store.wf(),
        effective_page(opts@) >= 1,
    ensures
        views_of(r@) == page_slice(store@.notes, list_offset(opts@), effective_limit(opts@) as int),
        r@.len() <= effective_limit(opts@),
        ids_sorted(views_of(r@)),
{
    let page = match opts.page {
        Some(p) => p,
        None => 1,
    };
    let limit = match opts.limit {
        Some(l) => l,
        None => 10,
    };
    let r = match (page - 1).checked_mul(limit) {
        Some(offset) => store.list(offset, limit),
        None => {
            // The true offset exceeds usize::MAX, so it lies past every
            // note the store can hold: the page is empty.
            let count = store.count();
            let empty: Vec<Note> = Vec::new();
            proof {
                assert(store@.notes.len() == count <= usize::MAX);
                assert(list_offset(opts@) > usize::MAX >= store@.notes.len());
                assert(views_of(empty@) =~= page_slice(
                    store@.notes,
                    list_offset(opts@),
                    effective_limit(opts@) as int,
                ));
            }
            empty
        },
    };
    proof {
        let rv = views_of(r@);
        let s = store@.notes;
        let a = crate::store::capped(list_offset(opts@), s.len() as int);
        assert forall|i: int, j: int|
            #![trigger rv[i].id, rv[j].id]
            0 <= i < j < rv.len() implies rv[i].id < rv[j].id by {
            assert(rv[i] == s[a + i] && rv[j] == s[a + j]);
        }
    }
    r
}

/// Create a note from the request body. The store assigns the id and the
/// timestamps; `published` defaults to false and `category` to none; a
/// taken title is refused with the Conflict outcome and storage is left
/// untouched.
pub fn create_note_handler(store: &mut NotesStore, body: CreateNoteSchema) -> (r: Result<
    Note,
    CreateNoteError,
>)
    requires
        old(store).wf(),
    ensures
        final(store).wf(),
        match r {
            Ok(n) => {
                &&& !title_taken(old(store)@.notes, body@.title)
                &&& n@.id == old(store)@.next_id
                &&& n@.title == body@.title
                &&& n@.content == body@.content
                &&& n@.category == body@.category
                &&& n@.published == (match body@.published {
                    Some(b) => b,
                    None => false,
                })
                &&& n@.created_at == n@.updated_at
                &&& final(store)@.notes == old(store)@.notes.push(n@)
                &&& final(store)@.next_id == old(store)@.next_id + 1
            },
            Err(e) => {
                &&& final(store)@ == old(store)@
                &&& match e {
                    CreateNoteError::TitleExists => title_taken(old(store)@.notes, body@.title),
                    CreateNoteError::StoreFull => !title_taken(old(store)@.notes, body@.title)
                        && old(store)@.next_id == u64::MAX,
                }
            },
        },
{
    let now = now_timestamp_millis();
    store.create(body, now)
}

/// Fetch the note with the given id: exactly the fields last written under
/// it, or nothing when the id is absent.
pub fn get_note_handler(store: &NotesStore, id: u64) -> (r: Option<Note>)
    requires
        store.wf(),
    ensures
        match r {
            Some(n) => find_note(store@.notes, id) == Some(n@),
            None => find_note(store@.notes, id) is None,
        },
        r is Some <==> contains_id(store@.notes, id),
{
    store.get(id)
}

/// `n` is the note an edit of `o` under the patch `p` wrote, apart from
/// where the clock stood: every field agrees with the merge, and the write
/// stamp did not move backwards.
pub open spec fn merged_at_some_time(
    o: crate::note::NoteView,
    p: crate::schema::UpdatedNoteSchemaView,
    n: crate::note::NoteView,
) -> bool {
    &&& n == merged_note(o, p, n.updated_at)
    &&& n.updated_at >= o.updated_at
}

/// Patch the note with the given id: overwrite exactly the fields the
/// request carries, keep the rest, stamp the write with the current time.
/// A missing id is the NotFound outcome; a patched title taken by another
/// note is refused; either refusal leaves storage untouched.
pub fn edit_note_handler(store: &mut NotesStore, id: u64, body: UpdatedNoteSchema) -> (r: Result<
    Note,
    EditNoteError,
>)
    requires
        old(store).wf(),
    ensures
        final(store).wf(),
        final(store)@.next_id == old(store)@.next_id,
        match r {
            Ok(n) => {
                &&& find_note(old(store)@.notes, id) matches Some(o) && merged_at_some_time(
                    o,
                    body@,
                    n@,
                )
                &&& !(body@.title matches Some(t) && title_taken_by_other(
                    old(store)@.notes,
                    t,
                    id,
                ))
                &&& final(store)@.notes == replace_note(old(store)@.notes, id, n@)
            },
            Err(EditNoteError::NotFound) => {
                &&& !contains_id(old(store)@.notes, id)
                &&& final(store)@ == old(store)@
            },
            Err(EditNoteError::TitleExists) => {
                &&& contains_id(old(store)@.notes, id)
                &&& body@.title matches Some(t) && title_taken_by_other(old(store)@.notes, t, id)
                &&& final(store)@ == old(store)@
            },
        },
{
    let now = now_timestamp_millis();
    store.edit(id, body, now)
}

/// Delete the note with the given id, reporting how many rows that
/// touched: one when the id was present, zero — and no error — when not.
pub fn delete_note_handler(store: &mut NotesStore, id: u64) -> (r: u64)
    requires
        old(store).wf(),
    ensures
        final(store).wf(),
        final(store)@.next_id == old(store)@.next_id,
        final(store)@.notes == remove_id(old(store)@.notes, id),
        r == (if contains_id(old(store)@.notes, id) {
            1u64
        } else {
            0u64
        }),
        !contains_id(old(store)@.notes, id) ==> final(store)@ == old(store)@,
{
    store.delete(id)
}

/// The liveness probe's fixed payload.
pub struct HealthCheckResponse {
    pub status: String,
    pub message: String,
}

/// The health check: always the same success payload, touching nothing.
pub fn health_checker_handler() -> (r: HealthCheckResponse)
    ensures
        r.status@ == "success"@,
        r.message@ == "foo bar koo"@,
{
    HealthCheckResponse { status: "success".to_owned(), message: "foo bar koo".to_owned() }
}

/// The not-found message for an id: `Note with ID: <id> not found`.
pub fn not_found_message(id: u64) -> (r: String)
    ensures
        r@ == "Note with ID: "@ + dec_digits(id as nat) + " not found"@,
{
    let mut m = "Note with ID: ".to_owned();
    let digits = u64_to_string(id);
    m.append(digits.as_str());
    m.append(" not found");
    proof {
        assert(m@ =~= "Note with ID: "@ + dec_digits(id as nat) + " not found"@);
    }
    m
}

impl CreateNoteError {
    /// The HTTP status of this refusal: 400 for the taken title, 500 for
    /// the storage failure.
    pub fn status_code(&self) -> (r: u16)
        ensures
            r == (match self {
                CreateNoteError::TitleExists => 400u16,
                CreateNoteError::StoreFull => 500u16,
            }),
    {
        match self {
            CreateNoteError::TitleExists => 400,
            CreateNoteError::StoreFull => 500,
        }
    }

    /// The envelope status of this refusal: `fail` for a client-caused
    /// condition, `error` for a server-caused one.
    pub fn status_label(&self) -> (r: String)
        ensures
            match self {
                CreateNoteError::TitleExists => r@ == "fail"@,
                CreateNoteError::StoreFull => r@ == "error"@,
            },
    {
        match self {
            CreateNoteError::TitleExists => "fail".to_owned(),
            CreateNoteError::StoreFull => "error".to_owned(),
        }
    }

    /// The message of this refusal.
    pub fn message(&self) -> (r: String)
        ensures
            match self {
                CreateNoteError::TitleExists => r@ == "Note with same title exists"@,
                CreateNoteError::StoreFull => r@ == "note store is full"@,
            },
    {
        match self {
            CreateNoteError::TitleExists => "Note with same title exists".to_owned(),
            CreateNoteError::StoreFull => "note store is full".to_owned(),
        }
    }
}

impl EditNoteError {
    /// The HTTP status of this refusal: 404 for the missing id, 400 for
    /// the taken title.
    pub fn status_code(&self) -> (r: u16)
        ensures
            r == (match self {
                EditNoteError::NotFound => 404u16,
                EditNoteError::TitleExists => 400u16,
            }),
    {
        match self {
            EditNoteError::NotFound => 404,
            EditNoteError::TitleExists => 400,
        }
    }

    /// The message of this refusal, for the note id `id`.
    pub fn message(&self, id: u64) -> (r: String)
        ensures
            match self {
                EditNoteError::NotFound => r@ == "Note with ID: "@ + dec_digits(id as nat)
                    + " not found"@,
                EditNoteError::TitleExists => r@ == "Note with same title exists"@,
            },
    {
        match self {
            EditNoteError::NotFound => not_found_message(id),
            EditNoteError::TitleExists => "Note with same title exists".to_owned(),
        }
    }
}

/// The HTTP status a delete reports: 200 when it removed a row, 204 — no
/// content — when there was nothing to remove.
pub fn delete_status_code(rows_affected: u64) -> (r: u16)
    ensures
        r == (if rows_affected > 0 {
            200u16
        } else {
            204u16
        }),
{
    if rows_affected > 0 {
        200
    } else {
        204
    }
}

} // verus!
