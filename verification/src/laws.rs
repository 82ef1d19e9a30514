//! The laws of the service that relate several operations, each proved
//! once and for all over the store's model.

use vstd::prelude::*;

use crate::note::NoteView;
use crate::schema::{empty_patch, FieldPatchView, UpdatedNoteSchemaView};
use crate::store::{
    contains_id, find_note, ids_sorted, lemma_find_note_at, lemma_remove_id_absent, merged_note,
    remove_id, replace_note, store_wf, StoreView,
};

verus! {

/// Law: a note a create wrote is found again by its id, unchanged — so a
/// create followed by a get returns exactly the fields written. `n` is the
/// note the create appended; its id is the one the store assigned.
pub proof fn lemma_create_then_get(s: StoreView, n: NoteView)
    requires
        store_wf(s),
        n.id == s.next_id,
    ensures
        find_note(s.notes.push(n), n.id) == Some(n),
{
    let notes2 = s.notes.push(n);
    assert forall|i: int, j: int|
        #![trigger notes2[i].id, notes2[j].id]
        0 <= i < j < notes2.len() implies notes2[i].id < notes2[j].id by {
        if j < s.notes.len() {
            assert(notes2[i] == s.notes[i] && notes2[j] == s.notes[j]);
        } else {
            assert(notes2[i] == s.notes[i] && notes2[j] == n);
            assert(s.notes[i].id < s.next_id);
        }
    }
    lemma_find_note_at(notes2, notes2.len() - 1);
}

/// Law: the note an edit wrote is found again by its id, unchanged — a
/// get after a write returns exactly the fields last written. `n` is the
/// note the edit put in place of the one with id `id`.
pub proof fn lemma_edit_then_get(notes: Seq<NoteView>, id: u64, n: NoteView)
    requires
        ids_sorted(notes),
        contains_id(notes, id),
        n.id == id,
    ensures
        find_note(replace_note(notes, id, n), id) == Some(n),
{
    let notes2 = replace_note(notes, id, n);
    assert forall|k: int| 0 <= k < notes2.len() implies (#[trigger] notes2[k]).id
        == notes[k].id by {
        if notes[k].id == id {
            assert(notes2[k] == n);
        } else {
            assert(notes2[k] == notes[k]);
        }
    }
    assert(ids_sorted(notes2));
    let i = choose|i: int| 0 <= i < notes.len() && (#[trigger] notes[i]).id == id;
    assert(notes2[i] == n);
    lemma_find_note_at(notes2, i);
}

/// Law: an edit with an empty body leaves every field unchanged except
/// `updated_at`, which strictly increases whenever the clock reads later
/// than the stored stamp — the only case a clock can promise.
pub proof fn lemma_edit_empty_patch(o: NoteView, now: i64)
    requires
        now > o.updated_at,
    ensures
        ({
            let n = merged_note(o, empty_patch(), now);
            &&& n.id == o.id
            &&& n.title == o.title
            &&& n.content == o.content
            &&& n.category == o.category
            &&& n.published == o.published
            &&& n.created_at == o.created_at
            &&& n.updated_at == now
            &&& n.updated_at > o.updated_at
        }),
{
}

/// The patch that carries only a new title.
pub open spec fn title_only_patch(t: Seq<char>) -> UpdatedNoteSchemaView {
    UpdatedNoteSchemaView {
        title: Some(t),
        content: None,
        category: FieldPatchView::Keep,
        published: FieldPatchView::Keep,
    }
}

/// Law: an edit whose body carries only a title changes the title to it
/// and leaves `content`, `category` and `published` unchanged.
pub proof fn lemma_edit_title_only(o: NoteView, t: Seq<char>, now: i64)
    ensures
        ({
            let n = merged_note(o, title_only_patch(t), now);
            &&& n.id == o.id
            &&& n.title == t
            &&& n.content == o.content
            &&& n.category == o.category
            &&& n.published == o.published
            &&& n.created_at == o.created_at
        }),
{
}

/// Law: after a delete of an id, a get of that id finds nothing.
pub proof fn lemma_delete_then_get(notes: Seq<NoteView>, id: u64)
    ensures
        find_note(remove_id(notes, id), id) is None,
{
    lemma_remove_id_absent(notes, id);
}

} // verus!
