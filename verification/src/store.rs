//! The notes store: the one table of the service, held in memory, with its
//! invariant proved — ids strictly ascending (hence unique), titles unique,
//! `created_at <= updated_at` on every note.

use vstd::prelude::*;

use crate::note::{Note, NoteView};
use crate::schema::{CreateNoteSchema, FieldPatch, FieldPatchView, UpdatedNoteSchema, UpdatedNoteSchemaView};

verus! {

/// Model of the store: the notes in storage order and the id the next
/// created note will get.
pub ghost struct StoreView {
    pub notes: Seq<NoteView>,
    pub next_id: u64,
}

/// The models of a sequence of stored notes.
pub open spec fn views_of(s: Seq<Note>) -> Seq<NoteView> {
    s.map_values(|n: Note| n@)
}

/// Some note in `notes` has the id `id`.
pub open spec fn contains_id(notes: Seq<NoteView>, id: u64) -> bool {
    exists|i: int| 0 <= i < notes.len() && (#[trigger] notes[i]).id == id
}

/// The note in `notes` with the id `id`, if there is one. Under
/// `ids_sorted` at most one note can match, so the choice is determined.
pub open spec fn find_note(notes: Seq<NoteView>, id: u64) -> Option<NoteView> {
    if contains_id(notes, id) {
        Some(notes[choose|i: int| 0 <= i < notes.len() && (#[trigger] notes[i]).id == id])
    } else {
        None
    }
}

/// Some note in `notes` carries the title `title`.
pub open spec fn title_taken(notes: Seq<NoteView>, title: Seq<char>) -> bool {
    exists|i: int| 0 <= i < notes.len() && (#[trigger] notes[i]).title == title
}

/// Some note other than the one with id `id` carries the title `title`.
pub open spec fn title_taken_by_other(notes: Seq<NoteView>, title: Seq<char>, id: u64) -> bool {
    exists|i: int|
        0 <= i < notes.len() && (#[trigger] notes[i]).title == title && notes[i].id != id
}

/// Ids strictly ascend in storage order; in particular they are unique.
pub open spec fn ids_sorted(notes: Seq<NoteView>) -> bool {
    forall|i: int, j: int|
        #![trigger notes[i].id, notes[j].id]
        0 <= i < j < notes.len() ==> notes[i].id < notes[j].id
}

/// Every id lies below the id the store will assign next.
pub open spec fn ids_below(notes: Seq<NoteView>, next_id: u64) -> bool {
    forall|i: int| 0 <= i < notes.len() ==> (#[trigger] notes[i]).id < next_id
}

/// No two notes carry the same title.
pub open spec fn titles_unique(notes: Seq<NoteView>) -> bool {
    forall|i: int, j: int|
        #![trigger notes[i].title, notes[j].title]
        0 <= i < j < notes.len() ==> notes[i].title != notes[j].title
}

/// Every note was updated no earlier than it was created.
pub open spec fn stamps_ordered(notes: Seq<NoteView>) -> bool {
    forall|i: int|
        0 <= i < notes.len() ==> (#[trigger] notes[i]).created_at <= notes[i].updated_at
}

/// The store's invariant.
pub open spec fn store_wf(s: StoreView) -> bool {
    &&& ids_sorted(s.notes)
    &&& ids_below(s.notes, s.next_id)
    &&& titles_unique(s.notes)
    &&& stamps_ordered(s.notes)
}

/// With ids unique, the note found for `notes[i].id` is `notes[i]` itself.
pub proof fn lemma_find_note_at(notes: Seq<NoteView>, i: int)
    requires
        ids_sorted(notes),
        0 <= i < notes.len(),
    ensures
        find_note(notes, notes[i].id) == Some(notes[i]),
{
    assert(contains_id(notes, notes[i].id));
    let k = choose|k: int| 0 <= k < notes.len() && (#[trigger] notes[k]).id == notes[i].id;
    if k < i {
        assert(notes[k].id < notes[i].id);
    } else if i < k {
        assert(notes[i].id < notes[k].id);
    }
}

/// The later of a note's previous `updated_at` and the clock reading `now`:
/// the stamp a write leaves behind. Taking the maximum keeps `updated_at`
/// from moving backwards when the clock does.
pub open spec fn monotone_stamp(previous: i64, now: i64) -> i64 {
    if now > previous {
        now
    } else {
        previous
    }
}

/// The note an edit writes: each field of the patch that is present
/// overwrites the stored value, each absent one keeps it; clearing a
/// nullable field returns it to its default (no category, not published);
/// `id` and `created_at` never change; `updated_at` moves to the write
/// stamp.
pub open spec fn merged_note(o: NoteView, p: UpdatedNoteSchemaView, now: i64) -> NoteView {
    NoteView {
        id: o.id,
        title: match p.title {
            Some(t) => t,
            None => o.title,
        },
        content: match p.content {
            Some(c) => c,
            None => o.content,
        },
        category: match p.category {
            FieldPatchView::Keep => o.category,
            FieldPatchView::Clear => None,
            FieldPatchView::Assign(v) => Some(v),
        },
        published: match p.published {
            FieldPatchView::Keep => o.published,
            FieldPatchView::Clear => false,
            FieldPatchView::Assign(b) => b,
        },
        created_at: o.created_at,
        updated_at: monotone_stamp(o.updated_at, now),
    }
}

/// `notes` with the note whose id is `id` replaced by `n`, every other note
/// untouched.
pub open spec fn replace_note(notes: Seq<NoteView>, id: u64, n: NoteView) -> Seq<NoteView> {
    notes.map_values(|m: NoteView| if m.id == id { n } else { m })
}

/// `notes` without the note whose id is `id`: every other note kept, in
/// its order.
pub open spec fn remove_id(notes: Seq<NoteView>, id: u64) -> Seq<NoteView>
    decreases notes.len(),
{
    if notes.len() == 0 {
        Seq::empty()
    } else if notes.last().id == id {
        remove_id(notes.drop_last(), id)
    } else {
        remove_id(notes.drop_last(), id).push(notes.last())
    }
}

/// When no note has the id, removing it changes nothing.
pub proof fn lemma_remove_id_keeps_all(notes: Seq<NoteView>, id: u64)
    requires
        forall|k: int| 0 <= k < notes.len() ==> (#[trigger] notes[k]).id != id,
    ensures
        remove_id(notes, id) == notes,
    decreases notes.len(),
{
    if notes.len() == 0 {
        assert(remove_id(notes, id) =~= notes);
    } else {
        lemma_remove_id_keeps_all(notes.drop_last(), id);
        assert(notes.last().id != id);
        assert(remove_id(notes, id) =~= notes);
    }
}

/// When exactly the note at `i` has the id, removing the id removes that
/// one note and keeps the rest in order.
pub proof fn lemma_remove_id_removes(notes: Seq<NoteView>, id: u64, i: int)
    requires
        0 <= i < notes.len(),
        notes[i].id == id,
        forall|k: int| 0 <= k < notes.len() && k != i ==> (#[trigger] notes[k]).id != id,
    ensures
        remove_id(notes, id) == notes.remove(i),
    decreases notes.len(),
{
    if i == notes.len() - 1 {
        lemma_remove_id_keeps_all(notes.drop_last(), id);
        assert(remove_id(notes, id) =~= notes.remove(i));
    } else {
        lemma_remove_id_removes(notes.drop_last(), id, i);
        assert(notes.last().id != id);
        assert(remove_id(notes, id) =~= notes.remove(i));
    }
}

/// After a removal by id, no note has that id any more.
pub proof fn lemma_remove_id_absent(notes: Seq<NoteView>, id: u64)
    ensures
        !contains_id(remove_id(notes, id), id),
    decreases notes.len(),
{
    if notes.len() == 0 {
    } else {
        lemma_remove_id_absent(notes.drop_last(), id);
        if notes.last().id != id {
            let sub = remove_id(notes.drop_last(), id);
            assert forall|k: int|
                0 <= k < sub.push(notes.last()).len() implies (#[trigger] sub.push(
                notes.last(),
            )[k]).id != id by {
                if k < sub.len() {
                    assert(sub.push(notes.last())[k] == sub[k]);
                    assert(!contains_id(sub, id));
                }
            }
        }
    }
}

/// `x`, capped at `len`.
pub open spec fn capped(x: int, len: int) -> int {
    if x < len {
        x
    } else {
        len
    }
}

/// The page of `notes` that starts at `offset` and holds at most `limit`
/// notes, in storage order; past the end it is empty.
pub open spec fn page_slice(notes: Seq<NoteView>, offset: int, limit: int) -> Seq<NoteView> {
    notes.subrange(capped(offset, notes.len() as int), capped(offset + limit, notes.len() as int))
}

/// Why a create was refused: the title is already taken, or the store has
/// run out of ids to assign.
#[derive(Debug)]
pub enum CreateNoteError {
    TitleExists,
    StoreFull,
}

/// Why an edit was refused: no note has the id, or the patched title is
/// already taken by another note.
#[derive(Debug)]
pub enum EditNoteError {
    NotFound,
    TitleExists,
}

/// The in-memory notes table.
pub struct NotesStore {
    notes: Vec<Note>,
    next_id: u64,
}

impl View for NotesStore {
    type V = StoreView;

    closed spec fn view(&self) -> StoreView {
        StoreView { notes: views_of(self.notes@), next_id: self.next_id }
    }
}

impl NotesStore {
    /// The store's invariant, as a predicate on the store itself.
    pub open spec fn wf(&self) -> bool {
        store_wf(self@)
    }

    /// An empty store; ids start at 1.
    pub fn new() -> (s: NotesStore)
        ensures
            s.wf(),
            s@.notes == Seq::<NoteView>::empty(),
            s@.next_id == 1,
    {
        let s = NotesStore { notes: Vec::new(), next_id: 1 };
        proof {
            assert(s@.notes =~= Seq::<NoteView>::empty());
        }
        s
    }

    /// How many notes the store holds.
    pub fn count(&self) -> (r: usize)
        ensures
            r == self@.notes.len(),
    {
        self.notes.len()
    }

    /// The position of the note with id `id`, if the store holds one.
    fn find_index(&self, id: u64) -> (r: Option<usize>)
        requires
            self.wf(),
        ensures
            match r {
                Some(i) => {
                    &&& i < self@.notes.len()
                    &&& self@.notes[i as int].id == id
                    &&& find_note(self@.notes, id) == Some(self@.notes[i as int])
                },
                None => !contains_id(self@.notes, id),
            },
    {
        let n = self.notes.len();
        let mut i: usize = 0;
        while i < n
            invariant
                self.wf(),
                n == self@.notes.len(),
                i <= n,
                forall|k: int| 0 <= k < i ==> (#[trigger] self@.notes[k]).id != id,
            decreases n - i,
        {
            if self.notes[i].id == id {
                proof {
                    lemma_find_note_at(self@.notes, i as int);
                }
                return Some(i);
            }
            i += 1;
        }
        None
    }

    /// Whether some stored note carries the title `title`.
    fn title_exists(&self, title: &String) -> (r: bool)
        ensures
            r == title_taken(self@.notes, title@),
    {
        let n = self.notes.len();
        let mut i: usize = 0;
        while i < n
            invariant
                n == self@.notes.len(),
                i <= n,
                forall|k: int| 0 <= k < i ==> (#[trigger] self@.notes[k]).title != title@,
            decreases n - i,
        {
            if self.notes[i].title == *title {
                assert(self@.notes[i as int].title == title@);
                return true;
            }
            i += 1;
        }
        false
    }

    /// Whether some stored note other than the one with id `id` carries the
    /// title `title`.
    fn title_exists_elsewhere(&self, title: &String, id: u64) -> (r: bool)
        ensures
            r == title_taken_by_other(self@.notes, title@, id),
    {
        let n = self.notes.len();
        let mut i: usize = 0;
        while i < n
            invariant
                n == self@.notes.len(),
                i <= n,
                forall|k: int|
                    0 <= k < i ==> !((#[trigger] self@.notes[k]).title == title@
                        && self@.notes[k].id != id),
            decreases n - i,
        {
            if self.notes[i].id != id && self.notes[i].title == *title {
                assert(self@.notes[i as int].title == title@ && self@.notes[i as int].id != id);
                return true;
            }
            i += 1;
        }
        false
    }

    /// Insert a new note. The store assigns the id and both timestamps from
    /// `now`; `published` defaults to false when absent; a taken title is
    /// refused without touching storage; a store whose id space is spent
    /// refuses likewise.
    pub fn create(&mut self, body: CreateNoteSchema, now: i64) -> (r: Result<
        Note,
        CreateNoteError,
    >)
        requires
            old(self).wf(),
        ensures
            final(self).wf(),
            match r {
                Ok(n) => {
                    &&& !title_taken(old(self)@.notes, body@.title)
                    &&& old(self)@.next_id < u64::MAX
                    &&& n@ == (NoteView {
                        id: old(self)@.next_id,
                        title: body@.title,
                        content: body@.content,
                        category: body@.category,
                        published: match body@.published {
                            Some(b) => b,
                            None => false,
                        },
                        created_at: now,
                        updated_at: now,
                    })
                    &&& final(self)@.notes == old(self)@.notes.push(n@)
                    &&& final(self)@.next_id == old(self)@.next_id + 1
                },
                Err(e) => {
                    &&& final(self)@ == old(self)@
                    &&& match e {
                        CreateNoteError::TitleExists => title_taken(old(self)@.notes, body@.title),
                        CreateNoteError::StoreFull => !title_taken(old(self)@.notes, body@.title)
                            && old(self)@.next_id == u64::MAX,
                    }
                },
            },
    {
        if self.title_exists(&body.title) {
            return Err(CreateNoteError::TitleExists);
        }
        if self.next_id == u64::MAX {
            return Err(CreateNoteError::StoreFull);
        }
        let note = Note {
            id: self.next_id,
            title: body.title,
            content: body.content,
            category: body.category,
            published: match body.published {
                Some(b) => b,
                None => false,
            },
            created_at: now,
            updated_at: now,
        };
        let copy = note.duplicate();
        let ghost before = self@.notes;
        self.notes.push(note);
        self.next_id = self.next_id + 1;
        proof {
            assert(self@.notes =~= before.push(copy@));
        }
        Ok(copy)
    }

    /// Patch the note with id `id`: overwrite exactly the fields the patch
    /// carries, keep the rest, and move `updated_at` to the write stamp. A
    /// missing id or a patched title already taken by another note is
    /// refused without touching storage.
    pub fn edit(&mut self, id: u64, body: UpdatedNoteSchema, now: i64) -> (r: Result<
        Note,
        EditNoteError,
    >)
        requires
            old(self).wf(),
        ensures
            final(self).wf(),
            final(self)@.next_id == old(self)@.next_id,
            match r {
                Ok(n) => {
                    &&& find_note(old(self)@.notes, id) matches Some(o) && n@ == merged_note(
                        o,
                        body@,
                        now,
                    )
                    &&& !(body@.title matches Some(t) && title_taken_by_other(
                        old(self)@.notes,
                        t,
                        id,
                    ))
                    &&& final(self)@.notes == replace_note(old(self)@.notes, id, n@)
                },
                Err(EditNoteError::NotFound) => {
                    &&& !contains_id(old(self)@.notes, id)
                    &&& final(self)@ == old(self)@
                },
                Err(EditNoteError::TitleExists) => {
                    &&& contains_id(old(self)@.notes, id)
                    &&& body@.title matches Some(t) && title_taken_by_other(
                        old(self)@.notes,
                        t,
                        id,
                    )
                    &&& final(self)@ == old(self)@
                },
            },
    {
        let idx = match self.find_index(id) {
            Some(i) => i,
            None => {
                return Err(EditNoteError::NotFound);
            },
        };
        if let Some(t) = &body.title {
            if self.title_exists_elsewhere(t, id) {
                return Err(EditNoteError::TitleExists);
            }
        }
        let ghost before = self@.notes;
        let old_note = &self.notes[idx];
        let merged = Note {
            id: old_note.id,
            title: match body.title {
                Some(t) => t,
                None => old_note.title.clone(),
            },
            content: match body.content {
                Some(c) => c,
                None => old_note.content.clone(),
            },
            category: match body.category {
                FieldPatch::Keep => match &old_note.category {
                    Some(c) => Some(c.clone()),
                    None => None,
                },
                FieldPatch::Clear => None,
                FieldPatch::Assign(v) => Some(v),
            },
            published: match body.published {
                FieldPatch::Keep => old_note.published,
                FieldPatch::Clear => false,
                FieldPatch::Assign(b) => b,
            },
            created_at: old_note.created_at,
            updated_at: if now > old_note.updated_at {
                now
            } else {
                old_note.updated_at
            },
        };
        let copy = merged.duplicate();
        self.notes.set(idx, merged);
        proof {
            assert forall|k: int| 0 <= k < before.len() && k != idx implies before[k].id
                != id by {
                if before[k].id == id {
                    assert(before[k].id == before[idx as int].id);
                }
            }
            assert(self@.notes =~= replace_note(before, id, copy@));
            assert forall|i: int, j: int|
                0 <= i < j < self@.notes.len() implies #[trigger] self@.notes[i].title
                != #[trigger] self@.notes[j].title by {
                if i != idx && j != idx {
                    assert(self@.notes[i] == before[i] && self@.notes[j] == before[j]);
                }
            }
        }
        Ok(copy)
    }

    /// The page of at most `limit` notes that starts `offset` notes into
    /// the store, in storage order — ascending by id.
    pub fn list(&self, offset: usize, limit: usize) -> (r: Vec<Note>)
        requires
            self.wf(),
        ensures
            views_of(r@) == page_slice(self@.notes, offset as int, limit as int),
            r@.len() <= limit,
    {
        let n = self.notes.len();
        let start = if offset < n {
            offset
        } else {
            n
        };
        let end = if limit < n - start {
            start + limit
        } else {
            n
        };
        let mut r: Vec<Note> = Vec::new();
        let mut i: usize = start;
        proof {
            assert(views_of(r@) =~= self@.notes.subrange(start as int, start as int));
        }
        while i < end
            invariant
                self.wf(),
                n == self@.notes.len(),
                start <= i <= end <= n,
                end - start <= limit,
                views_of(r@) =~= self@.notes.subrange(start as int, i as int),
            decreases end - i,
        {
            let ghost prev = r@;
            let note = self.notes[i].duplicate();
            r.push(note);
            proof {
                assert(r@ == prev.push(note));
                assert(views_of(prev).len() == prev.len());
                assert(views_of(prev).len() == i - start);
                assert forall|k: int| 0 <= k < r@.len() implies #[trigger] views_of(r@)[k]
                    == self@.notes.subrange(start as int, i as int + 1)[k] by {
                    assert(views_of(r@)[k] == r@[k]@);
                    assert(self@.notes.subrange(start as int, i as int + 1)[k] == self@.notes[start
                        + k]);
                    if k < prev.len() {
                        assert(r@[k] == prev[k]);
                        assert(views_of(prev)[k] == self@.notes.subrange(start as int, i as int)[k]);
                        assert(self@.notes.subrange(start as int, i as int)[k] == self@.notes[start
                            + k]);
                    } else {
                        assert(r@[k] == note);
                        assert(note@ == self@.notes[i as int]);
                        assert(start + k == i);
                    }
                }
                assert(views_of(r@) =~= self@.notes.subrange(start as int, i as int + 1));
            }
            i += 1;
        }
        proof {
            assert(views_of(r@) =~= page_slice(self@.notes, offset as int, limit as int));
        }
        r
    }

    /// Remove the note with id `id` outright, reporting how many rows that
    /// touched: one when the id was present, zero — and no other change —
    /// when it was not. A missing id is not an error.
    pub fn delete(&mut self, id: u64) -> (r: u64)
        requires
            old(self).wf(),
        ensures
            final(self).wf(),
            final(self)@.next_id == old(self)@.next_id,
            final(self)@.notes == remove_id(old(self)@.notes, id),
            r == (if contains_id(old(self)@.notes, id) {
                1u64
            } else {
                0u64
            }),
            !contains_id(old(self)@.notes, id) ==> final(self)@ == old(self)@,
    {
        let idx = match self.find_index(id) {
            Some(i) => i,
            None => {
                proof {
                    lemma_remove_id_keeps_all(self@.notes, id);
                }
                return 0;
            },
        };
        let ghost before = self@.notes;
        self.notes.remove(idx);
        proof {
            assert(self@.notes =~= before.remove(idx as int));
            assert forall|k: int|
                0 <= k < before.len() && k != idx implies (#[trigger] before[k]).id != id by {
                if before[k].id == id {
                    assert(before[k].id == before[idx as int].id);
                }
            }
            lemma_remove_id_removes(before, id, idx as int);
        }
        1
    }

    /// Look one note up by id: exactly the note last written under that id,
    /// or nothing when the id is absent.
    pub fn get(&self, id: u64) -> (r: Option<Note>)
        requires
            self.wf(),
        ensures
            match r {
                Some(n) => find_note(self@.notes, id) == Some(n@),
                None => find_note(self@.notes, id) is None,
            },
            r is Some <==> contains_id(self@.notes, id),
    {
        match self.find_index(id) {
            Some(i) => Some(self.notes[i].duplicate()),
            None => None,
        }
    }
}

} // verus!
