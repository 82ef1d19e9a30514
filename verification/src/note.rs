//! The note record: the one entity the service stores.

use vstd::prelude::*;

verus! {

/// Mathematical model of a stored note: every text field as a sequence of
/// characters, the optional category as an optional sequence.
pub ghost struct NoteView {
    pub id: u64,
    pub title: Seq<char>,
    pub content: Seq<char>,
    pub category: Option<Seq<char>>,
    pub published: bool,
    pub created_at: i64,
    pub updated_at: i64,
}

/// A stored note. `id` is assigned by the store and never changes;
/// `category` is optional text; `published` defaults to false at creation;
/// the two timestamps satisfy `created_at <= updated_at`.
#[derive(Debug)]
pub struct Note {
    pub id: u64,
    pub title: String,
    pub content: String,
    pub category: Option<String>,
    pub published: bool,
    pub created_at: i64,
    pub updated_at: i64,
}

impl View for Note {
    type V = NoteView;

    open spec fn view(&self) -> NoteView {
        NoteView {
            id: self.id,
            title: self.title@,
            content: self.content@,
            category: match self.category {
                Some(c) => Some(c@),
                None => None,
            },
            published: self.published,
            created_at: self.created_at,
            updated_at: self.updated_at,
        }
    }
}

impl Note {
    /// An owned copy whose model is the same as this note's.
    pub fn duplicate(&self) -> (r: Note)
        ensures
            r@ == self@,
    {
        Note {
            id: self.id,
            title: self.title.clone(),
            content: self.content.clone(),
            category: match &self.category {
                Some(c) => Some(c.clone()),
                None => None,
            },
            published: self.published,
            created_at: self.created_at,
            updated_at: self.updated_at,
        }
    }
}

} // verus!
