//! Request schemas: the values the handlers take after the HTTP layer has
//! parsed query string, path and body into plain data.

use vstd::prelude::*;

verus! {

/// Query options of the list endpoint: both fields optional, `page`
/// defaulting to 1 and `limit` to 10.
#[derive(Debug)]
pub struct FilterOptions {
    pub page: Option<usize>,
    pub limit: Option<usize>,
}

/// Model of `FilterOptions`.
pub ghost struct FilterOptionsView {
    pub page: Option<usize>,
    pub limit: Option<usize>,
}

impl View for FilterOptions {
    type V = FilterOptionsView;

    open spec fn view(&self) -> FilterOptionsView {
        FilterOptionsView { page: self.page, limit: self.limit }
    }
}

/// A raw path parameter, as the HTTP layer hands it over.
#[derive(Debug)]
pub struct ParamOptions {
    pub id: String,
}

/// Body of the create endpoint: `title` and `content` required, `category`
/// optional, `published` optional and false when absent.
#[derive(Debug)]
pub struct CreateNoteSchema {
    pub title: String,
    pub content: String,
    pub category: Option<String>,
    pub published: Option<bool>,
}

/// Model of `CreateNoteSchema`.
pub ghost struct CreateNoteSchemaView {
    pub title: Seq<char>,
    pub content: Seq<char>,
    pub category: Option<Seq<char>>,
    pub published: Option<bool>,
}

impl View for CreateNoteSchema {
    type V = CreateNoteSchemaView;

    open spec fn view(&self) -> CreateNoteSchemaView {
        CreateNoteSchemaView {
            title: self.title@,
            content: self.content@,
            category: match self.category {
                Some(c) => Some(c@),
                None => None,
            },
            published: self.published,
        }
    }
}

/// A three-way patch for one nullable field of a note: leave it as it is,
/// clear it back to its default, or set it to a new value.
#[derive(Debug)]
pub enum FieldPatch<T> {
    Keep,
    Clear,
    Assign(T),
}

/// Model of a `FieldPatch`.
pub ghost enum FieldPatchView<T> {
    Keep,
    Clear,
    Assign(T),
}

impl View for FieldPatch<String> {
    type V = FieldPatchView<Seq<char>>;

    open spec fn view(&self) -> FieldPatchView<Seq<char>> {
        match self {
            FieldPatch::Keep => FieldPatchView::Keep,
            FieldPatch::Clear => FieldPatchView::Clear,
            FieldPatch::Assign(v) => FieldPatchView::Assign(v@),
        }
    }
}

impl View for FieldPatch<bool> {
    type V = FieldPatchView<bool>;

    open spec fn view(&self) -> FieldPatchView<bool> {
        match self {
            FieldPatch::Keep => FieldPatchView::Keep,
            FieldPatch::Clear => FieldPatchView::Clear,
            FieldPatch::Assign(v) => FieldPatchView::Assign(*v),
        }
    }
}

/// Body of the edit endpoint: every field optional. `title` and `content`
/// are required columns, so their patch is either a new value or nothing;
/// `category` and `published` are nullable, so their patch is three-way.
#[derive(Debug)]
pub struct UpdatedNoteSchema {
    pub title: Option<String>,
    pub content: Option<String>,
    pub category: FieldPatch<String>,
    pub published: FieldPatch<bool>,
}

/// Model of `UpdatedNoteSchema`.
pub ghost struct UpdatedNoteSchemaView {
    pub title: Option<Seq<char>>,
    pub content: Option<Seq<char>>,
    pub category: FieldPatchView<Seq<char>>,
    pub published: FieldPatchView<bool>,
}

impl View for UpdatedNoteSchema {
    type V = UpdatedNoteSchemaView;

    open spec fn view(&self) -> UpdatedNoteSchemaView {
        UpdatedNoteSchemaView {
            title: match self.title {
                Some(t) => Some(t@),
                None => None,
            },
            content: match self.content {
                Some(c) => Some(c@),
                None => None,
            },
            category: self.category@,
            published: self.published@,
        }
    }
}

impl UpdatedNoteSchema {
    /// The patch that changes nothing: every field left as it is.
    pub fn empty() -> (r: UpdatedNoteSchema)
        ensures
            r@ == empty_patch(),
    {
        UpdatedNoteSchema {
            title: None,
            content: None,
            category: FieldPatch::Keep,
            published: FieldPatch::Keep,
        }
    }
}

/// Model of the patch that changes nothing.
pub open spec fn empty_patch() -> UpdatedNoteSchemaView {
    UpdatedNoteSchemaView {
        title: None,
        content: None,
        category: FieldPatchView::Keep,
        published: FieldPatchView::Keep,
    }
}

} // verus!
