use notes_service::handlers::{
    create_note_handler, delete_note_handler, delete_status_code, edit_note_handler, filter_valid,
    get_note_handler, health_checker_handler, not_found_message, note_list_handler,
};
use notes_service::schema::{CreateNoteSchema, FieldPatch, FilterOptions, UpdatedNoteSchema};
use notes_service::store::{CreateNoteError, EditNoteError, NotesStore};

fn create_body(title: &str, content: &str) -> CreateNoteSchema {
    CreateNoteSchema {
        title: title.to_owned(),
        content: content.to_owned(),
        category: None,
        published: None,
    }
}

#[test]
fn health_check_payload_is_fixed() {
    let r = health_checker_handler();
    assert_eq!(r.status, "success");
    assert_eq!(r.message, "foo bar koo");
}

#[test]
fn create_fills_defaults() {
    let mut store = NotesStore::new();
    let n = create_note_handler(&mut store, create_body("t1", "c1")).unwrap();
    assert_eq!(n.title, "t1");
    assert_eq!(n.content, "c1");
    assert_eq!(n.category, None);
    assert!(!n.published);
    assert_eq!(n.created_at, n.updated_at);
    assert_eq!(n.id, 1);
}

#[test]
fn create_keeps_explicit_fields() {
    let mut store = NotesStore::new();
    let body = CreateNoteSchema {
        title: "t".to_owned(),
        content: "c".to_owned(),
        category: Some("work".to_owned()),
        published: Some(true),
    };
    let n = create_note_handler(&mut store, body).unwrap();
    assert_eq!(n.category.as_deref(), Some("work"));
    assert!(n.published);
}

#[test]
fn duplicate_title_is_conflict_and_mutates_nothing() {
    let mut store = NotesStore::new();
    create_note_handler(&mut store, create_body("t1", "c1")).unwrap();
    let e = create_note_handler(&mut store, create_body("t1", "other")).unwrap_err();
    assert!(matches!(e, CreateNoteError::TitleExists));
    assert_eq!(e.status_code(), 400);
    assert_eq!(e.status_label(), "fail");
    assert_eq!(e.message(), "Note with same title exists");
    assert!(e.message().contains("same title"));
    let all = note_list_handler(&store, &FilterOptions { page: None, limit: None });
    assert_eq!(all.len(), 1);
    assert_eq!(all[0].content, "c1");
}

#[test]
fn create_then_get_round_trips() {
    let mut store = NotesStore::new();
    let body = CreateNoteSchema {
        title: "a title".to_owned(),
        content: "a content".to_owned(),
        category: Some("cat".to_owned()),
        published: Some(true),
    };
    let n = create_note_handler(&mut store, body).unwrap();
    let g = get_note_handler(&store, n.id).unwrap();
    assert_eq!(g.title, n.title);
    assert_eq!(g.content, n.content);
    assert_eq!(g.category, n.category);
    assert_eq!(g.published, n.published);
    assert_eq!(g.created_at, n.created_at);
    assert_eq!(g.updated_at, n.updated_at);
}

#[test]
fn get_of_missing_id_finds_nothing() {
    let store = NotesStore::new();
    assert!(get_note_handler(&store, 42).is_none());
    assert_eq!(not_found_message(42), "Note with ID: 42 not found");
}

#[test]
fn edit_with_empty_body_only_moves_updated_at() {
    let mut store = NotesStore::new();
    let n = store.create(create_body("t", "c"), 100).unwrap();
    let m = store.edit(n.id, UpdatedNoteSchema::empty(), 200).unwrap();
    assert_eq!(m.title, "t");
    assert_eq!(m.content, "c");
    assert_eq!(m.category, None);
    assert!(!m.published);
    assert_eq!(m.created_at, 100);
    assert_eq!(m.updated_at, 200);
    assert!(m.updated_at > n.updated_at);
}

#[test]
fn edit_with_title_only_changes_only_title() {
    let mut store = NotesStore::new();
    let body = CreateNoteSchema {
        title: "t".to_owned(),
        content: "c".to_owned(),
        category: Some("k".to_owned()),
        published: Some(true),
    };
    let n = store.create(body, 100).unwrap();
    let patch = UpdatedNoteSchema {
        title: Some("X".to_owned()),
        content: None,
        category: FieldPatch::Keep,
        published: FieldPatch::Keep,
    };
    let m = store.edit(n.id, patch, 150).unwrap();
    assert_eq!(m.title, "X");
    assert_eq!(m.content, "c");
    assert_eq!(m.category.as_deref(), Some("k"));
    assert!(m.published);
    assert_eq!(m.created_at, 100);
    assert_eq!(m.updated_at, 150);
    let g = store.get(n.id).unwrap();
    assert_eq!(g.title, "X");
    assert_eq!(g.updated_at, 150);
}

#[test]
fn edit_can_clear_nullable_fields() {
    let mut store = NotesStore::new();
    let body = CreateNoteSchema {
        title: "t".to_owned(),
        content: "c".to_owned(),
        category: Some("k".to_owned()),
        published: Some(true),
    };
    let n = store.create(body, 100).unwrap();
    let patch = UpdatedNoteSchema {
        title: None,
        content: None,
        category: FieldPatch::Clear,
        published: FieldPatch::Clear,
    };
    let m = store.edit(n.id, patch, 150).unwrap();
    assert_eq!(m.category, None);
    assert!(!m.published);
}

#[test]
fn edit_of_missing_id_is_not_found() {
    let mut store = NotesStore::new();
    let e = edit_note_handler(&mut store, 7, UpdatedNoteSchema::empty()).unwrap_err();
    assert!(matches!(e, EditNoteError::NotFound));
    assert_eq!(e.status_code(), 404);
    assert_eq!(e.message(7), "Note with ID: 7 not found");
}

#[test]
fn edit_to_a_taken_title_is_refused() {
    let mut store = NotesStore::new();
    store.create(create_body("t1", "c1"), 100).unwrap();
    let n2 = store.create(create_body("t2", "c2"), 100).unwrap();
    let patch = UpdatedNoteSchema {
        title: Some("t1".to_owned()),
        content: None,
        category: FieldPatch::Keep,
        published: FieldPatch::Keep,
    };
    let e = store.edit(n2.id, patch, 200).unwrap_err();
    assert!(matches!(e, EditNoteError::TitleExists));
    assert_eq!(e.status_code(), 400);
    let kept = get_note_handler(&store, n2.id).unwrap();
    assert_eq!(kept.title, "t2");
    assert_eq!(kept.updated_at, 100);
}

#[test]
fn edit_keeping_own_title_is_allowed() {
    let mut store = NotesStore::new();
    let n = store.create(create_body("t1", "c1"), 100).unwrap();
    let patch = UpdatedNoteSchema {
        title: Some("t1".to_owned()),
        content: Some("c2".to_owned()),
        category: FieldPatch::Keep,
        published: FieldPatch::Keep,
    };
    let m = store.edit(n.id, patch, 200).unwrap();
    assert_eq!(m.title, "t1");
    assert_eq!(m.content, "c2");
}

#[test]
fn edit_updated_at_never_moves_backwards() {
    let mut store = NotesStore::new();
    let n = store.create(create_body("t", "c"), 100).unwrap();
    let m = store.edit(n.id, UpdatedNoteSchema::empty(), 50).unwrap();
    assert_eq!(m.updated_at, 100);
    assert!(m.updated_at >= m.created_at);
}

#[test]
fn delete_then_get_is_not_found() {
    let mut store = NotesStore::new();
    let n = create_note_handler(&mut store, create_body("t", "c")).unwrap();
    let rows = delete_note_handler(&mut store, n.id);
    assert_eq!(rows, 1);
    assert_eq!(delete_status_code(rows), 200);
    assert!(get_note_handler(&store, n.id).is_none());
}

#[test]
fn delete_of_missing_id_reports_zero_rows() {
    let mut store = NotesStore::new();
    create_note_handler(&mut store, create_body("t", "c")).unwrap();
    let rows = delete_note_handler(&mut store, 999);
    assert_eq!(rows, 0);
    assert_eq!(delete_status_code(rows), 204);
    assert_eq!(store.count(), 1);
}

#[test]
fn list_pages_in_ascending_id_order() {
    let mut store = NotesStore::new();
    for k in 1..=5u32 {
        let body = create_body(&format!("t{}", k), &format!("c{}", k));
        create_note_handler(&mut store, body).unwrap();
    }
    let page2 = note_list_handler(&store, &FilterOptions { page: Some(2), limit: Some(2) });
    assert_eq!(page2.len(), 2);
    assert_eq!(page2[0].id, 3);
    assert_eq!(page2[1].id, 4);
    let page3 = note_list_handler(&store, &FilterOptions { page: Some(3), limit: Some(2) });
    assert_eq!(page3.len(), 1);
    assert_eq!(page3[0].id, 5);
    let beyond = note_list_handler(&store, &FilterOptions { page: Some(4), limit: Some(2) });
    assert!(beyond.is_empty());
    let all = note_list_handler(&store, &FilterOptions { page: None, limit: None });
    assert_eq!(all.len(), 5);
    for w in all.windows(2) {
        assert!(w[0].id < w[1].id);
    }
}

#[test]
fn list_respects_limit() {
    let mut store = NotesStore::new();
    for k in 1..=12u32 {
        create_note_handler(&mut store, create_body(&format!("t{}", k), "c")).unwrap();
    }
    let all = note_list_handler(&store, &FilterOptions { page: None, limit: None });
    assert_eq!(all.len(), 10);
    let one = note_list_handler(&store, &FilterOptions { page: Some(1), limit: Some(1) });
    assert_eq!(one.len(), 1);
    assert_eq!(one[0].id, 1);
}

#[test]
fn filter_validation_rejects_page_zero() {
    assert!(!filter_valid(&FilterOptions { page: Some(0), limit: None }));
    assert!(filter_valid(&FilterOptions { page: Some(1), limit: None }));
    assert!(filter_valid(&FilterOptions { page: None, limit: Some(3) }));
}

#[test]
fn scenario_create_conflict_and_list() {
    let mut store = NotesStore::new();
    let first = create_note_handler(&mut store, create_body("t1", "c1")).unwrap();
    assert!(!first.published);
    assert_eq!(first.category, None);
    let e = create_note_handler(&mut store, create_body("t1", "c9")).unwrap_err();
    assert_eq!(e.status_code(), 400);
    assert_eq!(e.status_label(), "fail");
    assert!(e.message().contains("same title"));
    create_note_handler(&mut store, create_body("t2", "c2")).unwrap();
    let page = note_list_handler(&store, &FilterOptions { page: Some(1), limit: Some(1) });
    assert_eq!(page.len(), 1);
    assert_eq!(page[0].id, first.id);
}
