use notes_core::models::{CreateNoteRequest, UpdateNoteRequest};
use notes_core::notes::NoteService;

fn create(title: &str, content: &str) -> CreateNoteRequest {
    CreateNoteRequest { title: String::from(title), content: String::from(content) }
}

fn update(title: &str, content: &str) -> UpdateNoteRequest {
    UpdateNoteRequest { title: String::from(title), content: String::from(content) }
}

#[test]
fn created_notes_get_fresh_ids_in_order() {
    let mut svc = NoteService::new();
    let a = svc.create_note(create("Groceries", "milk and eggs"), 5, 100);
    let b = svc.create_note(create("Ideas", "verified backends"), 5, 101);
    assert_eq!(a.id, 1);
    assert_eq!(b.id, 2);
    assert_eq!(a.created_at, 100);
    assert_eq!(a.updated_at, 100);
}

#[test]
fn owner_reads_own_note_and_nobody_elses() {
    let mut svc = NoteService::new();
    svc.create_note(create("Groceries", "milk"), 5, 100);
    let own = svc.get_note_by_id(1, 5).expect("owner sees the note");
    assert_eq!(own.title, "Groceries");
    assert_eq!(own.content, "milk");
    assert!(svc.get_note_by_id(1, 7).is_none());
    assert!(svc.get_note_by_id(2, 5).is_none());
}

#[test]
fn listing_returns_only_the_owners_notes_in_order() {
    let mut svc = NoteService::new();
    svc.create_note(create("One", "a"), 5, 100);
    svc.create_note(create("Other", "b"), 7, 101);
    svc.create_note(create("Two", "c"), 5, 102);
    let notes = svc.get_user_notes(5);
    assert_eq!(notes.len(), 2);
    assert_eq!(notes[0].title, "One");
    assert_eq!(notes[1].title, "Two");
    assert_eq!(svc.get_user_notes(9).len(), 0);
}

#[test]
fn update_by_owner_replaces_text_and_stamps_time() {
    let mut svc = NoteService::new();
    svc.create_note(create("Draft", "old text"), 5, 100);
    let updated = svc.update_note(1, update("Final", "new text"), 5, 200).expect("owned note");
    assert_eq!(updated.id, 1);
    assert_eq!(updated.title, "Final");
    assert_eq!(updated.content, "new text");
    assert_eq!(updated.created_at, 100);
    assert_eq!(updated.updated_at, 200);
    let read_back = svc.get_note_by_id(1, 5).expect("still there");
    assert_eq!(read_back.title, "Final");
}

#[test]
fn update_by_someone_else_changes_nothing() {
    let mut svc = NoteService::new();
    svc.create_note(create("Draft", "old text"), 5, 100);
    assert!(svc.update_note(1, update("Hacked", "gone"), 7, 200).is_none());
    let read_back = svc.get_note_by_id(1, 5).expect("still there");
    assert_eq!(read_back.title, "Draft");
    assert_eq!(read_back.updated_at, 100);
}

#[test]
fn delete_is_scoped_to_the_owner() {
    let mut svc = NoteService::new();
    svc.create_note(create("Keep", "a"), 5, 100);
    assert!(!svc.delete_note(1, 7));
    assert!(svc.get_note_by_id(1, 5).is_some());
    assert!(svc.delete_note(1, 5));
    assert!(svc.get_note_by_id(1, 5).is_none());
    assert!(!svc.delete_note(1, 5));
}

#[test]
fn deleted_ids_are_never_reused() {
    let mut svc = NoteService::new();
    svc.create_note(create("First", "a"), 5, 100);
    assert!(svc.delete_note(1, 5));
    let next = svc.create_note(create("Second", "b"), 5, 101);
    assert_eq!(next.id, 2);
}

#[test]
fn search_matches_title_or_content_of_own_notes() {
    let mut svc = NoteService::new();
    svc.create_note(create("Groceries", "buy milk"), 5, 100);
    svc.create_note(create("milk prices", "going up"), 5, 101);
    svc.create_note(create("Unrelated", "nothing here"), 5, 102);
    svc.create_note(create("milk", "someone else's"), 7, 103);
    let hits = svc.search_notes(5, Some(String::from("milk")));
    assert_eq!(hits.len(), 2);
    assert_eq!(hits[0].id, 1);
    assert_eq!(hits[1].id, 2);
}

#[test]
fn search_without_term_lists_everything_of_the_owner() {
    let mut svc = NoteService::new();
    svc.create_note(create("One", "a"), 5, 100);
    svc.create_note(create("Two", "b"), 5, 101);
    svc.create_note(create("Other", "c"), 7, 102);
    assert_eq!(svc.search_notes(5, None).len(), 2);
}

#[test]
fn search_with_unmatched_term_is_empty() {
    let mut svc = NoteService::new();
    svc.create_note(create("One", "a"), 5, 100);
    assert_eq!(svc.search_notes(5, Some(String::from("zzz"))).len(), 0);
}
