use document_sync::coords::{Position, Range};
use document_sync::document::{ChangeError, ContentChange, PerFileState};
use document_sync::store::{change_entry, entry_text, DocumentStore, StoreError};

fn ranged(l1: usize, c1: usize, l2: usize, c2: usize, text: &str) -> ContentChange {
    ContentChange {
        range: Some(Range {
            start: Position { line: l1, character: c1 },
            end: Position { line: l2, character: c2 },
        }),
        text: text.to_string(),
    }
}

fn full(text: &str) -> ContentChange {
    ContentChange { range: None, text: text.to_string() }
}

#[test]
fn open_parses_the_text() {
    let state = PerFileState::open("fn a(){}\n");
    assert_eq!(state.contents_string(), "fn a(){}\n");
    assert_eq!(
        state.tree_string(),
        "(source_file (function_item name: (identifier) parameters: (parameters) body: (block)))"
    );
}

#[test]
fn ranged_change_edits_buffer_and_tree() {
    let mut state = PerFileState::open("fn a(){}\n");
    state.apply_change(&ranged(0, 3, 0, 4, "main"));
    assert_eq!(state.contents_string(), "fn main(){}\n");
    let fresh = PerFileState::open("fn main(){}\n");
    assert_eq!(state.tree_string(), fresh.tree_string());
    assert_eq!(state.tree.root_node().end_byte(), 12);
}

#[test]
fn ranged_change_that_alters_the_structure() {
    let mut state = PerFileState::open("fn a(){}\n");
    state.apply_change(&ranged(1, 0, 1, 0, "struct S;\n"));
    assert_eq!(state.contents_string(), "fn a(){}\nstruct S;\n");
    let fresh = PerFileState::open("fn a(){}\nstruct S;\n");
    assert_eq!(state.tree_string(), fresh.tree_string());
}

#[test]
fn full_replace_is_a_fresh_open() {
    let mut state = PerFileState::open("line1\nline2\n");
    state.apply_change(&full("x\n"));
    let fresh = PerFileState::open("x\n");
    assert_eq!(state.contents_string(), "x\n");
    assert_eq!(state.contents_string(), fresh.contents_string());
    assert_eq!(state.tree_string(), fresh.tree_string());
    assert_eq!(state.tree.root_node().end_byte(), 2);
}

#[test]
fn changes_apply_in_order() {
    let mut state = PerFileState::open("fn a(){}\n");
    let changes = vec![
        ranged(0, 3, 0, 4, "main"),
        ranged(0, 10, 0, 10, " let x = 1; "),
        ranged(1, 0, 1, 0, "// end\n"),
    ];
    assert_eq!(state.apply_changes(&changes), Ok(()));
    assert_eq!(state.contents_string(), "fn main(){ let x = 1; }\n// end\n");
}

#[test]
fn no_changes_leave_the_document() {
    let mut state = PerFileState::open("fn a(){}\n");
    assert_eq!(state.apply_changes(&Vec::new()), Ok(()));
    assert_eq!(state.contents_string(), "fn a(){}\n");
}

#[test]
fn invalid_range_stops_the_changes() {
    let mut state = PerFileState::open("ab\n");
    let changes = vec![ranged(0, 0, 0, 1, "x"), ranged(5, 0, 5, 0, "y"), full("z")];
    assert_eq!(
        state.apply_changes(&changes),
        Err(ChangeError { index: 1 })
    );
    assert_eq!(state.contents_string(), "xb\n");
    assert!(!state.is_valid_change(&changes[1]));
    assert!(state.is_valid_change(&changes[0]));
    assert!(state.is_valid_change(&changes[2]));
}

#[test]
fn order_of_overlapping_edits_matters() {
    let first = ranged(0, 0, 0, 2, "x");
    let second = ranged(0, 1, 0, 3, "yz");
    let mut in_order = PerFileState::open("abcd\n");
    in_order.apply_change(&first);
    in_order.apply_change(&second);
    let mut swapped = PerFileState::open("abcd\n");
    swapped.apply_change(&second);
    swapped.apply_change(&first);
    assert_eq!(in_order.contents_string(), "xyz\n");
    assert_eq!(swapped.contents_string(), "xzd\n");
    assert_ne!(in_order.contents_string(), swapped.contents_string());
}

#[test]
fn later_insert_at_the_same_place_lands_in_front() {
    let x = ranged(1, 1, 1, 1, "x");
    let y = ranged(1, 1, 1, 1, "y");
    let mut in_order = PerFileState::open("fn a(){}\nab\n");
    in_order.apply_changes(&vec![ranged(1, 1, 1, 1, "x"), ranged(1, 1, 1, 1, "y")]).unwrap();
    let mut swapped = PerFileState::open("fn a(){}\nab\n");
    swapped.apply_change(&y);
    swapped.apply_change(&x);
    assert_eq!(in_order.contents_string(), "fn a(){}\nayxb\n");
    assert_eq!(swapped.contents_string(), "fn a(){}\naxyb\n");
}

#[test]
fn equal_inserts_at_the_same_place_commute() {
    let mut one = PerFileState::open("ab");
    one.apply_changes(&vec![ranged(0, 1, 0, 1, "zz"), ranged(0, 1, 0, 1, "z")]).unwrap();
    let mut other = PerFileState::open("ab");
    other.apply_changes(&vec![ranged(0, 1, 0, 1, "z"), ranged(0, 1, 0, 1, "zz")]).unwrap();
    assert_eq!(one.contents_string(), "azzzb");
    assert_eq!(other.contents_string(), "azzzb");
}

#[test]
fn later_full_replacement_wins() {
    let mut one = PerFileState::open("a");
    one.apply_changes(&vec![full("p"), full("q")]).unwrap();
    let mut other = PerFileState::open("a");
    other.apply_changes(&vec![full("q"), full("p")]).unwrap();
    assert_eq!(one.contents_string(), "q");
    assert_eq!(other.contents_string(), "p");
}

#[test]
fn store_keeps_documents_apart() {
    let store = DocumentStore::new();
    store.open("file:///a.rs".to_string(), "fn a(){}\n");
    store.open("file:///b.rs".to_string(), "fn b(){}\n");
    let changed = store.change("file:///a.rs", &vec![ranged(0, 3, 0, 4, "main")]).unwrap();
    assert_eq!(changed.contents_string(), "fn main(){}\n");
    assert_eq!(store.text("file:///a.rs"), Some("fn main(){}\n".to_string()));
    assert_eq!(store.text("file:///b.rs"), Some("fn b(){}\n".to_string()));
}

#[test]
fn store_open_returns_a_copy_of_the_opened_document() {
    let store = DocumentStore::new();
    let opened = store.open("doc".to_string(), "fn a(){}\n");
    assert_eq!(opened.contents_string(), "fn a(){}\n");
    assert_eq!(opened.tree_string(), PerFileState::open("fn a(){}\n").tree_string());
    assert_eq!(store.text("doc"), Some("fn a(){}\n".to_string()));
}

#[test]
fn store_change_returns_the_document_as_the_changes_left_it() {
    let store = DocumentStore::new();
    store.open("doc".to_string(), "fn a(){}\n");
    let changes = vec![ranged(1, 0, 1, 0, "struct S;\n"), ranged(0, 3, 0, 4, "main")];
    let changed = store.change("doc", &changes).unwrap();
    let fresh = PerFileState::open("fn main(){}\nstruct S;\n");
    assert_eq!(changed.contents_string(), "fn main(){}\nstruct S;\n");
    assert_eq!(changed.tree_string(), fresh.tree_string());
    assert_eq!(changed.tree.root_node().end_byte(), 22);
    // The copy is the caller's own: a later change does not show in it.
    store.change("doc", &vec![full("x")]).unwrap();
    assert_eq!(changed.contents_string(), "fn main(){}\nstruct S;\n");
    assert_eq!(store.text("doc"), Some("x".to_string()));
}

#[test]
fn store_can_be_called_while_a_copy_is_held() {
    let store = DocumentStore::new();
    let opened = store.open("doc".to_string(), "one\n");
    let reopened = store.open("doc".to_string(), "two\n");
    let changed = store.change("doc", &vec![ranged(0, 0, 0, 3, "six")]).unwrap();
    store.close("doc");
    assert_eq!(opened.contents_string(), "one\n");
    assert_eq!(reopened.contents_string(), "two\n");
    assert_eq!(changed.contents_string(), "six\n");
    assert_eq!(store.text("doc"), None);
}

#[test]
fn store_rejects_change_to_unknown_document() {
    let store = DocumentStore::new();
    assert_eq!(store.change("file:///a.rs", &vec![full("x")]).err(), Some(StoreError::NotOpen));
    assert_eq!(store.text("file:///a.rs"), None);
}

#[test]
fn store_reports_the_failing_change() {
    let store = DocumentStore::new();
    store.open("doc".to_string(), "ab\n");
    assert_eq!(
        store.change("doc", &vec![ranged(9, 0, 9, 0, "x")]).err(),
        Some(StoreError::Change(ChangeError { index: 0 }))
    );
    assert_eq!(store.text("doc"), Some("ab\n".to_string()));
}

#[test]
fn store_close_removes_the_document() {
    let store = DocumentStore::new();
    store.open("doc".to_string(), "ab\n");
    store.close("doc");
    assert_eq!(store.text("doc"), None);
    assert_eq!(store.change("doc", &Vec::new()).err(), Some(StoreError::NotOpen));
}

#[test]
fn store_open_replaces_the_document() {
    let store = DocumentStore::new();
    store.open("doc".to_string(), "one\n");
    store.open("doc".to_string(), "two\n");
    assert_eq!(store.text("doc"), Some("two\n".to_string()));
}

#[test]
fn snapshot_is_a_copy_of_its_own() {
    let mut state = PerFileState::open("fn a(){}\n");
    let copy = state.snapshot();
    state.apply_change(&full("struct S;\n"));
    assert_eq!(copy.contents_string(), "fn a(){}\n");
    assert_eq!(copy.tree_string(), PerFileState::open("fn a(){}\n").tree_string());
    assert_eq!(state.contents_string(), "struct S;\n");
}

#[test]
fn change_entry_without_an_entry_is_not_open() {
    assert_eq!(change_entry(None, &vec![full("x")]).err(), Some(StoreError::NotOpen));
    let mut state = PerFileState::open("ab\n");
    let copy = change_entry(Some(&mut state), &vec![ranged(0, 0, 0, 1, "x")]).unwrap();
    assert_eq!(state.contents_string(), "xb\n");
    assert_eq!(copy.contents_string(), "xb\n");
    assert_eq!(copy.tree_string(), state.tree_string());
    assert_eq!(
        change_entry(Some(&mut state), &vec![full("q"), ranged(3, 0, 3, 0, "y")]).err(),
        Some(StoreError::Change(ChangeError { index: 1 }))
    );
    assert_eq!(state.contents_string(), "q");
}

#[test]
fn entry_text_is_the_text_of_the_entry() {
    let state = PerFileState::open("ab\n");
    assert_eq!(entry_text(Some(&state)), Some("ab\n".to_string()));
    assert_eq!(entry_text(None), None);
}

#[test]
fn malformed_text_still_gives_a_tree() {
    let state = PerFileState::open("fn (((( {{{ \u{0}\u{1f600} struct");
    assert!(state.tree.root_node().has_error());
    let mut state = PerFileState::open("fn a(){}\n");
    assert_eq!(state.apply_changes(&vec![ranged(0, 2, 0, 8, "((((")]), Ok(()));
    assert_eq!(state.contents_string(), "fn((((\n");
    assert!(state.tree.root_node().has_error());
    assert_eq!(PerFileState::open("").contents_string(), "");
}

#[test]
fn the_tree_follows_a_list_of_ranged_changes() {
    let mut state = PerFileState::open("fn a(){}\n");
    let changes = vec![
        ranged(1, 0, 1, 0, "struct S;\n"),
        ranged(0, 3, 0, 4, "main"),
        ranged(2, 0, 2, 0, "enum E {}\n"),
    ];
    assert_eq!(state.apply_changes(&changes), Ok(()));
    let fresh = PerFileState::open("fn main(){}\nstruct S;\nenum E {}\n");
    assert_eq!(state.contents_string(), fresh.contents_string());
    assert_eq!(state.tree_string(), fresh.tree_string());
    assert_eq!(state.tree.root_node().end_byte(), 32);
    // Each edit was told to the tree: the nodes stand where the text has them.
    let root = state.tree.root_node();
    assert_eq!(root.child(0).unwrap().byte_range(), 0..11);
    assert_eq!(root.child(1).unwrap().byte_range(), 12..21);
    assert_eq!(root.child(2).unwrap().byte_range(), 22..31);
    assert_eq!(root.child(2).unwrap().start_position().row, 2);
}

#[test]
fn no_changes_leave_the_tree_too() {
    let mut state = PerFileState::open("fn a(){}\n");
    let before = state.tree_string();
    assert_eq!(state.apply_changes(&Vec::new()), Ok(()));
    assert_eq!(state.tree_string(), before);
    assert!(change_entry(Some(&mut state), &Vec::new()).is_ok());
    assert_eq!(state.tree_string(), before);
}
