use mail_imap_mcp_rs::pagination::{CursorEntry, CursorStore};

/// Create test cursor entry
fn cursor_entry(expires_at: u128) -> CursorEntry {
    CursorEntry {
        account_id: "default".to_owned(),
        mailbox: "INBOX".to_owned(),
        uidvalidity: 1,
        uids_desc: vec![5, 4, 3, 2, 1],
        offset: 0,
        include_snippet: false,
        snippet_max_chars: 200,
        expires_at,
    }
}

const SECOND: u128 = 1_000_000_000;

#[test]
fn create_and_get_cursor() {
    let mut store = CursorStore::new(60, 10);
    let id = store.create(cursor_entry(0));
    let loaded = store.get(&id).expect("cursor must be present");
    assert_eq!(loaded.mailbox, "INBOX");
    assert_eq!(loaded.uids_desc.len(), 5);
}

#[test]
fn update_offset_and_delete_cursor() {
    let mut store = CursorStore::new(60, 10);
    let id = store.create(cursor_entry(0));
    store.update_offset(&id, 3);
    let loaded = store.get(&id).expect("cursor must exist after update");
    assert_eq!(loaded.offset, 3);

    store.delete(&id);
    assert!(store.get(&id).is_none());
}

#[test]
fn expires_old_entries() {
    let mut store = CursorStore::new(1, 10);
    store.create_at("t".to_owned(), cursor_entry(0), 5 * SECOND);
    assert!(store.get_at("t", 5 * SECOND + 999_999_999).is_some());
    assert!(store.get_at("t", 5 * SECOND + 1_100_000_000).is_none());
    assert_eq!(store.len(), 0);
}

#[test]
fn evicts_to_max_entries() {
    let mut store = CursorStore::new(60, 2);
    let id1 = store.create(cursor_entry(0));
    let id2 = store.create(cursor_entry(0));
    let id3 = store.create(cursor_entry(0));

    let remaining = [id1, id2, id3]
        .into_iter()
        .filter(|id| store.get(id).is_some())
        .count();
    assert_eq!(remaining, 2);
}

#[test]
fn tokens_are_hyphenated_identifiers() {
    let mut store = CursorStore::new(60, 4);
    let a = store.create(cursor_entry(0));
    let b = store.create(cursor_entry(0));
    assert_eq!(a.len(), 36);
    assert_eq!(b.len(), 36);
    assert_ne!(a, b);
    assert_eq!(a.matches('-').count(), 4);
}

#[test]
fn expiry_is_exact_and_slides_on_advance() {
    let mut store = CursorStore::new(10, 4);
    store.create_at("a".to_owned(), cursor_entry(0), 0);
    let entry = store.get_at("a", 1).expect("live");
    assert_eq!(entry.expires_at, 10 * SECOND);
    assert!(store.get_at("a", 10 * SECOND - 1).is_some());
    store.update_offset_at("a", 2, 10 * SECOND - 1);
    let entry = store.get_at("a", 15 * SECOND).expect("refreshed");
    assert_eq!(entry.offset, 2);
    assert_eq!(entry.expires_at, 20 * SECOND - 1);
    assert!(store.get_at("a", 20 * SECOND - 1).is_none());
}

#[test]
fn advancing_an_expired_cursor_does_not_revive_it() {
    let mut store = CursorStore::new(1, 4);
    store.create_at("a".to_owned(), cursor_entry(0), 0);
    store.update_offset_at("a", 3, SECOND);
    assert_eq!(store.len(), 0);
    assert!(store.get_at("a", SECOND).is_none());
    store.update_offset_at("missing", 3, SECOND);
    store.delete_at("missing", SECOND);
    assert_eq!(store.len(), 0);
}

#[test]
fn evicts_the_entry_that_expires_first() {
    let mut store = CursorStore::new(60, 2);
    store.create_at("a".to_owned(), cursor_entry(0), 1);
    store.create_at("b".to_owned(), cursor_entry(0), 2);
    store.update_offset_at("a", 1, 3);
    store.create_at("c".to_owned(), cursor_entry(0), 4);
    assert_eq!(store.len(), 2);
    assert!(store.get_at("b", 4).is_none());
    assert!(store.get_at("a", 4).is_some());
    assert!(store.get_at("c", 4).is_some());
}

#[test]
fn keeps_the_new_entry_among_entries_that_expire_together() {
    let mut store = CursorStore::new(60, 1);
    store.create_at("a".to_owned(), cursor_entry(0), 7);
    store.create_at("b".to_owned(), cursor_entry(0), 7);
    assert_eq!(store.len(), 1);
    assert!(store.get_at("b", 7).is_some());
    assert!(store.get_at("a", 7).is_none());
}

#[test]
fn a_store_without_room_keeps_nothing() {
    let mut store = CursorStore::new(60, 0);
    store.create_at("a".to_owned(), cursor_entry(0), 0);
    assert_eq!(store.len(), 0);
    assert!(store.get_at("a", 0).is_none());
}

#[test]
fn creating_under_a_known_token_replaces_the_entry() {
    let mut store = CursorStore::new(60, 4);
    store.create_at("a".to_owned(), cursor_entry(0), 0);
    let mut other = cursor_entry(0);
    other.mailbox = "Sent".to_owned();
    store.create_at("a".to_owned(), other, 1);
    assert_eq!(store.len(), 1);
    assert_eq!(store.get_at("a", 1).expect("live").mailbox, "Sent");
}

#[test]
fn the_clock_of_the_store_never_runs_backwards() {
    let mut store = CursorStore::new(1, 4);
    store.create_at("a".to_owned(), cursor_entry(0), 10 * SECOND);
    assert!(store.get_at("a", 11 * SECOND).is_none());
    store.create_at("b".to_owned(), cursor_entry(0), 0);
    let entry = store.get_at("b", 0).expect("live");
    assert_eq!(entry.expires_at, 12 * SECOND);
}
