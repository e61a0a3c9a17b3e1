use clip_history::history::{copy_payload, HistoryStore, StoredEntry};
use clip_history::images::ImageStore;
use clip_history::path::{default_db_path, image_path_for_hash, images_dir, sqlite_url};
use clip_history::schema::{pending_migrations, schema_columns, SCHEMA_VERSION};
use clip_history::types::{ClipboardEntry, ClipboardEntryInput};

fn text_entry(text: &str) -> ClipboardEntry {
    let input = ClipboardEntryInput {
        content_type: "text".to_string(),
        content_hash: clip_history::hash::hash_string(text),
        content: text.to_string(),
        text_content: Some(text.to_string()),
        ocr_text: None,
        image_path: None,
        file_paths: None,
        link_metadata: None,
    };
    ClipboardEntry::from(input)
}

fn insert_text(store: &mut HistoryStore, text: &str, at: i64) -> u64 {
    store
        .insert_clipboard_entry(text_entry(text), at)
        .expect("insert expected to succeed")
}

#[test]
fn insert_assigns_increasing_ids() {
    let mut store = HistoryStore::new();
    let a = insert_text(&mut store, "first", 10);
    let b = insert_text(&mut store, "second", 11);
    assert!(a < b);
    assert_eq!(store.len(), 2);
}

#[test]
fn last_hash_is_newest_rows_hash() {
    let mut store = HistoryStore::new();
    assert_eq!(store.load_last_hash(), None);
    insert_text(&mut store, "first", 1);
    insert_text(&mut store, "second", 2);
    assert_eq!(
        store.load_last_hash(),
        Some(clip_history::hash::hash_string("second"))
    );
}

#[test]
fn delete_removes_one_row_and_ignores_missing_ids() {
    let mut store = HistoryStore::new();
    let a = insert_text(&mut store, "keep", 1);
    let b = insert_text(&mut store, "drop", 2);
    store.delete_clipboard_entry(b);
    assert_eq!(store.len(), 1);
    let page = store.load_entries_page(None, 0, 10);
    assert_eq!(page.len(), 1);
    assert_eq!(page[0].id, a);
    store.delete_clipboard_entry(9999);
    assert_eq!(store.len(), 1);
}

#[test]
fn query_returns_newest_first() {
    let mut store = HistoryStore::new();
    insert_text(&mut store, "oldest", 1);
    insert_text(&mut store, "middle", 2);
    insert_text(&mut store, "newest", 3);
    let page = store.load_entries_page(None, 0, 10);
    let contents: Vec<&str> = page.iter().map(|e| e.content.as_str()).collect();
    assert_eq!(contents, vec!["newest", "middle", "oldest"]);
}

#[test]
fn search_and_across_tokens_or_across_fields() {
    let mut store = HistoryStore::new();
    insert_text(&mut store, "hello world", 1);
    insert_text(&mut store, "goodbye world", 2);

    let hello = store.load_entries_page(Some("hello"), 0, 10);
    assert_eq!(hello.len(), 1);
    assert_eq!(hello[0].content, "hello world");

    let world = store.load_entries_page(Some("world"), 0, 10);
    assert_eq!(world.len(), 2);

    let both = store.load_entries_page(Some("hello goodbye"), 0, 10);
    assert_eq!(both.len(), 0);
}

#[test]
fn search_is_case_insensitive_and_matches_other_fields() {
    let mut store = HistoryStore::new();
    insert_text(&mut store, "Hello World", 1);
    let found = store.load_entries_page(Some("HELLO"), 0, 10);
    assert_eq!(found.len(), 1);

    let mut entry = text_entry("placeholder");
    entry.link_title = Some("Rust Blog".to_string());
    store.insert_clipboard_entry(entry, 2).unwrap();
    let by_title = store.load_entries_page(Some("blog"), 0, 10);
    assert_eq!(by_title.len(), 1);
    assert_eq!(by_title[0].content, "placeholder");
}

#[test]
fn blank_filter_matches_everything() {
    let mut store = HistoryStore::new();
    insert_text(&mut store, "alpha", 1);
    insert_text(&mut store, "beta", 2);
    assert_eq!(store.load_entries_page(Some("   "), 0, 10).len(), 2);
    assert_eq!(store.load_entries_page(Some(""), 0, 10).len(), 2);
}

#[test]
fn pagination_returns_every_row_exactly_once() {
    let mut store = HistoryStore::new();
    let total: usize = 5;
    for i in 0..total {
        insert_text(&mut store, &format!("row {i}"), i as i64);
    }
    let page_size: usize = 2;
    let mut seen: Vec<u64> = Vec::new();
    let mut offset: usize = 0;
    loop {
        let page = store.load_entries_page(None, offset, page_size);
        if page.is_empty() {
            break;
        }
        assert!(page.len() <= page_size);
        for e in &page {
            seen.push(e.id);
        }
        offset += page.len();
    }
    assert_eq!(seen.len(), total);
    let mut sorted = seen.clone();
    sorted.sort();
    sorted.dedup();
    assert_eq!(sorted.len(), total, "no duplicates across pages");
    for pair in seen.windows(2) {
        assert!(pair[0] > pair[1], "newest-first across page boundaries");
    }
}

#[test]
fn copy_payload_priority() {
    let mut store = HistoryStore::new();
    insert_text(&mut store, "text wins", 1);
    let mut entry = text_entry("fallback content");
    entry.text_content = None;
    entry.file_paths = Some("[\"a.txt\"]".to_string());
    store.insert_clipboard_entry(entry, 2).unwrap();
    let mut bare = text_entry("just content");
    bare.text_content = None;
    store.insert_clipboard_entry(bare, 3).unwrap();

    let page: Vec<StoredEntry> = store.load_entries_page(None, 0, 10);
    assert_eq!(copy_payload(&page[2]), "text wins");
    assert_eq!(copy_payload(&page[1]), "[\"a.txt\"]");
    assert_eq!(copy_payload(&page[0]), "just content");
}

#[test]
fn image_store_is_idempotent_per_hash() {
    let mut images = ImageStore::new("data".to_string());
    let bytes: Vec<u8> = vec![1, 2, 3, 4];
    let hash = clip_history::hash::hash_bytes(&bytes);
    let (path1, wrote1) = images.save_image_bytes(&hash, &bytes);
    assert!(wrote1);
    assert_eq!(images.blob_count(), 1);
    let (path2, wrote2) = images.save_image_bytes(&hash, &bytes);
    assert!(!wrote2, "second save of the same hash must not rewrite");
    assert_eq!(images.blob_count(), 1, "no duplicate blob");
    assert_eq!(path1, path2);
    assert_eq!(path1, format!("data/clipboard_images/image_{hash}.bmp"));

    let other: Vec<u8> = vec![9, 9];
    let other_hash = clip_history::hash::hash_bytes(&other);
    let (_, wrote3) = images.save_image_bytes(&other_hash, &other);
    assert!(wrote3);
    assert_eq!(images.blob_count(), 2);
}

#[test]
fn storage_paths_are_deterministic() {
    assert_eq!(default_db_path("base"), "base/clipboard_history.db");
    assert_eq!(images_dir("base"), "base/clipboard_images");
    assert_eq!(
        image_path_for_hash("base", "abc123"),
        "base/clipboard_images/image_abc123.bmp"
    );
    assert_eq!(
        sqlite_url("C:\\data\\clipboard_history.db"),
        "sqlite:///C:/data/clipboard_history.db?mode=rwc"
    );
}

#[test]
fn schema_versions_are_additive() {
    let v1 = schema_columns(1);
    let v2 = schema_columns(2);
    let v3 = schema_columns(SCHEMA_VERSION);
    assert_eq!(v1.len(), 10);
    assert_eq!(v2.len(), 11);
    assert_eq!(v3.len(), 15);
    assert_eq!(&v2[..v1.len()], &v1[..]);
    assert_eq!(&v3[..v2.len()], &v2[..]);
    assert_eq!(v2[10], "ocr_text");
    assert_eq!(v3[11], "link_url");
}

#[test]
fn pending_migrations_in_order() {
    assert_eq!(pending_migrations(0), vec![1, 2, 3]);
    assert_eq!(pending_migrations(2), vec![3]);
    assert!(pending_migrations(SCHEMA_VERSION).is_empty());
}
