use clip_history::hash::hash_string;
use clip_history::history::HistoryStore;
use clip_history::link_metadata::{link_metadata_from_fetch, LinkMetadata};
use clip_history::types::{ClipboardEntry, ClipboardEntryInput};
use clip_history::watcher::{
    build_entry, classify_capture, complete_capture, summarize_file_paths, CaptureDecision,
    CaptureOutcome, CaptureState, Classified, Enrichment,
};

fn no_enrichment() -> Enrichment {
    Enrichment { ocr_text: None, image_path: None, link_metadata: None }
}

fn classify_text(text: &str) -> Classified {
    classify_capture(None, None, Some(text.to_string())).expect("classification expected")
}

fn entry_for_text(text: &str) -> ClipboardEntry {
    match classify_text(text) {
        Classified::Text { content, hash } => build_entry(
            ClipboardEntryInput {
                content_type: "text".to_string(),
                content_hash: hash,
                content: content.clone(),
                text_content: Some(content),
                ocr_text: None,
                image_path: None,
                file_paths: None,
                link_metadata: None,
            },
            Some("Some Editor".to_string()),
            None,
        ),
        _ => panic!("expected plain text classification"),
    }
}

fn capture_text(
    state: &mut CaptureState,
    store: &mut HistoryStore,
    text: &str,
    at: i64,
) -> CaptureOutcome {
    complete_capture(state, store, entry_for_text(text), at)
}

#[test]
fn classification_priority_files_image_text() {
    let files = Some(vec!["C:\\a\\report.pdf".to_string()]);
    let image = Some(vec![1u8, 2u8]);
    let text = Some("hello".to_string());
    match classify_capture(files, image, text) {
        Some(Classified::Files { paths, serialized, summary, hash }) => {
            assert_eq!(paths, vec!["C:\\a\\report.pdf".to_string()]);
            assert_eq!(serialized, "[\"C:\\\\a\\\\report.pdf\"]");
            assert_eq!(summary, "report.pdf");
            assert_eq!(hash, hash_string(&serialized));
        }
        _ => panic!("file list must win the priority order"),
    }

    match classify_capture(None, Some(vec![7u8]), Some("hello".to_string())) {
        Some(Classified::Image { bytes, hash }) => {
            assert_eq!(bytes, vec![7u8]);
            assert_eq!(hash, clip_history::hash::hash_bytes(&[7u8]));
        }
        _ => panic!("image must win over text"),
    }
}

#[test]
fn classification_skips_empty_formats() {
    match classify_capture(Some(Vec::new()), None, Some("  fallback  ".to_string())) {
        Some(Classified::Text { content, hash }) => {
            assert_eq!(content, "fallback");
            assert_eq!(hash, hash_string("fallback"));
        }
        _ => panic!("empty file list must fall through to text"),
    }
    assert!(classify_capture(None, Some(Vec::new()), None).is_none());
    assert!(classify_capture(None, None, Some("   ".to_string())).is_none());
    assert!(classify_capture(None, None, None).is_none());
}

#[test]
fn classification_splits_link_from_text() {
    match classify_text(" https://example.com ") {
        Classified::Link { content, url, hash } => {
            assert_eq!(content, "https://example.com");
            assert_eq!(url.serialized, "https://example.com/");
            assert_eq!(hash, hash_string("https://example.com"));
        }
        _ => panic!("https text must classify as a link"),
    }
    match classify_text("ftp://example.com") {
        Classified::Text { content, .. } => assert_eq!(content, "ftp://example.com"),
        _ => panic!("non-http scheme must classify as plain text"),
    }
}

#[test]
fn file_summary_truncates_at_budget() {
    let long_name = "f".repeat(120);
    let paths: Vec<String> = (0..6).map(|i| format!("C:\\dir\\{long_name}{i}.txt")).collect();
    let summary = summarize_file_paths(&paths);
    let n = summary.chars().count();
    assert!(n <= 503, "summary must stay within budget plus marker, got {n}");
    assert!(summary.ends_with("..."));

    let short = summarize_file_paths(&vec!["a.txt".to_string(), "b.txt".to_string()]);
    assert_eq!(short, "a.txt, b.txt");
}

#[test]
fn adjacent_duplicate_persists_once() {
    let mut state = CaptureState::new();
    let mut store = HistoryStore::new();
    assert!(matches!(
        capture_text(&mut state, &mut store, "same thing", 1),
        CaptureOutcome::Persisted(_)
    ));
    assert_eq!(
        capture_text(&mut state, &mut store, "same thing", 2),
        CaptureOutcome::SkippedDuplicate
    );
    assert_eq!(store.len(), 1, "identical content twice in a row is one row");
}

#[test]
fn non_adjacent_repeat_is_kept() {
    let mut state = CaptureState::new();
    let mut store = HistoryStore::new();
    assert!(matches!(capture_text(&mut state, &mut store, "A", 1), CaptureOutcome::Persisted(_)));
    assert!(matches!(capture_text(&mut state, &mut store, "B", 2), CaptureOutcome::Persisted(_)));
    assert!(matches!(capture_text(&mut state, &mut store, "A", 3), CaptureOutcome::Persisted(_)));
    assert_eq!(store.len(), 3, "A, B, A yields three rows");
}

#[test]
fn baseline_from_store_suppresses_restart_duplicate() {
    let mut store = HistoryStore::new();
    let mut state = CaptureState::new();
    capture_text(&mut state, &mut store, "persisted before restart", 1);
    let mut resumed = CaptureState::with_baseline(store.load_last_hash());
    assert_eq!(
        capture_text(&mut resumed, &mut store, "persisted before restart", 2),
        CaptureOutcome::SkippedDuplicate
    );
    assert_eq!(store.len(), 1);
}

#[test]
fn ignore_marker_consumed_on_match() {
    let mut state = CaptureState::new();
    let mut store = HistoryStore::new();
    let marked = hash_string("self copy");
    state.set_ignore_marker(marked.clone());

    assert_eq!(
        capture_text(&mut state, &mut store, "self copy", 1),
        CaptureOutcome::SkippedIgnored
    );
    assert_eq!(store.len(), 0, "an ignored capture persists nothing");
    assert_eq!(
        state.decide(&marked),
        CaptureDecision::SkipDuplicate,
        "the baseline advanced to the marked hash"
    );
    assert_eq!(
        capture_text(&mut state, &mut store, "self copy", 2),
        CaptureOutcome::SkippedDuplicate,
        "after consumption the same hash is an ordinary adjacent duplicate"
    );
    assert_eq!(store.len(), 0);
}

#[test]
fn ignore_marker_left_pending_by_other_hashes() {
    let mut state = CaptureState::new();
    let mut store = HistoryStore::new();
    state.set_ignore_marker(hash_string("self copy"));

    assert!(matches!(
        capture_text(&mut state, &mut store, "unrelated", 1),
        CaptureOutcome::Persisted(_)
    ));
    assert_eq!(store.len(), 1, "an unrelated capture persists normally");

    assert_eq!(
        capture_text(&mut state, &mut store, "self copy", 2),
        CaptureOutcome::SkippedIgnored,
        "the marker stayed pending until its hash arrived"
    );
    assert_eq!(store.len(), 1);
}

#[test]
fn unanswered_fetch_still_persists_link_entry() {
    // A metadata fetch that never responds is cut off by the caller's
    // timeout and yields no body; the capture still persists, with the bare
    // URL and every enrichment field absent.
    let (content, url, hash) = match classify_text("https://slow.example/page") {
        Classified::Link { content, url, hash } => (content, url, hash),
        _ => panic!("expected link classification"),
    };
    let fetched_body: Option<&String> = None;
    let metadata: LinkMetadata = link_metadata_from_fetch(&url.serialized, fetched_body, None);
    let entry = build_entry(
        ClipboardEntryInput {
            content_type: "link".to_string(),
            content_hash: hash,
            content: content.clone(),
            text_content: Some(content),
            ocr_text: None,
            image_path: None,
            file_paths: None,
            link_metadata: Some(metadata),
        },
        None,
        None,
    );

    let mut state = CaptureState::new();
    let mut store = HistoryStore::new();
    let outcome = complete_capture(&mut state, &mut store, entry, 1);
    assert!(matches!(outcome, CaptureOutcome::Persisted(_)));
    let rows = store.load_entries_page(None, 0, 10);
    assert_eq!(rows.len(), 1);
    assert_eq!(rows[0].content_type, "link");
    assert_eq!(rows[0].link_url.as_deref(), Some("https://slow.example/page"));
    assert_eq!(rows[0].link_title, None);
    assert_eq!(rows[0].link_description, None);
    assert_eq!(rows[0].link_site_name, None);
}

#[test]
fn image_cycle_saves_blob_once_and_persists() {
    let mut state = CaptureState::new();
    let mut store = HistoryStore::new();
    let mut images = clip_history::images::ImageStore::new("data".to_string());

    let bytes = vec![10u8, 20u8, 30u8];
    for round in 0..2 {
        let classified = classify_capture(None, None.or(Some(bytes.clone())), None).unwrap();
        if state.decide(classified.content_hash()) == CaptureDecision::SkipDuplicate {
            assert_eq!(round, 1, "only the second round is an adjacent duplicate");
            continue;
        }
        let (hash, img) = match &classified {
            Classified::Image { bytes, hash } => (hash.clone(), bytes.clone()),
            _ => panic!("expected image classification"),
        };
        let (path, wrote) = images.save_image_bytes(&hash, &img);
        assert!(wrote);
        let input = classified.into_input(Enrichment {
            ocr_text: None,
            image_path: Some(path),
            link_metadata: None,
        });
        let outcome =
            complete_capture(&mut state, &mut store, build_entry(input, None, None), round);
        assert!(matches!(outcome, CaptureOutcome::Persisted(_)));
    }
    assert_eq!(store.len(), 1);
    assert_eq!(images.blob_count(), 1);
    let rows = store.load_entries_page(None, 0, 10);
    assert_eq!(rows[0].content_type, "image");
    assert_eq!(rows[0].content, "Image");
    assert!(rows[0].image_path.as_deref().unwrap().starts_with("data/clipboard_images/image_"));
}

#[test]
fn entry_from_input_flattens_link_metadata() {
    let input = ClipboardEntryInput {
        content_type: "link".to_string(),
        content_hash: "h".to_string(),
        content: "c".to_string(),
        text_content: Some("c".to_string()),
        ocr_text: None,
        image_path: None,
        file_paths: None,
        link_metadata: Some(LinkMetadata {
            url: "https://example.com/".to_string(),
            title: Some("T".to_string()),
            description: Some("D".to_string()),
            site_name: None,
        }),
    };
    let entry = ClipboardEntry::from(input);
    assert_eq!(entry.link_url.as_deref(), Some("https://example.com/"));
    assert_eq!(entry.link_title.as_deref(), Some("T"));
    assert_eq!(entry.link_description.as_deref(), Some("D"));
    assert_eq!(entry.link_site_name, None);
    assert_eq!(entry.source_app_title, None);
}

#[test]
fn provenance_is_recorded_on_built_entries() {
    let mut state = CaptureState::new();
    let mut store = HistoryStore::new();
    capture_text(&mut state, &mut store, "with provenance", 1);
    let rows = store.load_entries_page(None, 0, 1);
    assert_eq!(rows[0].source_app_title.as_deref(), Some("Some Editor"));
    assert_eq!(rows[0].source_exe_path, None);
}

#[test]
fn link_input_keeps_bare_url_when_fetch_yielded_nothing() {
    let classified = classify_text("https://example.com");
    let input = classified.into_input(no_enrichment());
    assert_eq!(input.content_type, "link");
    assert_eq!(input.text_content.as_deref(), Some("https://example.com"));
    let meta = input.link_metadata.expect("bare metadata expected");
    assert_eq!(meta.url, "https://example.com/");
    assert_eq!(meta.title, None);
    assert_eq!(meta.description, None);
    assert_eq!(meta.site_name, None);
}

#[test]
fn image_input_carries_enrichment() {
    let classified = classify_capture(None, Some(vec![5u8, 6u8]), None).unwrap();
    let input = classified.into_input(Enrichment {
        ocr_text: Some("read from pixels".to_string()),
        image_path: Some("imgs/image_x.bmp".to_string()),
        link_metadata: None,
    });
    assert_eq!(input.content_type, "image");
    assert_eq!(input.content, "Image");
    assert_eq!(input.ocr_text.as_deref(), Some("read from pixels"));
    assert_eq!(input.image_path.as_deref(), Some("imgs/image_x.bmp"));
    assert_eq!(input.text_content, None);
    assert_eq!(input.file_paths, None);
}

#[test]
fn files_input_holds_serialized_list_and_summary() {
    let classified =
        classify_capture(Some(vec!["/a/b.txt".to_string(), "/a/c.txt".to_string()]), None, None)
            .unwrap();
    let input = classified.into_input(no_enrichment());
    assert_eq!(input.content_type, "files");
    assert_eq!(input.content, "b.txt, c.txt");
    assert_eq!(input.file_paths.as_deref(), Some("[\"/a/b.txt\",\"/a/c.txt\"]"));
    assert_eq!(input.text_content, None);
    assert!(input.link_metadata.is_none());
}

#[test]
fn file_serialization_escapes_json_specials() {
    let paths = vec!["a\"quote.txt".to_string(), "tab\there.txt".to_string()];
    match classify_capture(Some(paths), None, None) {
        Some(Classified::Files { serialized, .. }) => {
            assert_eq!(serialized, "[\"a\\\"quote.txt\",\"tab\\there.txt\"]");
        }
        _ => panic!("expected file classification"),
    }
}
