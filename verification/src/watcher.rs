//! The capture loop's decision core.
//!
//! Each polling tick reads one clipboard snapshot, classifies it in a fixed
//! priority order (file list, then image, then text), hashes the canonical
//! bytes of the selected kind, and suppresses duplicates: a digest equal to
//! the baseline is skipped before any enrichment, and a digest matching the
//! one-shot ignore marker advances the baseline without persisting, consuming
//! the marker. Everything else is enriched, assembled and appended to the
//! history store; only a successful append advances the baseline, so a failed
//! write is retried on the next tick.

use vstd::prelude::*;
use crate::hash::{digest_of, hash_bytes, hash_string, hex_digit, text_digest_of};
use crate::history::{stored_of, HistoryStore};
use crate::link_metadata::{parse_link_url, parsed_link_of, LinkMetadata, ParsedUrl};
use crate::text::{
    basename, basename_of, join_with, joined_with, opt_view, str_eq, trim_str, trimmed_of,
    truncate_with_ellipsis, truncated_of, views_of,
};
use crate::types::{built_entry_of, entry_kind_consistent, ClipboardEntry, ClipboardEntryInput};

verus! {

/// The character budget for a file-list display summary.
pub const FILE_SUMMARY_BUDGET: usize = 500;

/// The base names of a path list, in order.
pub open spec fn basenames_of(paths: Seq<Seq<char>>) -> Seq<Seq<char>> {
    paths.map_values(|p: Seq<char>| basename_of(p))
}

/// The display summary of a file list: the base names joined with a comma and
/// a space, capped at [`FILE_SUMMARY_BUDGET`] characters with an ellipsis
/// marker.
pub open spec fn files_summary_of(paths: Seq<Seq<char>>) -> Seq<char> {
    truncated_of(joined_with(basenames_of(paths), seq![',', ' ']), FILE_SUMMARY_BUDGET as int)
}

/// Summarizes a file list for display, per [`files_summary_of`]: never more
/// than three characters over the budget.
pub fn summarize_file_paths(paths: &Vec<String>) -> (r: String)
    ensures
        r@ == files_summary_of(views_of(paths@)),
        r@.len() <= FILE_SUMMARY_BUDGET + 3,
{
    let mut names: Vec<String> = Vec::new();
    let mut i: usize = 0;
    while i < paths.len()
        invariant
            i <= paths@.len(),
            views_of(names@) == basenames_of(views_of(paths@).subrange(0, i as int)),
        decreases paths@.len() - i,
    {
        let ghost names0 = names@;
        let b = basename(paths[i].as_str());
        let ghost bv = b@;
        names.push(b);
        i = i + 1;
        proof {
            let prev = views_of(paths@).subrange(0, i - 1);
            let curv = views_of(paths@).subrange(0, i as int);
            assert(views_of(names@) =~= views_of(names0).push(bv));
            assert(curv[i - 1] == paths@[i - 1]@);
            assert(basenames_of(curv) =~= basenames_of(prev).push(basename_of(paths@[i - 1]@)));
            assert(views_of(names@) =~= basenames_of(curv));
        }
    }
    proof {
        assert(views_of(paths@).subrange(0, paths@.len() as int) =~= views_of(paths@));
    }
    let joined = join_with(&names, ", ");
    proof {
        reveal_strlit(", ");
        assert(", "@ =~= seq![',', ' ']);
    }
    truncate_with_ellipsis(joined.as_str(), FILE_SUMMARY_BUDGET)
}

/// The JSON escape of one character, as a compact serializer writes string
/// contents: quote and backslash escaped, the named control characters by
/// their short escapes, other control characters as `\u00` plus two hex
/// digits, and everything else verbatim.
pub open spec fn json_escaped_char(c: char) -> Seq<char> {
    if c == '"' {
        seq!['\\', '"']
    } else if c == '\\' {
        seq!['\\', '\\']
    } else if c == '\u{8}' {
        seq!['\\', 'b']
    } else if c == '\t' {
        seq!['\\', 't']
    } else if c == '\n' {
        seq!['\\', 'n']
    } else if c == '\u{c}' {
        seq!['\\', 'f']
    } else if c == '\r' {
        seq!['\\', 'r']
    } else if (c as u32) < 0x20 {
        seq!['\\', 'u', '0', '0', hex_digit((c as u32 >> 4) as u8), hex_digit((c as u32 & 0xf) as u8)]
    } else {
        seq![c]
    }
}

/// The JSON escape of a whole string body.
pub open spec fn json_escaped_of(s: Seq<char>) -> Seq<char>
    decreases s.len(),
{
    if s.len() == 0 {
        Seq::<char>::empty()
    } else {
        json_escaped_of(s.drop_last()) + json_escaped_char(s.last())
    }
}

/// A JSON string: the escaped body in double quotes.
pub open spec fn json_string_of(s: Seq<char>) -> Seq<char> {
    seq!['"'] + json_escaped_of(s) + seq!['"']
}

/// The JSON strings of a path list, in order.
pub open spec fn json_strings_of(paths: Seq<Seq<char>>) -> Seq<Seq<char>> {
    paths.map_values(|p: Seq<char>| json_string_of(p))
}

/// The compact JSON array of a path list: the serialized form a file-list
/// capture is hashed over and persisted as.
pub open spec fn json_paths_of(paths: Seq<Seq<char>>) -> Seq<char> {
    seq!['['] + joined_with(json_strings_of(paths), seq![',']) + seq![']']
}

/// Relies on `serde_json::to_string` for a vector of strings: the compact
/// JSON array of the strings, per [`json_paths_of`]. Serializing strings
/// cannot fail, and the encoding is a function of the paths alone.
#[verifier::external_body]
fn serialize_file_list(paths: &Vec<String>) -> (r: String)
    ensures
        r@ == json_paths_of(views_of(paths@)),
{
    serde_json::to_string(paths).unwrap()
}

/// A classified clipboard snapshot: the selected kind with its canonical
/// content hash and whatever the kind derives before enrichment.
pub enum Classified {
    Files { paths: Vec<String>, serialized: String, summary: String, hash: String },
    Image { bytes: Vec<u8>, hash: String },
    Link { content: String, url: ParsedUrl, hash: String },
    Text { content: String, hash: String },
}

impl Classified {
    /// The canonical content hash of the classified content.
    pub open spec fn hash_spec(self) -> Seq<char> {
        match self {
            Classified::Files { hash, .. } => hash@,
            Classified::Image { hash, .. } => hash@,
            Classified::Link { hash, .. } => hash@,
            Classified::Text { hash, .. } => hash@,
        }
    }

    /// The canonical content hash of the classified content.
    pub fn content_hash(&self) -> (r: &String)
        ensures
            r@ == self.hash_spec(),
    {
        match self {
            Classified::Files { hash, .. } => hash,
            Classified::Image { hash, .. } => hash,
            Classified::Link { hash, .. } => hash,
            Classified::Text { hash, .. } => hash,
        }
    }
}

/// What enrichment produced for a classified capture before it is assembled:
/// recognized image text, the saved blob's path, and fetched link metadata.
/// Every field is best-effort; absence is normal.
pub struct Enrichment {
    pub ocr_text: Option<String>,
    pub image_path: Option<String>,
    pub link_metadata: Option<LinkMetadata>,
}

/// Exactly one kind-specific group of optional fields is populated, matching
/// the content type; the others are absent.
pub open spec fn input_kind_consistent(r: ClipboardEntryInput) -> bool {
    ||| (r.content_type@ == "files"@ && r.text_content is None && r.ocr_text is None
        && r.image_path is None && r.file_paths is Some && r.link_metadata is None)
    ||| (r.content_type@ == "image"@ && r.text_content is None && r.file_paths is None
        && r.link_metadata is None)
    ||| (r.content_type@ == "text"@ && r.text_content is Some && r.ocr_text is None
        && r.image_path is None && r.file_paths is None && r.link_metadata is None)
    ||| (r.content_type@ == "link"@ && r.text_content is Some && r.ocr_text is None
        && r.image_path is None && r.file_paths is None && r.link_metadata is Some)
}

/// What the assembled input owes for a classified capture and its enrichment:
/// the kind's content type and display string, the canonical hash, the kind's
/// own payload fields, and — for a link whose fetch produced nothing — the
/// bare metadata carrying just the URL, so a link entry always keeps its URL.
pub open spec fn input_ok(c: Classified, e: Enrichment, r: ClipboardEntryInput) -> bool {
    match c {
        Classified::Files { paths, serialized, summary, hash } => {
            &&& r.content_type@ == "files"@
            &&& r.content_hash == hash
            &&& r.content == summary
            &&& r.text_content is None
            &&& r.ocr_text is None
            &&& r.image_path is None
            &&& r.file_paths == Some(serialized)
            &&& r.link_metadata is None
        },
        Classified::Image { bytes, hash } => {
            &&& r.content_type@ == "image"@
            &&& r.content_hash == hash
            &&& r.content@ == "Image"@
            &&& r.text_content is None
            &&& r.ocr_text == e.ocr_text
            &&& r.image_path == e.image_path
            &&& r.file_paths is None
            &&& r.link_metadata is None
        },
        Classified::Link { content, url, hash } => {
            &&& r.content_type@ == "link"@
            &&& r.content_hash == hash
            &&& r.content == content
            &&& r.text_content == Some(content)
            &&& r.ocr_text is None
            &&& r.image_path is None
            &&& r.file_paths is None
            &&& match e.link_metadata {
                Some(m) => r.link_metadata == Some(m),
                None => (r.link_metadata matches Some(m) && m.url@ == url.serialized@
                    && m.title is None && m.description is None && m.site_name is None),
            }
        },
        Classified::Text { content, hash } => {
            &&& r.content_type@ == "text"@
            &&& r.content_hash == hash
            &&& r.content == content
            &&& r.text_content == Some(content)
            &&& r.ocr_text is None
            &&& r.image_path is None
            &&& r.file_paths is None
            &&& r.link_metadata is None
        },
    }
}

impl Classified {
    /// Assembles the pre-provenance input for this capture and its
    /// enrichment, per [`input_ok`]; the result always populates exactly the
    /// field group of its kind.
    pub fn into_input(self, enrichment: Enrichment) -> (r: ClipboardEntryInput)
        ensures
            input_ok(self, enrichment, r),
            input_kind_consistent(r),
    {
        match self {
            Classified::Files { paths: _, serialized, summary, hash } => ClipboardEntryInput {
                content_type: String::from_str("files"),
                content_hash: hash,
                content: summary,
                text_content: None,
                ocr_text: None,
                image_path: None,
                file_paths: Some(serialized),
                link_metadata: None,
            },
            Classified::Image { bytes: _, hash } => ClipboardEntryInput {
                content_type: String::from_str("image"),
                content_hash: hash,
                content: String::from_str("Image"),
                text_content: None,
                ocr_text: enrichment.ocr_text,
                image_path: enrichment.image_path,
                file_paths: None,
                link_metadata: None,
            },
            Classified::Link { content, url, hash } => {
                let link_metadata = match enrichment.link_metadata {
                    Some(m) => Some(m),
                    None => Some(crate::link_metadata::empty_link_metadata(
                        url.serialized.as_str(),
                    )),
                };
                ClipboardEntryInput {
                    content_type: String::from_str("link"),
                    content_hash: hash,
                    content: content.clone(),
                    text_content: Some(content),
                    ocr_text: None,
                    image_path: None,
                    file_paths: None,
                    link_metadata,
                }
            },
            Classified::Text { content, hash } => ClipboardEntryInput {
                content_type: String::from_str("text"),
                content_hash: hash,
                content: content.clone(),
                text_content: Some(content),
                ocr_text: None,
                image_path: None,
                file_paths: None,
                link_metadata: None,
            },
        }
    }
}

/// Whether a snapshot offers a non-empty file list.
pub open spec fn has_files(files: Option<Vec<String>>) -> bool {
    match files {
        Some(fs) => fs@.len() > 0,
        None => false,
    }
}

/// Whether a snapshot offers non-empty image bytes.
pub open spec fn has_image(image: Option<Vec<u8>>) -> bool {
    match image {
        Some(b) => b@.len() > 0,
        None => false,
    }
}

/// The trimmed text of a snapshot, empty when no text is offered.
pub open spec fn text_trimmed(text: Option<String>) -> Seq<char> {
    match text {
        Some(t) => trimmed_of(t@),
        None => Seq::<char>::empty(),
    }
}

/// What classification owes for a snapshot: the first non-empty format in the
/// priority order file list, image, text; text splits into link and plain
/// text by URL parsing; each kind carries its canonical hash; an empty
/// snapshot classifies as nothing.
pub open spec fn classification_ok(
    files: Option<Vec<String>>,
    image: Option<Vec<u8>>,
    text: Option<String>,
    r: Option<Classified>,
) -> bool {
    if has_files(files) {
        match r {
            Some(Classified::Files { paths, serialized, summary, hash }) => {
            &&& paths@ == files.unwrap()@
            &&& serialized@ == json_paths_of(views_of(paths@))
            &&& summary@ == files_summary_of(views_of(paths@))
            &&& hash@ == text_digest_of(json_paths_of(views_of(paths@)))
            },
            _ => false,
        }
    } else if has_image(image) {
        match r {
            Some(Classified::Image { bytes, hash }) => bytes@ == image.unwrap()@ && hash@
                == digest_of(bytes@),
            _ => false,
        }
    } else if text_trimmed(text).len() > 0 {
        let t = text_trimmed(text);
        match parsed_link_of(text.unwrap()@) {
            Some(u) => match r {
                Some(Classified::Link { content, url, hash }) => content@ == t && url.serialized@
                    == u && hash@ == text_digest_of(t),
                _ => false,
            },
            None => match r {
                Some(Classified::Text { content, hash }) => content@ == t && hash@
                    == text_digest_of(t),
                _ => false,
            },
        }
    } else {
        r is None
    }
}

/// Classifies one clipboard snapshot, selecting exactly one kind per cycle in
/// the fixed priority order, per [`classification_ok`].
pub fn classify_capture(
    files: Option<Vec<String>>,
    image: Option<Vec<u8>>,
    text: Option<String>,
) -> (r: Option<Classified>)
    ensures
        classification_ok(files, image, text, r),
{
    let files_nonempty = match &files {
        Some(fs) => fs.len() > 0,
        None => false,
    };
    if files_nonempty {
        let fs = files.unwrap();
        let serialized = serialize_file_list(&fs);
        let hash = hash_string(serialized.as_str());
        let summary = summarize_file_paths(&fs);
        return Some(Classified::Files { paths: fs, serialized, summary, hash });
    }
    let image_nonempty = match &image {
        Some(b) => b.len() > 0,
        None => false,
    };
    if image_nonempty {
        let bytes = image.unwrap();
        let hash = hash_bytes(bytes.as_slice());
        return Some(Classified::Image { bytes, hash });
    }
    match text {
        Some(t) => {
            let trimmed = trim_str(t.as_str());
            if trimmed.as_str().unicode_len() == 0 {
                return None;
            }
            let hash = hash_string(trimmed.as_str());
            match parse_link_url(t.as_str()) {
                Some(url) => Some(Classified::Link { content: trimmed, url, hash }),
                None => Some(Classified::Text { content: trimmed, hash }),
            }
        },
        None => None,
    }
}

/// Assembles the record for a capture: the input's fields, link metadata
/// flattened into the link columns, and the given best-effort provenance.
pub fn build_entry(
    input: ClipboardEntryInput,
    source_app_title: Option<String>,
    source_exe_path: Option<String>,
) -> (r: ClipboardEntry)
    ensures
        r == built_entry_of(input, source_app_title, source_exe_path),
{
    let ClipboardEntryInput {
        content_type,
        content_hash,
        content,
        text_content,
        ocr_text,
        image_path,
        file_paths,
        link_metadata,
    } = input;
    let (link_url, link_title, link_description, link_site_name) = match link_metadata {
        Some(m) => (Some(m.url), m.title, m.description, m.site_name),
        None => (None, None, None, None),
    };
    ClipboardEntry {
        content_type,
        content_hash,
        content,
        text_content,
        ocr_text,
        image_path,
        file_paths,
        link_url,
        link_title,
        link_description,
        link_site_name,
        source_app_title,
        source_exe_path,
    }
}

/// Assembling a kind-consistent input into a record keeps it kind
/// consistent, whatever provenance is attached: exactly one kind group of
/// the persisted row is populated.
pub proof fn lemma_built_entry_kind_consistent(
    input: ClipboardEntryInput,
    source_app_title: Option<String>,
    source_exe_path: Option<String>,
)
    requires
        input_kind_consistent(input),
    ensures
        entry_kind_consistent(built_entry_of(input, source_app_title, source_exe_path)),
{
}

/// The capture loop's suppression state: the baseline digest of the most
/// recently accepted content, and the one-shot ignore marker the UI sets
/// before writing to the clipboard itself.
pub struct CaptureState {
    pub last_hash: Option<String>,
    pub ignore_marker: Option<String>,
}

/// The suppression state as the contracts see it.
pub struct CaptureModel {
    pub last: Option<Seq<char>>,
    pub marker: Option<Seq<char>>,
}

/// What the loop does with a digest.
#[derive(PartialEq, Eq, Structural, Clone, Copy, Debug)]
pub enum CaptureDecision {
    Persist,
    SkipDuplicate,
    SkipIgnored,
}

/// The decision for a digest: equal to the baseline, skip; else equal to the
/// pending ignore marker, treat as already seen; else persist. The baseline
/// comparison comes first, so a consumed marker's digest later dedups as a
/// plain adjacent duplicate.
pub open spec fn decision_of(m: CaptureModel, h: Seq<char>) -> CaptureDecision {
    if m.last == Some(h) {
        CaptureDecision::SkipDuplicate
    } else if m.marker == Some(h) {
        CaptureDecision::SkipIgnored
    } else {
        CaptureDecision::Persist
    }
}

/// The state after a cycle on digest `h`: a duplicate changes nothing; an
/// ignored digest advances the baseline and consumes the marker; a persisted
/// digest advances the baseline and leaves the marker pending; a failed
/// persist changes nothing, so the content retries next tick.
pub open spec fn model_after(m: CaptureModel, h: Seq<char>, persisted: bool) -> CaptureModel {
    if decision_of(m, h) is SkipDuplicate {
        m
    } else if decision_of(m, h) is SkipIgnored {
        CaptureModel { last: Some(h), marker: None }
    } else if persisted {
        CaptureModel { last: Some(h), marker: m.marker }
    } else {
        m
    }
}

fn opt_hash_eq(o: &Option<String>, s: &str) -> (r: bool)
    ensures
        r == (opt_view(*o) == Some(s@)),
{
    match o {
        Some(v) => str_eq(v.as_str(), s),
        None => false,
    }
}

impl CaptureState {
    /// The state as the contracts see it.
    pub open spec fn model(self) -> CaptureModel {
        CaptureModel { last: opt_view(self.last_hash), marker: opt_view(self.ignore_marker) }
    }

    /// A fresh state: no baseline, no pending marker.
    pub fn new() -> (r: Self)
        ensures
            r.model() == (CaptureModel { last: None, marker: None }),
    {
        CaptureState { last_hash: None, ignore_marker: None }
    }

    /// A state whose baseline is the store's most recent hash, as the loop
    /// starts from after opening the store.
    pub fn with_baseline(last_hash: Option<String>) -> (r: Self)
        ensures
            r.model() == (CaptureModel { last: opt_view(last_hash), marker: None }),
    {
        CaptureState { last_hash, ignore_marker: None }
    }

    /// Arms the one-shot ignore marker: the next capture of this digest is
    /// treated as already seen. A second arming overwrites the first.
    pub fn set_ignore_marker(&mut self, hash: String)
        ensures
            final(self).model() == (CaptureModel {
                last: old(self).model().last,
                marker: Some(hash@),
            }),
    {
        self.ignore_marker = Some(hash);
    }

    /// The decision for a digest, per [`decision_of`]. The loop consults this
    /// before any enrichment work, so an unchanged clipboard never costs a
    /// fetch or an OCR pass.
    pub fn decide(&self, hash: &str) -> (r: CaptureDecision)
        ensures
            r == decision_of(self.model(), hash@),
    {
        if opt_hash_eq(&self.last_hash, hash) {
            CaptureDecision::SkipDuplicate
        } else if opt_hash_eq(&self.ignore_marker, hash) {
            CaptureDecision::SkipIgnored
        } else {
            CaptureDecision::Persist
        }
    }
}

/// How a capture cycle ended.
#[derive(PartialEq, Eq, Structural, Debug)]
pub enum CaptureOutcome {
    /// A row was appended under this id and the baseline advanced.
    Persisted(u64),
    /// The digest equalled the baseline; nothing changed.
    SkippedDuplicate,
    /// The digest matched the pending ignore marker: the baseline advanced,
    /// the marker was consumed, no row was written.
    SkippedIgnored,
    /// The store could not assign an id; nothing changed, so the same content
    /// is retried on the next tick.
    StoreFull,
}

/// Finishes one capture cycle for an assembled record: applies the decision
/// for its digest, persists when owed, and updates the suppression state, per
/// [`decision_of`] and [`model_after`]. Whatever enrichment produced — full
/// link metadata, bare fields after a timed-out fetch, absent OCR text — the
/// record is persisted whenever its digest calls for it.
pub fn complete_capture(
    state: &mut CaptureState,
    store: &mut HistoryStore,
    entry: ClipboardEntry,
    created_at: i64,
) -> (r: CaptureOutcome)
    requires
        old(store).wf(),
    ensures
        final(store).wf(),
        decision_of(old(state).model(), entry.content_hash@) is SkipDuplicate <==> r
            is SkippedDuplicate,
        decision_of(old(state).model(), entry.content_hash@) is SkipIgnored <==> r
            is SkippedIgnored,
        decision_of(old(state).model(), entry.content_hash@) is Persist ==> (r is Persisted
            <==> old(store).next_id_spec() < u64::MAX),
        (r matches CaptureOutcome::Persisted(id) ==> id == old(store).next_id_spec()
            && final(store).entries_seq() == old(store).entries_seq().push(
            stored_of(entry, id, created_at),
        )),
        !(r is Persisted) ==> final(store).entries_seq() == old(store).entries_seq(),
        final(state).model() == model_after(
            old(state).model(),
            entry.content_hash@,
            r is Persisted,
        ),
{
    let decision = state.decide(entry.content_hash.as_str());
    match decision {
        CaptureDecision::SkipDuplicate => CaptureOutcome::SkippedDuplicate,
        CaptureDecision::SkipIgnored => {
            state.ignore_marker = None;
            state.last_hash = Some(entry.content_hash);
            CaptureOutcome::SkippedIgnored
        },
        CaptureDecision::Persist => {
            let hash = entry.content_hash.clone();
            match store.insert_clipboard_entry(entry, created_at) {
                Some(id) => {
                    state.last_hash = Some(hash);
                    CaptureOutcome::Persisted(id)
                },
                None => CaptureOutcome::StoreFull,
            }
        },
    }
}

/// Adjacent deduplication: once a digest is persisted, an immediately
/// repeated capture of the same digest is skipped and changes nothing —
/// identical content twice in a row yields exactly one row.
pub proof fn lemma_adjacent_dedup(m: CaptureModel, h: Seq<char>, persisted_again: bool)
    requires
        decision_of(m, h) is Persist,
    ensures
        decision_of(model_after(m, h, true), h) is SkipDuplicate,
        model_after(model_after(m, h, true), h, persisted_again) == model_after(m, h, true),
{
}

/// Non-adjacent repeats are kept: capturing `a`, then a different `b`, then
/// `a` again persists all three — deduplication compares only against the
/// single most recent digest, never the whole history.
pub proof fn lemma_nonadjacent_repeat_persists(m: CaptureModel, a: Seq<char>, b: Seq<char>)
    requires
        a != b,
        decision_of(m, a) is Persist,
        m.marker != Some(b),
    ensures
        decision_of(model_after(m, a, true), b) is Persist,
        decision_of(model_after(model_after(m, a, true), b, true), a) is Persist,
{
}

/// Ignore-marker consumption: a pending marker equal to the digest makes the
/// cycle advance the baseline without persisting and consumes the marker; the
/// same digest captured again is then an ordinary adjacent duplicate.
pub proof fn lemma_ignore_marker_consumed(m: CaptureModel, h: Seq<char>, persisted: bool)
    requires
        m.marker == Some(h),
        m.last != Some(h),
    ensures
        decision_of(m, h) is SkipIgnored,
        model_after(m, h, persisted).last == Some(h),
        model_after(m, h, persisted).marker is None,
        decision_of(model_after(m, h, persisted), h) is SkipDuplicate,
{
}

/// No premature consumption: a capture of a digest different from the pending
/// marker persists normally and leaves the marker pending, so a later capture
/// of the marked digest is still ignored.
pub proof fn lemma_ignore_marker_pending(m: CaptureModel, g: Seq<char>, h: Seq<char>)
    requires
        m.marker == Some(h),
        g != h,
        m.last != Some(g),
    ensures
        decision_of(m, g) is Persist,
        model_after(m, g, true).marker == Some(h),
        decision_of(model_after(m, g, true), h) is SkipIgnored,
{
}

/// A failed persist does not advance the baseline: the same digest decides
/// `Persist` again on the next tick, so content is retried rather than
/// silently dropped.
pub proof fn lemma_failed_persist_retries(m: CaptureModel, h: Seq<char>)
    requires
        decision_of(m, h) is Persist,
    ensures
        model_after(m, h, false) == m,
        decision_of(model_after(m, h, false), h) is Persist,
{
}

} // verus!
