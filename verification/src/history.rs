//! The durable history of captured entries: an append-only table with a
//! most-recent-hash lookup, deletion by identity, and a filtered, paginated,
//! newest-first read path.
//!
//! Search follows AND-across-tokens, OR-across-fields semantics: the filter
//! text splits on white space, and a row matches when every token is an
//! ASCII-case-insensitive substring of at least one searchable field.

use vstd::prelude::*;
use crate::text::{contains_ci, contains_token_ci, opt_view, split_tokens, tokens_of, views_of};
use crate::types::ClipboardEntry;

verus! {

/// One persisted row: immutable after insert, ordered by `id`, with
/// descending `id` as the canonical newest-first ordering.
pub struct StoredEntry {
    pub id: u64,
    pub created_at: i64,
    pub content_type: String,
    pub content_hash: String,
    pub content: String,
    pub text_content: Option<String>,
    pub ocr_text: Option<String>,
    pub image_path: Option<String>,
    pub file_paths: Option<String>,
    pub link_url: Option<String>,
    pub link_title: Option<String>,
    pub link_description: Option<String>,
    pub link_site_name: Option<String>,
    pub source_app_title: Option<String>,
    pub source_exe_path: Option<String>,
}

fn clone_opt_string(o: &Option<String>) -> (r: Option<String>)
    ensures
        r == *o,
{
    match o {
        Some(s) => Some(s.clone()),
        None => None,
    }
}

impl StoredEntry {
    /// An equal copy of the row.
    pub fn duplicate(&self) -> (r: Self)
        ensures
            r == *self,
    {
        StoredEntry {
            id: self.id,
            created_at: self.created_at,
            content_type: self.content_type.clone(),
            content_hash: self.content_hash.clone(),
            content: self.content.clone(),
            text_content: clone_opt_string(&self.text_content),
            ocr_text: clone_opt_string(&self.ocr_text),
            image_path: clone_opt_string(&self.image_path),
            file_paths: clone_opt_string(&self.file_paths),
            link_url: clone_opt_string(&self.link_url),
            link_title: clone_opt_string(&self.link_title),
            link_description: clone_opt_string(&self.link_description),
            link_site_name: clone_opt_string(&self.link_site_name),
            source_app_title: clone_opt_string(&self.source_app_title),
            source_exe_path: clone_opt_string(&self.source_exe_path),
        }
    }
}

/// The display payload handed back when the user copies a row: its text
/// content, else its file path list, else the raw content string.
pub open spec fn payload_of(e: StoredEntry) -> Seq<char> {
    match e.text_content {
        Some(t) => t@,
        None => match e.file_paths {
            Some(f) => f@,
            None => e.content@,
        },
    }
}

/// Resolves the copy payload of a row, per [`payload_of`].
pub fn copy_payload(e: &StoredEntry) -> (r: String)
    ensures
        r@ == payload_of(*e),
{
    match &e.text_content {
        Some(t) => t.clone(),
        None => match &e.file_paths {
            Some(f) => f.clone(),
            None => e.content.clone(),
        },
    }
}

/// Whether an optional field holds the token as an ASCII-case-insensitive
/// substring.
pub open spec fn opt_field_matches(o: Option<String>, t: Seq<char>) -> bool {
    match o {
        Some(s) => contains_token_ci(s@, t),
        None => false,
    }
}

/// Whether a row matches one search token: the token occurs in at least one
/// of the ten searchable fields.
pub open spec fn entry_matches_token(e: StoredEntry, t: Seq<char>) -> bool {
    ||| contains_token_ci(e.content@, t)
    ||| opt_field_matches(e.text_content, t)
    ||| opt_field_matches(e.ocr_text, t)
    ||| opt_field_matches(e.file_paths, t)
    ||| opt_field_matches(e.link_url, t)
    ||| opt_field_matches(e.link_title, t)
    ||| opt_field_matches(e.link_description, t)
    ||| opt_field_matches(e.link_site_name, t)
    ||| opt_field_matches(e.source_app_title, t)
    ||| opt_field_matches(e.source_exe_path, t)
}

/// Whether a row matches a whole search: every token matches some field.
pub open spec fn entry_matches(e: StoredEntry, tokens: Seq<Seq<char>>) -> bool {
    forall|i: int| 0 <= i < tokens.len() ==> entry_matches_token(e, #[trigger] tokens[i])
}

/// The rows that match the tokens, newest first: the store keeps rows oldest
/// first, so the result reverses the matching subsequence.
pub open spec fn filtered_newest_first(
    s: Seq<StoredEntry>,
    tokens: Seq<Seq<char>>,
) -> Seq<StoredEntry>
    decreases s.len(),
{
    if s.len() == 0 {
        Seq::<StoredEntry>::empty()
    } else {
        let rest = filtered_newest_first(s.drop_first(), tokens);
        if entry_matches(s[0], tokens) {
            rest.push(s[0])
        } else {
            rest
        }
    }
}

/// The tokens of an optional filter text: none for an absent filter.
pub open spec fn query_tokens(q: Option<Seq<char>>) -> Seq<Seq<char>> {
    match q {
        Some(s) => tokens_of(s),
        None => Seq::<Seq<char>>::empty(),
    }
}

/// One page of a result sequence: `limit` rows starting at `offset`, fewer at
/// the end, none past it.
pub open spec fn page_of(rs: Seq<StoredEntry>, offset: int, limit: int) -> Seq<StoredEntry> {
    if offset >= rs.len() || limit <= 0 || offset < 0 {
        Seq::<StoredEntry>::empty()
    } else if offset + limit <= rs.len() {
        rs.subrange(offset, offset + limit)
    } else {
        rs.subrange(offset, rs.len() as int)
    }
}

/// Whether row ids strictly increase with position.
pub open spec fn ids_sorted(s: Seq<StoredEntry>) -> bool {
    forall|i: int, j: int| 0 <= i < j < s.len() ==> (#[trigger] s[i]).id < (#[trigger] s[j]).id
}

/// The rows left after deleting one id: every row but those carrying it, in
/// order.
pub open spec fn deleted_of(s: Seq<StoredEntry>, id: u64) -> Seq<StoredEntry>
    decreases s.len(),
{
    if s.len() == 0 {
        Seq::<StoredEntry>::empty()
    } else {
        let rest = deleted_of(s.drop_last(), id);
        if s.last().id == id {
            rest
        } else {
            rest.push(s.last())
        }
    }
}

proof fn lemma_deleted_of_props(s: Seq<StoredEntry>, id: u64, b: u64)
    requires
        ids_sorted(s),
        forall|i: int| 0 <= i < s.len() ==> (#[trigger] s[i]).id < b,
    ensures
        ids_sorted(deleted_of(s, id)),
        forall|k: int|
            0 <= k < deleted_of(s, id).len() ==> (#[trigger] deleted_of(s, id)[k]).id < b,
        forall|k: int|
            0 <= k < deleted_of(s, id).len() ==> (#[trigger] deleted_of(s, id)[k]).id != id,
    decreases s.len(),
{
    if s.len() > 0 {
        let t = s.drop_last();
        assert(forall|i: int| 0 <= i < t.len() ==> t[i] == s[i]);
        lemma_deleted_of_props(t, id, b);
        if s.last().id != id {
            lemma_deleted_of_props(t, id, s.last().id);
        }
    }
}

/// The record a capture persists as, under an assigned id and timestamp.
pub open spec fn stored_of(e: ClipboardEntry, id: u64, created_at: i64) -> StoredEntry {
    StoredEntry {
        id,
        created_at,
        content_type: e.content_type,
        content_hash: e.content_hash,
        content: e.content,
        text_content: e.text_content,
        ocr_text: e.ocr_text,
        image_path: e.image_path,
        file_paths: e.file_paths,
        link_url: e.link_url,
        link_title: e.link_title,
        link_description: e.link_description,
        link_site_name: e.link_site_name,
        source_app_title: e.source_app_title,
        source_exe_path: e.source_exe_path,
    }
}

/// The hash of the newest row, the sole baseline for adjacent-duplicate
/// suppression.
pub open spec fn last_hash_of(s: Seq<StoredEntry>) -> Option<Seq<char>> {
    if s.len() == 0 {
        None
    } else {
        Some(s.last().content_hash@)
    }
}

/// The append-only history store. Rows are held oldest first; ids are
/// assigned monotonically at insert and never reused.
pub struct HistoryStore {
    entries: Vec<StoredEntry>,
    next_id: u64,
}

impl HistoryStore {
    /// The rows held, oldest first.
    pub closed spec fn entries_seq(self) -> Seq<StoredEntry> {
        self.entries@
    }

    /// The id the next insert will assign.
    pub closed spec fn next_id_spec(self) -> u64 {
        self.next_id
    }

    /// Ids strictly increase with position and stay below the next id.
    pub closed spec fn wf(self) -> bool {
        &&& ids_sorted(self.entries@)
        &&& forall|i: int|
            0 <= i < self.entries@.len() ==> (#[trigger] self.entries@[i]).id < self.next_id
    }

    /// An empty store.
    pub fn new() -> (r: Self)
        ensures
            r.wf(),
            r.entries_seq() == Seq::<StoredEntry>::empty(),
            r.next_id_spec() == 1u64,
    {
        HistoryStore { entries: Vec::new(), next_id: 1 }
    }

    /// The number of rows held.
    pub fn len(&self) -> (r: usize)
        ensures
            r == self.entries_seq().len(),
    {
        self.entries.len()
    }

    /// The `content_hash` of the row with the greatest id, or absence when
    /// the store is empty.
    pub fn load_last_hash(&self) -> (r: Option<String>)
        ensures
            opt_view(r) == last_hash_of(self.entries_seq()),
    {
        if self.entries.len() == 0 {
            None
        } else {
            Some(self.entries[self.entries.len() - 1].content_hash.clone())
        }
    }

    /// Appends one immutable row under a fresh id and the given timestamp,
    /// returning the id. Fails only when the id space is exhausted, leaving
    /// the store unchanged.
    pub fn insert_clipboard_entry(&mut self, entry: ClipboardEntry, created_at: i64) -> (r: Option<
        u64,
    >)
        requires
            old(self).wf(),
        ensures
            final(self).wf(),
            r is Some <==> old(self).next_id_spec() < u64::MAX,
            (r matches Some(id) ==> id == old(self).next_id_spec()
                && final(self).entries_seq() == old(self).entries_seq().push(
                stored_of(entry, id, created_at),
            ) && final(self).next_id_spec() == old(self).next_id_spec() + 1),
            r is None ==> final(self).entries_seq() == old(self).entries_seq()
                && final(self).next_id_spec() == old(self).next_id_spec(),
    {
        if self.next_id == u64::MAX {
            return None;
        }
        let id = self.next_id;
        let row = StoredEntry {
            id,
            created_at,
            content_type: entry.content_type,
            content_hash: entry.content_hash,
            content: entry.content,
            text_content: entry.text_content,
            ocr_text: entry.ocr_text,
            image_path: entry.image_path,
            file_paths: entry.file_paths,
            link_url: entry.link_url,
            link_title: entry.link_title,
            link_description: entry.link_description,
            link_site_name: entry.link_site_name,
            source_app_title: entry.source_app_title,
            source_exe_path: entry.source_exe_path,
        };
        self.entries.push(row);
        self.next_id = self.next_id + 1;
        Some(id)
    }

    /// Removes the row with the given id; a missing id is a no-op, not an
    /// error.
    pub fn delete_clipboard_entry(&mut self, id: u64)
        requires
            old(self).wf(),
        ensures
            final(self).wf(),
            final(self).entries_seq() == deleted_of(old(self).entries_seq(), id),
            final(self).next_id_spec() == old(self).next_id_spec(),
    {
        let n = self.entries.len();
        let mut out: Vec<StoredEntry> = Vec::new();
        let mut i: usize = 0;
        while i < n
            invariant
                i <= n,
                n == self.entries@.len(),
                out@ == deleted_of(self.entries@.subrange(0, i as int), id),
            decreases n - i,
        {
            proof {
                let p = self.entries@.subrange(0, i as int);
                let q = self.entries@.subrange(0, i + 1);
                assert(q.drop_last() =~= p);
                assert(q.last() == self.entries@[i as int]);
            }
            if self.entries[i].id != id {
                out.push(self.entries[i].duplicate());
            }
            i = i + 1;
        }
        proof {
            assert(self.entries@.subrange(0, n as int) =~= self.entries@);
            lemma_deleted_of_props(self.entries@, id, self.next_id);
        }
        self.entries = out;
    }

    /// One page of the rows matching an optional filter text, newest first:
    /// `limit` rows starting `offset` rows into the filtered ordering. Every
    /// token of the filter must occur in some searchable field of a returned
    /// row.
    pub fn load_entries_page(&self, query: Option<&str>, offset: usize, limit: usize) -> (r: Vec<
        StoredEntry,
    >)
        ensures
            r@ == page_of(
                filtered_newest_first(
                    self.entries_seq(),
                    query_tokens(
                        match query {
                            Some(q) => Some(q@),
                            None => None,
                        },
                    ),
                ),
                offset as int,
                limit as int,
            ),
    {
        let tokens: Vec<String> = match query {
            Some(q) => split_tokens(q),
            None => Vec::new(),
        };
        proof {
            assert(views_of(Seq::<String>::empty()) =~= Seq::<Seq<char>>::empty());
        }
        let ghost toks = views_of(tokens@);
        let n = self.entries.len();
        let mut out: Vec<StoredEntry> = Vec::new();
        let mut count: usize = 0;
        let mut j: usize = n;
        while j > 0
            invariant
                j <= n,
                n == self.entries@.len(),
                toks == views_of(tokens@),
                count == filtered_newest_first(
                    self.entries@.subrange(j as int, n as int),
                    toks,
                ).len(),
                out@ == page_of(
                    filtered_newest_first(self.entries@.subrange(j as int, n as int), toks),
                    offset as int,
                    limit as int,
                ),
                count <= n - j,
                out@.len() <= limit,
            decreases j,
        {
            j = j - 1;
            let ghost suffix = self.entries@.subrange(j as int, n as int);
            let ghost prev = self.entries@.subrange(j + 1, n as int);
            proof {
                assert(suffix.drop_first() =~= prev);
                assert(suffix[0] == self.entries@[j as int]);
            }
            let ghost fprev = filtered_newest_first(prev, toks);
            let ghost fcur = filtered_newest_first(suffix, toks);
            if entry_matches_exec(&self.entries[j], &tokens) {
                proof {
                    assert(fcur == fprev.push(self.entries@[j as int]));
                }
                if count >= offset && out.len() < limit {
                    out.push(self.entries[j].duplicate());
                    proof {
                        let o = offset as int;
                        let l = limit as int;
                        assert(out@.drop_last() =~= page_of(fprev, o, l));
                        if o + l <= fcur.len() {
                            assert(out@ =~= fcur.subrange(o, o + l));
                        } else {
                            assert(out@ =~= fcur.subrange(o, fcur.len() as int));
                        }
                    }
                } else {
                    proof {
                        let o = offset as int;
                        let l = limit as int;
                        if count < offset {
                            assert(page_of(fcur, o, l) =~= page_of(fprev, o, l));
                        } else {
                            assert(fprev.len() >= o + l);
                            assert(fcur.subrange(o, o + l) =~= fprev.subrange(o, o + l));
                        }
                    }
                }
                count = count + 1;
            } else {
                proof {
                    assert(fcur == fprev);
                }
            }
        }
        proof {
            assert(self.entries@.subrange(0, n as int) =~= self.entries@);
        }
        out
    }
}

fn opt_contains(o: &Option<String>, t: &str) -> (r: bool)
    ensures
        r == opt_field_matches(*o, t@),
{
    match o {
        Some(s) => contains_ci(s.as_str(), t),
        None => false,
    }
}

fn entry_matches_token_exec(e: &StoredEntry, t: &str) -> (r: bool)
    ensures
        r == entry_matches_token(*e, t@),
{
    contains_ci(e.content.as_str(), t) || opt_contains(&e.text_content, t) || opt_contains(
        &e.ocr_text,
        t,
    ) || opt_contains(&e.file_paths, t) || opt_contains(&e.link_url, t) || opt_contains(
        &e.link_title,
        t,
    ) || opt_contains(&e.link_description, t) || opt_contains(&e.link_site_name, t)
        || opt_contains(&e.source_app_title, t) || opt_contains(&e.source_exe_path, t)
}

fn entry_matches_exec(e: &StoredEntry, tokens: &Vec<String>) -> (r: bool)
    ensures
        r == entry_matches(*e, views_of(tokens@)),
{
    let mut i: usize = 0;
    while i < tokens.len()
        invariant
            i <= tokens@.len(),
            forall|k: int|
                0 <= k < i ==> entry_matches_token(*e, #[trigger] views_of(tokens@)[k]),
        decreases tokens@.len() - i,
    {
        if !entry_matches_token_exec(e, tokens[i].as_str()) {
            proof {
                assert(views_of(tokens@)[i as int] == tokens@[i as int]@);
            }
            return false;
        }
        i = i + 1;
    }
    true
}

/// Reading pages of a fixed size at increasing offsets partitions the result
/// sequence: the pages concatenate to an initial segment, and once the
/// offsets pass the end, to the whole sequence — every row exactly once,
/// newest first, with no duplicates and no gaps.
pub open spec fn pages_concat(rs: Seq<StoredEntry>, size: int, k: int) -> Seq<StoredEntry>
    decreases k,
{
    if k <= 0 {
        Seq::<StoredEntry>::empty()
    } else {
        pages_concat(rs, size, k - 1) + page_of(rs, (k - 1) * size, size)
    }
}

/// The pagination law: `k` pages of `size` rows concatenate to the first
/// `k * size` rows of the result sequence, and cover all of it once
/// `k * size` reaches its length.
pub proof fn lemma_pages_cover(rs: Seq<StoredEntry>, size: int, k: int)
    requires
        size >= 1,
        k >= 0,
    ensures
        k * size <= rs.len() ==> pages_concat(rs, size, k) == rs.subrange(0, k * size),
        k * size >= rs.len() ==> pages_concat(rs, size, k) == rs,
    decreases k,
{
    if k == 0 {
        assert(rs.subrange(0, 0) =~= Seq::<StoredEntry>::empty());
    } else {
        lemma_pages_cover(rs, size, k - 1);
        let prev: int = (k - 1) * size;
        assert(k * size == prev + size && prev >= 0) by (nonlinear_arith)
            requires
                prev == (k - 1) * size,
                k >= 1,
                size >= 1,
        ;
        let page = page_of(rs, prev, size);
        if prev >= rs.len() {
            assert(page =~= Seq::<StoredEntry>::empty());
            assert(pages_concat(rs, size, k - 1) == rs);
            assert(pages_concat(rs, size, k) =~= rs);
        } else {
            assert(pages_concat(rs, size, k - 1) == rs.subrange(0, prev));
            if prev + size <= rs.len() {
                assert(page == rs.subrange(prev, prev + size));
                assert(rs.subrange(0, prev) + rs.subrange(prev, prev + size) =~= rs.subrange(
                    0,
                    prev + size,
                ));
            } else {
                assert(page == rs.subrange(prev, rs.len() as int));
                assert(rs.subrange(0, prev) + rs.subrange(prev, rs.len() as int) =~= rs);
            }
        }
    }
}

} // verus!
