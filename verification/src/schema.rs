//! The persisted schema lineage of the history table.
//!
//! The table starts with the base capture columns and grows by two additive
//! migrations: one adds the OCR text column, one the four link metadata
//! columns. Migrations only ever add nullable columns, so every version's
//! column list extends the previous one.

use vstd::prelude::*;
use crate::text::views_of;

verus! {

/// The current schema version: the base table plus both additive migrations.
pub const SCHEMA_VERSION: u32 = 3;

/// The columns of the base table, in declaration order.
pub open spec fn base_columns() -> Seq<Seq<char>> {
    seq![
        "id"@,
        "content"@,
        "created_at"@,
        "content_type"@,
        "content_hash"@,
        "text_content"@,
        "image_path"@,
        "file_paths"@,
        "source_app_title"@,
        "source_exe_path"@,
    ]
}

/// The columns of the table at a schema version: the base columns, then the
/// OCR text column, then the link metadata columns. Versions beyond the
/// current one carry the current layout.
pub open spec fn schema_columns_of(version: u32) -> Seq<Seq<char>> {
    if version <= 1 {
        base_columns()
    } else if version == 2 {
        base_columns() + seq!["ocr_text"@]
    } else {
        base_columns() + seq![
            "ocr_text"@,
            "link_url"@,
            "link_title"@,
            "link_description"@,
            "link_site_name"@,
        ]
    }
}

/// The column list of the table at a schema version.
pub fn schema_columns(version: u32) -> (r: Vec<String>)
    ensures
        views_of(r@) == schema_columns_of(version),
{
    let mut cols: Vec<String> = Vec::new();
    cols.push(String::from_str("id"));
    cols.push(String::from_str("content"));
    cols.push(String::from_str("created_at"));
    cols.push(String::from_str("content_type"));
    cols.push(String::from_str("content_hash"));
    cols.push(String::from_str("text_content"));
    cols.push(String::from_str("image_path"));
    cols.push(String::from_str("file_paths"));
    cols.push(String::from_str("source_app_title"));
    cols.push(String::from_str("source_exe_path"));
    if version >= 2 {
        cols.push(String::from_str("ocr_text"));
    }
    if version >= 3 {
        cols.push(String::from_str("link_url"));
        cols.push(String::from_str("link_title"));
        cols.push(String::from_str("link_description"));
        cols.push(String::from_str("link_site_name"));
    }
    proof {
        assert(views_of(cols@) =~= schema_columns_of(version));
    }
    cols
}

/// The schema versions still to apply when the store was last opened at
/// `from`, in ascending order; empty when the store is current.
pub fn pending_migrations(from: u32) -> (r: Vec<u32>)
    ensures
        r@.len() == (if from < SCHEMA_VERSION {
            SCHEMA_VERSION - from
        } else {
            0
        }),
        forall|k: int| 0 <= k < r@.len() ==> r@[k] == from + 1 + k,
{
    let mut out: Vec<u32> = Vec::new();
    let mut v: u32 = from;
    while v < SCHEMA_VERSION
        invariant
            from <= v <= SCHEMA_VERSION || (from > SCHEMA_VERSION && v == from),
            out@.len() == v - from,
            forall|k: int| 0 <= k < out@.len() ==> out@[k] == from + 1 + k,
        decreases SCHEMA_VERSION - v,
    {
        v = v + 1;
        out.push(v);
    }
    out
}

/// The migration lineage is additive-only: the column list of every schema
/// version is a prefix of the next version's, so no migration removes or
/// reorders a column.
pub proof fn lemma_migrations_additive(version: u32, next: u32)
    requires
        version >= 1,
        next == version + 1,
    ensures
        schema_columns_of(version).is_prefix_of(schema_columns_of(next)),
{
    let a = schema_columns_of(version);
    let b = schema_columns_of(next);
    assert(a =~= b.subrange(0, a.len() as int));
}

} // verus!
