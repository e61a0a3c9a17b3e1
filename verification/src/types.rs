//! The captured clipboard record and the per-kind input it is assembled from.

use vstd::prelude::*;
use crate::link_metadata::LinkMetadata;

verus! {

/// A fully assembled capture record, ready to persist. Exactly one of the
/// kind-specific optional groups is populated per content type; the others
/// stay absent.
pub struct ClipboardEntry {
    pub content_type: String,
    pub content_hash: String,
    pub content: String,
    pub text_content: Option<String>,
    pub ocr_text: Option<String>,
    pub image_path: Option<String>,
    pub file_paths: Option<String>,
    pub link_url: Option<String>,
    pub link_title: Option<String>,
    pub link_description: Option<String>,
    pub link_site_name: Option<String>,
    pub source_app_title: Option<String>,
    pub source_exe_path: Option<String>,
}

/// What a capture cycle knows before provenance is attached: the classified
/// kind, its canonical hash, the display string, and the kind's enrichment.
pub struct ClipboardEntryInput {
    pub content_type: String,
    pub content_hash: String,
    pub content: String,
    pub text_content: Option<String>,
    pub ocr_text: Option<String>,
    pub image_path: Option<String>,
    pub file_paths: Option<String>,
    pub link_metadata: Option<LinkMetadata>,
}

/// The record an input assembles into: link metadata flattened into the four
/// link columns, provenance as given.
pub open spec fn built_entry_of(
    input: ClipboardEntryInput,
    source_app_title: Option<String>,
    source_exe_path: Option<String>,
) -> ClipboardEntry {
    ClipboardEntry {
        content_type: input.content_type,
        content_hash: input.content_hash,
        content: input.content,
        text_content: input.text_content,
        ocr_text: input.ocr_text,
        image_path: input.image_path,
        file_paths: input.file_paths,
        link_url: match input.link_metadata {
            Some(m) => Some(m.url),
            None => None,
        },
        link_title: match input.link_metadata {
            Some(m) => m.title,
            None => None,
        },
        link_description: match input.link_metadata {
            Some(m) => m.description,
            None => None,
        },
        link_site_name: match input.link_metadata {
            Some(m) => m.site_name,
            None => None,
        },
        source_app_title,
        source_exe_path,
    }
}

/// Exactly one kind-specific group of a record's optional fields is
/// populated, matching its content type; the others are absent.
pub open spec fn entry_kind_consistent(e: ClipboardEntry) -> bool {
    ||| (e.content_type@ == "files"@ && e.text_content is None && e.ocr_text is None
        && e.image_path is None && e.file_paths is Some && e.link_url is None && e.link_title
        is None && e.link_description is None && e.link_site_name is None)
    ||| (e.content_type@ == "image"@ && e.text_content is None && e.file_paths is None
        && e.link_url is None && e.link_title is None && e.link_description is None
        && e.link_site_name is None)
    ||| (e.content_type@ == "text"@ && e.text_content is Some && e.ocr_text is None
        && e.image_path is None && e.file_paths is None && e.link_url is None && e.link_title
        is None && e.link_description is None && e.link_site_name is None)
    ||| (e.content_type@ == "link"@ && e.text_content is Some && e.ocr_text is None
        && e.image_path is None && e.file_paths is None && e.link_url is Some)
}

impl From<ClipboardEntryInput> for ClipboardEntry {
    /// Assembles the record for an input with no provenance attached.
    fn from(input: ClipboardEntryInput) -> (r: ClipboardEntry) {
        let ClipboardEntryInput {
            content_type,
            content_hash,
            content,
            text_content,
            ocr_text,
            image_path,
            file_paths,
            link_metadata,
        } = input;
        let (link_url, link_title, link_description, link_site_name) = match link_metadata {
            Some(m) => (Some(m.url), m.title, m.description, m.site_name),
            None => (None, None, None, None),
        };
        ClipboardEntry {
            content_type,
            content_hash,
            content,
            text_content,
            ocr_text,
            image_path,
            file_paths,
            link_url,
            link_title,
            link_description,
            link_site_name,
            source_app_title: None,
            source_exe_path: None,
        }
    }
}

impl vstd::std_specs::convert::FromSpecImpl<ClipboardEntryInput> for ClipboardEntry {
    open spec fn obeys_from_spec() -> bool {
        true
    }

    open spec fn from_spec(input: ClipboardEntryInput) -> ClipboardEntry {
        built_entry_of(input, None, None)
    }
}

} // verus!
