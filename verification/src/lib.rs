//! Verified core of a news-publication backend: the document-import
//! pipeline that turns an exported HTML/ZIP bundle into a structured
//! rich-text model, together with the small decision kernels of the
//! surrounding CRUD layer — pagination, slugs, sections, and role-based
//! access.

pub mod article;
pub mod article_submission;
pub mod assets;
pub mod auth;
pub mod content;
pub mod error;
pub mod gdrive;
pub mod html;
pub mod import;
pub mod numfmt;
pub mod paginated;
pub mod richtext;
pub mod section;
pub mod slug;
pub mod strutil;
pub mod style;
pub mod writer;

use vstd::prelude::*;

verus! {

} // verus!
