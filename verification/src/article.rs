//! What the client sends when they post an article.

use crate::content::ArticleContent;
use crate::section::Section;
use vstd::prelude::*;

verus! {

/// A client-submitted article: its rich-text content and its metadata.
pub struct ClientArticle<'a> {
    pub content: ArticleContent,
    pub writer_id: i32,
    pub section: Section,
    pub focus: &'a str,
    pub image_url: Option<&'a str>,
    pub drive_file_id: Option<&'a str>,
    pub featured: Option<bool>,
}

} // verus!
