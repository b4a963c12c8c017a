//! Article submissions: the stored row and the client-submitted form.

use crate::section::Section;
use vstd::prelude::*;

verus! {

/// A submission as the relational store holds it.
pub struct DBArticleSubmission {
    pub id: i32,
    pub headline: String,
    pub focus: String,
    pub section: Section,
    pub author_id: i32,
    pub drive_file_id: String,
    pub thumbnail_url: Option<String>,
}

/// What the client sends when they post a submission.
pub struct ClientArticleSubmission<'a> {
    pub headline: &'a str,
    pub focus: &'a str,
    pub section: Section,
    pub author_id: i32,
    pub drive_file_id: &'a str,
    pub thumbnail_url: Option<&'a str>,
}

impl<'a> ClientArticleSubmission<'a> {
    pub fn new(
        headline: &'a str,
        focus: &'a str,
        section: Section,
        author_id: i32,
        drive_file_id: &'a str,
        thumbnail_url: Option<&'a str>,
    ) -> (r: ClientArticleSubmission<'a>)
        ensures
            r.headline == headline,
            r.focus == focus,
            r.section == section,
            r.author_id == author_id,
            r.drive_file_id == drive_file_id,
            r.thumbnail_url == thumbnail_url,
    {
        ClientArticleSubmission { headline, focus, section, author_id, drive_file_id, thumbnail_url }
    }
}

} // verus!
