//! Writers: the stored row and the client-submitted form.

use vstd::prelude::*;

verus! {

/// A writer as the relational store holds it.
pub struct DBWriter {
    pub id: i32,
    pub first_name: String,
    pub last_name: String,
    pub title: String,
    pub bio: Option<String>,
    pub image_url: Option<String>,
}

/// What the client sends when they post a writer.
pub struct ClientWriter<'a> {
    pub first_name: &'a str,
    pub last_name: &'a str,
    pub title: &'a str,
    pub bio: Option<&'a str>,
    pub image_url: Option<&'a str>,
}

impl<'a> ClientWriter<'a> {
    pub fn new(
        first_name: &'a str,
        last_name: &'a str,
        title: &'a str,
        bio: Option<&'a str>,
        image_url: Option<&'a str>,
    ) -> (r: ClientWriter<'a>)
        ensures
            r.first_name == first_name,
            r.last_name == last_name,
            r.title == title,
            r.bio == bio,
            r.image_url == image_url,
    {
        ClientWriter { first_name, last_name, bio, title, image_url }
    }
}

} // verus!
