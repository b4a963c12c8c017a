//! The document-source file listing as the client sees it: assembling a
//! listing row from the fields the remote service may or may not have
//! returned. Talking to the service itself is the calling layer's work.

use vstd::prelude::*;

verus! {

/// A remote document file as the client receives it.
pub struct ServerDriveFile {
    pub id: String,
    pub name: String,
    pub mime_type: String,
    pub web_view_link: String,
    pub author_name: String,
    pub author_email: String,
    pub author_picture: String,
}

impl ServerDriveFile {
    /// Assembles a listing row from the remote service's optional fields;
    /// fails exactly when any field is missing.
    pub fn from_parts(
        id: Option<String>,
        name: Option<String>,
        mime_type: Option<String>,
        web_view_link: Option<String>,
        author_name: Option<String>,
        author_email: Option<String>,
        author_picture: Option<String>,
    ) -> (r: Option<ServerDriveFile>)
        ensures
            match r {
                Some(f) => id == Some(f.id) && name == Some(f.name) && mime_type == Some(
                    f.mime_type,
                ) && web_view_link == Some(f.web_view_link) && author_name == Some(f.author_name)
                    && author_email == Some(f.author_email) && author_picture == Some(
                    f.author_picture,
                ),
                None => id is None || name is None || mime_type is None || web_view_link is None
                    || author_name is None || author_email is None || author_picture is None,
            },
    {
        match (id, name, mime_type, web_view_link, author_name, author_email, author_picture) {
            (
                Some(id),
                Some(name),
                Some(mime_type),
                Some(web_view_link),
                Some(author_name),
                Some(author_email),
                Some(author_picture),
            ) => Some(
                ServerDriveFile {
                    id,
                    name,
                    mime_type,
                    web_view_link,
                    author_name,
                    author_email,
                    author_picture,
                },
            ),
            _ => None,
        }
    }
}

} // verus!
