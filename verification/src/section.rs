//! The publication's sections, and parsing a section from a request path
//! parameter.

use crate::strutil::str_eq;
use vstd::prelude::*;

verus! {

/// The section an article belongs to.
#[derive(Clone, Copy, Debug, PartialEq, Eq, Structural)]
pub enum Section {
    News,
    Opinions,
    Features,
    Science,
    Sports,
    Arts,
    Humor,
}

/// The section a lower-case name denotes, if any.
pub open spec fn section_of_name(s: Seq<char>) -> Option<Section> {
    if s == "news"@ {
        Some(Section::News)
    } else if s == "opinions"@ {
        Some(Section::Opinions)
    } else if s == "features"@ {
        Some(Section::Features)
    } else if s == "science"@ {
        Some(Section::Science)
    } else if s == "sports"@ {
        Some(Section::Sports)
    } else if s == "arts"@ {
        Some(Section::Arts)
    } else if s == "humor"@ {
        Some(Section::Humor)
    } else {
        None
    }
}

/// What lower-casing a request parameter yields: a function of the
/// characters alone.
pub uninterp spec fn lower_of(s: Seq<char>) -> Seq<char>;

/// Relies on `str::to_lowercase`: the result depends on the characters
/// alone.
#[verifier::external_body]
fn lowercase(s: &str) -> (r: String)
    ensures
        r@ == lower_of(s@),
{
    s.to_lowercase()
}

impl Section {
    /// Parses a section from a request path parameter, matching its name
    /// case-insensitively.
    pub fn from_param<'r>(param: &'r str) -> (r: Result<Section, &'r str>)
        ensures
            match r {
                Ok(s) => section_of_name(lower_of(param@)) == Some(s),
                Err(e) => section_of_name(lower_of(param@)) is None && e@ == "Invalid section type"@,
            },
    {
        let section = lowercase(param);
        let s = section.as_str();
        if str_eq(s, "news") {
            Ok(Section::News)
        } else if str_eq(s, "opinions") {
            Ok(Section::Opinions)
        } else if str_eq(s, "features") {
            Ok(Section::Features)
        } else if str_eq(s, "science") {
            Ok(Section::Science)
        } else if str_eq(s, "sports") {
            Ok(Section::Sports)
        } else if str_eq(s, "arts") {
            Ok(Section::Arts)
        } else if str_eq(s, "humor") {
            Ok(Section::Humor)
        } else {
            Err("Invalid section type")
        }
    }
}

} // verus!
