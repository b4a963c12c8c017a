//! The document-import pipeline: archive bytes in, structured rich-text
//! document and planned image writes out.
//!
//! The calling layer downloads the exported archive and performs the
//! planned file writes; everything between those two edges happens here.

use crate::assets::ImageWrite;
use crate::assets::ImageWriteV;
use crate::assets::asset_map_of;
use crate::assets::extract_assets;
use crate::assets::has_html;
use crate::assets::html_bytes_of;
use crate::assets::read_zip_entries;
use crate::assets::writes_of;
use crate::assets::zip_entries_of;
use crate::content::ArticleContent;
use crate::content::ArticleContentV;
use crate::error::ImportError;
use crate::html::html_nodes_of;
use crate::html::parse_html;
use crate::richtext::build_article;
use crate::richtext::build_content;
use vstd::prelude::*;
use vstd::utf8::decode_utf8;
use vstd::utf8::encode_utf8_decode_utf8;
use vstd::utf8::valid_utf8;

verus! {

/// What one import yields: the document, and the image writes the caller
/// must persist under the configured storage root.
pub struct ImportOutcome {
    pub content: ArticleContent,
    pub writes: Vec<ImageWrite>,
}

impl View for ImportOutcome {
    type V = (ArticleContentV, Seq<ImageWriteV>);

    open spec fn view(&self) -> (ArticleContentV, Seq<ImageWriteV>) {
        (self.content@, self.writes@.map_values(|w: ImageWrite| w@))
    }
}

/// What importing the given archive bytes yields in the given year and
/// month, or the error it fails with.
pub open spec fn import_spec(bytes: Seq<u8>, year: int, month: int) -> Result<
    (ArticleContentV, Seq<ImageWriteV>),
    ImportError,
> {
    match zip_entries_of(bytes) {
        None => Err(ImportError::Format),
        Some(es) => {
            if !has_html(es) || !valid_utf8(html_bytes_of(es)) {
                Err(ImportError::Format)
            } else {
                let html = decode_utf8(html_bytes_of(es));
                match build_content(html_nodes_of(html), asset_map_of(es, year, month)) {
                    Ok(c) => Ok((c, writes_of(es, year, month))),
                    Err(e) => Err(e),
                }
            }
        },
    }
}

/// Whether `r` is what [`import_spec`] promises for these inputs.
pub open spec fn import_matches(
    r: Result<ImportOutcome, ImportError>,
    bytes: Seq<u8>,
    year: int,
    month: int,
) -> bool {
    match r {
        Ok(o) => import_spec(bytes, year, month) == Ok::<
            (ArticleContentV, Seq<ImageWriteV>),
            ImportError,
        >(o@),
        Err(e) => import_spec(bytes, year, month) == Err::<
            (ArticleContentV, Seq<ImageWriteV>),
            ImportError,
        >(e),
    }
}

/// Imports an exported archive: reads its entries, separates HTML from
/// images, parses the document and builds the rich-text model, with stored
/// images partitioned under the given year and month.
pub fn import_article(zip_bytes: &[u8], year: i32, month: u32) -> (r: Result<
    ImportOutcome,
    ImportError,
>)
    ensures
        import_matches(r, zip_bytes@, year as int, month as int),
{
    let entries = match read_zip_entries(zip_bytes) {
        Some(es) => es,
        None => {
            return Err(ImportError::Format);
        },
    };
    let ex = match extract_assets(&entries, year, month) {
        Ok(x) => x,
        Err(e) => {
            return Err(e);
        },
    };
    proof {
        encode_utf8_decode_utf8(ex.html@);
    }
    let nodes = parse_html(ex.html.as_str());
    let content = match build_article(&nodes, &ex.assets) {
        Ok(c) => c,
        Err(e) => {
            return Err(e);
        },
    };
    Ok(ImportOutcome { content, writes: ex.writes })
}

/// Idempotent import: the same archive bytes imported twice under the same
/// year and month yield the identical document, the identical planned
/// writes, and the identical paths — no duplicate files and no path drift.
pub proof fn lemma_import_idempotent(b1: Seq<u8>, b2: Seq<u8>, year: int, month: int)
    requires
        b1 == b2,
    ensures
        import_spec(b1, year, month) == import_spec(b2, year, month),
{
}

/// Relies on `chrono::Utc::now` and `chrono::Datelike::year`/`month`: the
/// current UTC year and month; the month is always in 1 to 12.
#[verifier::external_body]
pub fn current_year_month() -> (r: (i32, u32))
    ensures
        1 <= r.1 <= 12,
{
    let now = chrono::Utc::now();
    (chrono::Datelike::year(&now), chrono::Datelike::month(&now))
}

/// Imports an exported archive with stored images partitioned under the
/// clock's current year and month.
pub fn import_article_now(zip_bytes: &[u8]) -> (r: Result<ImportOutcome, ImportError>)
    ensures
        exists|ym: (i32, u32)|
            1 <= ym.1 <= 12 && #[trigger] import_matches(
                r,
                zip_bytes@,
                ym.0 as int,
                ym.1 as int,
            ),
{
    let (year, month) = current_year_month();
    let r = import_article(zip_bytes, year, month);
    proof {
        assert(1 <= (year, month).1 <= 12 && import_matches(
            r,
            zip_bytes@,
            (year, month).0 as int,
            (year, month).1 as int,
        ));
    }
    r
}

} // verus!
