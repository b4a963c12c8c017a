//! Asset extraction: separates the HTML payload of an exported ZIP bundle
//! from its `images/` assets, gives every image a content-derived stored
//! name, and plans the file writes the calling layer must perform.

use crate::error::ImportError;
use crate::numfmt::dec_str;
use crate::numfmt::dec_str_signed;
use crate::numfmt::i32_to_dec;
use crate::numfmt::u32_to_dec;
use crate::strutil::chars_to_string;
use crate::strutil::push_char;
use crate::strutil::starts_with;
use crate::strutil::str_eq;
use crate::strutil::str_to_chars;
use crate::strutil::chars_start_with;
use crate::strutil::chars_end_with;
use crate::strutil::ends_with;
use vstd::prelude::*;
use vstd::string::StringExecFns;
use vstd::utf8::encode_utf8;
use vstd::utf8::valid_utf8;

verus! {

/// One entry of the exported archive: its path and its decompressed bytes.
pub struct ZipEntry {
    pub name: String,
    pub data: Vec<u8>,
}

/// The plain view of a sequence of archive entries.
pub open spec fn entries_view(es: Seq<ZipEntry>) -> Seq<(Seq<char>, Seq<u8>)> {
    es.map_values(|e: ZipEntry| (e.name@, e.data@))
}

/// The entries of a ZIP archive, in archive order, or `None` when the bytes
/// are not an archive that can be read to the end. The outcome is a function
/// of the archive bytes alone.
pub uninterp spec fn zip_entries_of(bytes: Seq<u8>) -> Option<Seq<(Seq<char>, Seq<u8>)>>;

/// Relies on `zip::ZipArchive` over an in-memory cursor: `new` succeeds
/// exactly on a readable archive, `len`/`by_index` walk its entries in
/// archive order, `name` is the entry's path and reading an entry yields its
/// decompressed bytes. Decoding is deterministic in the archive bytes.
#[verifier::external_body]
pub fn read_zip_entries(bytes: &[u8]) -> (r: Option<Vec<ZipEntry>>)
    ensures
        r is Some <==> zip_entries_of(bytes@) is Some,
        r is Some ==> entries_view(r->0@) == zip_entries_of(bytes@)->0,
{
    let mut archive = zip::ZipArchive::new(std::io::Cursor::new(bytes)).ok()?;
    let mut out = Vec::with_capacity(archive.len());
    for i in 0..archive.len() {
        let mut file = archive.by_index(i).ok()?;
        let name = file.name().to_owned();
        let mut data = Vec::with_capacity(file.size() as usize);
        std::io::Read::read_to_end(&mut file, &mut data).ok()?;
        out.push(ZipEntry { name, data });
    }
    Some(out)
}

/// The content-derived identifier stored images are named by: a function of
/// the image bytes alone, so identical bytes always collide to the identical
/// name.
pub uninterp spec fn content_name_of(data: Seq<u8>) -> Seq<char>;

/// Relies on `uuid::Uuid::new_v3` in the URL namespace and its hyphenated
/// string form: a name-based identifier computed deterministically from the
/// bytes alone.
#[verifier::external_body]
pub fn content_name(data: &[u8]) -> (r: String)
    ensures
        r@ == content_name_of(data@),
{
    uuid::Uuid::new_v3(&uuid::Uuid::NAMESPACE_URL, data).to_string()
}

/// Relies on `String::from_utf8`: succeeds exactly on valid UTF-8 and then
/// returns the string whose byte encoding is the input.
#[verifier::external_body]
pub fn bytes_to_string(data: Vec<u8>) -> (r: Option<String>)
    ensures
        r is Some <==> valid_utf8(data@),
        r is Some ==> encode_utf8(r->0@) == data@,
{
    String::from_utf8(data).ok()
}

/// The last position in `[from, to)` holding `c`, or `from - 1` if none.
pub open spec fn rfind(s: Seq<char>, c: char, from: int, to: int) -> int
    decreases to - from,
    when 0 <= from <= to <= s.len()
{
    if to <= from {
        from - 1
    } else if s[to - 1] == c {
        to - 1
    } else {
        rfind(s, c, from, to - 1)
    }
}

/// The last position in `[from, to)` of `v` holding `c`, if any.
pub fn rfind_char(v: &Vec<char>, c: char, from: usize, to: usize) -> (r: Option<usize>)
    requires
        from <= to <= v@.len(),
    ensures
        match r {
            Some(p) => p as int == rfind(v@, c, from as int, to as int) && from <= p < to,
            None => rfind(v@, c, from as int, to as int) == from - 1,
        },
{
    let mut i: usize = to;
    while i > from && v[i - 1] != c
        invariant
            from <= i <= to <= v@.len(),
            rfind(v@, c, from as int, to as int) == rfind(v@, c, from as int, i as int),
        decreases i,
    {
        i -= 1;
    }
    if i == from {
        None
    } else {
        Some(i - 1)
    }
}

/// Whether an archive entry is an embedded image.
pub open spec fn is_image_name(name: Seq<char>) -> bool {
    starts_with(name, "images/"@)
}

/// Whether an archive entry carries a piece of the HTML document. An entry
/// under `images/` is an asset even when its path ends in `.html`.
pub open spec fn is_html_name(name: Seq<char>) -> bool {
    !is_image_name(name) && ends_with(name, ".html"@)
}

/// The extension of an archive path: the portion of its file name after the
/// final `.`, or `png` when the file name has no usable extension.
pub open spec fn ext_of(name: Seq<char>) -> Seq<char> {
    let fstart = rfind(name, '/', 0, name.len() as int) + 1;
    let dot = rfind(name, '.', fstart, name.len() as int);
    if dot <= fstart {
        "png"@
    } else {
        name.subrange(dot + 1, name.len() as int)
    }
}

/// The extension of the archive path held in `v`.
pub fn ext_of_name(v: &Vec<char>) -> (r: String)
    ensures
        r@ == ext_of(v@),
{
    let len = v.len();
    let fstart = match rfind_char(v, '/', 0, len) {
        Some(p) => p + 1,
        None => 0,
    };
    match rfind_char(v, '.', fstart, len) {
        Some(d) => {
            if d == fstart {
                "png".to_owned()
            } else {
                chars_to_string(v.as_slice(), d + 1, len)
            }
        },
        None => "png".to_owned(),
    }
}

/// Where one stored image lives: its date partition, its content-derived
/// name and its extension.
pub struct StoredImage {
    pub year: i32,
    pub month: u32,
    pub name: String,
    pub ext: String,
}

/// Ghost view of [`StoredImage`].
pub struct StoredImageV {
    pub year: int,
    pub month: int,
    pub name: Seq<char>,
    pub ext: Seq<char>,
}

impl View for StoredImage {
    type V = StoredImageV;

    open spec fn view(&self) -> StoredImageV {
        StoredImageV {
            year: self.year as int,
            month: self.month as int,
            name: self.name@,
            ext: self.ext@,
        }
    }
}

/// The stored location an image entry is assigned.
pub open spec fn stored_of(name: Seq<char>, data: Seq<u8>, year: int, month: int) -> StoredImageV {
    StoredImageV { year, month, name: content_name_of(data), ext: ext_of(name) }
}

/// The public URL under which the calling layer serves a stored image:
/// `/image/<year>/<month>/<name>.<ext>`.
pub open spec fn public_src_of(p: StoredImageV) -> Seq<char> {
    "/image/"@ + dec_str_signed(p.year) + "/"@ + dec_str(p.month) + "/"@ + p.name + "."@ + p.ext
}

/// The storage path of a stored image relative to the configured image root:
/// `<year>/<month>/<name>.<ext>`.
pub open spec fn rel_path_of(p: StoredImageV) -> Seq<char> {
    dec_str_signed(p.year) + "/"@ + dec_str(p.month) + "/"@ + p.name + "."@ + p.ext
}

impl StoredImage {
    /// The URL this image is served under once written.
    pub fn public_src(&self) -> (r: String)
        ensures
            r@ == public_src_of(self@),
    {
        let mut s = "/image/".to_owned();
        let rest = self.rel_path();
        s.append(rest.as_str());
        proof {
            assert(s@ =~= public_src_of(self@));
        }
        s
    }

    /// The write path relative to the image storage root.
    pub fn rel_path(&self) -> (r: String)
        ensures
            r@ == rel_path_of(self@),
    {
        let mut s = i32_to_dec(self.year);
        push_char(&mut s, '/');
        let m = u32_to_dec(self.month);
        s.append(m.as_str());
        push_char(&mut s, '/');
        s.append(self.name.as_str());
        push_char(&mut s, '.');
        s.append(self.ext.as_str());
        proof {
            reveal_strlit("/");
            reveal_strlit(".");
            assert(s@ =~= rel_path_of(self@));
        }
        s
    }
}

/// One planned file write: the stored location and the exact bytes.
pub struct ImageWrite {
    pub path: StoredImage,
    pub data: Vec<u8>,
}

/// Ghost view of [`ImageWrite`].
pub struct ImageWriteV {
    pub path: StoredImageV,
    pub data: Seq<u8>,
}

impl View for ImageWrite {
    type V = ImageWriteV;

    open spec fn view(&self) -> ImageWriteV {
        ImageWriteV { path: self.path@, data: self.data@ }
    }
}

/// The mapping built from an association list; later entries win.
pub open spec fn asset_assoc_map(entries: Seq<(String, StoredImage)>) -> Map<
    Seq<char>,
    StoredImageV,
>
    decreases entries,
{
    if entries.len() == 0 {
        Map::empty()
    } else {
        asset_assoc_map(entries.drop_last()).insert(entries.last().0@, entries.last().1@)
    }
}

/// The transient table linking an archive-internal image path to its stored
/// location, built once per import.
pub struct AssetMap {
    entries: Vec<(String, StoredImage)>,
}

impl View for AssetMap {
    type V = Map<Seq<char>, StoredImageV>;

    closed spec fn view(&self) -> Map<Seq<char>, StoredImageV> {
        asset_assoc_map(self.entries@)
    }
}

impl AssetMap {
    /// A mapping with no entries.
    pub fn empty() -> (r: AssetMap)
        ensures
            r@ == Map::<Seq<char>, StoredImageV>::empty(),
    {
        AssetMap { entries: Vec::new() }
    }

    /// Records where the image under an archive path was stored.
    pub fn insert(&mut self, k: String, v: StoredImage)
        ensures
            final(self)@ == old(self)@.insert(k@, v@),
    {
        let ghost olde = self.entries@;
        self.entries.push((k, v));
        proof {
            assert(self.entries@.drop_last() =~= olde);
        }
    }

    /// The stored location recorded for an archive path, if any.
    pub fn get(&self, key: &str) -> (r: Option<&StoredImage>)
        ensures
            match r {
                Some(v) => self@.contains_key(key@) && v@ == self@[key@],
                None => !self@.contains_key(key@),
            },
    {
        proof {
            assert(self.entries@.take(self.entries@.len() as int) =~= self.entries@);
        }
        let mut j: usize = self.entries.len();
        while j > 0
            invariant
                j <= self.entries@.len(),
                self@.contains_key(key@) == asset_assoc_map(
                    self.entries@.take(j as int),
                ).contains_key(key@),
                self@.contains_key(key@) ==> self@[key@] == asset_assoc_map(
                    self.entries@.take(j as int),
                )[key@],
            decreases j,
        {
            j -= 1;
            proof {
                assert(self.entries@.take(j + 1).drop_last() =~= self.entries@.take(j as int));
                assert(self.entries@.take(j + 1).last() == self.entries@[j as int]);
            }
            if str_eq(self.entries[j].0.as_str(), key) {
                return Some(&self.entries[j].1);
            }
        }
        proof {
            assert(self.entries@.take(0) =~= Seq::<(String, StoredImage)>::empty());
        }
        None
    }
}

/// Whether the archive holds at least one HTML entry.
pub open spec fn has_html(es: Seq<(Seq<char>, Seq<u8>)>) -> bool {
    exists|i: int| 0 <= i < es.len() && is_html_name((#[trigger] es[i]).0)
}

/// Taking one more entry finds an HTML document exactly when the prefix
/// already had one or the new entry is one.
proof fn lemma_has_html_step(es: Seq<(Seq<char>, Seq<u8>)>, i: int)
    requires
        0 <= i < es.len(),
    ensures
        has_html(es.take(i + 1)) == (has_html(es.take(i)) || is_html_name(es[i].0)),
{
    let a = es.take(i);
    let b = es.take(i + 1);
    assert(b[i] == es[i]);
    if has_html(a) {
        let j = choose|j: int| 0 <= j < a.len() && is_html_name((#[trigger] a[j]).0);
        assert(b[j] == a[j]);
        assert(is_html_name(b[j].0));
    }
    if is_html_name(es[i].0) {
        assert(is_html_name(b[i].0));
    }
    if has_html(b) && !is_html_name(es[i].0) {
        let j = choose|j: int| 0 <= j < b.len() && is_html_name((#[trigger] b[j]).0);
        assert(j != i);
        assert(a[j] == b[j]);
        assert(is_html_name(a[j].0));
    }
}

/// The bytes of the logical HTML document: the HTML entries' contents
/// concatenated in archive order.
pub open spec fn html_bytes_of(es: Seq<(Seq<char>, Seq<u8>)>) -> Seq<u8>
    decreases es,
{
    if es.len() == 0 {
        Seq::empty()
    } else {
        html_bytes_of(es.drop_last()) + if is_html_name(es.last().0) {
            es.last().1
        } else {
            Seq::empty()
        }
    }
}

/// The asset map the archive's image entries give rise to; a repeated
/// archive path keeps its last occurrence.
pub open spec fn asset_map_of(es: Seq<(Seq<char>, Seq<u8>)>, year: int, month: int) -> Map<
    Seq<char>,
    StoredImageV,
>
    decreases es,
{
    if es.len() == 0 {
        Map::empty()
    } else {
        let rest = asset_map_of(es.drop_last(), year, month);
        if is_image_name(es.last().0) {
            rest.insert(es.last().0, stored_of(es.last().0, es.last().1, year, month))
        } else {
            rest
        }
    }
}

/// The planned image writes, one per image entry, in archive order.
pub open spec fn writes_of(es: Seq<(Seq<char>, Seq<u8>)>, year: int, month: int) -> Seq<
    ImageWriteV,
>
    decreases es,
{
    if es.len() == 0 {
        Seq::empty()
    } else {
        writes_of(es.drop_last(), year, month) + if is_image_name(es.last().0) {
            seq![ImageWriteV { path: stored_of(es.last().0, es.last().1, year, month), data: es.last().1 }]
        } else {
            Seq::empty()
        }
    }
}

/// Content-addressed naming is referentially stable: two image entries
/// holding identical bytes are stored under the identical generated name,
/// whatever their archive paths; when their extensions agree too, the
/// planned location — and so the write path — is bit-identical, so repeated
/// imports of an unchanged image never create a second stored file.
pub proof fn lemma_content_addressed_naming(
    n1: Seq<char>,
    d1: Seq<u8>,
    n2: Seq<char>,
    d2: Seq<u8>,
    year: int,
    month: int,
)
    requires
        d1 == d2,
    ensures
        stored_of(n1, d1, year, month).name == stored_of(n2, d2, year, month).name,
        ext_of(n1) == ext_of(n2) ==> stored_of(n1, d1, year, month) == stored_of(
            n2,
            d2,
            year,
            month,
        ),
        ext_of(n1) == ext_of(n2) ==> rel_path_of(stored_of(n1, d1, year, month)) == rel_path_of(
            stored_of(n2, d2, year, month),
        ),
{
}

/// Everything the extraction step yields: the HTML text, the asset map used
/// to rewrite image references, and the file writes to perform.
pub struct Extraction {
    pub html: String,
    pub assets: AssetMap,
    pub writes: Vec<ImageWrite>,
}

/// Separates an exported archive's entries into the HTML document and its
/// stored images. Fails exactly when the archive holds no HTML entry or the
/// accumulated HTML bytes are not valid UTF-8.
pub fn extract_assets(entries: &Vec<ZipEntry>, year: i32, month: u32) -> (r: Result<
    Extraction,
    ImportError,
>)
    ensures
        ({
            let es = entries_view(entries@);
            match r {
                Ok(ex) => has_html(es) && valid_utf8(html_bytes_of(es)) && encode_utf8(ex.html@)
                    == html_bytes_of(es) && ex.assets@ == asset_map_of(
                    es,
                    year as int,
                    month as int,
                ) && ex.writes@.map_values(|w: ImageWrite| w@) == writes_of(
                    es,
                    year as int,
                    month as int,
                ),
                Err(e) => e == ImportError::Format && (!has_html(es) || !valid_utf8(
                    html_bytes_of(es),
                )),
            }
        }),
{
    let ghost es = entries_view(entries@);
    let n = entries.len();
    let mut html_bytes: Vec<u8> = Vec::new();
    let mut assets = AssetMap::empty();
    let mut writes: Vec<ImageWrite> = Vec::new();
    let mut found_html = false;
    let mut i: usize = 0;
    proof {
        assert(es.take(0) =~= Seq::<(Seq<char>, Seq<u8>)>::empty());
    }
    while i < n
        invariant
            i <= n == entries@.len(),
            es == entries_view(entries@),
            found_html == has_html(es.take(i as int)),
            html_bytes@ == html_bytes_of(es.take(i as int)),
            assets@ == asset_map_of(es.take(i as int), year as int, month as int),
            writes@.map_values(|w: ImageWrite| w@) == writes_of(
                es.take(i as int),
                year as int,
                month as int,
            ),
        decreases n - i,
    {
        proof {
            assert(es.take(i + 1).drop_last() =~= es.take(i as int));
            assert(es.take(i + 1).last() == es[i as int]);
            assert(es[i as int] == (entries@[i as int].name@, entries@[i as int].data@));
            lemma_has_html_step(es, i as int);
        }
        let name_chars = str_to_chars(entries[i].name.as_str());
        if chars_start_with(&name_chars, "images/") {
            let ident = content_name(entries[i].data.as_slice());
            let ext = ext_of_name(&name_chars);
            let stored = StoredImage { year, month, name: ident, ext };
            let stored_copy = StoredImage {
                year,
                month,
                name: stored.name.clone(),
                ext: stored.ext.clone(),
            };
            let data_copy = slice_to_vec_u8(entries[i].data.as_slice());
            assets.insert(entries[i].name.clone(), stored);
            let ghost old_writes = writes@;
            writes.push(ImageWrite { path: stored_copy, data: data_copy });
            proof {
                assert(writes@.map_values(|w: ImageWrite| w@) =~= old_writes.map_values(
                    |w: ImageWrite| w@,
                ).push(writes@.last()@));
                assert(writes@.map_values(|w: ImageWrite| w@) =~= writes_of(
                    es.take(i + 1),
                    year as int,
                    month as int,
                ));
            }
        } else {
            if chars_end_with(&name_chars, ".html") {
                html_bytes.extend_from_slice(entries[i].data.as_slice());
                found_html = true;
            }
            proof {
                assert(html_bytes@ =~= html_bytes_of(es.take(i + 1)));
                assert(writes@.map_values(|w: ImageWrite| w@) =~= writes_of(
                    es.take(i + 1),
                    year as int,
                    month as int,
                ));
            }
        }
        i += 1;
    }
    proof {
        assert(es.take(n as int) =~= es);
    }
    if !found_html {
        return Err(ImportError::Format);
    }
    match bytes_to_string(html_bytes) {
        Some(html) => Ok(Extraction { html, assets, writes }),
        None => Err(ImportError::Format),
    }
}

/// A fresh vector holding the bytes of a slice.
fn slice_to_vec_u8(s: &[u8]) -> (r: Vec<u8>)
    ensures
        r@ == s@,
{
    let mut v: Vec<u8> = Vec::new();
    v.extend_from_slice(s);
    proof {
        assert(v@ =~= s@);
    }
    v
}

} // verus!
