//! The canonical rich-text document model produced by the import pipeline,
//! together with the ghost views its contracts are stated over.

use vstd::prelude::*;

verus! {

/// One inline content item of a span.
#[allow(non_camel_case_types)]
#[derive(Debug, PartialEq, Eq)]
pub enum SpanContent {
    /// A raw text run.
    text { content: String },
    /// A hyperlink with its flattened inner text.
    anchor { href: String, content: String },
    /// An inline image reference.
    image { src: String, width: String, height: String, alt: String },
}

/// A contiguous run of inline content sharing one set of style properties.
#[derive(Debug, PartialEq, Eq)]
pub struct ArticleSpan {
    pub content: Vec<SpanContent>,
    pub font_style: String,
    pub text_decoration: String,
    pub color: String,
    pub font_weight: String,
}

/// One paragraph of the document: block-level style plus its spans in order.
#[derive(Debug, PartialEq, Eq)]
pub struct ArticleParagraph {
    pub text_alignment: String,
    pub text_indent: String,
    pub margin_left: String,
    pub margin_right: String,
    pub spans: Vec<ArticleSpan>,
}

/// The whole imported document: a headline and its paragraphs in order.
#[derive(Debug, PartialEq, Eq)]
pub struct ArticleContent {
    pub headline: String,
    pub paragraphs: Vec<ArticleParagraph>,
}

/// Ghost view of [`SpanContent`].
pub enum SpanContentV {
    Text { content: Seq<char> },
    Anchor { href: Seq<char>, content: Seq<char> },
    Image { src: Seq<char>, width: Seq<char>, height: Seq<char>, alt: Seq<char> },
}

/// Ghost view of [`ArticleSpan`].
pub struct ArticleSpanV {
    pub content: Seq<SpanContentV>,
    pub font_style: Seq<char>,
    pub text_decoration: Seq<char>,
    pub color: Seq<char>,
    pub font_weight: Seq<char>,
}

/// Ghost view of [`ArticleParagraph`].
pub struct ArticleParagraphV {
    pub text_alignment: Seq<char>,
    pub text_indent: Seq<char>,
    pub margin_left: Seq<char>,
    pub margin_right: Seq<char>,
    pub spans: Seq<ArticleSpanV>,
}

/// Ghost view of [`ArticleContent`].
pub struct ArticleContentV {
    pub headline: Seq<char>,
    pub paragraphs: Seq<ArticleParagraphV>,
}

impl View for SpanContent {
    type V = SpanContentV;

    open spec fn view(&self) -> SpanContentV {
        match self {
            SpanContent::text { content } => SpanContentV::Text { content: content@ },
            SpanContent::anchor { href, content } => SpanContentV::Anchor {
                href: href@,
                content: content@,
            },
            SpanContent::image { src, width, height, alt } => SpanContentV::Image {
                src: src@,
                width: width@,
                height: height@,
                alt: alt@,
            },
        }
    }
}

impl View for ArticleSpan {
    type V = ArticleSpanV;

    open spec fn view(&self) -> ArticleSpanV {
        ArticleSpanV {
            content: self.content@.map_values(|c: SpanContent| c@),
            font_style: self.font_style@,
            text_decoration: self.text_decoration@,
            color: self.color@,
            font_weight: self.font_weight@,
        }
    }
}

impl View for ArticleParagraph {
    type V = ArticleParagraphV;

    open spec fn view(&self) -> ArticleParagraphV {
        ArticleParagraphV {
            text_alignment: self.text_alignment@,
            text_indent: self.text_indent@,
            margin_left: self.margin_left@,
            margin_right: self.margin_right@,
            spans: self.spans@.map_values(|s: ArticleSpan| s@),
        }
    }
}

impl View for ArticleContent {
    type V = ArticleContentV;

    open spec fn view(&self) -> ArticleContentV {
        ArticleContentV {
            headline: self.headline@,
            paragraphs: self.paragraphs@.map_values(|p: ArticleParagraph| p@),
        }
    }
}

} // verus!
