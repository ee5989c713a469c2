//! The units of content found in a post, and the errors of extraction.

use vstd::prelude::*;

verus! {

/// What an extracted unit of content is.
#[derive(Clone, Copy, Debug, PartialEq, Eq, Structural)]
pub enum ElementType {
    Text,
    Image,
    Document,
    EmbedUrl,
    CensorshipNotice,
}

impl ElementType {
    /// The stable numeric code of the kind, as consumers receive it.
    pub open spec fn code(self) -> i32 {
        match self {
            ElementType::Text => 0,
            ElementType::Image => 1,
            ElementType::Document => 2,
            ElementType::EmbedUrl => 3,
            ElementType::CensorshipNotice => 4,
        }
    }

    pub fn value(&self) -> (r: i32)
        ensures
            r == self.code(),
    {
        match *self {
            ElementType::Text => 0,
            ElementType::Image => 1,
            ElementType::Document => 2,
            ElementType::EmbedUrl => 3,
            ElementType::CensorshipNotice => 4,
        }
    }
}

/// One unit of content: a run of text, or a media element with its URL.
#[derive(Debug)]
pub struct Element {
    pub kind: ElementType,
    pub data: String,
}

/// The mathematical value of an [`Element`].
pub struct ElementView {
    pub kind: ElementType,
    pub data: Seq<char>,
}

impl View for Element {
    type V = ElementView;

    open spec fn view(&self) -> ElementView {
        ElementView { kind: self.kind, data: self.data@ }
    }
}

/// The values of a sequence of elements.
pub open spec fn views(s: Seq<Element>) -> Seq<ElementView> {
    s.map_values(|e: Element| e@)
}

impl Element {
    pub fn new(kind: ElementType, data: String) -> (r: Element)
        ensures
            r.kind == kind,
            r.data@ == data@,
    {
        Element { kind, data }
    }

    /// A copy of the element.
    pub fn duplicate(&self) -> (r: Element)
        ensures
            r@ == self@,
    {
        Element { kind: self.kind, data: self.data.clone() }
    }
}

/// Why an extraction step failed.
#[derive(Clone, Copy, Debug, PartialEq, Eq, Structural)]
pub enum ExtractError {
    /// The base URL of the page is not a valid absolute URL.
    BadBaseUrl,
    /// The post has no permalink anchor.
    MissingPermalink,
    /// The permalink does not end in a numeric post identifier.
    BadPostId,
    /// The permalink does not resolve against the base URL.
    BadPermalink,
    /// The post has no content body.
    MissingContent,
    /// The split text does not hold one more segment than there are elements.
    MarkerMismatch,
    /// A selector of the page layout was refused by the selector engine.
    BadSelector,
}

} // verus!
