//! The decisions of the media classifier, on plain values: the kind of a
//! lightbox link, the unwrapping of redirect links, the text of a bare anchor,
//! the viewer URL of an embedded player, a post's identifier and its tag list.

use vstd::prelude::*;
use crate::element::{Element, ElementType, ElementView};
use crate::text::{after_first, chars_of, find_first, find_last, first_at, last_at, opt_chars, same_text};

verus! {

/// `u` between double quotes.
pub open spec fn quoted(u: Seq<char>) -> Seq<char> {
    seq!['"'] + u + seq!['"']
}

/// The text that stands for a bare anchor to `url`: its caption followed by the
/// quoted URL, or the quoted URL alone where the anchor has no caption or its
/// caption is itself a URL.
pub open spec fn anchor_spec(url: Seq<char>, caption: Option<Seq<char>>, caption_is_url: bool) -> Seq<
    char,
> {
    match caption {
        Some(t) => if caption_is_url {
            quoted(url)
        } else {
            t + seq![' '] + quoted(url)
        },
        None => quoted(url),
    }
}

/// The element for a lightbox link: a document when it points at a GIF, an
/// image otherwise.
pub fn lightbox_element(link: String, is_gif: bool) -> (r: Element)
    ensures
        r.kind == (if is_gif { ElementType::Document } else { ElementType::Image }),
        r.data@ == link@,
{
    if is_gif {
        Element::new(ElementType::Document, link)
    } else {
        Element::new(ElementType::Image, link)
    }
}

/// The destination of a redirect link: what follows `url=` when `is_redirect`
/// holds, the link itself otherwise.
pub fn unwrap_redirect(link: String, is_redirect: bool) -> (r: String)
    ensures
        r@ == (if is_redirect { after_first(link@, "url="@) } else { link@ }),
{
    if !is_redirect {
        return link;
    }
    let cs = chars_of(link.as_str());
    let n = cs.len();
    let key = chars_of("url=");
    proof {
        reveal_strlit("url=");
    }
    match find_first(&cs, &key) {
        Some(i) => {
            proof {
                assert(first_at(link@, "url="@, i as int));
                assert(i + 4 <= cs@.len());
                let j = choose|j: int| first_at(link@, "url="@, j);
                assert(!(j < i) && !(i < j));
            }
            String::from_str(link.as_str().substring_char(i + 4, n))
        },
        None => link,
    }
}

/// The text for a bare anchor (see [`anchor_spec`]).
pub fn anchor_text(url: &str, caption: Option<String>, caption_is_url: bool) -> (r: String)
    ensures
        r@ == anchor_spec(url@, opt_chars(caption), caption_is_url),
{
    let mut q = String::from_str("\"");
    q.append(url);
    q.append("\"");
    proof {
        reveal_strlit("\"");
        assert(q@ =~= quoted(url@));
    }
    match caption {
        Some(t) => {
            if caption_is_url {
                q
            } else {
                let mut r = t;
                r.append(" ");
                r.append(q.as_str());
                proof {
                    reveal_strlit(" ");
                    assert(r@ =~= anchor_spec(url@, opt_chars(caption), caption_is_url));
                }
                r
            }
        },
        None => q,
    }
}

pub open spec fn is_coub(d: Seq<char>) -> bool {
    d == "www.coub.com"@ || d == "coub.com"@
}

pub open spec fn is_youtube(d: Seq<char>) -> bool {
    d == "www.youtube.com"@ || d == "youtube.com"@
}

/// The permanent viewer URL of an embedded player whose source is `src`, with
/// host `domain` and path `path`: coub and YouTube players are rebuilt from
/// the last segment of the path; any other source is kept.
pub open spec fn embed_spec(src: Seq<char>, domain: Option<Seq<char>>, path: Seq<char>) -> Seq<char> {
    match domain {
        Some(d) => if (is_coub(d) || is_youtube(d)) && exists|i: int| last_at(path, '/', i) {
            let i = choose|i: int| last_at(path, '/', i);
            if is_coub(d) {
                "https://www.coub.com/view"@ + path.subrange(i, path.len() as int)
            } else {
                "https://www.youtube.com/watch?v="@ + path.subrange(i + 1, path.len() as int)
            }
        } else {
            src
        },
        None => src,
    }
}

proof fn lemma_last_unique(s: Seq<char>, c: char, i: int)
    requires
        last_at(s, c, i),
    ensures
        (choose|j: int| last_at(s, c, j)) == i,
{
    let j = choose|j: int| last_at(s, c, j);
    assert(!(j < i) && !(i < j));
}

/// The viewer URL of an embedded player (see [`embed_spec`]).
pub fn canonical_embed(src: String, domain: Option<String>, path: &str) -> (r: String)
    ensures
        r@ == embed_spec(src@, opt_chars(domain), path@),
{
    let d = match domain {
        Some(d) => d,
        None => {
            return src;
        },
    };
    proof {
        reveal_strlit("www.coub.com");
        reveal_strlit("coub.com");
        reveal_strlit("www.youtube.com");
        reveal_strlit("youtube.com");
    }
    let coub = same_text(d.as_str(), "www.coub.com") || same_text(d.as_str(), "coub.com");
    let youtube = same_text(d.as_str(), "www.youtube.com") || same_text(d.as_str(), "youtube.com");
    if !coub && !youtube {
        return src;
    }
    let cs = chars_of(path);
    let n = cs.len();
    match find_last(&cs, '/') {
        Some(i) => {
            proof {
                lemma_last_unique(path@, '/', i as int);
            }
            if coub {
                let mut r = String::from_str("https://www.coub.com/view");
                r.append(path.substring_char(i, n));
                r
            } else {
                let mut r = String::from_str("https://www.youtube.com/watch?v=");
                r.append(path.substring_char(i + 1, n));
                r
            }
        },
        None => src,
    }
}

pub open spec fn is_digit(c: char) -> bool {
    '0' <= c && c <= '9'
}

/// The number written in decimal by the digits `s`.
pub open spec fn decimal_value(s: Seq<char>) -> int
    decreases s.len(),
{
    if s.len() == 0 {
        0
    } else {
        decimal_value(s.drop_last()) * 10 + (s.last() as int - '0' as int)
    }
}

/// The number written by `seg`, when it is a non-empty run of decimal digits
/// whose value fits in an `i64`.
pub open spec fn decimal_of(seg: Seq<char>) -> Option<i64> {
    if seg.len() > 0 && (forall|k: int| 0 <= k < seg.len() ==> is_digit(seg[k]))
        && decimal_value(seg) <= i64::MAX {
        Some(decimal_value(seg) as i64)
    } else {
        None
    }
}

/// The identifier of a post with permalink `link`: the segment after its last
/// `/`, read as a decimal number.
pub open spec fn post_id_spec(link: Seq<char>) -> Option<i64> {
    if exists|i: int| last_at(link, '/', i) {
        let i = choose|i: int| last_at(link, '/', i);
        decimal_of(link.subrange(i + 1, link.len() as int))
    } else {
        None
    }
}

proof fn lemma_decimal_step(s: Seq<char>, k: int)
    requires
        0 <= k < s.len(),
    ensures
        decimal_value(s.take(k + 1)) == decimal_value(s.take(k)) * 10 + (s[k] as int - '0' as int),
{
    assert(s.take(k + 1).drop_last() =~= s.take(k));
}

proof fn lemma_decimal_nonneg(s: Seq<char>)
    requires
        forall|k: int| 0 <= k < s.len() ==> is_digit(s[k]),
    ensures
        decimal_value(s) >= 0,
    decreases s.len(),
{
    if s.len() > 0 {
        lemma_decimal_nonneg(s.drop_last());
    }
}

proof fn lemma_decimal_grows(s: Seq<char>, k: int)
    requires
        0 <= k <= s.len(),
        forall|j: int| 0 <= j < s.len() ==> is_digit(s[j]),
    ensures
        decimal_value(s.take(k)) <= decimal_value(s),
    decreases s.len() - k,
{
    if k < s.len() {
        lemma_decimal_step(s, k);
        lemma_decimal_nonneg(s.take(k));
        lemma_decimal_grows(s, k + 1);
    } else {
        assert(s.take(k) =~= s);
    }
}

/// The identifier of a post (see [`post_id_spec`]).
pub fn post_id_of(link: &str) -> (r: Option<i64>)
    ensures
        r == post_id_spec(link@),
{
    let cs = chars_of(link);
    let i = match find_last(&cs, '/') {
        Some(i) => i,
        None => {
            return None;
        },
    };
    let n = cs.len();
    let ghost seg = link@.subrange(i + 1, link@.len() as int);
    proof {
        lemma_last_unique(link@, '/', i as int);
        assert(post_id_spec(link@) == decimal_of(seg));
    }
    if i + 1 == cs.len() {
        return None;
    }
    let mut v: i64 = 0;
    let mut k: usize = i + 1;
    while k < cs.len()
        invariant
            cs@ == link@,
            n == cs@.len(),
            post_id_spec(link@) == decimal_of(seg),
            seg == link@.subrange(i + 1, link@.len() as int),
            i + 1 <= k <= cs@.len(),
            v as int == decimal_value(seg.take(k - i - 1)),
            forall|j: int| 0 <= j < k - i - 1 ==> is_digit(seg[j]),
        decreases cs@.len() - k,
    {
        let c = cs[k];
        proof {
            lemma_decimal_step(seg, k - i - 1);
            lemma_decimal_nonneg(seg.take(k - i - 1));
        }
        proof {
            assert(seg[k - i - 1] == c);
        }
        if !('0' <= c && c <= '9') {
            proof {
                assert(!is_digit(seg[k - i - 1]));
                assert(!(forall|j: int| 0 <= j < seg.len() ==> is_digit(seg[j])));
            }
            return None;
        }
        let d = (c as u32 - '0' as u32) as i64;
        proof {
            assert(d as int == c as int - '0' as int);
        }
        if v > (i64::MAX - d) / 10 {
            proof {
                let ghost vi = v as int;
                let ghost di = d as int;
                assert(vi * 10 + di > i64::MAX) by (nonlinear_arith)
                    requires
                        vi > (i64::MAX - di) / 10,
                        0 <= di <= 9,
                ;
                if forall|j: int| 0 <= j < seg.len() ==> is_digit(seg[j]) {
                    lemma_decimal_grows(seg, k - i);
                }
            }
            return None;
        }
        proof {
            let ghost vi = v as int;
            let ghost di = d as int;
            assert(0 <= vi * 10 + di <= i64::MAX) by (nonlinear_arith)
                requires
                    0 <= vi <= (i64::MAX - di) / 10,
                    0 <= di <= 9,
            ;
        }
        v = v * 10 + d;
        k = k + 1;
    }
    proof {
        assert(seg.take(seg.len() as int) =~= seg);
    }
    Some(v)
}

/// The five kinds of media node, and any other node.
#[derive(Clone, Copy, Debug, PartialEq, Eq, Structural)]
pub enum MediaNode {
    /// An anchor of class `prettyPhotoLink`.
    Lightbox,
    /// Any other anchor.
    BareAnchor,
    /// An image.
    Image,
    /// A `span` of class `video_gif_holder`.
    GifHolder,
    /// An iframe.
    Frame,
    Other,
}

/// The kind of a node with tag name `name` and class attribute `class`.
pub open spec fn media_node_spec(name: Option<Seq<char>>, class: Option<Seq<char>>) -> MediaNode {
    if name == Some("a"@) {
        if class == Some("prettyPhotoLink"@) {
            MediaNode::Lightbox
        } else {
            MediaNode::BareAnchor
        }
    } else if name == Some("img"@) {
        MediaNode::Image
    } else if name == Some("span"@) && class == Some("video_gif_holder"@) {
        MediaNode::GifHolder
    } else if name == Some("iframe"@) {
        MediaNode::Frame
    } else {
        MediaNode::Other
    }
}

/// Whether the optional text `o` is exactly `t`.
fn is_some_text(o: &Option<String>, t: &str) -> (r: bool)
    ensures
        r == (opt_chars(*o) == Some(t@)),
{
    match o {
        Some(v) => same_text(v.as_str(), t),
        None => false,
    }
}

/// The kind of a node (see [`media_node_spec`]).
pub fn media_node(name: &Option<String>, class: &Option<String>) -> (r: MediaNode)
    ensures
        r == media_node_spec(opt_chars(*name), opt_chars(*class)),
{
    if is_some_text(name, "a") {
        if is_some_text(class, "prettyPhotoLink") {
            MediaNode::Lightbox
        } else {
            MediaNode::BareAnchor
        }
    } else if is_some_text(name, "img") {
        MediaNode::Image
    } else if is_some_text(name, "span") && is_some_text(class, "video_gif_holder") {
        MediaNode::GifHolder
    } else if is_some_text(name, "iframe") {
        MediaNode::Frame
    } else {
        MediaNode::Other
    }
}

/// The first child of an anchor.
pub enum AnchorChild {
    /// The anchor has no child.
    Missing,
    /// The first child is a text node with this text.
    Text(String),
    /// The first child is no text node.
    Other,
}

/// What the classifier learns of a media node.
pub struct NodeFacts {
    pub kind: MediaNode,
    /// The resolved link of an anchor, an image or a gif holder's source; the
    /// raw source of an iframe; `None` when the node lacks it.
    pub link: Option<String>,
    /// The link matches the GIF pattern.
    pub is_gif: bool,
    /// The link matches the redirect pattern.
    pub is_redirect: bool,
    /// The first child of a bare anchor.
    pub caption: AnchorChild,
    /// The caption matches the URL pattern.
    pub caption_is_url: bool,
    /// The domain of an iframe's source.
    pub domain: Option<String>,
    /// The path of an iframe's source; `None` when it is no URL.
    pub path: Option<String>,
}

/// The link of a bare anchor, unwrapped when it goes through the redirector.
pub open spec fn anchor_target(link: Seq<char>, is_redirect: bool) -> Seq<char> {
    if is_redirect {
        after_first(link, "url="@)
    } else {
        link
    }
}

/// The element a media node yields; `None` when it is skipped.
pub open spec fn classify_spec(f: NodeFacts) -> Option<ElementView> {
    match f.link {
        None => None,
        Some(l) => match f.kind {
            MediaNode::Lightbox => Some(
                ElementView {
                    kind: if f.is_gif {
                        ElementType::Document
                    } else {
                        ElementType::Image
                    },
                    data: l@,
                },
            ),
            MediaNode::BareAnchor => match f.caption {
                AnchorChild::Other => None,
                AnchorChild::Text(t) => Some(
                    ElementView {
                        kind: ElementType::Text,
                        data: anchor_spec(anchor_target(l@, f.is_redirect), Some(t@), f.caption_is_url),
                    },
                ),
                AnchorChild::Missing => Some(
                    ElementView {
                        kind: ElementType::Text,
                        data: anchor_spec(anchor_target(l@, f.is_redirect), None, false),
                    },
                ),
            },
            MediaNode::Image => Some(ElementView { kind: ElementType::Image, data: l@ }),
            MediaNode::GifHolder => Some(ElementView { kind: ElementType::Document, data: l@ }),
            MediaNode::Frame => match f.path {
                Some(p) => Some(
                    ElementView {
                        kind: ElementType::EmbedUrl,
                        data: embed_spec(l@, opt_chars(f.domain), p@),
                    },
                ),
                None => None,
            },
            MediaNode::Other => None,
        },
    }
}

/// The element a media node yields (see [`classify_spec`]).
pub fn classify(f: &NodeFacts) -> (r: Option<Element>)
    ensures
        match r {
            Some(e) => classify_spec(*f) == Some(e@),
            None => classify_spec(*f) is None,
        },
{
    let link = match &f.link {
        Some(l) => l.clone(),
        None => {
            return None;
        },
    };
    match f.kind {
        MediaNode::Lightbox => Some(lightbox_element(link, f.is_gif)),
        MediaNode::BareAnchor => {
            let target = unwrap_redirect(link, f.is_redirect);
            match &f.caption {
                AnchorChild::Other => None,
                AnchorChild::Text(t) => Some(
                    Element::new(
                        ElementType::Text,
                        anchor_text(target.as_str(), Some(t.clone()), f.caption_is_url),
                    ),
                ),
                AnchorChild::Missing => Some(
                    Element::new(ElementType::Text, anchor_text(target.as_str(), None, false)),
                ),
            }
        },
        MediaNode::Image => Some(Element::new(ElementType::Image, link)),
        MediaNode::GifHolder => Some(Element::new(ElementType::Document, link)),
        MediaNode::Frame => match &f.path {
            Some(p) => {
                let domain = match &f.domain {
                    Some(d) => Some(d.clone()),
                    None => None,
                };
                Some(Element::new(ElementType::EmbedUrl, canonical_embed(link, domain, p.as_str())))
            },
            None => None,
        },
        MediaNode::Other => None,
    }
}

/// The elements the media nodes `fs` yield, in order, skipped nodes left out.
pub open spec fn classified(fs: Seq<NodeFacts>) -> Seq<ElementView>
    decreases fs.len(),
{
    if fs.len() == 0 {
        Seq::empty()
    } else {
        classified(fs.drop_last()) + match classify_spec(fs.last()) {
            Some(e) => seq![e],
            None => Seq::empty(),
        }
    }
}

/// One entry of a tag list: `[label](url) `.
pub open spec fn tag_entry(label: Seq<char>, url: Seq<char>) -> Seq<char> {
    seq!['['] + label + seq![']', '('] + url + seq![')', ' ']
}

/// The tag list of `tags`, each a label and its URL, in order.
pub open spec fn tags_spec(tags: Seq<(String, String)>) -> Seq<char>
    decreases tags.len(),
{
    if tags.len() == 0 {
        Seq::empty()
    } else {
        tags_spec(tags.drop_last()) + tag_entry(tags.last().0@, tags.last().1@)
    }
}

/// The tag list of a post (see [`tags_spec`]).
pub fn format_tags(tags: &Vec<(String, String)>) -> (r: String)
    ensures
        r@ == tags_spec(tags@),
{
    let mut out = String::new();
    let mut k: usize = 0;
    proof {
        reveal_strlit("[");
        reveal_strlit("](");
        reveal_strlit(") ");
        assert("["@ =~= seq!['[']);
        assert("]("@ =~= seq![']', '(']);
        assert(") "@ =~= seq![')', ' ']);
    }
    while k < tags.len()
        invariant
            k <= tags@.len(),
            out@ == tags_spec(tags@.take(k as int)),
            "["@ =~= seq!['['],
            "]("@ =~= seq![']', '('],
            ") "@ =~= seq![')', ' '],
        decreases tags@.len() - k,
    {
        let ghost before = out@;
        out.append("[");
        out.append(tags[k].0.as_str());
        out.append("](");
        out.append(tags[k].1.as_str());
        out.append(") ");
        proof {
            assert(tags@.take(k + 1).drop_last() =~= tags@.take(k as int));
            assert(out@ =~= before + tag_entry(tags@[k as int].0@, tags@[k as int].1@));
        }
        k = k + 1;
    }
    proof {
        assert(tags@.take(k as int) =~= tags@);
    }
    out
}

} // verus!
