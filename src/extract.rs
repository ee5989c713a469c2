//! Extraction over the document tree: pruning of non-content nodes, media
//! classification with marker insertion, line-break normalisation, and the
//! reconstruction of each post's content stream.

use vstd::prelude::*;
use crate::classify::{
    classified, classify, classify_spec, format_tags, media_node, tags_spec, AnchorChild, MediaNode,
    NodeFacts,
};
use crate::dom::{
    append_text, attribute, detach, first_child, local_name, prepend_text, select_all, select_first,
    text_contents, text_of,
};
use crate::element::{views, Element, ElementType, ElementView, ExtractError};
use crate::pattern::{matches_pattern, regex_match, GIF_PATTERN, REDIRECT_PATTERN, URL_PATTERN};
use crate::reconstruct::{content_stream, reconstruct, SPLIT_MARKER};
use crate::text::opt_chars;
use crate::urls::{join_url, resolve, url_domain, url_domain_of, url_join, url_path, url_path_of};

verus! {

/// Nodes that never contribute content: "read more" stubs, poll widgets,
/// page headers, scripts.
pub const GARBAGE_SELECTOR: &'static str = "a.more_link, span.more_content, div.mainheader, div.blog_results, div.post_poll_holder, script";

/// The five kinds of media element: lightbox link, lightbox image, video/gif
/// holder, iframe with a source, bare anchor.
pub const MEDIA_SELECTOR: &'static str = ".image > .prettyPhotoLink, .image > img, .image > span.video_gif_holder, .image > iframe[src], a[href]:not([class])";

/// Elements that break lines.
pub const LINE_BREAK_SELECTOR: &'static str = "br, p, h3, h4, h5, h6";

/// The image that replaces a censored post.
pub const CENSORSHIP_SELECTOR: &'static str = "img[alt=Censorship], img[alt=Copywrite]";

/// The text reported for a censored post.
pub const CENSORSHIP_TEXT: &'static str = "🚫Censorship/Copywrite🚫";

/// The single item of a censored post.
pub open spec fn notice() -> ElementView {
    ElementView { kind: ElementType::CensorshipNotice, data: CENSORSHIP_TEXT@ }
}

/// Detaches every non-content node under `content`.
pub fn prune_garbage(content: &kuchiki::NodeRef) -> (r: Result<(), ExtractError>)
    ensures
        r matches Err(e) ==> e == ExtractError::BadSelector,
{
    let nodes = match select_all(content, GARBAGE_SELECTOR) {
        Some(nodes) => nodes,
        None => {
            return Err(ExtractError::BadSelector);
        },
    };
    let mut k: usize = 0;
    while k < nodes.len()
        invariant
            k <= nodes@.len(),
        decreases nodes@.len() - k,
    {
        detach(&nodes[k]);
        k = k + 1;
    }
    Ok(())
}

/// The elements of `o`, none or one.
pub open spec fn opt_seq(o: Option<ElementView>) -> Seq<ElementView> {
    match o {
        Some(e) => seq![e],
        None => Seq::empty(),
    }
}

/// Learns what the classifier needs of the media node `el`, with links
/// resolved against `base` and the pattern tests made. Returns those facts;
/// appends to `elements` the element they yield, if any, and then leaves a
/// marker after the node. A bare anchor's caption text node is added to
/// `captions`, to be detached once all nodes are classified.
pub fn classify_element(
    base: &str,
    el: &kuchiki::NodeRef,
    elements: &mut Vec<Element>,
    captions: &mut Vec<kuchiki::NodeRef>,
) -> (r: NodeFacts)
    ensures
        views(final(elements)@) == views(old(elements)@) + opt_seq(classify_spec(r)),
        r.kind == MediaNode::Lightbox && r.link is Some ==> r.is_gif == regex_match(
            GIF_PATTERN@,
            r.link->0@,
        ),
        r.kind == MediaNode::BareAnchor && r.link is Some ==> r.is_redirect == regex_match(
            REDIRECT_PATTERN@,
            r.link->0@,
        ),
        r.caption matches AnchorChild::Text(t) ==> r.caption_is_url == regex_match(URL_PATTERN@, t@),
        r.kind == MediaNode::Frame && r.link is Some ==> opt_chars(r.domain) == url_domain_of(
            r.link->0@,
        ) && opt_chars(r.path) == url_path_of(r.link->0@),
{
    let name = local_name(el);
    let class = attribute(el, "class");
    let kind = media_node(&name, &class);
    let mut facts = NodeFacts {
        kind,
        link: None,
        is_gif: false,
        is_redirect: false,
        caption: AnchorChild::Missing,
        caption_is_url: false,
        domain: None,
        path: None,
    };
    let mut caption_node: Option<kuchiki::NodeRef> = None;
    let mut gif_node: Option<kuchiki::NodeRef> = None;
    match kind {
        MediaNode::Lightbox | MediaNode::BareAnchor => {
            match attribute(el, "href") {
                Some(href) => {
                    facts.link = resolve(base, href.as_str());
                },
                None => {},
            }
            match &facts.link {
                Some(l) => {
                    if kind == MediaNode::Lightbox {
                        facts.is_gif = matches_pattern(GIF_PATTERN, l.as_str());
                    } else {
                        facts.is_redirect = matches_pattern(REDIRECT_PATTERN, l.as_str());
                    }
                },
                None => {},
            }
            if kind == MediaNode::BareAnchor {
                match first_child(el) {
                    Some(child) => match text_of(&child) {
                        Some(t) => {
                            facts.caption_is_url = matches_pattern(URL_PATTERN, t.as_str());
                            facts.caption = AnchorChild::Text(t);
                            caption_node = Some(child);
                        },
                        None => {
                            facts.caption = AnchorChild::Other;
                        },
                    },
                    None => {},
                }
            }
        },
        MediaNode::Image => {
            match attribute(el, "src") {
                Some(src) => {
                    facts.link = resolve(base, src.as_str());
                },
                None => {},
            }
        },
        MediaNode::GifHolder => {
            match select_first(el, ".video_gif_source") {
                Some(gif) => {
                    match attribute(&gif, "href") {
                        Some(href) => {
                            facts.link = resolve(base, href.as_str());
                        },
                        None => {},
                    }
                    match first_child(&gif) {
                        Some(child) => {
                            caption_node = Some(child);
                        },
                        None => {},
                    }
                    gif_node = Some(gif);
                },
                None => {},
            }
        },
        MediaNode::Frame => {
            facts.link = attribute(el, "src");
            match &facts.link {
                Some(src) => {
                    facts.domain = url_domain(src.as_str());
                    facts.path = url_path(src.as_str());
                },
                None => {},
            }
        },
        MediaNode::Other => {},
    }
    match classify(&facts) {
        Some(e) => {
            elements.push(e);
            match caption_node {
                Some(c) => {
                    if kind == MediaNode::GifHolder {
                        detach(&c);
                    } else {
                        captions.push(c);
                    }
                },
                None => {},
            }
            match &gif_node {
                Some(g) => append_text(g, SPLIT_MARKER),
                None => append_text(el, SPLIT_MARKER),
            }
        },
        None => {},
    }
    proof {
        assert(views(elements@) =~= views(old(elements)@) + opt_seq(classify_spec(facts)));
    }
    facts
}

/// Puts a newline after every line-breaking element, and before every
/// paragraph, so that the flattened text keeps the lines of the post.
pub fn mark_line_breaks(content: &kuchiki::NodeRef) -> (r: Result<(), ExtractError>)
    ensures
        r matches Err(e) ==> e == ExtractError::BadSelector,
{
    let nodes = match select_all(content, LINE_BREAK_SELECTOR) {
        Some(nodes) => nodes,
        None => {
            return Err(ExtractError::BadSelector);
        },
    };
    let mut k: usize = 0;
    while k < nodes.len()
        invariant
            k <= nodes@.len(),
        decreases nodes@.len() - k,
    {
        let name = local_name(&nodes[k]);
        let is_p = match &name {
            Some(n) => crate::text::same_text(n.as_str(), "p"),
            None => false,
        };
        if is_p {
            prepend_text(&nodes[k], "\n");
        }
        append_text(&nodes[k], "\n");
        k = k + 1;
    }
    Ok(())
}

/// What the extraction of one post gave.
pub struct PostContent {
    /// The post holds the censorship image.
    pub censored: bool,
    /// What the classifier learnt of each media node, in document order.
    pub facts: Vec<NodeFacts>,
    /// The elements those nodes yielded.
    pub elements: Vec<Element>,
    /// The flattened text of the marked content body.
    pub text: String,
    /// The content stream.
    pub items: Vec<Element>,
}

/// The content of a post's content body: prunes it, classifies its media
/// nodes with markers, breaks its lines, flattens it and reassembles the text
/// around the elements.
pub fn post_content(base: &str, content: &kuchiki::NodeRef) -> (r: Result<PostContent, ExtractError>)
    ensures
        r matches Ok(p) ==> {
            &&& !p.censored
            &&& views(p.elements@) == classified(p.facts@)
            &&& content_stream(p.text@, views(p.elements@)) == Some(views(p.items@))
        },
        r matches Err(e) ==> (e == ExtractError::BadSelector || e == ExtractError::MarkerMismatch),
{
    match prune_garbage(content) {
        Ok(()) => {},
        Err(e) => {
            return Err(e);
        },
    }
    let found = match select_all(content, MEDIA_SELECTOR) {
        Some(found) => found,
        None => {
            return Err(ExtractError::BadSelector);
        },
    };
    let mut elements: Vec<Element> = Vec::new();
    let mut facts: Vec<NodeFacts> = Vec::new();
    let mut captions: Vec<kuchiki::NodeRef> = Vec::new();
    let mut k: usize = 0;
    proof {
        assert(views(elements@) =~= classified(facts@));
    }
    while k < found.len()
        invariant
            k <= found@.len(),
            views(elements@) == classified(facts@),
        decreases found@.len() - k,
    {
        let f = classify_element(base, &found[k], &mut elements, &mut captions);
        let ghost before = facts@;
        facts.push(f);
        proof {
            assert(facts@.drop_last() =~= before);
        }
        k = k + 1;
    }
    let mut c: usize = 0;
    while c < captions.len()
        invariant
            c <= captions@.len(),
        decreases captions@.len() - c,
    {
        detach(&captions[c]);
        c = c + 1;
    }
    match mark_line_breaks(content) {
        Ok(()) => {},
        Err(e) => {
            return Err(e);
        },
    }
    let text = text_contents(content);
    match reconstruct(text.as_str(), &elements) {
        Ok(items) => Ok(PostContent { censored: false, facts, elements, text, items }),
        Err(e) => Err(e),
    }
}

/// The content of a censored post: the notice alone.
pub fn censored_content() -> (r: PostContent)
    ensures
        r.censored,
        views(r.items@) == seq![notice()],
        r.elements@.len() == 0,
{
    let mut items: Vec<Element> = Vec::new();
    items.push(Element::new(ElementType::CensorshipNotice, String::from_str(CENSORSHIP_TEXT)));
    proof {
        assert(views(items@) =~= seq![notice()]);
    }
    PostContent { censored: true, facts: Vec::new(), elements: Vec::new(), text: String::new(), items }
}

/// The content of one post container: the censorship notice alone when the
/// post holds the censorship image anywhere, the reassembled content body
/// otherwise.
pub fn post_items(base: &str, post: &kuchiki::NodeRef) -> (r: Result<PostContent, ExtractError>)
    ensures
        r matches Ok(p) ==> (p.censored ==> views(p.items@) == seq![notice()]),
        r matches Ok(p) ==> (!p.censored ==> views(p.elements@) == classified(p.facts@)
            && content_stream(p.text@, views(p.elements@)) == Some(views(p.items@))),
        r matches Err(e) ==> (e == ExtractError::MissingContent || e == ExtractError::BadSelector
            || e == ExtractError::MarkerMismatch),
{
    if select_first(post, CENSORSHIP_SELECTOR).is_some() {
        return Ok(censored_content());
    }
    match select_first(post, ".post_content") {
        Some(content) => post_content(base, &content),
        None => Err(ExtractError::MissingContent),
    }
}

/// The tag list of a post container, each tag as `[label](url) ` with its URL
/// resolved against `base`, in document order; empty when the post has no tag
/// list.
pub fn post_tags(base: &str, post: &kuchiki::NodeRef) -> (r: String)
    ensures
        exists|tags: Seq<(String, String)>|
            #[trigger] tags_spec(tags) == r@ && forall|k: int|
                0 <= k < tags.len() ==> exists|h: Seq<char>|
                    url_join(base@, h) == Some(#[trigger] tags[k].1@),
{
    let mut tags: Vec<(String, String)> = Vec::new();
    let list = match select_first(post, ".taglist") {
        Some(l) => l,
        None => {
            return format_tags(&tags);
        },
    };
    let links = match select_all(&list, "a[href]") {
        Some(links) => links,
        None => {
            return format_tags(&tags);
        },
    };
    let mut k: usize = 0;
    while k < links.len()
        invariant
            k <= links@.len(),
            forall|j: int|
                0 <= j < tags@.len() ==> exists|h: Seq<char>|
                    url_join(base@, h) == Some(#[trigger] tags@[j].1@),
        decreases links@.len() - k,
    {
        let label = text_contents(&links[k]);
        match attribute(&links[k], "href") {
            Some(href) => match join_url(base, href.as_str()) {
                Some(url) => {
                    proof {
                        assert(url_join(base@, href@) == Some(url@));
                    }
                    tags.push((label, url));
                },
                None => {},
            },
            None => {},
        }
        k = k + 1;
    }
    format_tags(&tags)
}

} // verus!
