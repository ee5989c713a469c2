//! One listing page: every post container is reported to a sink, post by post,
//! and the link to the next page is resolved.

use vstd::prelude::*;
use crate::classify::post_id_of;
use crate::dom::{attribute, parse_document, select_all, select_first};
use crate::element::{views, Element, ExtractError};
use crate::extract::{post_items, post_tags, PostContent};
use crate::urls::{join_url, parses_as_url, url_join, url_parses};

verus! {

/// The consumer of a page's posts.
pub trait PostSink {
    /// A post was found with identifier `id`, permalink `url` and tag list
    /// `tags`; returns true when the post is new and its content is wanted,
    /// false when it is already known.
    fn post_found(&mut self, id: i64, url: &str, tags: &str) -> bool;

    /// The next item of the content of post `id`.
    fn item_found(&mut self, id: i64, item: &Element);
}

/// A post that was skipped or cut short, and why.
#[derive(Clone, Copy, Debug, PartialEq, Eq, Structural)]
pub struct PostAnomaly {
    /// The position of the post container on the page.
    pub index: usize,
    pub error: ExtractError,
}

/// The running totals of a page.
pub struct PageTally {
    /// Posts the consumer took as new.
    pub accepted: u64,
    /// Posts the consumer already knew.
    pub duplicates: u64,
    /// The malformed posts, in page order.
    pub anomalies: Vec<PostAnomaly>,
}

impl PageTally {
    pub fn new() -> (r: PageTally)
        ensures
            r.accepted == 0,
            r.duplicates == 0,
            r.anomalies@.len() == 0,
    {
        PageTally { accepted: 0, duplicates: 0, anomalies: Vec::new() }
    }

    /// No post of the page was malformed.
    pub fn well_formed(&self) -> (r: bool)
        ensures
            r == (self.anomalies@.len() == 0),
    {
        self.anomalies.len() == 0
    }

    /// Notes a post that was skipped as malformed.
    pub fn record_malformed(&mut self, index: usize, error: ExtractError)
        ensures
            final(self).anomalies@ == old(self).anomalies@.push(PostAnomaly { index, error }),
            final(self).accepted == old(self).accepted,
            final(self).duplicates == old(self).duplicates,
    {
        self.anomalies.push(PostAnomaly { index, error });
    }
}

/// Settles post `index` once the consumer has answered `is_new` and, for a new
/// post, its content was extracted as `content`: returns the items to hand to
/// the consumer, in order. A known post gets no items and counts as a
/// duplicate. A new post gets its content stream and counts as accepted, also
/// when its content body is missing, which is then noted as an anomaly. Any
/// other failure fails the page and leaves the tally as it was.
pub fn post_step(
    tally: &mut PageTally,
    index: usize,
    is_new: bool,
    content: Result<PostContent, ExtractError>,
) -> (r: Result<Vec<Element>, ExtractError>)
    requires
        old(tally).accepted + old(tally).duplicates < u64::MAX,
    ensures
        !is_new ==> {
            &&& (r matches Ok(items) && items@.len() == 0)
            &&& final(tally).duplicates == old(tally).duplicates + 1
            &&& final(tally).accepted == old(tally).accepted
            &&& final(tally).anomalies@ == old(tally).anomalies@
        },
        is_new && content is Ok ==> {
            &&& (r matches Ok(items) && views(items@) == views(content->Ok_0.items@))
            &&& final(tally).accepted == old(tally).accepted + 1
            &&& final(tally).duplicates == old(tally).duplicates
            &&& final(tally).anomalies@ == old(tally).anomalies@
        },
        is_new && content == Err::<PostContent, ExtractError>(ExtractError::MissingContent) ==> {
            &&& (r matches Ok(items) && items@.len() == 0)
            &&& final(tally).accepted == old(tally).accepted + 1
            &&& final(tally).duplicates == old(tally).duplicates
            &&& final(tally).anomalies@ == old(tally).anomalies@.push(
                PostAnomaly { index, error: ExtractError::MissingContent },
            )
        },
        is_new && content is Err && content->Err_0 != ExtractError::MissingContent ==> {
            &&& r == Err::<Vec<Element>, ExtractError>(content->Err_0)
            &&& final(tally).accepted == old(tally).accepted
            &&& final(tally).duplicates == old(tally).duplicates
            &&& final(tally).anomalies@ == old(tally).anomalies@
        },
{
    if !is_new {
        tally.duplicates = tally.duplicates + 1;
        return Ok(Vec::new());
    }
    match content {
        Ok(p) => {
            tally.accepted = tally.accepted + 1;
            Ok(p.items)
        },
        Err(ExtractError::MissingContent) => {
            tally.record_malformed(index, ExtractError::MissingContent);
            tally.accepted = tally.accepted + 1;
            Ok(Vec::new())
        },
        Err(e) => Err(e),
    }
}

/// What a page yields besides its posts.
pub struct PageReport {
    /// Every post of the page was well formed.
    pub well_formed: bool,
    /// The malformed posts, in page order.
    pub anomalies: Vec<PostAnomaly>,
    /// The next listing page, absolute; `None` on the last page or when it was
    /// not asked for.
    pub next_page: Option<String>,
    /// Posts the consumer took as new.
    pub accepted: u64,
    /// Posts the consumer already knew.
    pub duplicates: u64,
}

/// The absolute URL of the page's "next page" link; `None` when the page has
/// none.
pub fn next_page_link(base: &str, document: &kuchiki::NodeRef) -> (r: Option<String>)
    ensures
        r matches Some(u) ==> exists|h: Seq<char>| #[trigger] url_join(base@, h) == Some(u@),
{
    match select_first(document, "a.next[href]") {
        Some(link) => match attribute(&link, "href") {
            Some(href) => {
                let r = join_url(base, href.as_str());
                proof {
                    if r is Some {
                        assert(url_join(base@, href@) == Some(r->0@));
                    }
                }
                r
            },
            None => None,
        },
        None => None,
    }
}

/// Handles post container `index`: reports it to the sink, then its content
/// when the sink wants it.
fn handle_post<S: PostSink>(
    base: &str,
    index: usize,
    post: &kuchiki::NodeRef,
    sink: &mut S,
    tally: &mut PageTally,
) -> (r: Result<(), ExtractError>)
    requires
        old(tally).accepted + old(tally).duplicates < u64::MAX,
    ensures
        final(tally).accepted + final(tally).duplicates <= old(tally).accepted + old(tally).duplicates
            + 1,
        r matches Err(e) ==> (e == ExtractError::BadSelector || e == ExtractError::MarkerMismatch),
{
    let link = match select_first(post, "a.link[href]") {
        Some(l) => l,
        None => {
            tally.record_malformed(index, ExtractError::MissingPermalink);
            return Ok(());
        },
    };
    let href = match attribute(&link, "href") {
        Some(h) => h,
        None => {
            tally.record_malformed(index, ExtractError::MissingPermalink);
            return Ok(());
        },
    };
    let id = match post_id_of(href.as_str()) {
        Some(id) => id,
        None => {
            tally.record_malformed(index, ExtractError::BadPostId);
            return Ok(());
        },
    };
    let url = match join_url(base, href.as_str()) {
        Some(u) => u,
        None => {
            tally.record_malformed(index, ExtractError::BadPermalink);
            return Ok(());
        },
    };
    let tags = post_tags(base, post);
    let is_new = sink.post_found(id, url.as_str(), tags.as_str());
    let content = if is_new {
        post_items(base, post)
    } else {
        Err(ExtractError::MissingContent)
    };
    let items = match post_step(tally, index, is_new, content) {
        Ok(items) => items,
        Err(e) => {
            return Err(e);
        },
    };
    let mut k: usize = 0;
    while k < items.len()
        invariant
            k <= items@.len(),
        decreases items@.len() - k,
    {
        sink.item_found(id, &items[k]);
        k = k + 1;
    }
    Ok(())
}

/// Extracts every post of the listing page `html`, whose address is
/// `base_url`, reporting posts and their content to `sink` in document order.
/// A malformed post is skipped and noted as an anomaly; a base URL that is no
/// absolute URL, and a fault of the marker reconciliation, fail the call.
pub fn extract_page<S: PostSink>(base_url: &str, html: &str, sink: &mut S, want_next_page: bool) -> (r:
    Result<PageReport, ExtractError>)
    ensures
        (r == Err::<PageReport, ExtractError>(ExtractError::BadBaseUrl)) <==> !parses_as_url(
            base_url@,
        ),
        !parses_as_url(base_url@) ==> *final(sink) == *old(sink),
        r matches Ok(rep) ==> {
            &&& rep.well_formed == (rep.anomalies@.len() == 0)
            &&& !want_next_page ==> rep.next_page is None
            &&& rep.next_page matches Some(u) ==> exists|h: Seq<char>|
                #[trigger] url_join(base_url@, h) == Some(u@)
        },
        r matches Err(e) ==> (e == ExtractError::BadBaseUrl || e == ExtractError::BadSelector
            || e == ExtractError::MarkerMismatch),
{
    if !url_parses(base_url) {
        return Err(ExtractError::BadBaseUrl);
    }
    let document = parse_document(html);
    let posts = match select_all(&document, ".postContainer") {
        Some(p) => p,
        None => {
            return Err(ExtractError::BadSelector);
        },
    };
    let mut tally = PageTally::new();
    let mut k: usize = 0;
    while k < posts.len()
        invariant
            parses_as_url(base_url@),
            k <= posts@.len(),
            tally.accepted + tally.duplicates <= k,
        decreases posts@.len() - k,
    {
        match handle_post(base_url, k, &posts[k], sink, &mut tally) {
            Ok(()) => {},
            Err(e) => {
                return Err(e);
            },
        }
        k = k + 1;
    }
    let next_page = if want_next_page {
        next_page_link(base_url, &document)
    } else {
        None
    };
    let well_formed = tally.well_formed();
    Ok(PageReport {
        well_formed,
        anomalies: tally.anomalies,
        next_page,
        accepted: tally.accepted,
        duplicates: tally.duplicates,
    })
}

} // verus!
