use reactor_parser::classify::{
    anchor_text, canonical_embed, format_tags, lightbox_element, post_id_of, unwrap_redirect,
};
use kuchiki::traits::TendrilSink;
use reactor_parser::element::{Element, ElementType, ExtractError};
use reactor_parser::extract::{post_content, prune_garbage};
use reactor_parser::classify::{classify, media_node, AnchorChild, MediaNode, NodeFacts};
use reactor_parser::page::{extract_page, post_step, PageTally, PostAnomaly, PostSink};
use reactor_parser::pattern::{matches_pattern, GIF_PATTERN, REDIRECT_PATTERN, URL_PATTERN};
use reactor_parser::reconstruct::{merge_segments, reconstruct, SPLIT_MARKER};
use reactor_parser::text::{split_on, trim};
use reactor_parser::urls::{resolve, unescape};

struct Collector {
    answer: bool,
    posts: Vec<(i64, String, String)>,
    items: Vec<(i64, ElementType, String)>,
}

impl Collector {
    fn new(answer: bool) -> Collector {
        Collector { answer, posts: Vec::new(), items: Vec::new() }
    }
}

impl PostSink for Collector {
    fn post_found(&mut self, id: i64, url: &str, tags: &str) -> bool {
        self.posts.push((id, url.to_string(), tags.to_string()));
        self.answer
    }

    fn item_found(&mut self, id: i64, item: &Element) {
        self.items.push((id, item.kind, item.data.clone()));
    }
}

const BASE: &str = "http://joyreactor.cc/";

fn page(posts: &[&str], next: bool) -> String {
    let mut html = String::from("<html><body>");
    for p in posts {
        html.push_str(p);
    }
    if next {
        html.push_str("<a class=\"next\" href=\"/page/2\">next</a>");
    }
    html.push_str("</body></html>");
    html
}

fn post(id: &str, content: &str) -> String {
    format!(
        "<div class=\"postContainer\"><a class=\"link\" href=\"/post/{}\">#</a>\
         <div class=\"taglist\"><a href=\"/tag/cats\">cats</a><a href=\"/tag/dogs\">dogs</a></div>\
         <div class=\"post_content\"><div>{}</div></div></div>",
        id, content
    )
}

fn run(html: &str, answer: bool, next: bool) -> (Collector, reactor_parser::page::PageReport) {
    let mut sink = Collector::new(answer);
    let report = extract_page(BASE, html, &mut sink, next).expect("page extracts");
    (sink, report)
}

fn censored() -> reactor_parser::extract::PostContent {
    reactor_parser::extract::censored_content()
}

fn facts(kind: MediaNode, link: Option<&str>) -> NodeFacts {
    NodeFacts {
        kind,
        link: link.map(|l| l.to_string()),
        is_gif: false,
        is_redirect: false,
        caption: AnchorChild::Missing,
        caption_is_url: false,
        domain: None,
        path: None,
    }
}

fn el(kind: ElementType, data: &str) -> Element {
    Element::new(kind, data.to_string())
}

#[test]
fn kind_codes() {
    assert_eq!(ElementType::Text.value(), 0);
    assert_eq!(ElementType::Image.value(), 1);
    assert_eq!(ElementType::Document.value(), 2);
    assert_eq!(ElementType::EmbedUrl.value(), 3);
    assert_eq!(ElementType::CensorshipNotice.value(), 4);
}

#[test]
fn trim_strips_unicode_space() {
    assert_eq!(trim("  \n\u{a0}a b\t\u{3000} ").as_str(), "a b");
    assert_eq!(trim(" \n ").as_str(), "");
    assert_eq!(trim("").as_str(), "");
}

#[test]
fn split_on_marker() {
    let text = format!("a{}b{}{}c", SPLIT_MARKER, SPLIT_MARKER, SPLIT_MARKER);
    let parts = split_on(&text, SPLIT_MARKER);
    assert_eq!(parts, vec!["a", "b", "", "c"]);
    assert_eq!(split_on("abc", SPLIT_MARKER), vec!["abc"]);
    assert_eq!(split_on("aaa", "aa"), vec!["", "a"]);
}

#[test]
fn merge_folds_text_and_flushes_media() {
    let segs = vec![" one ".to_string(), " two".to_string(), "three ".to_string(), "  ".to_string()];
    let elems = vec![
        el(ElementType::Text, "cap \"u\""),
        el(ElementType::Image, "http://i/1.jpg"),
        el(ElementType::EmbedUrl, "http://v/2"),
    ];
    let out = merge_segments(&segs, &elems);
    let got: Vec<(ElementType, &str)> = out.iter().map(|e| (e.kind, e.data.as_str())).collect();
    assert_eq!(
        got,
        vec![
            (ElementType::Text, "one cap \"u\" two"),
            (ElementType::Image, "http://i/1.jpg"),
            (ElementType::Text, "three"),
            (ElementType::EmbedUrl, "http://v/2"),
        ]
    );
}

#[test]
fn media_count_is_kept() {
    let text = format!("x{}y{}{}z", SPLIT_MARKER, SPLIT_MARKER, SPLIT_MARKER);
    let elems = vec![
        el(ElementType::Image, "a"),
        el(ElementType::Document, "b"),
        el(ElementType::Image, "c"),
    ];
    let out = reconstruct(&text, &elems).unwrap();
    let media: Vec<&str> = out.iter().filter(|e| e.kind != ElementType::Text).map(|e| e.data.as_str()).collect();
    assert_eq!(media, vec!["a", "b", "c"]);
    let texts = out.iter().filter(|e| e.kind == ElementType::Text).count();
    assert!(texts <= 4);
    assert_eq!(out.len(), 6);
}

#[test]
fn marker_mismatch_fails() {
    let text = format!("x{}y{}z", SPLIT_MARKER, SPLIT_MARKER);
    let elems = vec![el(ElementType::Image, "a")];
    assert_eq!(reconstruct(&text, &elems).unwrap_err(), ExtractError::MarkerMismatch);
}

#[test]
fn plain_text_without_elements() {
    let out = reconstruct("  hello\nworld  ", &Vec::new()).unwrap();
    assert_eq!(out.len(), 1);
    assert_eq!(out[0].kind, ElementType::Text);
    assert_eq!(out[0].data, "hello\nworld");
    assert!(reconstruct(" \n ", &Vec::new()).unwrap().is_empty());
}

#[test]
fn plain_paragraphs_round_trip() {
    let html = page(&[&post("10", "<p>First</p><p>Second</p>")], false);
    let (sink, report) = run(&html, true, false);
    assert!(report.well_formed);
    assert_eq!(sink.items, vec![(10, ElementType::Text, "First\n\nSecond".to_string())]);
}

#[test]
fn anchor_caption_forms() {
    assert_eq!(anchor_text("http://a.b/c", Some("http://a.b/c".to_string()), true), "\"http://a.b/c\"");
    assert_eq!(anchor_text("http://a.b/c", Some("see this".to_string()), false), "see this \"http://a.b/c\"");
    assert_eq!(anchor_text("http://a.b/c", None, false), "\"http://a.b/c\"");
    assert!(matches_pattern(URL_PATTERN, "https://example.com/x"));
    assert!(!matches_pattern(URL_PATTERN, "see this"));
}

#[test]
fn bare_anchor_in_post() {
    let html = page(
        &[&post(
            "11",
            "<p>Look <a href=\"http://example.com/x\">http://example.com/x</a> and \
             <a href=\"/local\">my page</a> end</p>",
        )],
        false,
    );
    let (sink, _) = run(&html, true, false);
    assert_eq!(
        sink.items,
        vec![(
            11,
            ElementType::Text,
            "Look \"http://example.com/x\" and my page \"http://joyreactor.cc/local\" end".to_string()
        )]
    );
}

#[test]
fn redirect_is_unwrapped() {
    let link = "http://joyreactor.cc/redirect?url=http%3A%2F%2Fexample.com%2Fa";
    let decoded = unescape(link);
    assert_eq!(decoded, "http://joyreactor.cc/redirect?url=http://example.com/a");
    assert!(matches_pattern(REDIRECT_PATTERN, &decoded));
    assert_eq!(unwrap_redirect(decoded.clone(), true), "http://example.com/a");
    assert_eq!(unwrap_redirect(decoded.clone(), false), decoded);
    let html = page(&[&post("12", &format!("<a href=\"{}\">site</a>", link))], false);
    let (sink, _) = run(&html, true, false);
    assert_eq!(sink.items, vec![(12, ElementType::Text, "site \"http://example.com/a\"".to_string())]);
}

#[test]
fn lightbox_gif_is_document() {
    assert!(matches_pattern(GIF_PATTERN, "http://x/foo.GIF"));
    assert!(!matches_pattern(GIF_PATTERN, "http://x/foo.jpg"));
    assert_eq!(lightbox_element("u".to_string(), true).kind, ElementType::Document);
    assert_eq!(lightbox_element("u".to_string(), false).kind, ElementType::Image);
    let html = page(
        &[&post(
            "13",
            "<p>Before</p><div class=\"image\"><a class=\"prettyPhotoLink\" href=\"/pics/foo.GIF\"><img src=\"/s.png\"></a></div>\
             <div class=\"image\"><a class=\"prettyPhotoLink\" href=\"/pics/foo.jpg\"><img src=\"/s.png\"></a></div><p>After</p>",
        )],
        false,
    );
    let (sink, _) = run(&html, true, false);
    assert_eq!(
        sink.items,
        vec![
            (13, ElementType::Text, "Before".to_string()),
            (13, ElementType::Document, "http://joyreactor.cc/pics/foo.GIF".to_string()),
            (13, ElementType::Image, "http://joyreactor.cc/pics/foo.jpg".to_string()),
            (13, ElementType::Text, "After".to_string()),
        ]
    );
}

#[test]
fn plain_image_and_gif_holder() {
    let html = page(
        &[&post(
            "14",
            "<div class=\"image\"><img src=\"/pics/a%20b.png\"></div>\
             <div class=\"image\"><span class=\"video_gif_holder\"><a class=\"video_gif_source\" href=\"/g.gif\">gif</a></span></div>",
        )],
        false,
    );
    let (sink, _) = run(&html, true, false);
    assert_eq!(
        sink.items,
        vec![
            (14, ElementType::Image, "http://joyreactor.cc/pics/a b.png".to_string()),
            (14, ElementType::Document, "http://joyreactor.cc/g.gif".to_string()),
        ]
    );
}

#[test]
fn embed_urls_are_canonical() {
    let html = page(
        &[&post(
            "15",
            "<div class=\"image\"><iframe src=\"https://www.youtube.com/embed/abc123\"></iframe></div>\
             <div class=\"image\"><iframe src=\"https://coub.com/embed/xyz\"></iframe></div>\
             <div class=\"image\"><iframe src=\"https://player.example.org/v/9?t=1\"></iframe></div>",
        )],
        false,
    );
    let (sink, _) = run(&html, true, false);
    assert_eq!(
        sink.items,
        vec![
            (15, ElementType::EmbedUrl, "https://www.youtube.com/watch?v=abc123".to_string()),
            (15, ElementType::EmbedUrl, "https://www.coub.com/view/xyz".to_string()),
            (15, ElementType::EmbedUrl, "https://player.example.org/v/9?t=1".to_string()),
        ]
    );
    assert_eq!(
        canonical_embed("s".to_string(), Some("youtube.com".to_string()), "/embed/q"),
        "https://www.youtube.com/watch?v=q"
    );
    assert_eq!(canonical_embed("s".to_string(), None, "/embed/q"), "s");
}

#[test]
fn censored_post_yields_notice_only() {
    let html = page(
        &[&post("16", "<p>text</p><div class=\"image\"><img alt=\"Censorship\" src=\"/c.png\"></div>")],
        false,
    );
    let (sink, report) = run(&html, true, false);
    assert_eq!(sink.items, vec![(16, ElementType::CensorshipNotice, "🚫Censorship/Copywrite🚫".to_string())]);
    assert_eq!(report.accepted, 1);
}

#[test]
fn known_post_is_skipped() {
    let html = page(&[&post("17", "<p>text</p>"), &post("18", "<p>more</p>")], false);
    let (sink, report) = run(&html, false, false);
    assert!(sink.items.is_empty());
    assert_eq!(sink.posts.len(), 2);
    assert_eq!(report.duplicates, 2);
    assert_eq!(report.accepted, 0);
    let (sink, report) = run(&html, true, false);
    assert_eq!(sink.items.len(), 2);
    assert_eq!(report.accepted, 2);
    assert_eq!(report.duplicates, 0);
}

#[test]
fn tally_counts() {
    let mut t = PageTally::new();
    let r = post_step(&mut t, 0, false, Ok(censored()));
    assert!(r.unwrap().is_empty());
    let r = post_step(&mut t, 1, true, Ok(censored()));
    assert_eq!(r.unwrap().len(), 1);
    let r = post_step(&mut t, 2, true, Err(ExtractError::MissingContent));
    assert!(r.unwrap().is_empty());
    assert_eq!((t.accepted, t.duplicates), (2, 1));
    assert_eq!(t.anomalies, vec![PostAnomaly { index: 2, error: ExtractError::MissingContent }]);
    assert!(!t.well_formed());
    let r = post_step(&mut t, 3, true, Err(ExtractError::MarkerMismatch));
    assert_eq!(r.err(), Some(ExtractError::MarkerMismatch));
    assert_eq!((t.accepted, t.duplicates), (2, 1));
}

#[test]
fn post_header_is_reported() {
    let html = page(&[&post("19", "<p>x</p>")], true);
    let (sink, report) = run(&html, true, true);
    assert_eq!(
        sink.posts,
        vec![(
            19,
            "http://joyreactor.cc/post/19".to_string(),
            "[cats](http://joyreactor.cc/tag/cats) [dogs](http://joyreactor.cc/tag/dogs) ".to_string()
        )]
    );
    assert_eq!(report.next_page, Some("http://joyreactor.cc/page/2".to_string()));
}

#[test]
fn no_next_page_is_last_page() {
    let html = page(&[&post("20", "<p>x</p>")], false);
    let (_, report) = run(&html, true, true);
    assert_eq!(report.next_page, None);
    assert!(report.well_formed);
}

#[test]
fn garbage_pruning_is_idempotent() {
    let doc = kuchiki::parse_html().one(
        "<div class=\"post_content\"><p>keep</p><a class=\"more_link\" href=\"/m\">more</a>\
         <script>var x;</script><div class=\"post_poll_holder\">poll</div><p>also</p></div>",
    );
    let content = doc.select_first(".post_content").unwrap().as_node().clone();
    prune_garbage(&content).unwrap();
    let once = content.text_contents();
    prune_garbage(&content).unwrap();
    let twice = content.text_contents();
    assert_eq!(once, "keepalso");
    assert_eq!(once, twice);
}

#[test]
fn pruned_nodes_do_not_match_media() {
    let doc = kuchiki::parse_html().one(
        "<div class=\"post_content\"><p>body</p><a class=\"more_link\" href=\"/m\">more</a><script>s</script></div>",
    );
    let content = doc.select_first(".post_content").unwrap().as_node().clone();
    let out = post_content(BASE, &content).unwrap().items;
    assert_eq!(out.len(), 1);
    assert_eq!(out[0].data, "body");
}

#[test]
fn malformed_posts_are_skipped() {
    let no_link = "<div class=\"postContainer\"><div class=\"post_content\">x</div></div>";
    let bad_id = post("abc", "<p>x</p>");
    let no_content = "<div class=\"postContainer\"><a class=\"link\" href=\"/post/21\">#</a></div>";
    let good = post("22", "<p>fine</p>");
    let html = page(&[no_link, &bad_id, no_content, &good], false);
    let (sink, report) = run(&html, true, false);
    assert!(!report.well_formed);
    assert_eq!(sink.posts.len(), 2);
    assert_eq!(sink.items, vec![(22, ElementType::Text, "fine".to_string())]);
    assert_eq!(report.accepted, 2);
    let errors: Vec<(usize, ExtractError)> = report.anomalies.iter().map(|a| (a.index, a.error)).collect();
    assert_eq!(
        errors,
        vec![(0, ExtractError::MissingPermalink), (1, ExtractError::BadPostId), (2, ExtractError::MissingContent)]
    );
}

#[test]
fn bad_base_url_fails() {
    let mut sink = Collector::new(true);
    let r = extract_page("not a url", "<html></html>", &mut sink, false);
    assert_eq!(r.err(), Some(ExtractError::BadBaseUrl));
}

#[test]
fn marker_in_content_fails_the_page() {
    let html = page(&[&post("23", &format!("<p>a{}b</p><div class=\"image\"><img src=\"/i.png\"></div>", SPLIT_MARKER))], false);
    let mut sink = Collector::new(true);
    let r = extract_page(BASE, &html, &mut sink, false);
    assert_eq!(r.err(), Some(ExtractError::MarkerMismatch));
}

#[test]
fn post_ids() {
    assert_eq!(post_id_of("/post/123"), Some(123));
    assert_eq!(post_id_of("http://x/post/9223372036854775807"), Some(i64::MAX));
    assert_eq!(post_id_of("http://x/post/9223372036854775808"), None);
    assert_eq!(post_id_of("/post/"), None);
    assert_eq!(post_id_of("/post/12a"), None);
    assert_eq!(post_id_of("123"), None);
}

#[test]
fn tags_format() {
    let tags = vec![("a".to_string(), "u1".to_string()), ("b c".to_string(), "u2".to_string())];
    assert_eq!(format_tags(&tags), "[a](u1) [b c](u2) ");
    assert_eq!(format_tags(&Vec::new()), "");
}

#[test]
fn urls_resolve_and_decode() {
    assert_eq!(resolve(BASE, "/a%2Fb").unwrap(), "http://joyreactor.cc/a/b");
    assert_eq!(resolve(BASE, "//other.org/x").unwrap(), "http://other.org/x");
    assert_eq!(resolve("not a url", "/x"), None);
    assert_eq!(unescape("%E2%9C%93"), "✓");
    assert_eq!(unescape("%FF"), "%FF");
}


#[test]
fn node_kinds() {
    let s = |v: &str| Some(v.to_string());
    assert_eq!(media_node(&s("a"), &s("prettyPhotoLink")), MediaNode::Lightbox);
    assert_eq!(media_node(&s("a"), &None), MediaNode::BareAnchor);
    assert_eq!(media_node(&s("img"), &None), MediaNode::Image);
    assert_eq!(media_node(&s("span"), &s("video_gif_holder")), MediaNode::GifHolder);
    assert_eq!(media_node(&s("span"), &None), MediaNode::Other);
    assert_eq!(media_node(&s("iframe"), &None), MediaNode::Frame);
}

#[test]
fn classify_from_facts() {
    let mut f = facts(MediaNode::Lightbox, Some("http://x/a.GIF"));
    f.is_gif = true;
    let e = classify(&f).unwrap();
    assert_eq!((e.kind, e.data.as_str()), (ElementType::Document, "http://x/a.GIF"));
    assert!(classify(&facts(MediaNode::Image, None)).is_none());
    let mut f = facts(MediaNode::BareAnchor, Some("http://joyreactor.cc/redirect?url=http://e.org"));
    f.is_redirect = true;
    f.caption = AnchorChild::Text("e".to_string());
    let e = classify(&f).unwrap();
    assert_eq!((e.kind, e.data.as_str()), (ElementType::Text, "e \"http://e.org\""));
    let mut f = facts(MediaNode::BareAnchor, Some("http://e.org"));
    f.caption = AnchorChild::Other;
    assert!(classify(&f).is_none());
    let mut f = facts(MediaNode::Frame, Some("https://coub.com/embed/z"));
    f.domain = Some("coub.com".to_string());
    f.path = Some("/embed/z".to_string());
    let e = classify(&f).unwrap();
    assert_eq!((e.kind, e.data.as_str()), (ElementType::EmbedUrl, "https://www.coub.com/view/z"));
    assert!(classify(&facts(MediaNode::Frame, Some("nope"))).is_none());
    assert!(classify(&facts(MediaNode::Other, Some("x"))).is_none());
}

#[test]
fn post_without_tag_list() {
    let html = page(
        &["<div class=\"postContainer\"><a class=\"link\" href=\"/post/30\">#</a><div class=\"post_content\">t</div></div>"],
        false,
    );
    let (sink, _) = run(&html, true, false);
    assert_eq!(sink.posts, vec![(30, "http://joyreactor.cc/post/30".to_string(), String::new())]);
}
