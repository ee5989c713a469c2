//! Reassembly of a post's content stream from its flattened text, split on the
//! sentinel marker, and the elements extracted at each marker.

use vstd::prelude::*;
use crate::element::{views, Element, ElementType, ElementView, ExtractError};
use crate::text::{split_on, split_seq, trim, trimmed};

verus! {

/// The sentinel left in the document at each extraction point.
pub const SPLIT_MARKER: &'static str = "/@split@۝┛";

/// The text item for `buf`, trimmed, or nothing when it trims to empty.
pub open spec fn flush(buf: Seq<char>) -> Seq<ElementView> {
    if trimmed(buf).len() == 0 {
        Seq::empty()
    } else {
        seq![ElementView { kind: ElementType::Text, data: trimmed(buf) }]
    }
}

/// The stream produced from element `i` on, with `buf` the text gathered so
/// far: text elements are folded into the running text, any other element
/// flushes the running text and then stands on its own.
pub open spec fn stream_from(
    segs: Seq<Seq<char>>,
    elems: Seq<ElementView>,
    i: int,
    buf: Seq<char>,
) -> Seq<ElementView>
    decreases elems.len() - i,
{
    if i < 0 || i >= elems.len() {
        flush(buf + segs[i])
    } else if elems[i].kind == ElementType::Text {
        stream_from(segs, elems, i + 1, buf + segs[i] + elems[i].data)
    } else {
        flush(buf + segs[i]) + seq![elems[i]] + stream_from(segs, elems, i + 1, Seq::empty())
    }
}

/// The content stream of text segments `segs` interleaved with `elems`.
pub open spec fn merged_stream(segs: Seq<Seq<char>>, elems: Seq<ElementView>) -> Seq<ElementView> {
    stream_from(segs, elems, 0, Seq::empty())
}

/// The content stream of a post whose flattened text is `text` and whose
/// extracted elements are `elems`; `None` when the markers in the text do not
/// match the elements.
pub open spec fn content_stream(text: Seq<char>, elems: Seq<ElementView>) -> Option<
    Seq<ElementView>,
> {
    if elems.len() == 0 {
        Some(flush(text))
    } else if split_seq(text, SPLIT_MARKER@).len() == elems.len() + 1 {
        Some(merged_stream(split_seq(text, SPLIT_MARKER@), elems))
    } else {
        None
    }
}

/// The elements of `s` that are not text.
pub open spec fn media_of(s: Seq<ElementView>) -> Seq<ElementView> {
    s.filter(|e: ElementView| e.kind != ElementType::Text)
}

/// The text items of `s`.
pub open spec fn texts_of(s: Seq<ElementView>) -> Seq<ElementView> {
    s.filter(|e: ElementView| e.kind == ElementType::Text)
}

/// Pushes the trimmed `buf` onto `out` as a text item unless it is empty.
fn push_text(out: &mut Vec<Element>, buf: &String)
    ensures
        views(final(out)@) == views(old(out)@) + flush(buf@),
{
    let t = trim(buf.as_str());
    let ghost before = views(out@);
    if !t.as_str().is_empty() {
        proof {
            assert(t@.len() > 0);
        }
        out.push(Element::new(ElementType::Text, t));
        proof {
            assert(views(out@) =~= before + flush(buf@));
        }
    } else {
        proof {
            assert(t@.len() == 0);
            assert(views(out@) =~= before + flush(buf@));
        }
    }
}

/// Interleaves the text segments with the elements: `segs[i]` is the text that
/// precedes `elems[i]`, and the last segment follows the last element.
pub fn merge_segments(segs: &Vec<String>, elems: &Vec<Element>) -> (r: Vec<Element>)
    requires
        segs@.len() == elems@.len() + 1,
    ensures
        views(r@) == merged_stream(segs@.map_values(|p: String| p@), views(elems@)),
{
    let ghost sv = segs@.map_values(|p: String| p@);
    let ghost ev = views(elems@);
    let mut out: Vec<Element> = Vec::new();
    let mut buf = String::new();
    let mut i: usize = 0;
    while i < elems.len()
        invariant
            sv == segs@.map_values(|p: String| p@),
            ev == views(elems@),
            segs@.len() == elems@.len() + 1,
            i <= elems@.len(),
            views(out@) + stream_from(sv, ev, i as int, buf@) == merged_stream(sv, ev),
        decreases elems@.len() - i,
    {
        let ghost old_out = views(out@);
        let ghost old_buf = buf@;
        buf.append(segs[i].as_str());
        if elems[i].kind == ElementType::Text {
            buf.append(elems[i].data.as_str());
            proof {
                assert(buf@ == old_buf + sv[i as int] + ev[i as int].data);
            }
        } else {
            push_text(&mut out, &buf);
            out.push(elems[i].duplicate());
            buf = String::new();
            proof {
                assert(views(out@) =~= old_out + flush(old_buf + sv[i as int]) + seq![ev[i as int]]);
                assert(buf@ =~= Seq::<char>::empty());
            }
        }
        i = i + 1;
    }
    buf.append(segs[i].as_str());
    push_text(&mut out, &buf);
    out
}

/// The content stream of a post whose flattened text is `text` and whose
/// extracted elements, in document order, are `elems`.
pub fn reconstruct(text: &str, elems: &Vec<Element>) -> (r: Result<Vec<Element>, ExtractError>)
    ensures
        match r {
            Ok(items) => content_stream(text@, views(elems@)) == Some(views(items@)),
            Err(e) => e == ExtractError::MarkerMismatch && content_stream(text@, views(elems@))
                is None,
        },
{
    if elems.len() == 0 {
        let mut out: Vec<Element> = Vec::new();
        let whole = String::from_str(text);
        push_text(&mut out, &whole);
        proof {
            assert(views(Seq::<Element>::empty()) =~= Seq::<ElementView>::empty());
            assert(views(out@) =~= flush(text@));
        }
        return Ok(out);
    }
    proof {
        reveal_strlit("/@split@۝┛");
    }
    let segs = split_on(text, SPLIT_MARKER);
    if segs.len() == 0 || segs.len() - 1 != elems.len() {
        return Err(ExtractError::MarkerMismatch);
    }
    Ok(merge_segments(&segs, elems))
}

proof fn lemma_filter_one(e: ElementView)
    ensures
        media_of(seq![e]) == (if e.kind != ElementType::Text { seq![e] } else { Seq::empty() }),
        texts_of(seq![e]) == (if e.kind == ElementType::Text { seq![e] } else { Seq::empty() }),
{
    reveal_with_fuel(Seq::filter, 2);
    assert(seq![e].drop_last() =~= Seq::<ElementView>::empty());
    if e.kind == ElementType::Text {
        assert(media_of(seq![e]) =~= Seq::<ElementView>::empty());
        assert(texts_of(seq![e]) =~= seq![e]);
    } else {
        assert(media_of(seq![e]) =~= seq![e]);
        assert(texts_of(seq![e]) =~= Seq::<ElementView>::empty());
    }
}

proof fn lemma_flush(buf: Seq<char>)
    ensures
        media_of(flush(buf)) =~= Seq::<ElementView>::empty(),
        texts_of(flush(buf)) == flush(buf),
        flush(buf).len() <= 1,
        forall|k: int| 0 <= k < flush(buf).len() ==> flush(buf)[k].data.len() > 0,
{
    reveal(Seq::filter);
    if trimmed(buf).len() > 0 {
        lemma_filter_one(ElementView { kind: ElementType::Text, data: trimmed(buf) });
    }
}

proof fn lemma_stream_from(segs: Seq<Seq<char>>, elems: Seq<ElementView>, i: int, buf: Seq<char>)
    requires
        0 <= i <= elems.len(),
        segs.len() == elems.len() + 1,
    ensures
        media_of(stream_from(segs, elems, i, buf)) == media_of(elems.subrange(i, elems.len() as int)),
        texts_of(stream_from(segs, elems, i, buf)).len() <= media_of(
            elems.subrange(i, elems.len() as int),
        ).len() + 1,
        forall|k: int|
            0 <= k < stream_from(segs, elems, i, buf).len() && stream_from(segs, elems, i, buf)[k].kind
                == ElementType::Text ==> stream_from(segs, elems, i, buf)[k].data.len() > 0,
    decreases elems.len() - i,
{
    let rest = elems.subrange(i, elems.len() as int);
    let media_pred = |e: ElementView| e.kind != ElementType::Text;
    let text_pred = |e: ElementView| e.kind == ElementType::Text;
    if i == elems.len() {
        lemma_flush(buf + segs[i]);
        assert(rest =~= Seq::<ElementView>::empty());
        assert(media_of(rest) =~= Seq::<ElementView>::empty());
    } else {
        let tail = elems.subrange(i + 1, elems.len() as int);
        assert(rest =~= seq![elems[i]] + tail);
        Seq::filter_distributes_over_add(seq![elems[i]], tail, media_pred);
        lemma_filter_one(elems[i]);
        if elems[i].kind == ElementType::Text {
            lemma_stream_from(segs, elems, i + 1, buf + segs[i] + elems[i].data);
            assert(media_of(rest) =~= media_of(tail));
        } else {
            let nb = Seq::<char>::empty();
            lemma_stream_from(segs, elems, i + 1, nb);
            let f = flush(buf + segs[i]);
            let s2 = stream_from(segs, elems, i + 1, nb);
            lemma_flush(buf + segs[i]);
            Seq::filter_distributes_over_add(f + seq![elems[i]], s2, media_pred);
            Seq::filter_distributes_over_add(f, seq![elems[i]], media_pred);
            Seq::filter_distributes_over_add(f + seq![elems[i]], s2, text_pred);
            Seq::filter_distributes_over_add(f, seq![elems[i]], text_pred);
            assert(media_of(rest) =~= seq![elems[i]] + media_of(tail));
            assert(media_of(f + seq![elems[i]]) =~= seq![elems[i]]);
            assert(texts_of(f + seq![elems[i]]) =~= f);
            let whole = f + seq![elems[i]] + s2;
            assert forall|k: int| 0 <= k < whole.len() && whole[k].kind == ElementType::Text implies whole[k].data.len() > 0 by {
                if k < f.len() {
                    assert(whole[k] == f[k]);
                } else if k > f.len() {
                    assert(whole[k] == s2[k - f.len() - 1]);
                }
            }
        }
    }
}

/// Reassembling a post keeps every element that is not text, in document
/// order, so that `N` such elements give exactly `N` non-text items; it emits at
/// most `N + 1` text items, none of them empty; and a successful reassembly
/// split the text into exactly one more segment than there are elements.
pub proof fn lemma_stream_shape(text: Seq<char>, elems: Seq<ElementView>)
    requires
        content_stream(text, elems) is Some,
    ensures
        media_of(content_stream(text, elems)->0) == media_of(elems),
        texts_of(content_stream(text, elems)->0).len() <= media_of(elems).len() + 1,
        forall|k: int|
            0 <= k < content_stream(text, elems)->0.len() && content_stream(text, elems)->0[k].kind
                == ElementType::Text ==> content_stream(text, elems)->0[k].data.len() > 0,
        elems.len() > 0 ==> split_seq(text, SPLIT_MARKER@).len() == elems.len() + 1,
{
    if elems.len() == 0 {
        lemma_flush(text);
        reveal(Seq::filter);
        assert(media_of(elems) =~= Seq::<ElementView>::empty());
    } else {
        let segs = split_seq(text, SPLIT_MARKER@);
        lemma_stream_from(segs, elems, 0, Seq::empty());
        assert(elems.subrange(0, elems.len() as int) =~= elems);
    }
}

/// A post from which no element was extracted yields its flattened text,
/// trimmed, as its only item, or nothing when that is empty.
pub proof fn lemma_plain_post(text: Seq<char>)
    ensures
        content_stream(text, Seq::empty()) == Some(
            if trimmed(text).len() == 0 {
                Seq::<ElementView>::empty()
            } else {
                seq![ElementView { kind: ElementType::Text, data: trimmed(text) }]
            },
        ),
{
}

} // verus!
