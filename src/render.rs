use vstd::prelude::*;
use crate::diff::{all_equal, DiffSegment};
use crate::escape::{
    displayed, escaped, escape_html, lemma_concat_only_tags, lemma_displayed_only_breaks,
    only_break_tags, process_text,
};

verus! {

/// Opens a deleted stretch: dark red background, light red text.
pub const DELETION_OPEN: &'static str = "<span style='background-color: #67060c; color: #ffdcd7'>";

/// Opens an inserted stretch: dark green background, light green text.
pub const INSERTION_OPEN: &'static str = "<span style='background-color: #033a16; color: #aff5b4'>";

pub const SPAN_CLOSE: &'static str = "</span>";

pub const HEADING_OPEN: &'static str = "<div><h2>";

pub const HEADING_CLOSE: &'static str = "</h2>";

pub const FRAGMENT_CLOSE: &'static str = "</div><hr />";

/// The markup of one segment.
pub open spec fn segment_markup(seg: DiffSegment) -> Seq<char> {
    match seg {
        DiffSegment::Equal(t) => displayed(t@),
        DiffSegment::Deleted(t) => DELETION_OPEN@ + displayed(t@) + SPAN_CLOSE@,
        DiffSegment::Inserted(t) => INSERTION_OPEN@ + displayed(t@) + SPAN_CLOSE@,
    }
}

/// The markup of a sequence of segments, one after another.
pub open spec fn segments_markup(segs: Seq<DiffSegment>) -> Seq<char>
    decreases segs.len(),
{
    if segs.len() == 0 {
        Seq::empty()
    } else {
        segments_markup(segs.drop_last()) + segment_markup(segs.last())
    }
}

/// The report fragment of one entry: heading with the escaped id, the segments, a separator.
pub open spec fn fragment(id: Seq<char>, segs: Seq<DiffSegment>) -> Seq<char> {
    HEADING_OPEN@ + escaped(id) + HEADING_CLOSE@ + segments_markup(segs) + FRAGMENT_CLOSE@
}

/// Appends the markup of one segment.
pub fn render_segment(out: &mut String, seg: &DiffSegment)
    ensures
        final(out)@ == old(out)@ + segment_markup(*seg),
{
    match seg {
        DiffSegment::Equal(t) => {
            let p = process_text(t.as_str());
            out.append(p.as_str());
        },
        DiffSegment::Deleted(t) => {
            let p = process_text(t.as_str());
            out.append(DELETION_OPEN);
            out.append(p.as_str());
            out.append(SPAN_CLOSE);
        },
        DiffSegment::Inserted(t) => {
            let p = process_text(t.as_str());
            out.append(INSERTION_OPEN);
            out.append(p.as_str());
            out.append(SPAN_CLOSE);
        },
    }
}

/// Renders the difference of one entry as an HTML fragment headed by its id.
pub fn render_diff(id: &str, diff: &[DiffSegment]) -> (r: String)
    ensures
        r@ == fragment(id@, diff@),
{
    let mut r = String::new();
    r.append(HEADING_OPEN);
    let e = escape_html(id);
    r.append(e.as_str());
    r.append(HEADING_CLOSE);
    let ghost start = r@;
    let mut i: usize = 0;
    while i < diff.len()
        invariant
            i <= diff@.len(),
            r@ == start + segments_markup(diff@.subrange(0, i as int)),
        decreases diff@.len() - i,
    {
        proof {
            assert(diff@.subrange(0, i + 1).drop_last() == diff@.subrange(0, i as int));
        }
        render_segment(&mut r, &diff[i]);
        i = i + 1;
    }
    proof {
        assert(diff@.subrange(0, diff@.len() as int) == diff@);
    }
    r.append(FRAGMENT_CLOSE);
    r
}

/// No styled span opens in the text.
pub open spec fn no_styled_span(s: Seq<char>) -> bool {
    forall|i: int| 0 <= i < s.len() - 1 ==> !(#[trigger] s[i] == '<' && s[i + 1] == 's')
}

/// Segments that are all Equal render as plain text with line breaks: no deletion or
/// insertion styling appears. With the diff's own guarantee that two equal texts give
/// only Equal segments, two identical tool outputs render with no styled span.
pub proof fn lemma_equal_segments_unstyled(segs: Seq<DiffSegment>)
    requires
        all_equal(segs),
    ensures
        only_break_tags(segments_markup(segs)),
        no_styled_span(segments_markup(segs)),
    decreases segs.len(),
{
    let m = segments_markup(segs);
    if segs.len() > 0 {
        let rest = segs.drop_last();
        assert forall|i: int| 0 <= i < rest.len() implies (#[trigger] rest[i]).is_equal() by {
            assert(rest[i] == segs[i]);
        }
        lemma_equal_segments_unstyled(rest);
        assert(segs[segs.len() - 1].is_equal());
        lemma_displayed_only_breaks(segs.last().text());
        lemma_concat_only_tags(segments_markup(rest), segment_markup(segs.last()));
    }
    assert forall|i: int| 0 <= i < m.len() - 1 implies !(#[trigger] m[i] == '<' && m[i + 1] == 's') by {
        if m[i] == '<' {
            assert(m[i + 1] == 'b');
        }
    }
}

} // verus!
