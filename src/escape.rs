use vstd::prelude::*;

verus! {

/// What one character becomes in minimally escaped HTML text.
pub open spec fn entity_of(c: char) -> Seq<char> {
    if c == '&' {
        seq!['&', 'a', 'm', 'p', ';']
    } else if c == '<' {
        seq!['&', 'l', 't', ';']
    } else if c == '>' {
        seq!['&', 'g', 't', ';']
    } else if c == '"' {
        seq!['&', 'q', 'u', 'o', 't', ';']
    } else if c == '\'' {
        seq!['&', '#', 'x', '2', '7', ';']
    } else {
        seq![c]
    }
}

/// The text with each character replaced by its entity.
pub open spec fn escaped(s: Seq<char>) -> Seq<char>
    decreases s.len(),
{
    if s.len() == 0 {
        Seq::empty()
    } else {
        escaped(s.drop_last()) + entity_of(s.last())
    }
}

/// The markup that stands for a line break.
pub const LINE_BREAK: &'static str = "<br />";

/// The text with each newline replaced by the line-break markup.
pub open spec fn with_breaks(s: Seq<char>) -> Seq<char>
    decreases s.len(),
{
    if s.len() == 0 {
        Seq::empty()
    } else if s.last() == '\n' {
        with_breaks(s.drop_last()) + LINE_BREAK@
    } else {
        with_breaks(s.drop_last()).push(s.last())
    }
}

/// Raw text as it is embedded in the report: escaped, then broken into lines.
pub open spec fn displayed(s: Seq<char>) -> Seq<char> {
    with_breaks(escaped(s))
}

/// Relies on htmlescape::encode_minimal, which writes each character of the
/// input in order, as `&amp;`, `&lt;`, `&gt;`, `&quot;`, `&#x27;` or as itself.
#[verifier::external_body]
fn encode_minimal(s: &str) -> (r: String)
    ensures
        r@ == escaped(s@),
{
    htmlescape::encode_minimal(s)
}

/// Relies on String::push: the character is added at the end.
#[verifier::external_body]
pub(crate) fn push_char(s: &mut String, c: char)
    ensures
        final(s)@ == old(s)@.push(c),
{
    s.push(c)
}

/// Escapes text for HTML.
pub fn escape_html(s: &str) -> (r: String)
    ensures
        r@ == escaped(s@),
{
    encode_minimal(s)
}

/// Replaces each newline of the text with the line-break markup.
pub fn break_lines(s: &str) -> (r: String)
    ensures
        r@ == with_breaks(s@),
{
    let mut r = String::new();
    proof {
        reveal_strlit("<br />");
    }
    for c in it: s.chars()
        invariant
            it.seq() == s@,
            r@ == with_breaks(s@.subrange(0, it.index() as int)),
    {
        proof {
            let k = it.index() as int;
            assert(s@.subrange(0, k + 1).drop_last() == s@.subrange(0, k));
        }
        if c == '\n' {
            r.append(LINE_BREAK);
        } else {
            push_char(&mut r, c);
        }
    }
    proof {
        assert(s@.subrange(0, s@.len() as int) == s@);
    }
    r
}

/// Turns raw tool output into HTML: escaped, with each newline as a line break.
pub fn process_text(text: &str) -> (r: String)
    ensures
        r@ == displayed(text@),
{
    let e = escape_html(text);
    break_lines(e.as_str())
}

/// Every `<` of the text opens a line break.
pub open spec fn only_break_tags(s: Seq<char>) -> bool {
    forall|i: int| 0 <= i < s.len() && #[trigger] s[i] == '<' ==> i + 1 < s.len() && s[i + 1] == 'b'
}

proof fn lemma_escaped_has_no_angle(s: Seq<char>)
    ensures
        forall|i: int| 0 <= i < escaped(s).len() ==> #[trigger] escaped(s)[i] != '<',
    decreases s.len(),
{
    if s.len() > 0 {
        lemma_escaped_has_no_angle(s.drop_last());
        let a = escaped(s.drop_last());
        let b = entity_of(s.last());
        assert(escaped(s) == a + b);
        assert forall|i: int| 0 <= i < escaped(s).len() implies #[trigger] escaped(s)[i] != '<' by {
            if i >= a.len() {
                assert(escaped(s)[i] == b[i - a.len()]);
            }
        }
    }
}

proof fn lemma_breaks_only_tags(s: Seq<char>)
    requires
        forall|i: int| 0 <= i < s.len() ==> #[trigger] s[i] != '<',
    ensures
        only_break_tags(with_breaks(s)),
    decreases s.len(),
{
    reveal_strlit("<br />");
    if s.len() > 0 {
        let t = s.drop_last();
        assert forall|i: int| 0 <= i < t.len() implies #[trigger] t[i] != '<' by {
            assert(t[i] == s[i]);
        }
        lemma_breaks_only_tags(t);
        let a = with_breaks(t);
        let b = if s.last() == '\n' { LINE_BREAK@ } else { seq![s.last()] };
        assert(with_breaks(s) == a + b);
        lemma_concat_only_tags(a, b);
    }
}

/// Texts whose every `<` opens a line break keep that property when joined.
pub proof fn lemma_concat_only_tags(a: Seq<char>, b: Seq<char>)
    requires
        only_break_tags(a),
        only_break_tags(b),
    ensures
        only_break_tags(a + b),
{
    let c = a + b;
    assert forall|i: int| 0 <= i < c.len() && #[trigger] c[i] == '<' implies i + 1 < c.len() && c[i + 1] == 'b' by {
        if i < a.len() {
            assert(c[i] == a[i]);
            assert(c[i + 1] == a[i + 1]);
        } else {
            assert(c[i] == b[i - a.len()]);
            assert(c[i + 1] == b[i + 1 - a.len()]);
        }
    }
}

/// Raw text as displayed holds no markup but line breaks.
pub proof fn lemma_displayed_only_breaks(s: Seq<char>)
    ensures
        only_break_tags(displayed(s)),
{
    lemma_escaped_has_no_angle(s);
    lemma_breaks_only_tags(escaped(s));
}

/// Escaping is applied once: an ampersand of the raw text is displayed as `&amp;`,
/// never as `&amp;amp;`.
pub proof fn lemma_ampersand_escaped_once(s: Seq<char>)
    ensures
        displayed(s.push('&')) == displayed(s) + seq!['&', 'a', 'm', 'p', ';'],
{
    let e = escaped(s);
    let amp = seq!['&', 'a', 'm', 'p', ';'];
    assert(s.push('&').drop_last() == s);
    assert(escaped(s.push('&')) == e + amp);
    lemma_breaks_append(e, amp);
}

proof fn lemma_breaks_append(a: Seq<char>, b: Seq<char>)
    requires
        forall|i: int| 0 <= i < b.len() ==> #[trigger] b[i] != '\n',
    ensures
        with_breaks(a + b) == with_breaks(a) + b,
    decreases b.len(),
{
    if b.len() == 0 {
        assert(a + b == a);
    } else {
        let b0 = b.drop_last();
        assert forall|i: int| 0 <= i < b0.len() implies #[trigger] b0[i] != '\n' by {
            assert(b0[i] == b[i]);
        }
        lemma_breaks_append(a, b0);
        assert((a + b).drop_last() == a + b0);
        assert((a + b).last() == b.last());
        assert(b0.push(b.last()) == b);
        assert(with_breaks(a) + b0 + seq![b.last()] == with_breaks(a) + b);
    }
}

} // verus!
