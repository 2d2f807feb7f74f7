use vstd::prelude::*;

use crate::text::has_prefix;

verus! {

pub open spec fn amp_entity() -> Seq<char> {
    seq!['&', 'a', 'm', 'p', ';']
}

pub open spec fn lt_entity() -> Seq<char> {
    seq!['&', 'l', 't', ';']
}

pub open spec fn gt_entity() -> Seq<char> {
    seq!['&', 'g', 't', ';']
}

pub open spec fn quot_entity() -> Seq<char> {
    seq!['&', 'q', 'u', 'o', 't', ';']
}

pub open spec fn apos_entity() -> Seq<char> {
    seq!['&', '#', 'x', '2', '7', ';']
}

/// How one char stands in HTML: `&`, `<`, `>`, `"` and `'` become entities.
pub open spec fn escape_char(c: char) -> Seq<char> {
    if c == '&' {
        amp_entity()
    } else if c == '<' {
        lt_entity()
    } else if c == '>' {
        gt_entity()
    } else if c == '"' {
        quot_entity()
    } else if c == '\'' {
        apos_entity()
    } else {
        seq![c]
    }
}

/// `s` made safe for HTML: ampersand, angle brackets and both quotes become entities.
pub open spec fn html_text_escape(s: Seq<char>) -> Seq<char>
    decreases s.len(),
{
    if s.len() == 0 {
        seq![]
    } else {
        escape_char(s[0]) + html_text_escape(s.drop_first())
    }
}

/// Decodes the entities `&amp;`, `&lt;`, `&gt;`, `&quot;` and `&#x27;`; every other
/// char stands for itself.
pub open spec fn html_text_unescape(s: Seq<char>) -> Seq<char>
    decreases s.len(),
{
    if s.len() == 0 {
        seq![]
    } else if has_prefix(s, amp_entity()) {
        seq!['&'] + html_text_unescape(s.subrange(5, s.len() as int))
    } else if has_prefix(s, lt_entity()) {
        seq!['<'] + html_text_unescape(s.subrange(4, s.len() as int))
    } else if has_prefix(s, gt_entity()) {
        seq!['>'] + html_text_unescape(s.subrange(4, s.len() as int))
    } else if has_prefix(s, quot_entity()) {
        seq!['"'] + html_text_unescape(s.subrange(6, s.len() as int))
    } else if has_prefix(s, apos_entity()) {
        seq!['\''] + html_text_unescape(s.subrange(6, s.len() as int))
    } else {
        seq![s[0]] + html_text_unescape(s.drop_first())
    }
}

/// The markup that opens a widget, up to the code.
pub open spec fn widget_head() -> Seq<char> {
    WIDGET_HEAD@
}

/// The markup that closes a widget, after the code.
pub open spec fn widget_tail() -> Seq<char> {
    WIDGET_TAIL@
}

/// The interactive widget for a block whose body is `code`.
pub open spec fn widget(code: Seq<char>) -> Seq<char> {
    widget_head() + html_text_escape(code) + widget_tail()
}

pub const WIDGET_HEAD: &'static str = "<div class=\"nix-repl-block\">\n  <div class=\"nix-repl-editor\">\n    <pre><code class=\"language-nix\">";

pub const WIDGET_TAIL: &'static str = "</code></pre>\n  </div>\n  <div class=\"nix-repl-controls\">\n    <button class=\"nix-repl-run\">Run</button>\n    <span class=\"nix-repl-status\"></span>\n  </div>\n  <pre class=\"nix-repl-output\"></pre>\n</div>\n";

/// Relies on html_escape::encode_quoted_attribute: `&`, `<`, `>`, `"` and `'` become
/// `&amp;`, `&lt;`, `&gt;`, `&quot;` and `&#x27;`, and every other char is kept.
#[verifier::external_body]
fn encode_quoted(code: &str) -> (r: String)
    ensures
        r@ == html_text_escape(code@),
{
    html_escape::encode_quoted_attribute(code).into_owned()
}

/// Renders a block's body as an interactive widget: the escaped code, a run
/// button, a status indicator and an empty output area.
pub fn render_nix_repl_html(code: &str) -> (r: String)
    ensures
        r@ == widget(code@),
{
    let escaped = encode_quoted(code);
    let mut html = WIDGET_HEAD.to_owned();
    html.append(escaped.as_str());
    html.append(WIDGET_TAIL);
    html
}

/// A text that begins with one entity does not begin with another whose second
/// char differs.
proof fn lemma_other_entity(e: Seq<char>, p: Seq<char>, q: Seq<char>)
    requires
        has_prefix(e, p),
        p.len() >= 2,
        q.len() >= 2,
        p[1] != q[1],
    ensures
        !has_prefix(e, q),
{
    assert(e.subrange(0, p.len() as int)[1] == p[1]);
    if has_prefix(e, q) {
        assert(e.subrange(0, q.len() as int)[1] == q[1]);
    }
}

/// A text whose first char is no `&` begins with no entity.
proof fn lemma_no_entity(e: Seq<char>)
    requires
        e.len() > 0,
        e[0] != '&',
    ensures
        !has_prefix(e, amp_entity()),
        !has_prefix(e, lt_entity()),
        !has_prefix(e, gt_entity()),
        !has_prefix(e, quot_entity()),
        !has_prefix(e, apos_entity()),
{
    if has_prefix(e, amp_entity()) {
        assert(e.subrange(0, 5)[0] == '&');
    }
    if has_prefix(e, lt_entity()) {
        assert(e.subrange(0, 4)[0] == '&');
    }
    if has_prefix(e, gt_entity()) {
        assert(e.subrange(0, 4)[0] == '&');
    }
    if has_prefix(e, quot_entity()) {
        assert(e.subrange(0, 6)[0] == '&');
    }
    if has_prefix(e, apos_entity()) {
        assert(e.subrange(0, 6)[0] == '&');
    }
}

proof fn lemma_escape_then_unescape(s: Seq<char>)
    ensures
        html_text_unescape(html_text_escape(s)) == s,
    decreases s.len(),
{
    if s.len() > 0 {
        let rest = html_text_escape(s.drop_first());
        let e = html_text_escape(s);
        lemma_escape_then_unescape(s.drop_first());
        let c = s[0];
        let ent = escape_char(c);
        assert(e == ent + rest);
        assert(e.subrange(0, ent.len() as int) =~= ent);
        assert(e.subrange(ent.len() as int, e.len() as int) =~= rest);
        if c == '&' {
        } else if c == '<' {
            lemma_other_entity(e, ent, amp_entity());
        } else if c == '>' {
            lemma_other_entity(e, ent, amp_entity());
            lemma_other_entity(e, ent, lt_entity());
        } else if c == '"' {
            lemma_other_entity(e, ent, amp_entity());
            lemma_other_entity(e, ent, lt_entity());
            lemma_other_entity(e, ent, gt_entity());
        } else if c == '\'' {
            lemma_other_entity(e, ent, amp_entity());
            lemma_other_entity(e, ent, lt_entity());
            lemma_other_entity(e, ent, gt_entity());
            lemma_other_entity(e, ent, quot_entity());
        } else {
            lemma_no_entity(e);
            assert(e.drop_first() =~= rest);
        }
    }
}

/// The code shown in a widget decodes back to the block's body: HTML-unescaping the
/// escaped code gives `code` again.
pub proof fn lemma_widget_round_trip(code: Seq<char>)
    ensures
        html_text_unescape(html_text_escape(code)) == code,
{
    lemma_escape_then_unescape(code);
}

} // verus!
