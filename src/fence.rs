use vstd::prelude::*;

use crate::text::{
    join_lines, lemma_split_rejoins, lines_of, marked, no_crlf, push_char, split_acc, split_lines,
    starts_with_marker,
};
use crate::widget::{render_nix_repl_html, widget};

verus! {

/// Opens an interactive block.
pub const START: &'static str = "```nix repl";

/// Closes a block.
pub const END: &'static str = "```";

pub open spec fn is_start_line(line: Seq<char>) -> bool {
    marked(line, START@)
}

pub open spec fn is_end_line(line: Seq<char>) -> bool {
    marked(line, END@)
}

/// Where the scanner stands between two lines: the output so far, whether a
/// block is open, and the body gathered for the block.
pub ghost struct ScanState {
    pub out: Seq<char>,
    pub inside: bool,
    pub body: Seq<char>,
}

pub open spec fn initial() -> ScanState {
    ScanState { out: seq![], inside: false, body: seq![] }
}

/// One line through the scanner.
pub open spec fn scan_step(st: ScanState, line: Seq<char>) -> ScanState {
    if !st.inside {
        if is_start_line(line) {
            ScanState { out: st.out, inside: true, body: seq![] }
        } else {
            ScanState { out: st.out + line.push('\n'), ..st }
        }
    } else if is_end_line(line) {
        ScanState { out: st.out + widget(st.body), inside: false, body: st.body }
    } else {
        ScanState { body: st.body + line.push('\n'), ..st }
    }
}

/// The lines through the scanner, in order.
pub open spec fn scan(st: ScanState, lines: Seq<Seq<char>>) -> ScanState
    decreases lines.len(),
{
    if lines.len() == 0 {
        st
    } else {
        scan_step(scan(st, lines.drop_last()), lines.last())
    }
}

/// The output once the lines have run out: a block left open gives up its raw body.
pub open spec fn finish(st: ScanState) -> Seq<char> {
    if st.inside {
        st.out + st.body
    } else {
        st.out
    }
}

pub open spec fn rewrite_lines(lines: Seq<Seq<char>>) -> Seq<char> {
    finish(scan(initial(), lines))
}

/// A chapter's text with each fenced `nix repl` block replaced by its widget.
pub open spec fn rewrite_text(s: Seq<char>) -> Seq<char> {
    rewrite_lines(lines_of(s))
}

/// Replaces each fenced `nix repl` block of `input` with an interactive widget.
/// Other lines pass through, each followed by a newline; a block with no closing
/// fence is written out raw, without its opening line.
pub fn rewrite_fenced_nix_repl_blocks(input: &str) -> (r: String)
    ensures
        r@ == rewrite_text(input@),
{
    let lines = split_lines(input);
    let ghost model = lines_of(input@);
    let mut out = String::new();
    let mut in_block = false;
    let mut buf = String::new();
    let mut i: usize = 0;
    assert(model.take(0) =~= seq![]);
    while i < lines.len()
        invariant
            i <= lines@.len(),
            lines@.len() == model.len(),
            forall|j: int| 0 <= j < lines@.len() ==> #[trigger] lines@[j]@ == model[j],
            scan(initial(), model.take(i as int)) == (ScanState {
                out: out@,
                inside: in_block,
                body: buf@,
            }),
        decreases lines@.len() - i,
    {
        let line = lines[i].as_str();
        assert(model.take(i + 1).drop_last() =~= model.take(i as int));
        assert(model.take(i + 1).last() == line@);
        if !in_block {
            if starts_with_marker(line, START) {
                in_block = true;
                buf = String::new();
            } else {
                out.append(line);
                push_char(&mut out, '\n');
            }
        } else if starts_with_marker(line, END) {
            let html = render_nix_repl_html(buf.as_str());
            out.append(html.as_str());
            in_block = false;
        } else {
            buf.append(line);
            push_char(&mut buf, '\n');
        }
        i = i + 1;
    }
    assert(model.take(i as int) =~= model);
    if in_block {
        out.append(buf.as_str());
    }
    out
}

/// Applies every content rewrite to one chapter's text.
pub fn rewrite_chapter(input: &str) -> (r: String)
    ensures
        r@ == rewrite_text(input@),
{
    rewrite_fenced_nix_repl_blocks(input)
}

/// Rewrites every text unit of a document in place.
pub fn rewrite_document(units: &mut Vec<String>)
    ensures
        final(units)@.len() == old(units)@.len(),
        forall|i: int|
            0 <= i < old(units)@.len() ==> #[trigger] final(units)@[i]@ == rewrite_text(
                old(units)@[i]@,
            ),
{
    let mut i: usize = 0;
    while i < units.len()
        invariant
            i <= units@.len(),
            units@.len() == old(units)@.len(),
            forall|j: int| 0 <= j < i ==> #[trigger] units@[j]@ == rewrite_text(old(units)@[j]@),
            forall|j: int| i <= j < units@.len() ==> #[trigger] units@[j] == old(units)@[j],
        decreases units@.len() - i,
    {
        let r = rewrite_chapter(units[i].as_str());
        units[i] = r;
        i = i + 1;
    }
}

proof fn lemma_scan_one(st: ScanState, line: Seq<char>)
    ensures
        scan(st, seq![line]) == scan_step(st, line),
{
    let one = seq![line];
    assert(one.drop_last() =~= Seq::<Seq<char>>::empty());
    assert(scan(st, one.drop_last()) == st);
}

proof fn lemma_scan_concat(st: ScanState, a: Seq<Seq<char>>, b: Seq<Seq<char>>)
    ensures
        scan(st, a + b) == scan(scan(st, a), b),
    decreases b.len(),
{
    if b.len() == 0 {
        assert(a + b =~= a);
    } else {
        assert((a + b).drop_last() =~= a + b.drop_last());
        assert((a + b).last() == b.last());
        lemma_scan_concat(st, a, b.drop_last());
    }
}

proof fn lemma_scan_outside(st: ScanState, lines: Seq<Seq<char>>)
    requires
        !st.inside,
        forall|i: int| 0 <= i < lines.len() ==> !is_start_line(#[trigger] lines[i]),
    ensures
        scan(st, lines) == (ScanState { out: st.out + join_lines(lines), inside: false, body: st.body }),
    decreases lines.len(),
{
    if lines.len() == 0 {
        assert(st.out + join_lines(lines) =~= st.out);
    } else {
        let init = lines.drop_last();
        assert forall|i: int| 0 <= i < init.len() implies !is_start_line(#[trigger] init[i]) by {
            assert(init[i] == lines[i]);
        }
        lemma_scan_outside(st, init);
        assert(!is_start_line(lines[lines.len() - 1]));
        assert(st.out + join_lines(init) + lines.last().push('\n') =~= st.out + join_lines(lines));
    }
}

proof fn lemma_scan_inside(st: ScanState, lines: Seq<Seq<char>>)
    requires
        st.inside,
        forall|i: int| 0 <= i < lines.len() ==> !is_end_line(#[trigger] lines[i]),
    ensures
        scan(st, lines) == (ScanState { out: st.out, inside: true, body: st.body + join_lines(lines) }),
    decreases lines.len(),
{
    if lines.len() == 0 {
        assert(st.body + join_lines(lines) =~= st.body);
    } else {
        let init = lines.drop_last();
        assert forall|i: int| 0 <= i < init.len() implies !is_end_line(#[trigger] init[i]) by {
            assert(init[i] == lines[i]);
        }
        lemma_scan_inside(st, init);
        assert(!is_end_line(lines[lines.len() - 1]));
        assert(st.body + join_lines(init) + lines.last().push('\n') =~= st.body + join_lines(
            lines,
        ));
    }
}

/// From any state outside a block, the scanner writes what it would write from the
/// start, after the output it already holds.
proof fn lemma_scan_shift(st: ScanState, lines: Seq<Seq<char>>)
    requires
        !st.inside,
    ensures
        finish(scan(st, lines)) == st.out + finish(scan(initial(), lines)),
        scan(st, lines).out == st.out + scan(initial(), lines).out,
        scan(st, lines).inside == scan(initial(), lines).inside,
        scan(st, lines).inside ==> scan(st, lines).body == scan(initial(), lines).body,
    decreases lines.len(),
{
    let r1 = scan(st, lines);
    let r2 = scan(initial(), lines);
    if lines.len() == 0 {
        assert(st.out + seq![] =~= st.out);
    } else {
        lemma_scan_shift(st, lines.drop_last());
        let p1 = scan(st, lines.drop_last());
        let l = lines.last();
        if !p1.inside {
            if !is_start_line(l) {
                assert(r1.out =~= st.out + r2.out);
            }
        } else if is_end_line(l) {
            assert(r1.out =~= st.out + r2.out);
        }
    }
    if r1.inside {
        assert(r1.out + r1.body =~= st.out + (r2.out + r2.body));
    }
}

/// Without an opening fence, every line passes through followed by a newline; so a
/// text that ends in a newline (or is empty) and has no `\r\n` comes back unchanged.
pub proof fn lemma_rewrite_without_blocks(s: Seq<char>)
    requires
        forall|i: int| 0 <= i < lines_of(s).len() ==> !is_start_line(#[trigger] lines_of(s)[i]),
    ensures
        rewrite_text(s) == join_lines(lines_of(s)),
        (s.len() == 0 || s.last() == '\n') && no_crlf(s) ==> rewrite_text(s) == s,
{
    lemma_scan_outside(initial(), lines_of(s));
    assert(seq![] + join_lines(lines_of(s)) =~= join_lines(lines_of(s)));
    if (s.len() == 0 || s.last() == '\n') && no_crlf(s) {
        lemma_split_rejoins(s);
        assert(join_lines(split_acc(s).0) + seq![] =~= join_lines(split_acc(s).0));
    }
}

/// A text whose lines are `pre`, an opening fence, `body`, a closing fence and
/// `post` (no opening fence in `pre`, no closing fence in `body`) is rewritten to
/// `pre`'s lines, the widget for `body` (its lines, each with a newline), and the
/// rewrite of `post`.
pub proof fn lemma_rewrite_block(
    s: Seq<char>,
    pre: Seq<Seq<char>>,
    open: Seq<char>,
    body: Seq<Seq<char>>,
    close: Seq<char>,
    post: Seq<Seq<char>>,
)
    requires
        lines_of(s) == pre + seq![open] + body + seq![close] + post,
        forall|i: int| 0 <= i < pre.len() ==> !is_start_line(#[trigger] pre[i]),
        is_start_line(open),
        forall|i: int| 0 <= i < body.len() ==> !is_end_line(#[trigger] body[i]),
        is_end_line(close),
    ensures
        rewrite_text(s) == join_lines(pre) + widget(join_lines(body)) + rewrite_lines(post),
{
    let a = pre + seq![open];
    let b = a + body;
    let c = b + seq![close];
    lemma_scan_outside(initial(), pre);
    lemma_scan_concat(initial(), pre, seq![open]);
    lemma_scan_one(scan(initial(), pre), open);
    let s1 = scan(initial(), a);
    assert(s1 == ScanState { out: seq![] + join_lines(pre), inside: true, body: seq![] });
    lemma_scan_concat(initial(), a, body);
    lemma_scan_inside(s1, body);
    let s2 = scan(initial(), b);
    lemma_scan_concat(initial(), b, seq![close]);
    lemma_scan_one(s2, close);
    let s3 = scan(initial(), c);
    assert(seq![] + join_lines(body) =~= join_lines(body));
    assert(s3.out == seq![] + join_lines(pre) + widget(join_lines(body)));
    assert(!s3.inside);
    lemma_scan_concat(initial(), c, post);
    lemma_scan_shift(s3, post);
    assert(seq![] + join_lines(pre) =~= join_lines(pre));
}

/// A text whose lines are `pre`, an opening fence and `body`, with no closing fence
/// in `body`, is rewritten to `pre`'s lines followed by `body`'s lines as they were.
pub proof fn lemma_rewrite_unterminated(
    s: Seq<char>,
    pre: Seq<Seq<char>>,
    open: Seq<char>,
    body: Seq<Seq<char>>,
)
    requires
        lines_of(s) == pre + seq![open] + body,
        forall|i: int| 0 <= i < pre.len() ==> !is_start_line(#[trigger] pre[i]),
        is_start_line(open),
        forall|i: int| 0 <= i < body.len() ==> !is_end_line(#[trigger] body[i]),
    ensures
        rewrite_text(s) == join_lines(pre) + join_lines(body),
{
    let a = pre + seq![open];
    lemma_scan_outside(initial(), pre);
    lemma_scan_concat(initial(), pre, seq![open]);
    lemma_scan_one(scan(initial(), pre), open);
    let s1 = scan(initial(), a);
    assert(s1 == ScanState { out: seq![] + join_lines(pre), inside: true, body: seq![] });
    lemma_scan_concat(initial(), a, body);
    lemma_scan_inside(s1, body);
    assert(seq![] + join_lines(pre) =~= join_lines(pre));
    assert(seq![] + join_lines(body) =~= join_lines(body));
}

} // verus!
