use vstd::prelude::*;

verus! {

/// The Unicode `White_Space` property.
pub open spec fn is_white_space(c: char) -> bool {
    let u = c as u32;
    (0x9 <= u && u <= 0xD) || u == 0x20 || u == 0x85 || u == 0xA0 || u == 0x1680 || (0x2000 <= u
        && u <= 0x200A) || u == 0x2028 || u == 0x2029 || u == 0x202F || u == 0x205F || u == 0x3000
}

/// The text with its leading white space removed.
pub open spec fn trim_start(s: Seq<char>) -> Seq<char>
    decreases s.len(),
{
    if s.len() > 0 && is_white_space(s[0]) {
        trim_start(s.drop_first())
    } else {
        s
    }
}

pub open spec fn has_prefix(s: Seq<char>, p: Seq<char>) -> bool {
    p.len() <= s.len() && s.subrange(0, p.len() as int) == p
}

/// A line is marked by `marker` when, past its leading white space, it begins with it.
pub open spec fn marked(line: Seq<char>, marker: Seq<char>) -> bool {
    has_prefix(trim_start(line), marker)
}

/// Drops one carriage return at the end of a line.
pub open spec fn strip_cr(s: Seq<char>) -> Seq<char> {
    if s.len() > 0 && s.last() == '\r' {
        s.drop_last()
    } else {
        s
    }
}

/// Reading `s` from the left: the lines finished so far, and the open line.
pub open spec fn split_acc(s: Seq<char>) -> (Seq<Seq<char>>, Seq<char>)
    decreases s.len(),
{
    if s.len() == 0 {
        (seq![], seq![])
    } else {
        let (done, cur) = split_acc(s.drop_last());
        if s.last() == '\n' {
            (done.push(strip_cr(cur)), seq![])
        } else {
            (done, cur.push(s.last()))
        }
    }
}

/// The lines of `s`: split at `\n` or `\r\n`; the final line ending is optional,
/// and a final line without one keeps a trailing `\r`.
pub open spec fn lines_of(s: Seq<char>) -> Seq<Seq<char>> {
    let (done, cur) = split_acc(s);
    if cur.len() == 0 {
        done
    } else {
        done.push(cur)
    }
}

/// Each line followed by a newline.
pub open spec fn join_lines(lines: Seq<Seq<char>>) -> Seq<char>
    decreases lines.len(),
{
    if lines.len() == 0 {
        seq![]
    } else {
        join_lines(lines.drop_last()) + lines.last().push('\n')
    }
}

/// No carriage return stands right before a newline.
pub open spec fn no_crlf(s: Seq<char>) -> bool {
    forall|i: int| 0 <= i && i + 1 < s.len() ==> !(#[trigger] s[i] == '\r' && s[i + 1] == '\n')
}

/// With no `\r\n` in `s`, the finished lines, each with its newline, followed by the
/// open line, give `s` back.
pub proof fn lemma_split_rejoins(s: Seq<char>)
    requires
        no_crlf(s),
    ensures
        join_lines(split_acc(s).0) + split_acc(s).1 == s,
    decreases s.len(),
{
    if s.len() > 0 {
        let p = s.drop_last();
        assert forall|i: int| 0 <= i && i + 1 < p.len() implies !(#[trigger] p[i] == '\r' && p[i
            + 1] == '\n') by {
            assert(p[i] == s[i] && p[i + 1] == s[i + 1]);
        }
        lemma_split_rejoins(p);
        let (d, c) = split_acc(p);
        assert(s =~= p.push(s.last()));
        assert(join_lines(d) + c.push(s.last()) =~= (join_lines(d) + c).push(s.last()));
        if s.last() == '\n' {
            if c.len() > 0 && c.last() == '\r' {
                assert(p[p.len() - 1] == (join_lines(d) + c)[p.len() - 1]);
                assert(s[s.len() - 2] == '\r');
            }
            assert(strip_cr(c) == c);
            assert(join_lines(d.push(c)) == join_lines(d) + c.push('\n')) by {
                assert(d.push(c).drop_last() =~= d);
            }
            assert(join_lines(d) + c.push('\n') + seq![] =~= s);
        } else {
            assert(join_lines(d) + c.push(s.last()) =~= s);
        }
    }
}

/// Relies on char::is_whitespace: true exactly for the `White_Space` property.
#[verifier::external_body]
fn is_whitespace(c: char) -> (r: bool)
    ensures
        r == is_white_space(c),
{
    c.is_whitespace()
}

/// Relies on String::push: appends one char.
#[verifier::external_body]
pub(crate) fn push_char(s: &mut String, c: char)
    ensures
        final(s)@ == old(s)@.push(c),
{
    s.push(c)
}

proof fn lemma_trim_start_skip(s: Seq<char>)
    requires
        s.len() > 0,
        is_white_space(s[0]),
    ensures
        trim_start(s) == trim_start(s.subrange(1, s.len() as int)),
{
    assert(s.drop_first() =~= s.subrange(1, s.len() as int));
}

/// Whether `line`, past its leading white space, begins with `marker`.
pub fn starts_with_marker(line: &str, marker: &str) -> (r: bool)
    ensures
        r == marked(line@, marker@),
{
    let mlen = marker.unicode_len();
    if mlen == 0 {
        assert(trim_start(line@).subrange(0, 0) =~= marker@);
        return true;
    }
    let ghost n = line@.len();
    assert(line@.subrange(0, n as int) =~= line@);
    let mut skipping = true;
    let mut k: usize = 0;
    for c in it: line.chars()
        invariant
            it.seq() == line@,
            n == line@.len(),
            mlen == marker@.len(),
            mlen > 0,
            k < mlen,
            skipping ==> k == 0 && trim_start(line@) == trim_start(
                line@.subrange(it.index() as int, n as int),
            ),
            !skipping ==> trim_start(line@) == marker@.subrange(0, k as int) + line@.subrange(
                it.index() as int,
                n as int,
            ),
    {
        let ghost i = it.index() as int;
        let ghost rest = line@.subrange(i, n as int);
        assert(rest[0] == c);
        assert(line@.subrange(i + 1, n as int) =~= rest.subrange(1, rest.len() as int));
        let ws = skipping && is_whitespace(c);
        if ws {
            proof {
                lemma_trim_start_skip(rest);
            }
        } else {
            if skipping {
                skipping = false;
                assert(trim_start(line@) == marker@.subrange(0, 0) + rest);
            }
            if c != marker.get_char(k) {
                proof {
                    let t = trim_start(line@);
                    assert(t[k as int] == c);
                    assert(marker@.len() <= t.len() ==> t.subrange(0, mlen as int)[k as int] == c);
                }
                return false;
            }
            k = k + 1;
            assert(marker@.subrange(0, k as int) + line@.subrange(i + 1, n as int) =~= marker@.subrange(
                0,
                k - 1,
            ) + rest);
            if k == mlen {
                proof {
                    let t = trim_start(line@);
                    assert(t.subrange(0, mlen as int) =~= marker@);
                }
                return true;
            }
        }
    }
    proof {
        let t = trim_start(line@);
        assert(line@.subrange(n as int, n as int).len() == 0);
        if skipping {
            assert(trim_start(seq![]) == Seq::<char>::empty());
        }
        assert(t.len() < mlen);
    }
    false
}

/// Whether two texts are the same.
pub fn same_text(a: &str, b: &str) -> (r: bool)
    ensures
        r == (a@ == b@),
{
    let n = b.unicode_len();
    let mut i: usize = 0;
    for c in it: a.chars()
        invariant
            it.seq() == a@,
            n == b@.len(),
            i == it.index(),
            i <= n,
            a@.subrange(0, i as int) == b@.subrange(0, i as int),
    {
        if i == n || c != b.get_char(i) {
            proof {
                if a@ == b@ {
                    assert(a@[i as int] == b@[i as int]);
                }
            }
            return false;
        }
        assert(a@.subrange(0, i + 1) =~= a@.subrange(0, i as int).push(c));
        assert(b@.subrange(0, i + 1) =~= b@.subrange(0, i as int).push(b@[i as int]));
        i = i + 1;
    }
    assert(a@.subrange(0, a@.len() as int) =~= a@);
    if i == n {
        assert(b@.subrange(0, n as int) =~= b@);
        true
    } else {
        false
    }
}

/// The lines of `s`, as `str::lines` gives them.
pub fn split_lines(s: &str) -> (r: Vec<String>)
    ensures
        r@.len() == lines_of(s@).len(),
        forall|i: int| 0 <= i < r@.len() ==> #[trigger] r@[i]@ == lines_of(s@)[i],
{
    let ghost n = s@.len();
    let mut done: Vec<String> = Vec::new();
    let mut cur = String::new();
    let mut pending_cr = false;
    for c in it: s.chars()
        invariant
            it.seq() == s@,
            n == s@.len(),
            ({
                let (d, o) = split_acc(s@.subrange(0, it.index() as int));
                &&& done@.len() == d.len()
                &&& forall|i: int| 0 <= i < d.len() ==> #[trigger] done@[i]@ == d[i]
                &&& o == if pending_cr {
                    cur@.push('\r')
                } else {
                    cur@
                }
            }),
            !pending_cr ==> cur@.len() == 0 || cur@.last() != '\r',
    {
        let ghost i = it.index() as int;
        let ghost d0 = split_acc(s@.subrange(0, i)).0;
        let ghost o0 = split_acc(s@.subrange(0, i)).1;
        assert(s@.subrange(0, i + 1).drop_last() =~= s@.subrange(0, i));
        assert(s@.subrange(0, i + 1).last() == c);
        if c == '\n' {
            proof {
                if pending_cr {
                    assert(cur@.push('\r').drop_last() =~= cur@);
                }
            }
            done.push(cur);
            cur = String::new();
            pending_cr = false;
            proof {
                let d = split_acc(s@.subrange(0, i + 1)).0;
                assert(d =~= d0.push(strip_cr(o0)));
                assert forall|j: int| 0 <= j < d.len() implies #[trigger] done@[j]@ == d[j] by {
                    if j < d0.len() {
                        assert(done@[j]@ == d0[j]);
                    }
                }
            }
        } else if c == '\r' {
            if pending_cr {
                push_char(&mut cur, '\r');
            }
            pending_cr = true;
        } else {
            if pending_cr {
                push_char(&mut cur, '\r');
            }
            push_char(&mut cur, c);
            pending_cr = false;
        }
    }
    assert(s@.subrange(0, n as int) =~= s@);
    if pending_cr {
        push_char(&mut cur, '\r');
    }
    if cur.unicode_len() > 0 {
        done.push(cur);
    }
    proof {
        let d = lines_of(s@);
        assert forall|j: int| 0 <= j < d.len() implies #[trigger] done@[j]@ == d[j] by {
            if j < split_acc(s@).0.len() {
                assert(done@[j]@ == split_acc(s@).0[j]);
            }
        }
    }
    done
}

} // verus!
