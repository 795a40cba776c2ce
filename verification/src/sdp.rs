//! Sanitization of SDP answer text.
//!
//! Some signaling servers emit SDP origin (`o=`) and session-name (`s=`)
//! lines that the negotiating engine refuses to parse. Before parsing, the
//! answer is rewritten: the first whitespace-separated token of any `o=`
//! line becomes the placeholder `o=-`, any `s=` line becomes exactly `s=-`,
//! and every other line is left byte for byte as it was. Lines are the
//! pieces between line feeds, with one trailing carriage return stripped
//! from each and a final line ending optional; the rewritten lines are
//! joined again with single line feeds. Token separators are spaces and
//! tabs.

use vstd::prelude::*;

verus! {

/// Line feed.
pub open spec fn lf() -> u8 {
    10
}

/// A token separator: space or horizontal tab.
pub open spec fn is_ws(c: u8) -> bool {
    c == 32 || c == 9
}

/// Split at every line feed; there is always one piece more than there are
/// line feeds.
pub open spec fn split_lf(s: Seq<u8>) -> Seq<Seq<u8>>
    decreases s.len(),
{
    if s.len() == 0 {
        seq![Seq::<u8>::empty()]
    } else if s.last() == lf() {
        split_lf(s.drop_last()).push(Seq::<u8>::empty())
    } else {
        let p = split_lf(s.drop_last());
        p.update(p.len() - 1, p.last().push(s.last()))
    }
}

/// The lines of `s`: split at line feeds, a final line ending optional,
/// an empty text having no lines at all.
pub open spec fn lines_of(s: Seq<u8>) -> Seq<Seq<u8>> {
    if s.len() == 0 {
        Seq::<Seq<u8>>::empty()
    } else if s.last() == lf() {
        split_lf(s.drop_last())
    } else {
        split_lf(s)
    }
}

/// Drop one trailing carriage return, if any.
pub open spec fn strip_cr(l: Seq<u8>) -> Seq<u8> {
    if l.len() > 0 && l.last() == 13 {
        l.drop_last()
    } else {
        l
    }
}

/// The whitespace-separated tokens of a line: maximal runs of
/// non-separator bytes.
pub open spec fn tokens(l: Seq<u8>) -> Seq<Seq<u8>>
    decreases l.len(),
{
    if l.len() == 0 {
        Seq::<Seq<u8>>::empty()
    } else {
        let t = tokens(l.drop_last());
        if is_ws(l.last()) {
            t
        } else if l.len() >= 2 && !is_ws(l[l.len() - 2]) && t.len() > 0 {
            t.update(t.len() - 1, t.last().push(l.last()))
        } else {
            t.push(seq![l.last()])
        }
    }
}

/// Join pieces with a single separator byte between them.
pub open spec fn join(ps: Seq<Seq<u8>>, sep: u8) -> Seq<u8>
    decreases ps.len(),
{
    if ps.len() == 0 {
        Seq::<u8>::empty()
    } else if ps.len() == 1 {
        ps[0]
    } else {
        join(ps.drop_last(), sep) + seq![sep] + ps.last()
    }
}

/// Does the line start with `o=`?
pub open spec fn starts_o(l: Seq<u8>) -> bool {
    l.len() >= 2 && l[0] == 111 && l[1] == 61
}

/// Does the line start with `s=`?
pub open spec fn starts_s(l: Seq<u8>) -> bool {
    l.len() >= 2 && l[0] == 115 && l[1] == 61
}

/// The placeholder origin token `o=-`.
pub open spec fn o_placeholder() -> Seq<u8> {
    seq![111u8, 61u8, 45u8]
}

/// The placeholder session-name line `s=-`.
pub open spec fn s_placeholder() -> Seq<u8> {
    seq![115u8, 61u8, 45u8]
}

/// One line rewritten: an `o=` line has its first token replaced by the
/// placeholder and its tokens joined by single spaces; an `s=` line becomes
/// the placeholder line; any other line stays as it is.
pub open spec fn sanitize_line(l: Seq<u8>) -> Seq<u8> {
    if starts_o(l) {
        join(tokens(l).update(0, o_placeholder()), 32)
    } else if starts_s(l) {
        s_placeholder()
    } else {
        l
    }
}

/// The whole answer rewritten line by line.
pub open spec fn sanitize_spec(s: Seq<u8>) -> Seq<u8> {
    join(lines_of(s).map_values(|l: Seq<u8>| sanitize_line(strip_cr(l))), lf())
}

/// The lines of the answer, split at line feeds, a final line ending
/// optional.
pub fn split_lines(input: &[u8]) -> (r: Vec<Vec<u8>>)
    ensures
        r@.map_values(|v: Vec<u8>| v@) == lines_of(input@),
{
    let mut done: Vec<Vec<u8>> = Vec::new();
    let mut cur: Vec<u8> = Vec::new();
    if input.len() == 0 {
        assert(lines_of(input@) =~= Seq::<Seq<u8>>::empty());
        assert(done@.map_values(|v: Vec<u8>| v@) =~= Seq::<Seq<u8>>::empty());
        return done;
    }
    let mut i: usize = 0;
    while i < input.len()
        invariant
            0 < input.len(),
            i <= input.len(),
            done@.map_values(|v: Vec<u8>| v@).push(cur@) =~= split_lf(input@.take(i as int)),
        decreases input.len() - i,
    {
        assert(input@.take(i + 1).drop_last() =~= input@.take(i as int));
        assert(input@.take(i + 1).last() == input@[i as int]);
        if input[i] == 10 {
            done.push(cur);
            cur = Vec::new();
            assert(done@.map_values(|v: Vec<u8>| v@).push(cur@) =~= split_lf(input@.take(i + 1)));
        } else {
            cur.push(input[i]);
            assert(done@.map_values(|v: Vec<u8>| v@).push(cur@) =~= split_lf(input@.take(i + 1)));
        }
        i += 1;
    }
    assert(input@.take(input.len() as int) =~= input@);
    let ghost m = done@.map_values(|v: Vec<u8>| v@);
    assert(m.push(cur@) == split_lf(input@));
    if input[input.len() - 1] == 10 {
        assert(input@.last() == lf());
        assert(split_lf(input@) == split_lf(input@.drop_last()).push(Seq::<u8>::empty()));
        assert(m =~= split_lf(input@.drop_last())) by {
            assert(m.push(cur@).drop_last() =~= m);
            assert(split_lf(input@.drop_last()).push(Seq::<u8>::empty()).drop_last() =~= split_lf(
                input@.drop_last(),
            ));
        }
        done
    } else {
        done.push(cur);
        done
    }
}

/// A word: nonempty and free of token separators.
pub open spec fn is_word(w: Seq<u8>) -> bool {
    w.len() > 0 && forall|k: int| 0 <= k < w.len() ==> !is_ws(w[k])
}

/// Free of line feeds.
pub open spec fn lf_free(l: Seq<u8>) -> bool {
    forall|k: int| 0 <= k < l.len() ==> l[k] != lf()
}

/// A line that starts with a non-separator byte has at least one token.
pub proof fn lemma_tokens_nonempty(l: Seq<u8>)
    requires
        l.len() > 0,
        !is_ws(l[0]),
    ensures
        tokens(l).len() > 0,
    decreases l.len(),
{
    if l.len() > 1 {
        assert(l.drop_last()[0] == l[0]);
        lemma_tokens_nonempty(l.drop_last());
    }
}

/// Every token is a word.
pub proof fn lemma_tokens_are_words(l: Seq<u8>)
    ensures
        forall|k: int| 0 <= k < tokens(l).len() ==> is_word(#[trigger] tokens(l)[k]),
    decreases l.len(),
{
    if l.len() > 0 {
        lemma_tokens_are_words(l.drop_last());
        let t = tokens(l.drop_last());
        let c = l.last();
        if is_ws(c) {
        } else if l.len() >= 2 && !is_ws(l[l.len() - 2]) && t.len() > 0 {
            let w = t.last().push(c);
            assert(is_word(w)) by {
                assert(forall|k: int| 0 <= k < t.last().len() ==> w[k] == t.last()[k]);
                assert(w[w.len() - 1] == c);
            }
            assert(forall|k: int| 0 <= k < tokens(l).len() && k != t.len() - 1
                ==> tokens(l)[k] == t[k]);
        } else {
            assert(is_word(seq![c]));
            assert(forall|k: int| 0 <= k < t.len() ==> tokens(l)[k] == t[k]);
        }
    }
}

/// Tokens are made of bytes of the line, so a line without line feeds has
/// tokens without line feeds.
pub proof fn lemma_tokens_lf_free(l: Seq<u8>)
    requires
        lf_free(l),
    ensures
        forall|k: int| 0 <= k < tokens(l).len() ==> lf_free(#[trigger] tokens(l)[k]),
    decreases l.len(),
{
    if l.len() > 0 {
        assert(forall|k: int| 0 <= k < l.drop_last().len() ==> l.drop_last()[k] == l[k]);
        lemma_tokens_lf_free(l.drop_last());
        let t = tokens(l.drop_last());
        let c = l.last();
        assert(c != lf());
        if is_ws(c) {
        } else if l.len() >= 2 && !is_ws(l[l.len() - 2]) && t.len() > 0 {
            let w = t.last().push(c);
            assert(lf_free(w)) by {
                assert(forall|k: int| 0 <= k < t.last().len() ==> w[k] == t.last()[k]);
                assert(w[w.len() - 1] == c);
            }
            assert(forall|k: int| 0 <= k < tokens(l).len() && k != t.len() - 1
                ==> tokens(l)[k] == t[k]);
        } else {
            assert(lf_free(seq![c]));
            assert(forall|k: int| 0 <= k < t.len() ==> tokens(l)[k] == t[k]);
        }
    }
}

/// Appending one separator byte leaves the tokens unchanged.
pub proof fn lemma_tokens_append_ws(a: Seq<u8>, sep: u8)
    requires
        is_ws(sep),
    ensures
        tokens(a.push(sep)) == tokens(a),
{
    assert(a.push(sep).drop_last() =~= a);
}

/// Appending a word after a separator (or at the start) appends one token.
pub proof fn lemma_tokens_append_word(a: Seq<u8>, w: Seq<u8>)
    requires
        is_word(w),
        a.len() == 0 || is_ws(a.last()),
    ensures
        tokens(a + w) == tokens(a).push(w),
    decreases w.len(),
{
    if w.len() == 1 {
        let s = a + w;
        assert(s.drop_last() =~= a);
        assert(!is_ws(s.last()));
        if a.len() == 0 {
            assert(tokens(s) =~= tokens(a).push(seq![s.last()]));
        } else {
            assert(is_ws(s[s.len() - 2]));
        }
        assert(seq![s.last()] =~= w);
    } else {
        let w0 = w.drop_last();
        assert(is_word(w0)) by {
            assert(forall|k: int| 0 <= k < w0.len() ==> w0[k] == w[k]);
        }
        lemma_tokens_append_word(a, w0);
        let s = a + w;
        assert(s.drop_last() =~= a + w0);
        assert(s.last() == w.last());
        assert(!is_ws(s.last()));
        assert(s[s.len() - 2] == w0.last());
        assert(!is_ws(s[s.len() - 2]));
        let t = tokens(a + w0);
        assert(t == tokens(a).push(w0));
        assert(t.len() > 0);
        assert(tokens(s) == t.update(t.len() - 1, t.last().push(w.last())));
        assert(t.last() == w0);
        assert(w0.push(w.last()) =~= w);
        assert(t.update(t.len() - 1, w) =~= tokens(a).push(w));
    }
}

/// Joining words with one separator and splitting into tokens again gives
/// the words back.
pub proof fn lemma_tokens_of_join(ts: Seq<Seq<u8>>, sep: u8)
    requires
        is_ws(sep),
        forall|k: int| 0 <= k < ts.len() ==> is_word(#[trigger] ts[k]),
    ensures
        tokens(join(ts, sep)) == ts,
    decreases ts.len(),
{
    if ts.len() == 0 {
        assert(tokens(join(ts, sep)) =~= ts);
    } else if ts.len() == 1 {
        assert(join(ts, sep) == ts[0]);
        assert(Seq::<u8>::empty() + ts[0] =~= ts[0]);
        lemma_tokens_append_word(Seq::<u8>::empty(), ts[0]);
        assert(tokens(Seq::<u8>::empty()).push(ts[0]) =~= ts);
    } else {
        let dl = ts.drop_last();
        assert(forall|k: int| 0 <= k < dl.len() ==> dl[k] == ts[k]);
        lemma_tokens_of_join(dl, sep);
        let a = join(dl, sep);
        assert(join(ts, sep) == a + seq![sep] + ts.last());
        lemma_tokens_append_ws(a, sep);
        assert(a.push(sep) =~= a + seq![sep]);
        lemma_tokens_append_word(a + seq![sep], ts.last());
        assert((a + seq![sep]) + ts.last() =~= a + seq![sep] + ts.last());
        assert((a + seq![sep]).last() == sep);
        assert(tokens(join(ts, sep)) == dl.push(ts.last()));
        assert(dl.push(ts.last()) =~= ts);
    }
}

/// Splitting at line feeds never gives an empty piece list.
pub proof fn lemma_split_lf_nonempty(s: Seq<u8>)
    ensures
        split_lf(s).len() > 0,
    decreases s.len(),
{
    if s.len() > 0 {
        lemma_split_lf_nonempty(s.drop_last());
    }
}

/// The pieces of a split contain no line feed.
pub proof fn lemma_split_lf_pieces_lf_free(s: Seq<u8>)
    ensures
        forall|k: int| 0 <= k < split_lf(s).len() ==> lf_free(#[trigger] split_lf(s)[k]),
    decreases s.len(),
{
    if s.len() > 0 {
        lemma_split_lf_pieces_lf_free(s.drop_last());
        lemma_split_lf_nonempty(s.drop_last());
    }
}

/// Appending a line-feed-free tail extends the last piece.
pub proof fn lemma_split_append_line(a: Seq<u8>, l: Seq<u8>)
    requires
        lf_free(l),
    ensures
        split_lf(a + l) == split_lf(a).update(split_lf(a).len() - 1, split_lf(a).last() + l),
    decreases l.len(),
{
    lemma_split_lf_nonempty(a);
    if l.len() == 0 {
        assert(a + l =~= a);
        assert(split_lf(a).update(split_lf(a).len() - 1, split_lf(a).last() + l) =~= split_lf(a));
    } else {
        let l0 = l.drop_last();
        assert(lf_free(l0)) by {
            assert(forall|k: int| 0 <= k < l0.len() ==> l0[k] == l[k]);
        }
        lemma_split_append_line(a, l0);
        let s = a + l;
        assert(s.drop_last() =~= a + l0);
        assert(s.last() == l.last());
        assert(s.last() != lf());
        let p = split_lf(a + l0);
        let q = split_lf(a);
        assert(p == q.update(q.len() - 1, q.last() + l0));
        assert(p.len() == q.len());
        assert(split_lf(s) == p.update(p.len() - 1, p.last().push(s.last())));
        assert(p.last() == q.last() + l0);
        assert((q.last() + l0).push(l.last()) =~= q.last() + l);
        assert(p.update(p.len() - 1, q.last() + l) =~= q.update(q.len() - 1, q.last() + l));
    }
}

/// Joining line-feed-free pieces with line feeds and splitting again gives
/// the pieces back.
pub proof fn lemma_split_of_join(ls: Seq<Seq<u8>>)
    requires
        ls.len() > 0,
        forall|k: int| 0 <= k < ls.len() ==> lf_free(#[trigger] ls[k]),
    ensures
        split_lf(join(ls, lf())) == ls,
    decreases ls.len(),
{
    if ls.len() == 1 {
        assert(join(ls, lf()) == ls[0]);
        assert(Seq::<u8>::empty() + ls[0] =~= ls[0]);
        lemma_split_append_line(Seq::<u8>::empty(), ls[0]);
        assert(split_lf(Seq::<u8>::empty()) =~= seq![Seq::<u8>::empty()]);
        assert(seq![Seq::<u8>::empty()].update(0, Seq::<u8>::empty() + ls[0]) =~= ls);
    } else {
        let dl = ls.drop_last();
        assert(forall|k: int| 0 <= k < dl.len() ==> dl[k] == ls[k]);
        lemma_split_of_join(dl);
        let a = join(dl, lf());
        assert(join(ls, lf()) == a + seq![lf()] + ls.last());
        assert(a.push(lf()) =~= a + seq![lf()]);
        assert(split_lf(a.push(lf())) == split_lf(a).push(Seq::<u8>::empty())) by {
            assert(a.push(lf()).drop_last() =~= a);
        }
        lemma_split_append_line(a + seq![lf()], ls.last());
        assert((a + seq![lf()]) + ls.last() =~= a + seq![lf()] + ls.last());
        let q = split_lf(a).push(Seq::<u8>::empty());
        assert(q.len() == dl.len() + 1);
        assert(q.last() == Seq::<u8>::empty());
        assert(split_lf(join(ls, lf())) == q.update(q.len() - 1, Seq::<u8>::empty() + ls.last()));
        assert(Seq::<u8>::empty() + ls.last() =~= ls.last());
        assert(q.update(q.len() - 1, ls.last()) =~= ls);
    }
}

/// The whitespace-separated tokens of one line.
pub fn line_tokens(line: &[u8]) -> (r: Vec<Vec<u8>>)
    ensures
        r@.map_values(|v: Vec<u8>| v@) == tokens(line@),
{
    let mut done: Vec<Vec<u8>> = Vec::new();
    let mut cur: Vec<u8> = Vec::new();
    let mut i: usize = 0;
    while i < line.len()
        invariant
            i <= line.len(),
            cur@.len() == 0 ==> i == 0 || is_ws(line@[i - 1]),
            cur@.len() > 0 ==> i > 0 && !is_ws(line@[i - 1]),
            cur@.len() == 0 ==> done@.map_values(|v: Vec<u8>| v@) == tokens(line@.take(i as int)),
            cur@.len() > 0 ==> done@.map_values(|v: Vec<u8>| v@).push(cur@) == tokens(
                line@.take(i as int),
            ),
        decreases line.len() - i,
    {
        assert(line@.take(i + 1).drop_last() =~= line@.take(i as int));
        assert(line@.take(i + 1).last() == line@[i as int]);
        let ghost t = tokens(line@.take(i as int));
        let c = line[i];
        if c == 32 || c == 9 {
            if cur.len() > 0 {
                done.push(cur);
                cur = Vec::new();
            }
            assert(done@.map_values(|v: Vec<u8>| v@) == tokens(line@.take(i + 1)));
        } else {
            if cur.len() > 0 {
                assert(line@.take(i + 1)[i - 1] == line@[i - 1]);
                let ghost d = done@.map_values(|v: Vec<u8>| v@);
                cur.push(c);
                assert(d.push(cur@) =~= t.update(t.len() - 1, t.last().push(c)));
            } else {
                cur.push(c);
                assert(cur@ =~= seq![c]);
                if i > 0 {
                    assert(line@.take(i + 1)[i - 1] == line@[i - 1]);
                }
                assert(done@.map_values(|v: Vec<u8>| v@).push(cur@) == tokens(line@.take(i + 1)));
            }
        }
        i += 1;
    }
    assert(line@.take(line.len() as int) =~= line@);
    if cur.len() > 0 {
        done.push(cur);
    }
    done
}

/// Join pieces with a single separator byte.
pub fn join_pieces(ps: &Vec<Vec<u8>>, sep: u8) -> (r: Vec<u8>)
    ensures
        r@ == join(ps@.map_values(|v: Vec<u8>| v@), sep),
{
    let mut out: Vec<u8> = Vec::new();
    let mut i: usize = 0;
    let ghost m = ps@.map_values(|v: Vec<u8>| v@);
    while i < ps.len()
        invariant
            i <= ps.len(),
            m == ps@.map_values(|v: Vec<u8>| v@),
            out@ == join(m.take(i as int), sep),
        decreases ps.len() - i,
    {
        assert(m.take(i + 1).drop_last() =~= m.take(i as int));
        assert(m.take(i + 1).last() == m[i as int]);
        if i > 0 {
            out.push(sep);
        }
        let piece = &ps[i];
        let mut j: usize = 0;
        let ghost base = out@;
        while j < piece.len()
            invariant
                j <= piece.len(),
                piece@ == m[i as int],
                out@ == base + m[i as int].take(j as int),
            decreases piece.len() - j,
        {
            out.push(piece[j]);
            assert(m[i as int].take(j + 1) =~= m[i as int].take(j as int).push(m[i as int][j as int]));
            j += 1;
        }
        assert(m[i as int].take(piece.len() as int) =~= m[i as int]);
        if i == 0 {
            assert(join(m.take(1), sep) == m.take(1)[0]);
            assert(m.take(1)[0] == m[0]);
            assert(base + m[0] =~= m[0]);
        } else {
            let ghost piece_i = m[i as int];
            assert(join(m.take(i + 1), sep) == join(m.take(i as int), sep) + seq![sep] + piece_i);
            assert(base =~= join(m.take(i as int), sep).push(sep));
            assert(base + m[i as int] =~= join(m.take(i as int), sep) + seq![sep] + m[i as int]);
        }
        i += 1;
    }
    assert(m.take(ps.len() as int) =~= m);
    out
}

/// One line rewritten, the line already free of its line ending.
pub fn sanitize_one_line(line: &[u8]) -> (r: Vec<u8>)
    ensures
        r@ == sanitize_line(line@),
{
    if line.len() >= 2 && line[0] == 111 && line[1] == 61 {
        let mut ts = line_tokens(line);
        proof {
            lemma_tokens_nonempty(line@);
        }
        let mut ph: Vec<u8> = Vec::new();
        ph.push(111);
        ph.push(61);
        ph.push(45);
        assert(ph@ =~= o_placeholder());
        ts.set(0, ph);
        let r = join_pieces(&ts, 32);
        assert(ts@.map_values(|v: Vec<u8>| v@) =~= tokens(line@).update(0, o_placeholder()));
        r
    } else if line.len() >= 2 && line[0] == 115 && line[1] == 61 {
        let mut r: Vec<u8> = Vec::new();
        r.push(115);
        r.push(61);
        r.push(45);
        assert(r@ =~= s_placeholder());
        r
    } else {
        let mut r: Vec<u8> = Vec::new();
        let mut i: usize = 0;
        while i < line.len()
            invariant
                i <= line.len(),
                r@ == line@.take(i as int),
            decreases line.len() - i,
        {
            r.push(line[i]);
            assert(line@.take(i + 1) =~= line@.take(i as int).push(line@[i as int]));
            i += 1;
        }
        assert(line@.take(line.len() as int) =~= line@);
        r
    }
}

/// The sanitized form of a whole SDP answer: `o=` lines get the
/// placeholder origin token, `s=` lines become the placeholder session
/// name, every other line is kept byte for byte, and the lines are joined
/// again with line feeds.
pub fn sanitize_answer(input: &[u8]) -> (r: Vec<u8>)
    ensures
        r@ == sanitize_spec(input@),
{
    let lines = split_lines(input);
    let ghost ls = lines_of(input@);
    let mut san: Vec<Vec<u8>> = Vec::new();
    let mut i: usize = 0;
    while i < lines.len()
        invariant
            i <= lines.len(),
            lines@.map_values(|v: Vec<u8>| v@) == ls,
            san@.len() == i,
            forall|k: int| 0 <= k < i ==> #[trigger] san@[k]@ == sanitize_line(strip_cr(ls[k])),
        decreases lines.len() - i,
    {
        let line = &lines[i];
        let s = if line.len() > 0 && line[line.len() - 1] == 13 {
            let mut t: Vec<u8> = Vec::new();
            let mut j: usize = 0;
            while j < line.len() - 1
                invariant
                    line.len() > 0,
                    j <= line.len() - 1,
                    t@ == line@.take(j as int),
                decreases line.len() - 1 - j,
            {
                t.push(line[j]);
                assert(line@.take(j + 1) =~= line@.take(j as int).push(line@[j as int]));
                j += 1;
            }
            assert(line@.take(line.len() - 1) =~= line@.drop_last());
            assert(t@ == strip_cr(ls[i as int]));
            sanitize_one_line(t.as_slice())
        } else {
            assert(line@ == strip_cr(ls[i as int]));
            sanitize_one_line(line.as_slice())
        };
        san.push(s);
        i += 1;
    }
    assert(san@.map_values(|v: Vec<u8>| v@) =~= ls.map_values(
        |l: Seq<u8>| sanitize_line(strip_cr(l)),
    ));
    join_pieces(&san, 10)
}

/// Joining line-feed-free pieces with a separator other than the line
/// feed gives a line-feed-free result.
pub proof fn lemma_join_lf_free(ps: Seq<Seq<u8>>, sep: u8)
    requires
        sep != lf(),
        forall|k: int| 0 <= k < ps.len() ==> lf_free(#[trigger] ps[k]),
    ensures
        lf_free(join(ps, sep)),
    decreases ps.len(),
{
    if ps.len() <= 1 {
    } else {
        let dl = ps.drop_last();
        assert(forall|k: int| 0 <= k < dl.len() ==> dl[k] == ps[k]);
        lemma_join_lf_free(dl, sep);
        let j = join(dl, sep) + seq![sep] + ps.last();
        assert(forall|k: int| 0 <= k < j.len() ==> j[k] != lf()) by {
            assert(forall|k: int| 0 <= k < join(dl, sep).len() ==> j[k] == join(dl, sep)[k]);
            assert(j[join(dl, sep).len() as int] == sep);
            assert(forall|k: int|
                join(dl, sep).len() + 1 <= k < j.len() ==> j[k] == ps.last()[k - join(
                    dl,
                    sep,
                ).len() - 1]);
        }
    }
}

/// A rewritten line holds no line feed if the line it came from held none.
pub proof fn lemma_sanitize_line_lf_free(l: Seq<u8>)
    requires
        lf_free(l),
    ensures
        lf_free(sanitize_line(l)),
{
    if starts_o(l) {
        lemma_tokens_nonempty(l);
        lemma_tokens_lf_free(l);
        let ts = tokens(l).update(0, o_placeholder());
        assert(lf_free(o_placeholder()));
        assert(forall|k: int| 0 <= k < ts.len() ==> lf_free(#[trigger] ts[k]));
        lemma_join_lf_free(ts, 32);
    } else if starts_s(l) {
        assert(lf_free(s_placeholder()));
    }
}

/// Law: a rewritten `o=` line keeps its token count, its first token is
/// exactly the placeholder origin whatever stood there before, and every
/// later token is unchanged.
pub proof fn lemma_sanitized_o_line(l: Seq<u8>)
    requires
        starts_o(l),
    ensures
        tokens(sanitize_line(l)).len() == tokens(l).len(),
        tokens(sanitize_line(l))[0] == o_placeholder(),
        forall|k: int| 1 <= k < tokens(l).len() ==> tokens(sanitize_line(l))[k] == tokens(l)[k],
{
    lemma_tokens_nonempty(l);
    lemma_tokens_are_words(l);
    let ts = tokens(l).update(0, o_placeholder());
    assert(is_word(o_placeholder())) by {
        assert(o_placeholder()[0] == 111);
        assert(o_placeholder()[1] == 61);
        assert(o_placeholder()[2] == 45);
    }
    assert(forall|k: int| 0 <= k < ts.len() ==> is_word(#[trigger] ts[k]));
    lemma_tokens_of_join(ts, 32);
}

/// Law: a rewritten `s=` line is exactly the placeholder session-name
/// line, and a line that is neither `o=` nor `s=` stays byte for byte.
pub proof fn lemma_sanitized_other_lines(l: Seq<u8>)
    ensures
        !starts_o(l) && starts_s(l) ==> sanitize_line(l) == s_placeholder(),
        !starts_o(l) && !starts_s(l) ==> sanitize_line(l) == l,
{
}

/// Law: the rewritten answer has exactly one line for each line of the
/// input, each the rewriting of that line.
pub proof fn lemma_sanitized_text_lines(s: Seq<u8>)
    requires
        lines_of(s).len() > 0,
    ensures
        split_lf(sanitize_spec(s)) == lines_of(s).map_values(
            |l: Seq<u8>| sanitize_line(strip_cr(l)),
        ),
{
    let ls = lines_of(s);
    let sl = ls.map_values(|l: Seq<u8>| sanitize_line(strip_cr(l)));
    assert(forall|k: int| 0 <= k < ls.len() ==> lf_free(#[trigger] ls[k])) by {
        lemma_split_lf_pieces_lf_free(s);
        lemma_split_lf_pieces_lf_free(s.drop_last());
    }
    assert(forall|k: int| 0 <= k < sl.len() ==> lf_free(#[trigger] sl[k])) by {
        assert forall|k: int| 0 <= k < sl.len() implies lf_free(#[trigger] sl[k]) by {
            assert(lf_free(strip_cr(ls[k]))) by {
                assert(forall|j: int|
                    0 <= j < strip_cr(ls[k]).len() ==> strip_cr(ls[k])[j] == ls[k][j]);
            }
            lemma_sanitize_line_lf_free(strip_cr(ls[k]));
        }
    }
    lemma_split_of_join(sl);
}

} // verus!
