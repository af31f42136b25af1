//! What word wrapping keeps: every line fits the width, and the lines joined
//! by spaces give back the words of the title (an over-long word in its
//! hard-split pieces).

use vstd::prelude::*;

use crate::text::{is_white_space, join_with};
use crate::tui::layout::{
    chunks, word_scan, word_step, words, wrap_fold, wrap_step, wrap_width, wrapped, WordScan,
    WrapState,
};

verus! {

broadcast use vstd::seq::group_seq_axioms;

/// What a word becomes in the wrapped text: its pieces of `w` characters
/// when it is wider than `w`, else the word itself.
pub open spec fn word_pieces(word: Seq<char>, w: nat) -> Seq<Seq<char>> {
    if word.len() > w {
        chunks(word, w)
    } else {
        seq![word]
    }
}

/// The words in order, each over-long one replaced by its pieces.
pub open spec fn pieces(ws: Seq<Seq<char>>, w: nat) -> Seq<Seq<char>>
    decreases ws.len(),
{
    if ws.len() == 0 {
        Seq::empty()
    } else {
        pieces(ws.drop_last(), w) + word_pieces(ws.last(), w)
    }
}

/// The lines a wrap state stands for: the finished ones and a non-empty
/// current one.
pub open spec fn wrap_output(st: WrapState) -> Seq<Seq<char>> {
    if st.line.len() > 0 {
        st.lines.push(st.line)
    } else {
        st.lines
    }
}

/// Joining a concatenation: the two joins, with a separator between them
/// when both sides have parts.
proof fn lemma_join_concat(a: Seq<Seq<char>>, b: Seq<Seq<char>>, sep: Seq<char>)
    ensures
        join_with(a + b, sep) == (if a.len() == 0 {
            join_with(b, sep)
        } else if b.len() == 0 {
            join_with(a, sep)
        } else {
            join_with(a, sep) + sep + join_with(b, sep)
        }),
    decreases b.len(),
{
    if a.len() == 0 {
        assert(a + b =~= b);
    } else if b.len() == 0 {
        assert(a + b =~= a);
    } else {
        let b2 = b.drop_last();
        lemma_join_concat(a, b2, sep);
        assert((a + b).drop_last() =~= a + b2);
        assert((a + b).last() == b.last());
        if b2.len() == 0 {
            assert(a + b2 =~= a);
            assert(join_with(b, sep) == b[0]);
        } else {
            assert(join_with(a, sep) + sep + join_with(b2, sep) + sep + b.last() =~= join_with(a, sep)
                + sep + (join_with(b2, sep) + sep + b.last()));
        }
    }
}

/// The pieces of a non-empty text: there is at least one, each has between
/// one and `w` characters, and together they are the text.
pub proof fn law_chunks_rejoin(s: Seq<char>, w: nat)
    requires
        w > 0,
        s.len() > 0,
    ensures
        chunks(s, w).len() > 0,
        forall|i: int| 0 <= i < chunks(s, w).len() ==> 0 < #[trigger] chunks(s, w)[i].len() <= w,
        chunks(s, w).flatten() == s,
    decreases s.len(),
{
    let c = chunks(s, w);
    if s.len() <= w {
        assert(c == seq![s]);
        c.lemma_flatten_one_element();
    } else {
        let rest = s.skip(w as int);
        law_chunks_rejoin(rest, w);
        assert(c == seq![s.take(w as int)] + chunks(rest, w));
        assert(c.first() == s.take(w as int));
        assert(c.drop_first() =~= chunks(rest, w));
        assert forall|i: int| 0 <= i < c.len() implies 0 < #[trigger] c[i].len() <= w by {
            if i > 0 {
                assert(c[i] == chunks(rest, w)[i - 1]);
            }
        }
        assert(s.take(w as int) + rest =~= s);
    }
}

/// Every word of a text has at least one character.
proof fn lemma_words_non_empty(s: Seq<char>)
    ensures
        forall|i: int| 0 <= i < words(s).len() ==> #[trigger] words(s)[i].len() > 0,
{
    lemma_scan_words_non_empty(s);
}

proof fn lemma_scan_words_non_empty(s: Seq<char>)
    ensures
        forall|i: int|
            0 <= i < word_scan(s).words.len() ==> #[trigger] word_scan(s).words[i].len() > 0,
    decreases s.len(),
{
    if s.len() > 0 {
        let prev = word_scan(s.drop_last());
        lemma_scan_words_non_empty(s.drop_last());
        assert(word_scan(s) == word_step(prev, s.last()));
        assert forall|i: int| 0 <= i < word_scan(s).words.len() implies #[trigger] word_scan(
            s,
        ).words[i].len() > 0 by {
            if i < prev.words.len() {
                assert(word_scan(s).words[i] == prev.words[i]);
            }
        }
    }
}

/// One step of the wrap: the lines stay within `w`, the output grows by the
/// word's pieces (as far as joining by spaces can tell), and it is not empty.
proof fn lemma_wrap_step(st: WrapState, word: Seq<char>, w: nat)
    requires
        w > 0,
        word.len() > 0,
        forall|i: int| 0 <= i < st.lines.len() ==> #[trigger] st.lines[i].len() <= w,
        st.line.len() <= w,
    ensures
        ({
            let nx = wrap_step(st, word, w);
            &&& forall|i: int| 0 <= i < nx.lines.len() ==> #[trigger] nx.lines[i].len() <= w
            &&& nx.line.len() <= w
            &&& wrap_output(nx).len() > 0
            &&& join_with(wrap_output(nx), " "@) == join_with(
                wrap_output(st) + word_pieces(word, w),
                " "@,
            )
        }),
{
    let nx = wrap_step(st, word, w);
    let out = wrap_output(st);
    let sp = " "@;
    if word.len() > w {
        law_chunks_rejoin(word, w);
        let base = if st.line.len() > 0 {
            st.lines.push(st.line)
        } else {
            st.lines
        };
        assert(base == out);
        assert(nx.lines == out + chunks(word, w));
        assert(wrap_output(nx) == nx.lines);
        assert forall|i: int| 0 <= i < nx.lines.len() implies #[trigger] nx.lines[i].len() <= w by {
            if i < out.len() {
                assert(nx.lines[i] == out[i]);
                if i == st.lines.len() {
                    assert(out[i] == st.line);
                } else {
                    assert(out[i] == st.lines[i]);
                }
            } else {
                assert(nx.lines[i] == chunks(word, w)[i - out.len()]);
            }
        }
    } else {
        assert(word_pieces(word, w) == seq![word]);
        let extra: nat = if st.line.len() == 0 {
            0
        } else {
            1
        };
        let full = st.line.len() + extra + word.len() > w;
        if full {
            assert(st.line.len() > 0);
            assert(nx.lines == st.lines.push(st.line));
            assert(nx.line =~= word);
            assert(wrap_output(nx) =~= out.push(word));
            assert(out + seq![word] =~= out.push(word));
        } else if st.line.len() > 0 {
            assert(nx.lines == st.lines);
            assert(nx.line == st.line.push(' ') + word);
            assert(wrap_output(nx) == st.lines.push(st.line.push(' ') + word));
            lemma_join_concat(st.lines, seq![st.line.push(' ') + word], sp);
            lemma_join_concat(st.lines, seq![st.line], sp);
            lemma_join_concat(out, seq![word], sp);
            assert(st.lines + seq![st.line] =~= out);
            assert(st.lines + seq![st.line.push(' ') + word] =~= wrap_output(nx));
            assert(join_with(seq![word], sp) == word);
            assert(join_with(seq![st.line], sp) == st.line);
            assert(join_with(seq![st.line.push(' ') + word], sp) == st.line.push(' ') + word);
            reveal_strlit(" ");
            assert(st.line.push(' ') + word =~= st.line + sp + word);
            if st.lines.len() > 0 {
                assert(join_with(st.lines, sp) + sp + (st.line + sp + word) =~= join_with(st.lines, sp)
                    + sp + st.line + sp + word);
            }
        } else {
            assert(nx.lines == st.lines);
            assert(nx.line =~= word);
            assert(out == st.lines);
            assert(wrap_output(nx) =~= out + seq![word]);
        }
        assert forall|i: int| 0 <= i < nx.lines.len() implies #[trigger] nx.lines[i].len() <= w by {
            if i < st.lines.len() {
                assert(nx.lines[i] == st.lines[i]);
            }
        }
    }
}

/// The wrap of a list of non-empty words: lines within `w`, and the same
/// text as the words' pieces once both are joined by spaces.
proof fn lemma_wrap_fold(ws: Seq<Seq<char>>, w: nat)
    requires
        w > 0,
        forall|i: int| 0 <= i < ws.len() ==> #[trigger] ws[i].len() > 0,
    ensures
        forall|i: int|
            0 <= i < wrap_fold(ws, w).lines.len() ==> #[trigger] wrap_fold(ws, w).lines[i].len() <= w,
        wrap_fold(ws, w).line.len() <= w,
        wrap_output(wrap_fold(ws, w)).len() == 0 <==> ws.len() == 0,
        pieces(ws, w).len() == 0 <==> ws.len() == 0,
        join_with(wrap_output(wrap_fold(ws, w)), " "@) == join_with(pieces(ws, w), " "@),
    decreases ws.len(),
{
    if ws.len() > 0 {
        let prev = ws.drop_last();
        let word = ws.last();
        assert forall|i: int| 0 <= i < prev.len() implies #[trigger] prev[i].len() > 0 by {
            assert(prev[i] == ws[i]);
        }
        lemma_wrap_fold(prev, w);
        let st = wrap_fold(prev, w);
        lemma_wrap_step(st, word, w);
        if word.len() > w {
            law_chunks_rejoin(word, w);
        }
        assert(word_pieces(word, w).len() > 0);
        lemma_join_concat(wrap_output(st), word_pieces(word, w), " "@);
        lemma_join_concat(pieces(prev, w), word_pieces(word, w), " "@);
    }
}

/// Every line of a wrapped title fits the width (at least one column), and
/// there is at least one line.
pub proof fn law_wrapped_lines_fit(title: Seq<char>, width: usize)
    ensures
        wrapped(title, width).len() > 0,
        forall|i: int|
            0 <= i < wrapped(title, width).len() ==> #[trigger] wrapped(title, width)[i].len()
                <= wrap_width(width),
{
    let w = wrap_width(width);
    lemma_words_non_empty(title);
    lemma_wrap_fold(words(title), w);
    let st = wrap_fold(words(title), w);
    let out = wrap_output(st);
    assert forall|i: int| 0 <= i < wrapped(title, width).len() implies #[trigger] wrapped(
        title,
        width,
    )[i].len() <= w by {
        if out.len() > 0 {
            assert(wrapped(title, width) == out);
            if i < st.lines.len() {
                assert(out[i] == st.lines[i]);
            }
        }
    }
}

/// Nothing is lost or added but line breaks: the wrapped lines joined by
/// spaces are the title's words joined by spaces, an over-long word standing
/// as its pieces.
pub proof fn law_wrapped_keeps_words(title: Seq<char>, width: usize)
    ensures
        join_with(wrapped(title, width), " "@) == join_with(
            pieces(words(title), wrap_width(width)),
            " "@,
        ),
{
    let w = wrap_width(width);
    lemma_words_non_empty(title);
    lemma_wrap_fold(words(title), w);
    let out = wrap_output(wrap_fold(words(title), w));
    if out.len() == 0 {
        assert(wrapped(title, width) == seq![Seq::<char>::empty()]);
        assert(pieces(words(title), w).len() == 0);
    } else {
        assert(wrapped(title, width) == out);
    }
}

/// A line that starts and ends with a character that is not white space.
pub open spec fn edges_not_blank(l: Seq<char>) -> bool {
    l.len() > 0 && !is_white_space(l[0]) && !is_white_space(l.last())
}

/// No character of the text is white space.
pub open spec fn no_white_space(s: Seq<char>) -> bool {
    forall|j: int| 0 <= j < s.len() ==> !is_white_space(#[trigger] s[j])
}

proof fn lemma_scan_no_white_space(s: Seq<char>)
    ensures
        forall|i: int|
            0 <= i < word_scan(s).words.len() ==> no_white_space(#[trigger] word_scan(s).words[i]),
        no_white_space(word_scan(s).current),
    decreases s.len(),
{
    if s.len() > 0 {
        let prev = word_scan(s.drop_last());
        lemma_scan_no_white_space(s.drop_last());
        let c = s.last();
        assert(word_scan(s) == word_step(prev, c));
        let nx = word_scan(s);
        assert forall|i: int| 0 <= i < nx.words.len() implies no_white_space(#[trigger] nx.words[i]) by {
            if i < prev.words.len() {
                assert(nx.words[i] == prev.words[i]);
            }
        }
        if !is_white_space(c) {
            assert forall|j: int| 0 <= j < nx.current.len() implies !is_white_space(
                #[trigger] nx.current[j],
            ) by {
                if j < prev.current.len() {
                    assert(nx.current[j] == prev.current[j]);
                }
            }
        }
    }
}

/// No word of a text holds white space.
proof fn lemma_words_no_white_space(s: Seq<char>)
    ensures
        forall|i: int| 0 <= i < words(s).len() ==> no_white_space(#[trigger] words(s)[i]),
{
    lemma_scan_no_white_space(s);
    let st = word_scan(s);
    assert forall|i: int| 0 <= i < words(s).len() implies no_white_space(#[trigger] words(s)[i]) by {
        if i < st.words.len() {
            assert(words(s)[i] == st.words[i]);
        }
    }
}

proof fn lemma_chunks_no_white_space(s: Seq<char>, w: nat)
    requires
        w > 0,
        no_white_space(s),
    ensures
        forall|i: int| 0 <= i < chunks(s, w).len() ==> no_white_space(#[trigger] chunks(s, w)[i]),
    decreases s.len(),
{
    if s.len() > w {
        let rest = s.skip(w as int);
        assert forall|j: int| 0 <= j < rest.len() implies !is_white_space(#[trigger] rest[j]) by {
            assert(rest[j] == s[j + w]);
        }
        lemma_chunks_no_white_space(rest, w);
        let c = chunks(s, w);
        assert(c == seq![s.take(w as int)] + chunks(rest, w));
        assert forall|i: int| 0 <= i < c.len() implies no_white_space(#[trigger] c[i]) by {
            if i == 0 {
                assert forall|j: int| 0 <= j < c[0].len() implies !is_white_space(#[trigger] c[0][j]) by {
                    assert(c[0][j] == s[j]);
                }
            } else {
                assert(c[i] == chunks(rest, w)[i - 1]);
            }
        }
    } else if s.len() > 0 {
        assert(chunks(s, w) == seq![s]);
    }
}

/// The wrap of words without white space: every finished line, and the
/// current one when not empty, starts and ends with a character that is
/// not white space.
proof fn lemma_wrap_fold_edges(ws: Seq<Seq<char>>, w: nat)
    requires
        w > 0,
        forall|i: int| 0 <= i < ws.len() ==> #[trigger] ws[i].len() > 0 && no_white_space(ws[i]),
    ensures
        forall|i: int|
            0 <= i < wrap_fold(ws, w).lines.len() ==> edges_not_blank(#[trigger] wrap_fold(ws, w).lines[i]),
        wrap_fold(ws, w).line.len() > 0 ==> edges_not_blank(wrap_fold(ws, w).line),
    decreases ws.len(),
{
    if ws.len() > 0 {
        let prev = ws.drop_last();
        let word = ws.last();
        assert forall|i: int| 0 <= i < prev.len() implies #[trigger] prev[i].len() > 0 && no_white_space(prev[i]) by {
            assert(prev[i] == ws[i]);
        }
        lemma_wrap_fold_edges(prev, w);
        let st = wrap_fold(prev, w);
        let nx = wrap_fold(ws, w);
        assert(nx == wrap_step(st, word, w));
        assert(word.len() > 0 && no_white_space(word));
        assert(!is_white_space(word[0]) && !is_white_space(word[word.len() - 1]));
        if word.len() > w {
            law_chunks_rejoin(word, w);
            lemma_chunks_no_white_space(word, w);
            let base = if st.line.len() > 0 {
                st.lines.push(st.line)
            } else {
                st.lines
            };
            let c = chunks(word, w);
            assert(nx.lines == base + c);
            assert forall|i: int| 0 <= i < nx.lines.len() implies edges_not_blank(#[trigger] nx.lines[i]) by {
                if i < base.len() {
                    assert(nx.lines[i] == base[i]);
                    if i < st.lines.len() {
                        assert(base[i] == st.lines[i]);
                    }
                } else {
                    let k = i - base.len();
                    assert(nx.lines[i] == c[k]);
                    assert(no_white_space(c[k]));
                    assert(c[k].len() > 0);
                    assert(!is_white_space(c[k][0]));
                    assert(!is_white_space(c[k][c[k].len() - 1]));
                }
            }
        } else {
            let extra: nat = if st.line.len() == 0 {
                0
            } else {
                1
            };
            let full = st.line.len() + extra + word.len() > w;
            assert forall|i: int| 0 <= i < nx.lines.len() implies edges_not_blank(#[trigger] nx.lines[i]) by {
                if i < st.lines.len() {
                    assert(nx.lines[i] == st.lines[i]);
                }
            }
            if !full && st.line.len() > 0 {
                let l = st.line.push(' ') + word;
                assert(nx.line == l);
                assert(l[0] == st.line[0]);
                assert(l.last() == word.last());
            } else {
                assert(nx.line =~= word);
            }
        }
    }
}

/// No wrapped line starts or ends with white space; the only empty line is
/// the one line of a title without words.
pub proof fn law_wrapped_lines_trimmed(title: Seq<char>, width: usize)
    ensures
        words(title).len() > 0 ==> forall|i: int|
            0 <= i < wrapped(title, width).len() ==> edges_not_blank(#[trigger] wrapped(title, width)[i]),
        words(title).len() == 0 ==> wrapped(title, width) == seq![Seq::<char>::empty()],
{
    let w = wrap_width(width);
    let ws = words(title);
    lemma_words_non_empty(title);
    lemma_words_no_white_space(title);
    lemma_wrap_fold(ws, w);
    assert forall|i: int| 0 <= i < ws.len() implies #[trigger] ws[i].len() > 0 && no_white_space(ws[i]) by {}
    lemma_wrap_fold_edges(ws, w);
    let st = wrap_fold(ws, w);
    let out = wrap_output(st);
    if ws.len() > 0 {
        assert(wrapped(title, width) == out);
        assert forall|i: int| 0 <= i < out.len() implies edges_not_blank(#[trigger] out[i]) by {
            if i < st.lines.len() {
                assert(out[i] == st.lines[i]);
            } else {
                assert(out[i] == st.line);
            }
        }
    } else {
        assert(ws =~= Seq::<Seq<char>>::empty());
        assert(out.len() == 0);
    }
}

/// A line up to its first space.
pub open spec fn first_word(l: Seq<char>) -> Seq<char>
    decreases l.len(),
{
    if l.len() == 0 || l[0] == ' ' {
        Seq::empty()
    } else {
        seq![l[0]] + first_word(l.drop_first())
    }
}

/// Whether `l` is the last piece of a word of `ws` wider than `w`.
pub open spec fn is_tail_piece(ws: Seq<Seq<char>>, w: nat, l: Seq<char>) -> bool {
    exists|k: int| 0 <= k < ws.len() && #[trigger] ws[k].len() > w && l == chunks(ws[k], w).last()
}

/// Line `i` ends where it does because the first word of line `i + 1`
/// would not fit after it, or because it is the last piece of a hard-split
/// word.
pub open spec fn break_ok(ws: Seq<Seq<char>>, w: nat, lines: Seq<Seq<char>>, i: int) -> bool {
    ||| lines[i].len() + 1 + first_word(lines[i + 1]).len() > w
    ||| is_tail_piece(ws, w, lines[i])
}

proof fn lemma_space_is_white()
    ensures
        is_white_space(' '),
{
    reveal(is_white_space);
}

proof fn lemma_first_word_whole(s: Seq<char>)
    requires
        forall|j: int| 0 <= j < s.len() ==> #[trigger] s[j] != ' ',
    ensures
        first_word(s) == s,
    decreases s.len(),
{
    if s.len() > 0 {
        let d = s.drop_first();
        assert forall|j: int| 0 <= j < d.len() implies #[trigger] d[j] != ' ' by {
            assert(d[j] == s[j + 1]);
        }
        lemma_first_word_whole(d);
        assert(seq![s[0]] + d =~= s);
    }
}

proof fn lemma_first_word_prefix(a: Seq<char>, b: Seq<char>)
    requires
        (exists|j: int| 0 <= j < a.len() && a[j] == ' ') || (b.len() > 0 && b[0] == ' '),
    ensures
        first_word(a + b) == first_word(a),
    decreases a.len(),
{
    let ab = a + b;
    if a.len() > 0 && a[0] != ' ' {
        assert(ab[0] == a[0]);
        let d = a.drop_first();
        assert(ab.drop_first() =~= d + b);
        if exists|j: int| 0 <= j < a.len() && a[j] == ' ' {
            let j = choose|j: int| 0 <= j < a.len() && a[j] == ' ';
            assert(j > 0);
            assert(d[j - 1] == ' ');
        }
        lemma_first_word_prefix(d, b);
    } else if a.len() == 0 {
        assert(ab =~= b);
    }
}

/// A line with a word appended after a space keeps its first word.
proof fn lemma_first_word_extend(line: Seq<char>, word: Seq<char>)
    ensures
        first_word(line.push(' ') + word) == first_word(line),
{
    let a = line.push(' ');
    assert(a[a.len() - 1] == ' ');
    lemma_first_word_prefix(a, word);
    lemma_first_word_prefix(line, seq![' ']);
    assert(line + seq![' '] =~= a);
}

proof fn lemma_chunks_full(s: Seq<char>, w: nat)
    requires
        w > 0,
    ensures
        forall|i: int| 0 <= i < chunks(s, w).len() - 1 ==> (#[trigger] chunks(s, w)[i]).len() == w,
        s.len() > w ==> chunks(s, w)[0].len() == w,
    decreases s.len(),
{
    if s.len() > w {
        let rest = s.skip(w as int);
        lemma_chunks_full(rest, w);
        let c = chunks(s, w);
        assert(c == seq![s.take(w as int)] + chunks(rest, w));
        assert forall|i: int| 0 <= i < c.len() - 1 implies (#[trigger] c[i]).len() == w by {
            if i > 0 {
                assert(c[i] == chunks(rest, w)[i - 1]);
            }
        }
    } else if s.len() > 0 {
        assert(chunks(s, w) == seq![s]);
    }
}

proof fn lemma_tail_piece_grows(ws: Seq<Seq<char>>, x: Seq<char>, w: nat, l: Seq<char>)
    requires
        is_tail_piece(ws, w, l),
    ensures
        is_tail_piece(ws.push(x), w, l),
{
    let k = choose|k: int| 0 <= k < ws.len() && #[trigger] ws[k].len() > w && l == chunks(ws[k], w).last();
    assert(ws.push(x)[k] == ws[k]);
}

/// The wrap of non-empty words without spaces: every line break is owed to
/// a word that would not fit, or follows the last piece of a split word;
/// an empty current line after finished ones follows such a piece.
proof fn lemma_wrap_fold_breaks(ws: Seq<Seq<char>>, w: nat)
    requires
        w > 0,
        forall|i: int|
            0 <= i < ws.len() ==> #[trigger] ws[i].len() > 0 && forall|j: int|
                0 <= j < ws[i].len() ==> ws[i][j] != ' ',
    ensures
        forall|i: int|
            0 <= i < wrap_output(wrap_fold(ws, w)).len() - 1 ==> #[trigger] break_ok(
                ws,
                w,
                wrap_output(wrap_fold(ws, w)),
                i,
            ),
        wrap_fold(ws, w).line.len() == 0 && wrap_fold(ws, w).lines.len() > 0 ==> is_tail_piece(
            ws,
            w,
            wrap_fold(ws, w).lines.last(),
        ),
    decreases ws.len(),
{
    if ws.len() > 0 {
        let prev = ws.drop_last();
        let word = ws.last();
        assert forall|i: int|
            0 <= i < prev.len() implies #[trigger] prev[i].len() > 0 && forall|j: int|
                0 <= j < prev[i].len() ==> prev[i][j] != ' ' by {
            assert(prev[i] == ws[i]);
        }
        lemma_wrap_fold_breaks(prev, w);
        assert(prev.push(word) =~= ws);
        let st = wrap_fold(prev, w);
        let nx = wrap_fold(ws, w);
        assert(nx == wrap_step(st, word, w));
        let out = wrap_output(st);
        let on = wrap_output(nx);
        assert(ws[ws.len() - 1] == word);
        assert forall|j: int| 0 <= j < word.len() implies #[trigger] word[j] != ' ' by {}
        lemma_first_word_whole(word);
        // Old pairs keep holding over the longer word list.
        assert forall|i: int| 0 <= i < out.len() - 1 implies #[trigger] break_ok(ws, w, out, i) by {
            assert(break_ok(prev, w, out, i));
            if is_tail_piece(prev, w, out[i]) {
                lemma_tail_piece_grows(prev, word, w, out[i]);
            }
        }
        if word.len() > w {
            law_chunks_rejoin(word, w);
            lemma_chunks_full(word, w);
            let c = chunks(word, w);
            assert forall|j: int| 0 <= j < c[0].len() implies #[trigger] c[0][j] != ' ' by {
                assert(c[0][j] == word[j]);
            }
            lemma_first_word_whole(c[0]);
            let base = if st.line.len() > 0 {
                st.lines.push(st.line)
            } else {
                st.lines
            };
            assert(base == out);
            assert(on == out + c);
            assert forall|i: int| 0 <= i < on.len() - 1 implies #[trigger] break_ok(ws, w, on, i) by {
                if i < out.len() - 1 {
                    assert(on[i] == out[i] && on[i + 1] == out[i + 1]);
                    assert(break_ok(ws, w, out, i));
                } else if i == out.len() - 1 {
                    assert(on[i + 1] == c[0]);
                } else {
                    let k = i - out.len();
                    assert(on[i] == c[k]);
                    assert(c[k].len() == w);
                }
            }
            assert(nx.lines.last() == c.last());
            assert(is_tail_piece(ws, w, c.last())) by {
                assert(ws[ws.len() - 1].len() > w);
            }
        } else {
            let extra: nat = if st.line.len() == 0 {
                0
            } else {
                1
            };
            let full = st.line.len() + extra + word.len() > w;
            if full {
                assert(st.line.len() > 0);
                assert(on =~= out.push(word));
                assert forall|i: int| 0 <= i < on.len() - 1 implies #[trigger] break_ok(ws, w, on, i) by {
                    if i < out.len() - 1 {
                        assert(on[i] == out[i] && on[i + 1] == out[i + 1]);
                        assert(break_ok(ws, w, out, i));
                    } else {
                        assert(on[i] == st.line);
                        assert(on[i + 1] == word);
                    }
                }
            } else if st.line.len() > 0 {
                let l = st.line.push(' ') + word;
                lemma_first_word_extend(st.line, word);
                assert(on =~= st.lines.push(l));
                assert(out =~= st.lines.push(st.line));
                assert forall|i: int| 0 <= i < on.len() - 1 implies #[trigger] break_ok(ws, w, on, i) by {
                    assert(on[i] == out[i]);
                    assert(break_ok(ws, w, out, i));
                    if i + 1 < st.lines.len() {
                        assert(on[i + 1] == out[i + 1]);
                    } else {
                        assert(on[i + 1] == l);
                        assert(out[i + 1] == st.line);
                    }
                }
            } else {
                assert(out == st.lines);
                assert(on =~= st.lines.push(word));
                assert forall|i: int| 0 <= i < on.len() - 1 implies #[trigger] break_ok(ws, w, on, i) by {
                    if i < out.len() - 1 {
                        assert(on[i] == out[i] && on[i + 1] == out[i + 1]);
                        assert(break_ok(ws, w, out, i));
                    } else {
                        assert(on[i] == st.lines.last());
                        lemma_tail_piece_grows(prev, word, w, st.lines.last());
                    }
                }
            }
        }
    }
}

/// Lines break only where they must: after each line but the last, the
/// next line's first word would not have fit behind a space, unless the
/// line is the last piece of a word too wide for a line of its own.
pub proof fn law_wrapped_breaks_only_when_full(title: Seq<char>, width: usize)
    ensures
        forall|i: int|
            0 <= i < wrapped(title, width).len() - 1 ==> #[trigger] break_ok(
                words(title),
                wrap_width(width),
                wrapped(title, width),
                i,
            ),
{
    let w = wrap_width(width);
    let ws = words(title);
    lemma_words_non_empty(title);
    lemma_words_no_white_space(title);
    lemma_space_is_white();
    assert forall|i: int|
        0 <= i < ws.len() implies #[trigger] ws[i].len() > 0 && forall|j: int|
            0 <= j < ws[i].len() ==> ws[i][j] != ' ' by {
        assert(no_white_space(ws[i]));
        assert forall|j: int| 0 <= j < ws[i].len() implies ws[i][j] != ' ' by {
            assert(!is_white_space(ws[i][j]));
        }
    }
    lemma_wrap_fold_breaks(ws, w);
    lemma_wrap_fold(ws, w);
    let out = wrap_output(wrap_fold(ws, w));
    if out.len() > 0 {
        assert(wrapped(title, width) == out);
    }
}

/// A scan over `s` that starts from the state `st`.
spec fn scan_from(st: WordScan, s: Seq<char>) -> WordScan
    decreases s.len(),
{
    if s.len() == 0 {
        st
    } else {
        word_step(scan_from(st, s.drop_last()), s.last())
    }
}

proof fn lemma_scan_from_start(s: Seq<char>)
    ensures
        word_scan(s) == scan_from(WordScan { words: Seq::empty(), current: Seq::empty() }, s),
    decreases s.len(),
{
    if s.len() > 0 {
        lemma_scan_from_start(s.drop_last());
    }
}

proof fn lemma_scan_from_concat(st: WordScan, a: Seq<char>, b: Seq<char>)
    ensures
        scan_from(st, a + b) == scan_from(scan_from(st, a), b),
    decreases b.len(),
{
    if b.len() == 0 {
        assert(a + b =~= a);
    } else {
        lemma_scan_from_concat(st, a, b.drop_last());
        assert((a + b).drop_last() =~= a + b.drop_last());
        assert((a + b).last() == b.last());
    }
}

proof fn lemma_scan_from_fresh(ws: Seq<Seq<char>>, b: Seq<char>)
    ensures
        scan_from(WordScan { words: ws, current: Seq::empty() }, b) == (WordScan {
            words: ws + word_scan(b).words,
            current: word_scan(b).current,
        }),
    decreases b.len(),
{
    if b.len() == 0 {
        assert(ws + Seq::<Seq<char>>::empty() =~= ws);
    } else {
        lemma_scan_from_fresh(ws, b.drop_last());
        let prev = word_scan(b.drop_last());
        assert(word_scan(b) == word_step(prev, b.last()));
        assert((ws + prev.words).push(prev.current) =~= ws + prev.words.push(prev.current));
    }
}

proof fn lemma_scan_one_word(s: Seq<char>)
    requires
        no_white_space(s),
    ensures
        word_scan(s) == (WordScan { words: Seq::empty(), current: s }),
    decreases s.len(),
{
    if s.len() > 0 {
        let d = s.drop_last();
        assert forall|j: int| 0 <= j < d.len() implies !is_white_space(#[trigger] d[j]) by {
            assert(d[j] == s[j]);
        }
        lemma_scan_one_word(d);
        assert(!is_white_space(s[s.len() - 1]));
        assert(word_scan(s) == word_step(word_scan(d), s.last()));
        assert(d.push(s.last()) =~= s);
    } else {
        assert(s =~= Seq::<char>::empty());
    }
}

/// Words are exactly the runs between white space (`str::split_whitespace`):
/// an empty text has none, a non-empty text without white space is one
/// word whole (every character kept), and white space anywhere splits the
/// text into the words before it followed by the words after it.
pub proof fn law_words_split_at_white_space(a: Seq<char>, c: char, b: Seq<char>)
    ensures
        words(Seq::empty()).len() == 0,
        a.len() > 0 && no_white_space(a) ==> words(a) == seq![a],
        is_white_space(c) ==> words(a + seq![c] + b) == words(a) + words(b),
{
    assert(word_scan(Seq::<char>::empty()).words.len() == 0);
    if a.len() > 0 && no_white_space(a) {
        lemma_scan_one_word(a);
    }
    if is_white_space(c) {
        let init = WordScan { words: Seq::empty(), current: Seq::empty() };
        let ac = a + seq![c];
        lemma_scan_from_start(a + seq![c] + b);
        lemma_scan_from_concat(init, ac, b);
        lemma_scan_from_start(ac);
        assert(ac.drop_last() =~= a);
        assert(ac.last() == c);
        assert(word_scan(ac) == word_step(word_scan(a), c));
        let sa = word_scan(a);
        assert(word_scan(ac).words =~= words(a));
        assert(word_scan(ac).current =~= Seq::<char>::empty());
        assert(word_scan(ac) == (WordScan { words: words(a), current: Seq::empty() }));
        lemma_scan_from_fresh(words(a), b);
        let sb = word_scan(b);
        if sb.current.len() > 0 {
            assert((words(a) + sb.words).push(sb.current) =~= words(a) + sb.words.push(sb.current));
        }
    }
}

} // verus!
