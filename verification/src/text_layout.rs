//! Text wrapping: break a character sequence into lines of bounded width,
//! preferring whitespace boundaries and hard-breaking only words wider than
//! the whole line. Deterministic and pure, with a proof that wrapping keeps
//! the whitespace-delimited token sequence intact.

use vstd::prelude::*;

use crate::chars::{extend_chars, vec_copy};

verus! {

/// The characters treated as token separators.
pub open spec fn is_space(c: char) -> bool {
    c == ' ' || c == '\n' || c == '\t' || c == '\r'
}

/// Length of the leading run of non-space characters.
pub open spec fn word_end(s: Seq<char>) -> nat
    decreases s.len(),
{
    if s.len() == 0 || is_space(s[0]) {
        0
    } else {
        1 + word_end(s.drop_first())
    }
}

proof fn lemma_word_end_le(s: Seq<char>)
    ensures
        word_end(s) <= s.len(),
    decreases s.len(),
{
    if s.len() > 0 && !is_space(s[0]) {
        lemma_word_end_le(s.drop_first());
    }
}

/// The whitespace-delimited tokens of `s`, in order, each non-empty.
pub open spec fn tokens(s: Seq<char>) -> Seq<Seq<char>>
    decreases s.len(),
    via tokens_decreases
{
    if s.len() == 0 {
        Seq::empty()
    } else if is_space(s[0]) {
        tokens(s.drop_first())
    } else {
        seq![s.take(word_end(s) as int)] + tokens(s.skip(word_end(s) as int))
    }
}

#[via_fn]
proof fn tokens_decreases(s: Seq<char>) {
    lemma_word_end_le(s);
}

/// No character of `w` is a separator.
pub open spec fn no_space(w: Seq<char>) -> bool {
    forall|i: int| 0 <= i < w.len() ==> !is_space(w[i])
}

/// The leading non-space run of `w + rest` is all of `w` when `rest` cannot
/// extend it.
proof fn lemma_word_end_concat(w: Seq<char>, rest: Seq<char>)
    requires
        no_space(w),
        rest.len() == 0 || is_space(rest[0]),
    ensures
        word_end(w + rest) == w.len(),
    decreases w.len(),
{
    if w.len() == 0 {
        assert(w + rest =~= rest);
    } else {
        assert((w + rest).drop_first() =~= w.drop_first() + rest);
        lemma_word_end_concat(w.drop_first(), rest);
    }
}

/// A non-empty spaceless prefix followed by a separator (or nothing) is the
/// first token.
proof fn lemma_tokens_word(w: Seq<char>, rest: Seq<char>)
    requires
        no_space(w),
        w.len() >= 1,
        rest.len() == 0 || is_space(rest[0]),
    ensures
        tokens(w + rest) == seq![w] + tokens(rest),
{
    lemma_word_end_concat(w, rest);
    assert((w + rest).take(w.len() as int) =~= w);
    assert((w + rest).skip(w.len() as int) =~= rest);
}

/// A lone non-empty spaceless word is exactly one token.
proof fn lemma_tokens_single(w: Seq<char>)
    requires
        no_space(w),
        w.len() >= 1,
    ensures
        tokens(w) == seq![w],
{
    assert(w =~= w + Seq::<char>::empty());
    lemma_tokens_word(w, Seq::empty());
    assert(seq![w] + tokens(Seq::<char>::empty()) =~= seq![w]);
}

/// A space boundary splits tokenisation cleanly.
proof fn lemma_tokens_space_split(a: Seq<char>, b: Seq<char>)
    ensures
        tokens(a + seq![' '] + b) == tokens(a) + tokens(b),
    decreases a.len(),
{
    if a.len() == 0 {
        assert(a + seq![' '] + b =~= seq![' '] + b);
        assert((seq![' '] + b).drop_first() =~= b);
        assert(tokens(a) + tokens(b) =~= tokens(b));
    } else if is_space(a[0]) {
        assert((a + seq![' '] + b).drop_first() =~= a.drop_first() + seq![' '] + b);
        lemma_tokens_space_split(a.drop_first(), b);
    } else {
        lemma_word_end_le(a);
        let k = word_end(a) as int;
        let w = a.take(k);
        let rest = a.skip(k);
        lemma_word_end_prefix(a);
        assert(a =~= w + rest);
        assert(a + seq![' '] + b =~= w + (rest + seq![' '] + b));
        if rest.len() == 0 {
            assert(rest + seq![' '] + b =~= seq![' '] + b);
            assert((seq![' '] + b).drop_first() =~= b);
            lemma_tokens_word(w, seq![' '] + b);
            lemma_tokens_word(w, rest);
            assert(tokens(a) + tokens(b) =~= seq![w] + tokens(b));
        } else {
            assert((rest + seq![' '] + b)[0] == rest[0]);
            lemma_tokens_word(w, rest + seq![' '] + b);
            lemma_tokens_word(w, rest);
            lemma_tokens_space_split(rest, b);
            assert(tokens(a + seq![' '] + b) =~= tokens(a) + tokens(b));
        }
    }
}

/// The leading non-space run is spaceless, and what stops it (if anything)
/// is a separator.
proof fn lemma_word_end_prefix(s: Seq<char>)
    ensures
        no_space(s.take(word_end(s) as int)),
        word_end(s) < s.len() ==> is_space(s[word_end(s) as int]),
    decreases s.len(),
{
    lemma_word_end_le(s);
    if s.len() > 0 && !is_space(s[0]) {
        lemma_word_end_prefix(s.drop_first());
        let k = word_end(s) as int;
        assert forall|i: int| 0 <= i < k implies !is_space(s.take(k)[i]) by {
            if i > 0 {
                assert(s.drop_first().take(k - 1)[i - 1] == s[i]);
            }
        }
        if k < s.len() {
            assert(s.drop_first()[k - 1] == s[k]);
        }
    }
}

/// The lines joined by single spaces.
pub open spec fn join_space(ls: Seq<Seq<char>>) -> Seq<char>
    decreases ls.len(),
{
    if ls.len() == 0 {
        Seq::empty()
    } else if ls.len() == 1 {
        ls[0]
    } else {
        ls[0] + seq![' '] + join_space(ls.drop_first())
    }
}

/// The tokens of each line, concatenated in order.
pub open spec fn flat_tokens(ls: Seq<Seq<char>>) -> Seq<Seq<char>>
    decreases ls.len(),
{
    if ls.len() == 0 {
        Seq::empty()
    } else {
        tokens(ls[0]) + flat_tokens(ls.drop_first())
    }
}

proof fn lemma_flat_tokens_snoc(ls: Seq<Seq<char>>, l: Seq<char>)
    ensures
        flat_tokens(ls.push(l)) == flat_tokens(ls) + tokens(l),
    decreases ls.len(),
{
    reveal_with_fuel(flat_tokens, 3);
    if ls.len() == 0 {
        assert(ls.push(l)[0] == l);
        assert(ls.push(l).drop_first() =~= Seq::<Seq<char>>::empty());
        assert(flat_tokens(ls.push(l)) =~~= flat_tokens(ls) + tokens(l));
    } else {
        assert(ls.push(l).drop_first() =~= ls.drop_first().push(l));
        assert(ls.push(l)[0] == ls[0]);
        lemma_flat_tokens_snoc(ls.drop_first(), l);
        assert(flat_tokens(ls.push(l)) =~~= flat_tokens(ls) + tokens(l));
    }
}

/// Tokenising the space-join of lines gives the lines' own tokens, in order.
proof fn lemma_tokens_join(ls: Seq<Seq<char>>)
    ensures
        tokens(join_space(ls)) == flat_tokens(ls),
    decreases ls.len(),
{
    reveal_with_fuel(flat_tokens, 3);
    if ls.len() == 0 {
    } else if ls.len() == 1 {
        assert(ls.drop_first() =~= Seq::<Seq<char>>::empty());
        assert(tokens(join_space(ls)) =~~= flat_tokens(ls));
    } else {
        lemma_tokens_space_split(ls[0], join_space(ls.drop_first()));
        lemma_tokens_join(ls.drop_first());
    }
}

/// Each word hard-broken into chunks no wider than `width`.
pub open spec fn break_word(w: Seq<char>, width: int) -> Seq<Seq<char>>
    decreases w.len(),
{
    if width < 1 || w.len() <= width {
        seq![w]
    } else {
        seq![w.take(width)] + break_word(w.skip(width), width)
    }
}

/// All words hard-broken, in order.
pub open spec fn broken(ws: Seq<Seq<char>>, width: int) -> Seq<Seq<char>>
    decreases ws.len(),
{
    if ws.len() == 0 {
        Seq::empty()
    } else {
        break_word(ws[0], width) + broken(ws.drop_first(), width)
    }
}

/// Hard-breaking changes nothing when every word already fits.
proof fn lemma_broken_identity(ws: Seq<Seq<char>>, width: int)
    requires
        forall|i: int| 0 <= i < ws.len() ==> #[trigger] ws[i].len() <= width,
    ensures
        broken(ws, width) == ws,
    decreases ws.len(),
{
    if ws.len() > 0 {
        lemma_broken_identity(ws.drop_first(), width);
        assert(broken(ws, width) =~= ws);
    }
}

/// The view of each word.
pub open spec fn words_view(ws: Seq<Vec<char>>) -> Seq<Seq<char>> {
    ws.map_values(|w: Vec<char>| w@)
}

/// Split `text` into its whitespace-delimited tokens.
fn split_words(text: &Vec<char>) -> (words: Vec<Vec<char>>)
    ensures
        words_view(words@) == tokens(text@),
        forall|i: int| 0 <= i < words@.len() ==> #[trigger] words@[i]@.len() >= 1,
        forall|i: int| 0 <= i < words@.len() ==> no_space(#[trigger] words@[i]@),
{
    let s = text;
    let mut words: Vec<Vec<char>> = Vec::new();
    let mut cur: Vec<char> = Vec::new();
    let mut i: usize = 0;
    proof {
        assert(cur@ + s@.skip(0) =~= s@);
        assert(words_view(words@) + tokens(s@) =~= tokens(s@));
    }
    while i < s.len()
        invariant
            i <= s@.len(),
            no_space(cur@),
            tokens(s@) == words_view(words@) + tokens(cur@ + s@.skip(i as int)),
            forall|k: int| 0 <= k < words@.len() ==> #[trigger] words@[k]@.len() >= 1,
            forall|k: int| 0 <= k < words@.len() ==> no_space(#[trigger] words@[k]@),
        decreases s@.len() - i,
    {
        let c = s[i];
        if c == ' ' || c == '\n' || c == '\t' || c == '\r' {
            if cur.len() > 0 {
                proof {
                    assert(cur@ + s@.skip(i as int) =~= cur@ + (seq![s@[i as int]] + s@.skip(
                        i + 1,
                    )));
                    lemma_tokens_word(cur@, seq![s@[i as int]] + s@.skip(i + 1));
                    assert((seq![s@[i as int]] + s@.skip(i + 1)).drop_first() =~= s@.skip(i + 1));
                    assert(words_view(words@.push(cur)) =~= words_view(words@).push(cur@));
                    assert(words_view(words@) + (seq![cur@] + tokens(s@.skip(i + 1)))
                        =~= words_view(words@).push(cur@) + tokens(
                        Seq::<char>::empty() + s@.skip(i + 1),
                    ));
                    assert(Seq::<char>::empty() + s@.skip(i + 1) =~= s@.skip(i + 1));
                }
                words.push(cur);
                cur = Vec::new();
            } else {
                proof {
                    assert(cur@ + s@.skip(i as int) =~= s@.skip(i as int));
                    assert(s@.skip(i as int).drop_first() =~= s@.skip(i + 1));
                    assert(cur@ + s@.skip(i + 1) =~= s@.skip(i + 1));
                }
            }
        } else {
            proof {
                assert(cur@ + s@.skip(i as int) =~= cur@.push(s@[i as int]) + s@.skip(i + 1));
            }
            cur.push(c);
        }
        i += 1;
    }
    if cur.len() > 0 {
        proof {
            assert(cur@ + s@.skip(i as int) =~= cur@);
            lemma_tokens_single(cur@);
            assert(words_view(words@.push(cur)) =~= words_view(words@).push(cur@));
            assert(words_view(words@) + seq![cur@] =~= words_view(words@).push(cur@));
        }
        words.push(cur);
    } else {
        proof {
            assert(cur@ + s@.skip(i as int) =~= Seq::<char>::empty());
            assert(words_view(words@) + tokens(Seq::<char>::empty()) =~= words_view(words@));
        }
    }
    words
}

/// Hard-break every word wider than `width` into chunks of at most `width`.
fn break_words(words: Vec<Vec<char>>, width: usize) -> (out: Vec<Vec<char>>)
    requires
        width >= 1,
        forall|i: int| 0 <= i < words@.len() ==> #[trigger] words@[i]@.len() >= 1,
        forall|i: int| 0 <= i < words@.len() ==> no_space(#[trigger] words@[i]@),
    ensures
        words_view(out@) == broken(words_view(words@), width as int),
        forall|i: int| 0 <= i < out@.len() ==> 1 <= #[trigger] out@[i]@.len() <= width,
        forall|i: int| 0 <= i < out@.len() ==> no_space(#[trigger] out@[i]@),
{
    let mut out: Vec<Vec<char>> = Vec::new();
    let mut j: usize = 0;
    while j < words.len()
        invariant
            j <= words@.len(),
            width >= 1,
            forall|i: int| 0 <= i < words@.len() ==> #[trigger] words@[i]@.len() >= 1,
            forall|i: int| 0 <= i < words@.len() ==> no_space(#[trigger] words@[i]@),
            words_view(out@) == broken(words_view(words@).take(j as int), width as int),
            forall|i: int| 0 <= i < out@.len() ==> 1 <= #[trigger] out@[i]@.len() <= width,
            forall|i: int| 0 <= i < out@.len() ==> no_space(#[trigger] out@[i]@),
        decreases words@.len() - j,
    {
        let mut rem: Vec<char> = vec_copy(&words[j]);
        proof {
            lemma_broken_snoc(words_view(words@).take(j as int), rem@, width as int);
            assert(words_view(words@).take(j as int).push(rem@) =~= words_view(words@).take(
                j + 1,
            ));
        }
        let ghost whole = rem@;
        while rem.len() > width
            invariant
                width >= 1,
                rem@.len() >= 1,
                no_space(rem@),
                forall|i: int| 0 <= i < out@.len() ==> 1 <= #[trigger] out@[i]@.len() <= width,
                forall|i: int| 0 <= i < out@.len() ==> no_space(#[trigger] out@[i]@),
                words_view(out@) + break_word(rem@, width as int) == broken(
                    words_view(words@).take(j + 1),
                    width as int,
                ),
            decreases rem@.len(),
        {
            let mut chunk: Vec<char> = Vec::new();
            let mut t: usize = 0;
            while t < width
                invariant
                    t <= width,
                    width < rem@.len(),
                    chunk@ == rem@.take(t as int),
                decreases width - t,
            {
                chunk.push(rem[t]);
                assert(chunk@ =~= rem@.take(t + 1));
                t += 1;
            }
            let mut rest: Vec<char> = Vec::new();
            let mut u: usize = width;
            while u < rem.len()
                invariant
                    width <= u <= rem@.len(),
                    rest@ == rem@.subrange(width as int, u as int),
                decreases rem@.len() - u,
            {
                rest.push(rem[u]);
                assert(rest@ =~= rem@.subrange(width as int, u + 1));
                u += 1;
            }
            proof {
                assert(rest@ =~= rem@.skip(width as int));
                assert(words_view(out@.push(chunk)) =~= words_view(out@).push(chunk@));
                assert(words_view(out@).push(rem@.take(width as int)) + break_word(
                    rem@.skip(width as int),
                    width as int,
                ) =~= words_view(out@) + break_word(rem@, width as int));
                assert forall|i: int| 0 <= i < rem@.skip(width as int).len() implies !is_space(
                    rem@.skip(width as int)[i],
                ) by {
                    assert(rem@.skip(width as int)[i] == rem@[i + width]);
                }
                assert forall|i: int| 0 <= i < width implies !is_space(
                    rem@.take(width as int)[i],
                ) by {
                    assert(rem@.take(width as int)[i] == rem@[i]);
                }
            }
            out.push(chunk);
            rem = rest;
        }
        proof {
            assert(break_word(rem@, width as int) =~= seq![rem@]);
            assert(words_view(out@.push(rem)) =~= words_view(out@).push(rem@));
            assert(words_view(out@) + seq![rem@] =~= words_view(out@).push(rem@));
        }
        out.push(rem);
        j += 1;
    }
    proof {
        assert(words_view(words@).take(words@.len() as int) =~= words_view(words@));
    }
    out
}

proof fn lemma_broken_snoc(ws: Seq<Seq<char>>, w: Seq<char>, width: int)
    ensures
        broken(ws.push(w), width) == broken(ws, width) + break_word(w, width),
    decreases ws.len(),
{
    reveal_with_fuel(broken, 3);
    if ws.len() == 0 {
        assert(ws.push(w)[0] == w);
        assert(ws.push(w).drop_first() =~= Seq::<Seq<char>>::empty());
        assert(broken(ws.push(w), width) =~~= broken(ws, width) + break_word(w, width));
    } else {
        assert(ws.push(w).drop_first() =~= ws.drop_first().push(w));
        assert(ws.push(w)[0] == ws[0]);
        lemma_broken_snoc(ws.drop_first(), w, width);
        assert(broken(ws.push(w), width) =~~= broken(ws, width) + break_word(w, width));
    }
}


/// Greedy line filling: each word joins the current line when it fits after
/// a single space, otherwise it starts the next line.
pub open spec fn greedy_lines(words: Seq<Seq<char>>, cur: Seq<char>, width: int) -> Seq<Seq<char>>
    decreases words.len(),
{
    if words.len() == 0 {
        if cur.len() == 0 {
            Seq::empty()
        } else {
            seq![cur]
        }
    } else if cur.len() == 0 {
        greedy_lines(words.drop_first(), words[0], width)
    } else if cur.len() + 1 + words[0].len() <= width {
        greedy_lines(words.drop_first(), cur + seq![' '] + words[0], width)
    } else {
        seq![cur] + greedy_lines(words.drop_first(), words[0], width)
    }
}

/// What wrapping produces: the text's tokens, hard-broken to the width, laid
/// out greedily.
pub open spec fn wrapped(text: Seq<char>, width: int) -> Seq<Seq<char>> {
    greedy_lines(broken(tokens(text), width), Seq::empty(), width)
}

/// Fill lines greedily from words that each fit in `width`.
fn fill_lines(words: Vec<Vec<char>>, width: usize) -> (lines: Vec<Vec<char>>)
    requires
        width >= 1,
        forall|i: int| 0 <= i < words@.len() ==> 1 <= #[trigger] words@[i]@.len() <= width,
        forall|i: int| 0 <= i < words@.len() ==> no_space(#[trigger] words@[i]@),
    ensures
        flat_tokens(words_view(lines@)) == words_view(words@),
        words_view(lines@) == greedy_lines(words_view(words@), Seq::empty(), width as int),
        forall|i: int| 0 <= i < lines@.len() ==> 1 <= #[trigger] lines@[i]@.len() <= width,
        words@.len() == 0 ==> lines@.len() == 0,
{
    let mut lines: Vec<Vec<char>> = Vec::new();
    let mut cur: Vec<char> = Vec::new();
    let mut j: usize = 0;
    proof {
        assert(words_view(words@).skip(0) =~= words_view(words@));
        assert(words_view(lines@) + greedy_lines(words_view(words@), cur@, width as int)
            =~= greedy_lines(words_view(words@), Seq::empty(), width as int));
    }
    while j < words.len()
        invariant
            j <= words@.len(),
            width >= 1,
            forall|i: int| 0 <= i < words@.len() ==> 1 <= #[trigger] words@[i]@.len() <= width,
            forall|i: int| 0 <= i < words@.len() ==> no_space(#[trigger] words@[i]@),
            cur@.len() <= width,
            j == 0 ==> cur@.len() == 0 && lines@.len() == 0,
            j > 0 ==> cur@.len() >= 1,
            flat_tokens(words_view(lines@)) + tokens(cur@) == words_view(words@).take(j as int),
            words_view(lines@) + greedy_lines(words_view(words@).skip(j as int), cur@, width as int)
                == greedy_lines(words_view(words@), Seq::empty(), width as int),
            forall|i: int| 0 <= i < lines@.len() ==> 1 <= #[trigger] lines@[i]@.len() <= width,
        decreases words@.len() - j,
    {
        let w = &words[j];
        proof {
            assert(words_view(words@).take(j + 1).drop_last() =~= words_view(words@).take(j as int));
            assert(words_view(words@).take(j + 1).last() == words@[j as int]@);
            assert(words_view(words@).skip(j as int)[0] == words@[j as int]@);
            assert(words_view(words@).skip(j as int).drop_first() =~= words_view(words@).skip(
                j + 1,
            ));
        }
        if cur.len() == 0 {
            cur = vec_copy(w);
            proof {
                lemma_tokens_single(cur@);
                assert(words_view(words@).take(j + 1) =~= words_view(words@).take(j as int).push(
                    words@[j as int]@,
                ));
            }
        } else if cur.len() < width && w.len() <= width - cur.len() - 1 {
            let ghost before = cur@;
            cur.push(' ');
            extend_chars(&mut cur, w);
            proof {
                assert(cur@ =~= before + seq![' '] + words@[j as int]@);
                lemma_tokens_space_split(before, words@[j as int]@);
                lemma_tokens_single(words@[j as int]@);
                assert(words_view(words@).take(j + 1) =~= words_view(words@).take(j as int).push(
                    words@[j as int]@,
                ));
            }
        } else {
            proof {
                lemma_flat_tokens_snoc(words_view(lines@), cur@);
                assert(words_view(lines@.push(cur)) =~= words_view(lines@).push(cur@));
                lemma_tokens_single(words@[j as int]@);
                assert(words_view(words@).take(j + 1) =~= words_view(words@).take(j as int).push(
                    words@[j as int]@,
                ));
            }
            proof {
                assert(words_view(lines@).push(cur@) + greedy_lines(
                    words_view(words@).skip(j + 1),
                    words@[j as int]@,
                    width as int,
                ) =~= words_view(lines@) + (seq![cur@] + greedy_lines(
                    words_view(words@).skip(j + 1),
                    words@[j as int]@,
                    width as int,
                )));
            }
            lines.push(cur);
            cur = vec_copy(w);
        }
        j += 1;
    }
    proof {
        assert(words_view(words@).skip(words@.len() as int) =~= Seq::<Seq<char>>::empty());
    }
    if cur.len() > 0 {
        proof {
            lemma_flat_tokens_snoc(words_view(lines@), cur@);
            assert(words_view(lines@.push(cur)) =~= words_view(lines@).push(cur@));
            assert(words_view(lines@).push(cur@) =~= words_view(lines@) + seq![cur@]);
        }
        lines.push(cur);
    } else {
        proof {
            assert(words_view(lines@) + Seq::<Seq<char>>::empty() =~= words_view(lines@));
        }
    }
    proof {
        assert(words_view(words@).take(words@.len() as int) =~= words_view(words@));
    }
    lines
}

/// Wrap `text` into lines of at most `width` characters, breaking at
/// whitespace, hard-breaking only words wider than `width`. Empty text (or
/// all-whitespace text) yields no lines at all. The produced lines carry, in
/// order, exactly the hard-broken tokens of the text.
pub fn wrap(text: &Vec<char>, width: usize) -> (lines: Vec<Vec<char>>)
    requires
        width >= 1,
    ensures
        forall|i: int| 0 <= i < lines@.len() ==> 1 <= #[trigger] lines@[i]@.len() <= width,
        flat_tokens(words_view(lines@)) == broken(tokens(text@), width as int),
        words_view(lines@) == wrapped(text@, width as int),
        tokens(text@).len() == 0 ==> lines@.len() == 0,
{
    let words = split_words(text);
    let pieces = break_words(words, width);
    proof {
        if tokens(text@).len() == 0 {
            assert(words_view(pieces@) =~= Seq::<Seq<char>>::empty());
            assert(pieces@.len() == words_view(pieces@).len());
        }
    }
    fill_lines(pieces, width)
}

/// Joining the wrapped lines with single spaces reconstructs the original
/// token sequence, provided no token is wider than the width (a wider token
/// is hard-broken, which by design splits it).
pub proof fn lemma_wrap_reconstructs(text: Seq<char>, width: int, lines: Seq<Seq<char>>)
    requires
        width >= 1,
        forall|i: int| 0 <= i < tokens(text).len() ==> #[trigger] tokens(text)[i].len() <= width,
        flat_tokens(lines) == broken(tokens(text), width),
    ensures
        tokens(join_space(lines)) == tokens(text),
{
    lemma_broken_identity(tokens(text), width);
    lemma_tokens_join(lines);
}

} // verus!
