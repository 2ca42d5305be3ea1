//! The tokenizer: a single left-to-right scan that splits SQL text into
//! tokens. Whitespace ends the buffered token and is discarded; each
//! character of the fixed punctuation set becomes a token of its own; every
//! other character joins the buffered token. Tokenization never fails.

use crate::text::{char_is_punct, char_is_space, is_punct_char, is_space_char};
use vstd::prelude::*;

verus! {

/// The buffered token as a token list: nothing when the buffer is empty.
pub open spec fn flushed(buf: Seq<char>) -> Seq<Seq<char>> {
    if buf.len() == 0 {
        Seq::empty()
    } else {
        seq![buf]
    }
}

/// The tokens of the remaining text `s` when `buf` holds the token text
/// buffered so far.
pub open spec fn tokens_from(s: Seq<char>, buf: Seq<char>) -> Seq<Seq<char>>
    decreases s.len(),
{
    if s.len() == 0 {
        flushed(buf)
    } else {
        let c = s[0];
        if is_space_char(c) {
            flushed(buf) + tokens_from(s.drop_first(), Seq::empty())
        } else if is_punct_char(c) {
            flushed(buf) + seq![seq![c]] + tokens_from(s.drop_first(), Seq::empty())
        } else {
            tokens_from(s.drop_first(), buf.push(c))
        }
    }
}

/// The token sequence of an input text.
pub open spec fn tokenize_spec(s: Seq<char>) -> Seq<Seq<char>> {
    tokens_from(s, Seq::empty())
}

/// View of a token vector: the tokens' character sequences, in order.
pub open spec fn toks_view(ts: Seq<String>) -> Seq<Seq<char>> {
    ts.map_values(|t: String| t@)
}

/// Splits SQL text into tokens; a total scan that never fails and returns an
/// empty vector for blank input.
pub fn tokenize(sql: &str) -> (r: Vec<String>)
    ensures
        toks_view(r@) == tokenize_spec(sql@),
{
    let n = sql.unicode_len();
    let mut tokens: Vec<String> = Vec::new();
    // Start of the buffered token: the buffer is sql[tok_start .. i].
    let mut tok_start: usize = 0;
    let mut i: usize = 0;
    proof {
        assert(toks_view(tokens@) =~= Seq::<Seq<char>>::empty());
        assert(sql@.skip(0) =~= sql@);
        assert(sql@.subrange(0, 0) =~= Seq::<char>::empty());
    }
    while i < n
        invariant
            tok_start <= i <= n,
            n == sql@.len(),
            toks_view(tokens@) + tokens_from(
                sql@.skip(i as int),
                sql@.subrange(tok_start as int, i as int),
            ) == tokenize_spec(sql@),
        decreases n - i,
    {
        let ghost rest = sql@.skip(i as int);
        let ghost buf = sql@.subrange(tok_start as int, i as int);
        proof {
            assert(rest[0] == sql@[i as int]);
            assert(rest.drop_first() =~= sql@.skip(i + 1));
        }
        let c = sql.get_char(i);
        if char_is_space(c) {
            if tok_start < i {
                let tok = String::from_str(sql.substring_char(tok_start, i));
                tokens.push(tok);
                proof {
                    assert(toks_view(tokens@) =~= toks_view(tokens@.drop_last()) + flushed(buf));
                }
            } else {
                assert(flushed(buf) =~= Seq::<Seq<char>>::empty());
            }
            i += 1;
            tok_start = i;
            proof {
                assert(sql@.subrange(i as int, i as int) =~= Seq::<char>::empty());
                assert(toks_view(tokens@) + tokens_from(sql@.skip(i as int), Seq::empty())
                    =~= tokenize_spec(sql@));
            }
        } else if char_is_punct(c) {
            if tok_start < i {
                let tok = String::from_str(sql.substring_char(tok_start, i));
                tokens.push(tok);
                proof {
                    assert(toks_view(tokens@) =~= toks_view(tokens@.drop_last()) + flushed(buf));
                }
            } else {
                assert(flushed(buf) =~= Seq::<Seq<char>>::empty());
            }
            let punct = String::from_str(sql.substring_char(i, i + 1));
            tokens.push(punct);
            proof {
                assert(punct@ =~= seq![sql@[i as int]]);
                assert(toks_view(tokens@) =~= toks_view(tokens@.drop_last()) + seq![punct@]);
            }
            i += 1;
            tok_start = i;
            proof {
                assert(sql@.subrange(i as int, i as int) =~= Seq::<char>::empty());
                assert(toks_view(tokens@) + tokens_from(sql@.skip(i as int), Seq::empty())
                    =~= tokenize_spec(sql@));
            }
        } else {
            i += 1;
            proof {
                assert(sql@.subrange(tok_start as int, i as int) =~= buf.push(sql@[i - 1]));
            }
        }
    }
    proof {
        assert(sql@.skip(n as int).len() == 0);
    }
    if tok_start < n {
        let tok = String::from_str(sql.substring_char(tok_start, n));
        tokens.push(tok);
        proof {
            assert(toks_view(tokens@) =~= toks_view(tokens@.drop_last()) + flushed(
                sql@.subrange(tok_start as int, n as int),
            ));
        }
    } else {
        proof {
            assert(flushed(sql@.subrange(tok_start as int, n as int)) =~= Seq::<Seq<char>>::empty());
        }
    }
    proof {
        assert(toks_view(tokens@) =~= tokenize_spec(sql@));
    }
    tokens
}

proof fn lemma_tokens_from_all_space(s: Seq<char>)
    requires
        forall|i: int| 0 <= i < s.len() ==> is_space_char(s[i]),
    ensures
        tokens_from(s, Seq::empty()) =~= Seq::<Seq<char>>::empty(),
    decreases s.len(),
{
    if s.len() > 0 {
        lemma_tokens_from_all_space(s.drop_first());
    }
}

/// Whitespace-only input produces no tokens at all.
pub proof fn lemma_tokenize_all_space_is_empty(s: Seq<char>)
    requires
        forall|i: int| 0 <= i < s.len() ==> is_space_char(s[i]),
    ensures
        tokenize_spec(s) =~= Seq::<Seq<char>>::empty(),
{
    lemma_tokens_from_all_space(s);
}

} // verus!
