//! The lexer: from a character sequence to a flat token sequence.
//!
//! The lexer walks the input left to right with one piece of state, a
//! pending numeral buffer.  Whitespace is skipped entirely (even inside a
//! numeral).  Digits and decimal points accumulate into the buffer; any
//! other character first flushes the buffer into a `Number` token — a
//! malformed buffer is the one lexical error — and is then classified as
//! an operator, or silently ignored if it is not one.  A final `End`
//! sentinel is always appended, so every lookahead the parser makes is
//! defined.
//!
//! [`spec_tokenize`] is that walk written as mathematics; [`tokenize`] is
//! proved to return exactly its result.

use crate::errors::LexError;
use crate::token::{
    all_numeral_chars, dot_count, is_digit_char, is_numeral_char, is_space_char,
    lemma_dot_count_push, numeral_wf, token_views, tokens_wf, SpecToken, Token,
};
use vstd::prelude::*;
use vstd::string::StrSliceExecFns;

verus! {

/// The lexer's state: the tokens produced so far and the pending numeral
/// buffer.
pub struct LexState {
    pub toks: Seq<SpecToken>,
    pub buf: Seq<char>,
}

/// The token an operator character turns into, if it is one.
pub open spec fn op_token(c: char) -> Option<SpecToken> {
    if c == '+' {
        Some(SpecToken::Plus)
    } else if c == '-' {
        Some(SpecToken::Minus)
    } else if c == '/' {
        Some(SpecToken::Slash)
    } else if c == '*' {
        Some(SpecToken::Star)
    } else if c == '^' {
        Some(SpecToken::Caret)
    } else if c == '!' {
        Some(SpecToken::Bang)
    } else if c == '(' {
        Some(SpecToken::LParen)
    } else if c == ')' {
        Some(SpecToken::RParen)
    } else {
        None
    }
}

/// Flushing the pending buffer: an empty buffer yields nothing, a
/// well-formed one yields a `Number` token, and a malformed one is the
/// lexical error.
pub open spec fn lex_flush(st: LexState) -> Result<LexState, LexError> {
    if st.buf.len() == 0 {
        Ok(st)
    } else if numeral_wf(st.buf) {
        Ok(LexState { toks: st.toks.push(SpecToken::Number(st.buf)), buf: Seq::empty() })
    } else {
        Err(LexError::MalformedNumber)
    }
}

/// One character of lexing.  On the same character, the numeral flush
/// happens first, then operator classification; a character that is
/// neither whitespace, numeral, nor operator is deliberately ignored.
pub open spec fn lex_step(st: LexState, c: char) -> Result<LexState, LexError> {
    if is_space_char(c) {
        Ok(st)
    } else if is_numeral_char(c) {
        Ok(LexState { toks: st.toks, buf: st.buf.push(c) })
    } else {
        match lex_flush(st) {
            Err(e) => Err(e),
            Ok(flushed) => match op_token(c) {
                Some(t) => Ok(LexState { toks: flushed.toks.push(t), buf: flushed.buf }),
                None => Ok(flushed),
            },
        }
    }
}

/// The end of the input: flush the pending buffer, then append the `End`
/// sentinel.
pub open spec fn lex_finish(st: LexState) -> Result<Seq<SpecToken>, LexError> {
    match lex_flush(st) {
        Err(e) => Err(e),
        Ok(flushed) => Ok(flushed.toks.push(SpecToken::End)),
    }
}

/// Lexing the input from position `i` on, starting in state `st`.
pub open spec fn lex_from(s: Seq<char>, i: int, st: LexState) -> Result<Seq<SpecToken>, LexError>
    decreases s.len() - i,
{
    if i < 0 || i >= s.len() {
        lex_finish(st)
    } else {
        match lex_step(st, s[i]) {
            Err(e) => Err(e),
            Ok(next) => lex_from(s, i + 1, next),
        }
    }
}

/// What [`tokenize`] returns, as a function of the input characters.
pub open spec fn spec_tokenize(s: Seq<char>) -> Result<Seq<SpecToken>, LexError> {
    lex_from(s, 0, LexState { toks: Seq::empty(), buf: Seq::empty() })
}

/// The tokens produced before the sentinel: none is `End`, and every
/// numeral is a well-formed decimal literal.
pub open spec fn plain_tokens(ts: Seq<SpecToken>) -> bool {
    forall|i: int|
        0 <= i < ts.len() ==> !((#[trigger] ts[i]) is End) && (ts[i] matches SpecToken::Number(text)
            ==> all_numeral_chars(text) && numeral_wf(text))
}

/// Mapping a token sequence to its models commutes with appending a
/// token.
pub proof fn lemma_token_views_push(ts: Seq<Token>, t: Token)
    ensures
        token_views(ts.push(t)) =~= token_views(ts).push(t@),
{
    assert forall|i: int| 0 <= i < ts.len() + 1 implies token_views(ts.push(t))[i] == token_views(
        ts,
    ).push(t@)[i] by {
        if i < ts.len() {
            assert(ts.push(t)[i] == ts[i]);
        } else {
            assert(ts.push(t)[i] == t);
        }
    }
}

fn space_char(c: char) -> (r: bool)
    ensures
        r == is_space_char(c),
{
    c == ' ' || c == '\t' || c == '\n' || c == '\r'
}

fn numeral_char(c: char) -> (r: bool)
    ensures
        r == is_numeral_char(c),
{
    c == '0' || c == '1' || c == '2' || c == '3' || c == '4' || c == '5' || c == '6' || c == '7'
        || c == '8' || c == '9' || c == '.'
}

/// Converts a formula to its token sequence.
///
/// Returns exactly what [`spec_tokenize`] describes: the sequence of the
/// tokens of the input, ending in the `End` sentinel, or the lexical
/// error for a malformed numeral.
pub fn tokenize(s: &str) -> (r: Result<Vec<Token>, LexError>)
    ensures
        match r {
            Ok(ts) => spec_tokenize(s@) == Ok::<Seq<SpecToken>, LexError>(token_views(ts@))
                && tokens_wf(token_views(ts@)),
            Err(e) => spec_tokenize(s@) == Err::<Seq<SpecToken>, LexError>(e),
        },
{
    let n = s.unicode_len();
    let mut tokens: Vec<Token> = Vec::new();
    let mut buf: Vec<char> = Vec::new();
    let mut buf_dots: usize = 0;
    let mut i: usize = 0;
    proof {
        assert(token_views(tokens@) =~= Seq::<SpecToken>::empty());
        assert((LexState { toks: token_views(tokens@), buf: buf@ }) == (LexState {
            toks: Seq::<SpecToken>::empty(),
            buf: Seq::<char>::empty(),
        }));
    }
    while i < n
        invariant
            n == s@.len(),
            i <= n,
            buf_dots <= buf@.len(),
            buf_dots as nat == dot_count(buf@),
            all_numeral_chars(buf@),
            plain_tokens(token_views(tokens@)),
            spec_tokenize(s@) == lex_from(
                s@,
                i as int,
                (LexState { toks: token_views(tokens@), buf: buf@ }),
            ),
        decreases n - i,
    {
        let ghost st = LexState { toks: token_views(tokens@), buf: buf@ };
        let c = s.get_char(i);
        if space_char(c) {
            // skipped entirely; the pending numeral continues across it
        } else if numeral_char(c) {
            proof {
                lemma_dot_count_push(buf@, c);
            }
            buf.push(c);
            proof {
                assert(buf@.len() == buf.len());
            }
            if c == '.' {
                buf_dots = buf_dots + 1;
            }
            assert(lex_step(st, c) == Ok::<LexState, LexError>(
                LexState { toks: token_views(tokens@), buf: buf@ },
            ));
        } else {
            // flush the pending numeral first
            if buf.len() > 0 {
                if buf_dots <= 1 && buf_dots < buf.len() {
                    proof {
                        lemma_token_views_push(tokens@, Token::Number(buf));
                    }
                    tokens.push(Token::Number(buf));
                    buf = Vec::new();
                    buf_dots = 0;
                } else {
                    assert(lex_step(st, c) == Err::<LexState, LexError>(LexError::MalformedNumber));
                    return Err(LexError::MalformedNumber);
                }
            }
            let ghost flushed = LexState { toks: token_views(tokens@), buf: buf@ };
            assert(lex_flush(st) == Ok::<LexState, LexError>(flushed));
            // then operator classification; anything else is ignored
            if c == '+' {
                proof {
                    lemma_token_views_push(tokens@, Token::Plus);
                }
                tokens.push(Token::Plus);
            } else if c == '-' {
                proof {
                    lemma_token_views_push(tokens@, Token::Minus);
                }
                tokens.push(Token::Minus);
            } else if c == '/' {
                proof {
                    lemma_token_views_push(tokens@, Token::Slash);
                }
                tokens.push(Token::Slash);
            } else if c == '*' {
                proof {
                    lemma_token_views_push(tokens@, Token::Star);
                }
                tokens.push(Token::Star);
            } else if c == '^' {
                proof {
                    lemma_token_views_push(tokens@, Token::Caret);
                }
                tokens.push(Token::Caret);
            } else if c == '!' {
                proof {
                    lemma_token_views_push(tokens@, Token::Bang);
                }
                tokens.push(Token::Bang);
            } else if c == '(' {
                proof {
                    lemma_token_views_push(tokens@, Token::LParen);
                }
                tokens.push(Token::LParen);
            } else if c == ')' {
                proof {
                    lemma_token_views_push(tokens@, Token::RParen);
                }
                tokens.push(Token::RParen);
            }
            assert(lex_step(st, c) == Ok::<LexState, LexError>(
                LexState { toks: token_views(tokens@), buf: buf@ },
            ));
        }
        i = i + 1;
    }
    let ghost st = LexState { toks: token_views(tokens@), buf: buf@ };
    assert(spec_tokenize(s@) == lex_finish(st));
    if buf.len() > 0 {
        if buf_dots <= 1 && buf_dots < buf.len() {
            proof {
                lemma_token_views_push(tokens@, Token::Number(buf));
            }
            tokens.push(Token::Number(buf));
        } else {
            return Err(LexError::MalformedNumber);
        }
    }
    proof {
        lemma_token_views_push(tokens@, Token::End);
    }
    tokens.push(Token::End);
    assert(spec_tokenize(s@) == Ok::<Seq<SpecToken>, LexError>(token_views(tokens@)));
    assert(tokens_wf(token_views(tokens@)));
    Ok(tokens)
}

} // verus!
