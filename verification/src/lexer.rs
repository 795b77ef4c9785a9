//! Longest-match tokenizer with a one-token lookahead interface.
//!
//! The token language: keywords (`is`, `then`, `with`, `if`, `goto`,
//! `return`, `and`, the discard words `yeet` and `fuckall`, and the compound
//! keywords `not here` and `still in`), the operator `.`, the behaviour
//! separator `//`, parentheses, newlines (LF or FF), identifiers
//! `[A-Za-z_][A-Za-z_0-9]*` and decimal numbers. Spaces, tabs, carriage
//! returns and `*` line comments are skipped. Keywords win ties against the
//! identifier rule; a longer identifier run wins against a shorter keyword.
//!
//! `spec_next` is the reference tokenizer: the executable scanner is proved
//! to return exactly what it says.
use vstd::prelude::*;

verus! {

/// A half-open byte range `[start, end)` into the source buffer.
#[derive(Clone, Copy, PartialEq, Eq, Structural, Debug)]
pub struct Span {
    pub start: usize,
    pub end: usize,
}

/// A lexical token. `Number` carries the parsed value of its digit run.
#[derive(Clone, Copy, PartialEq, Eq, Structural, Debug)]
pub enum Token {
    Operator,
    BehaviourStart,
    Is,
    Then,
    With,
    If,
    Goto,
    Discard,
    NotHere,
    Return,
    ParenLeft,
    ParenRight,
    StillIn,
    And,
    Newline,
    Identifier,
    Number(usize),
    Error,
}

/// The error a parsing stage stops with: the stream ended early, or the
/// token at `span` is not what the grammar admits there.
#[derive(Clone, Copy, PartialEq, Eq, Structural, Debug)]
pub enum ParseError {
    UnexpectedEof,
    UnexpectedToken { token: Token, span: Span },
}

pub open spec fn is_skip_byte(b: u8) -> bool {
    b == 32 || b == 9 || b == 13
}

pub open spec fn is_newline_byte(b: u8) -> bool {
    b == 10 || b == 12
}

pub open spec fn is_digit_byte(b: u8) -> bool {
    48 <= b && b <= 57
}

pub open spec fn is_ident_start_byte(b: u8) -> bool {
    (65 <= b && b <= 90) || (97 <= b && b <= 122) || b == 95
}

pub open spec fn is_ident_byte(b: u8) -> bool {
    is_ident_start_byte(b) || is_digit_byte(b)
}

/// Position after the skipped bytes and comments that start at `pos`.
pub open spec fn spec_skip(src: Seq<u8>, pos: int) -> int
    decreases src.len() - pos,
{
    if pos < 0 || pos >= src.len() {
        pos
    } else if is_skip_byte(src[pos]) {
        spec_skip(src, pos + 1)
    } else if src[pos] == 42 {
        spec_skip_comment(src, pos + 1)
    } else {
        pos
    }
}

/// Position of the newline byte (or the end of input) that terminates a
/// comment whose body starts at `pos`.
pub open spec fn spec_skip_comment(src: Seq<u8>, pos: int) -> int
    decreases src.len() - pos,
{
    if pos < 0 || pos >= src.len() {
        pos
    } else if is_newline_byte(src[pos]) {
        pos
    } else {
        spec_skip_comment(src, pos + 1)
    }
}

// One predicate per fixed lexeme, spelled out byte for byte.
pub open spec fn kw_not_here_at(src: Seq<u8>, pos: int) -> bool {
    &&& 0 <= pos
    &&& pos + 8 <= src.len()
    &&& src[pos] == 110
    &&& src[pos + 1] == 111
    &&& src[pos + 2] == 116
    &&& src[pos + 3] == 32
    &&& src[pos + 4] == 104
    &&& src[pos + 5] == 101
    &&& src[pos + 6] == 114
    &&& src[pos + 7] == 101
}

pub open spec fn kw_still_in_at(src: Seq<u8>, pos: int) -> bool {
    &&& 0 <= pos
    &&& pos + 8 <= src.len()
    &&& src[pos] == 115
    &&& src[pos + 1] == 116
    &&& src[pos + 2] == 105
    &&& src[pos + 3] == 108
    &&& src[pos + 4] == 108
    &&& src[pos + 5] == 32
    &&& src[pos + 6] == 105
    &&& src[pos + 7] == 110
}

pub open spec fn kw_fuckall_at(src: Seq<u8>, pos: int) -> bool {
    &&& 0 <= pos
    &&& pos + 7 <= src.len()
    &&& src[pos] == 102
    &&& src[pos + 1] == 117
    &&& src[pos + 2] == 99
    &&& src[pos + 3] == 107
    &&& src[pos + 4] == 97
    &&& src[pos + 5] == 108
    &&& src[pos + 6] == 108
}

pub open spec fn kw_return_at(src: Seq<u8>, pos: int) -> bool {
    &&& 0 <= pos
    &&& pos + 6 <= src.len()
    &&& src[pos] == 114
    &&& src[pos + 1] == 101
    &&& src[pos + 2] == 116
    &&& src[pos + 3] == 117
    &&& src[pos + 4] == 114
    &&& src[pos + 5] == 110
}

pub open spec fn kw_then_at(src: Seq<u8>, pos: int) -> bool {
    &&& 0 <= pos
    &&& pos + 4 <= src.len()
    &&& src[pos] == 116
    &&& src[pos + 1] == 104
    &&& src[pos + 2] == 101
    &&& src[pos + 3] == 110
}

pub open spec fn kw_with_at(src: Seq<u8>, pos: int) -> bool {
    &&& 0 <= pos
    &&& pos + 4 <= src.len()
    &&& src[pos] == 119
    &&& src[pos + 1] == 105
    &&& src[pos + 2] == 116
    &&& src[pos + 3] == 104
}

pub open spec fn kw_goto_at(src: Seq<u8>, pos: int) -> bool {
    &&& 0 <= pos
    &&& pos + 4 <= src.len()
    &&& src[pos] == 103
    &&& src[pos + 1] == 111
    &&& src[pos + 2] == 116
    &&& src[pos + 3] == 111
}

pub open spec fn kw_yeet_at(src: Seq<u8>, pos: int) -> bool {
    &&& 0 <= pos
    &&& pos + 4 <= src.len()
    &&& src[pos] == 121
    &&& src[pos + 1] == 101
    &&& src[pos + 2] == 101
    &&& src[pos + 3] == 116
}

pub open spec fn kw_and_at(src: Seq<u8>, pos: int) -> bool {
    &&& 0 <= pos
    &&& pos + 3 <= src.len()
    &&& src[pos] == 97
    &&& src[pos + 1] == 110
    &&& src[pos + 2] == 100
}

pub open spec fn kw_is_at(src: Seq<u8>, pos: int) -> bool {
    &&& 0 <= pos
    &&& pos + 2 <= src.len()
    &&& src[pos] == 105
    &&& src[pos + 1] == 115
}

pub open spec fn kw_if_at(src: Seq<u8>, pos: int) -> bool {
    &&& 0 <= pos
    &&& pos + 2 <= src.len()
    &&& src[pos] == 105
    &&& src[pos + 1] == 102
}

pub open spec fn kw_sep_at(src: Seq<u8>, pos: int) -> bool {
    &&& 0 <= pos
    &&& pos + 2 <= src.len()
    &&& src[pos] == 47
    &&& src[pos + 1] == 47
}

/// The longest fixed lexeme that matches at `pos`, with its length.
/// The alternatives are ordered by length, so the first hit is longest.
pub open spec fn spec_keyword(src: Seq<u8>, pos: int) -> Option<(Token, int)> {
    if kw_not_here_at(src, pos) {
        Some((Token::NotHere, 8))
    } else if kw_still_in_at(src, pos) {
        Some((Token::StillIn, 8))
    } else if kw_fuckall_at(src, pos) {
        Some((Token::Discard, 7))
    } else if kw_return_at(src, pos) {
        Some((Token::Return, 6))
    } else if kw_then_at(src, pos) {
        Some((Token::Then, 4))
    } else if kw_with_at(src, pos) {
        Some((Token::With, 4))
    } else if kw_goto_at(src, pos) {
        Some((Token::Goto, 4))
    } else if kw_yeet_at(src, pos) {
        Some((Token::Discard, 4))
    } else if kw_and_at(src, pos) {
        Some((Token::And, 3))
    } else if kw_is_at(src, pos) {
        Some((Token::Is, 2))
    } else if kw_if_at(src, pos) {
        Some((Token::If, 2))
    } else if kw_sep_at(src, pos) {
        Some((Token::BehaviourStart, 2))
    } else if 0 <= pos < src.len() && src[pos] == 46 {
        Some((Token::Operator, 1))
    } else if 0 <= pos < src.len() && src[pos] == 40 {
        Some((Token::ParenLeft, 1))
    } else if 0 <= pos < src.len() && src[pos] == 41 {
        Some((Token::ParenRight, 1))
    } else if 0 <= pos < src.len() && is_newline_byte(src[pos]) {
        Some((Token::Newline, 1))
    } else {
        None
    }
}

/// End of the identifier-byte run that starts at `pos`.
pub open spec fn ident_run_end(src: Seq<u8>, pos: int) -> int
    decreases src.len() - pos,
{
    if 0 <= pos < src.len() && is_ident_byte(src[pos]) {
        ident_run_end(src, pos + 1)
    } else {
        pos
    }
}

/// End of the digit run that starts at `pos`.
pub open spec fn digit_run_end(src: Seq<u8>, pos: int) -> int
    decreases src.len() - pos,
{
    if 0 <= pos < src.len() && is_digit_byte(src[pos]) {
        digit_run_end(src, pos + 1)
    } else {
        pos
    }
}

/// Value of the decimal digits in `src[start..end)`.
pub open spec fn digits_value(src: Seq<u8>, start: int, end: int) -> nat
    decreases end - start,
{
    if end <= start {
        0
    } else {
        digits_value(src, start, end - 1) * 10 + (if src[end - 1] >= 48 {
            (src[end - 1] - 48) as nat
        } else {
            0
        })
    }
}

/// The token that starts at `pos` (a position that is neither skipped nor
/// at the end) and the position one past it: a digit run is a `Number`
/// (`Error` when its value does not fit in `usize`), an identifier run that
/// is longer than any fixed lexeme is an `Identifier`, the longest fixed
/// lexeme wins otherwise, and a byte no rule matches is a one-byte `Error`.
pub open spec fn spec_raw(src: Seq<u8>, pos: int) -> (Token, int) {
    if 0 <= pos < src.len() && is_digit_byte(src[pos]) {
        let e = digit_run_end(src, pos);
        let v = digits_value(src, pos, e);
        if v > usize::MAX as nat {
            (Token::Error, e)
        } else {
            (Token::Number(v as usize), e)
        }
    } else {
        let ie = if 0 <= pos < src.len() && is_ident_start_byte(src[pos]) {
            ident_run_end(src, pos)
        } else {
            pos
        };
        match spec_keyword(src, pos) {
            Some((t, klen)) => if ie > pos + klen {
                (Token::Identifier, ie)
            } else {
                (t, pos + klen)
            },
            None => if ie > pos {
                (Token::Identifier, ie)
            } else {
                (Token::Error, pos + 1)
            },
        }
    }
}

/// The reference tokenizer: the next token at or after `pos`, with its
/// span, or `None` when only skipped bytes remain.
pub open spec fn spec_next(src: Seq<u8>, pos: int) -> Option<(Token, int, int)> {
    let s = spec_skip(src, pos);
    if s >= src.len() {
        None
    } else {
        let (t, e) = spec_raw(src, s);
        Some((t, s, e))
    }
}

proof fn lemma_skip_comment_bounds(src: Seq<u8>, pos: int)
    requires
        0 <= pos <= src.len(),
    ensures
        pos <= spec_skip_comment(src, pos) <= src.len(),
        spec_skip_comment(src, pos) == src.len() || is_newline_byte(
            src[spec_skip_comment(src, pos)],
        ),
    decreases src.len() - pos,
{
    if pos < src.len() && !is_newline_byte(src[pos]) {
        lemma_skip_comment_bounds(src, pos + 1);
    }
}

proof fn lemma_skip_bounds(src: Seq<u8>, pos: int)
    requires
        0 <= pos <= src.len(),
    ensures
        pos <= spec_skip(src, pos) <= src.len(),
    decreases src.len() - pos,
{
    if pos < src.len() {
        if is_skip_byte(src[pos]) {
            lemma_skip_bounds(src, pos + 1);
        } else if src[pos] == 42 {
            lemma_skip_comment_bounds(src, pos + 1);
        }
    }
}

proof fn lemma_ident_run_bounds(src: Seq<u8>, pos: int)
    requires
        0 <= pos <= src.len(),
    ensures
        pos <= ident_run_end(src, pos) <= src.len(),
    decreases src.len() - pos,
{
    if pos < src.len() && is_ident_byte(src[pos]) {
        lemma_ident_run_bounds(src, pos + 1);
    }
}

proof fn lemma_digit_run_bounds(src: Seq<u8>, pos: int)
    requires
        0 <= pos <= src.len(),
    ensures
        pos <= digit_run_end(src, pos) <= src.len(),
    decreases src.len() - pos,
{
    if pos < src.len() && is_digit_byte(src[pos]) {
        lemma_digit_run_bounds(src, pos + 1);
    }
}

/// A raw token occupies at least one byte and ends within the source.
pub proof fn lemma_raw_bounds(src: Seq<u8>, pos: int)
    requires
        0 <= pos < src.len(),
    ensures
        pos < spec_raw(src, pos).1 <= src.len(),
{
    if is_digit_byte(src[pos]) {
        lemma_digit_run_bounds(src, pos);
        assert(digit_run_end(src, pos) == digit_run_end(src, pos + 1));
        lemma_digit_run_bounds(src, pos + 1);
    } else {
        if is_ident_start_byte(src[pos]) {
            lemma_ident_run_bounds(src, pos);
            assert(ident_run_end(src, pos) == ident_run_end(src, pos + 1));
            lemma_ident_run_bounds(src, pos + 1);
        }
    }
}

/// Every produced token has a non-empty span inside the source, starting
/// at the first unskipped position.
pub proof fn lemma_next_bounds(src: Seq<u8>, pos: int)
    requires
        0 <= pos <= src.len(),
    ensures
        spec_next(src, pos) matches Some((t, s, e)) ==> pos <= s < e <= src.len(),
{
    lemma_skip_bounds(src, pos);
    let s = spec_skip(src, pos);
    if s < src.len() {
        lemma_raw_bounds(src, s);
    }
}

/// The stream of tokens from `pos` to the end of the source.
pub open spec fn spec_tokens(src: Seq<u8>, pos: int) -> Seq<(Token, int, int)>
    decreases src.len() - pos,
{
    if pos < 0 || pos > src.len() {
        Seq::empty()
    } else {
        match spec_next(src, pos) {
            None => Seq::empty(),
            Some((t, s, e)) => if pos < e <= src.len() {
                seq![(t, s, e)] + spec_tokens(src, e)
            } else {
                seq![(t, s, e)]
            },
        }
    }
}

/// A slice never holds more than `usize::MAX` bytes.
pub proof fn lemma_src_len_fits(src: &[u8])
    ensures
        src@.len() <= usize::MAX,
{
    assert(vstd::slice::spec_slice_len(src) == src@.len());
}

/// Number of LF and FF bytes in `src[pos..]`.
pub open spec fn count_newline_bytes(src: Seq<u8>, pos: int) -> nat
    decreases src.len() - pos,
{
    if pos < 0 || pos >= src.len() {
        0
    } else {
        (if is_newline_byte(src[pos]) {
            1nat
        } else {
            0nat
        }) + count_newline_bytes(src, pos + 1)
    }
}

/// Law: over a whitespace-only suffix, the token stream holds exactly one
/// `Newline` token per LF or FF byte, and no other token.
pub proof fn lemma_whitespace_only_newlines(src: Seq<u8>, pos: int)
    requires
        0 <= pos <= src.len(),
        forall|i: int| pos <= i < src.len() ==> is_skip_byte(src[i]) || is_newline_byte(src[i]),
    ensures
        spec_tokens(src, pos).len() == count_newline_bytes(src, pos),
        forall|k: int|
            0 <= k < spec_tokens(src, pos).len() ==> (#[trigger] spec_tokens(src, pos)[k]).0
                == Token::Newline,
    decreases src.len() - pos,
{
    if pos >= src.len() {
    } else if is_skip_byte(src[pos]) {
        lemma_whitespace_only_newlines(src, pos + 1);
        lemma_next_bounds(src, pos + 1);
        assert(spec_skip(src, pos) == spec_skip(src, pos + 1));
        assert(spec_next(src, pos) == spec_next(src, pos + 1));
        assert(spec_tokens(src, pos) =~= spec_tokens(src, pos + 1));
    } else {
        lemma_whitespace_only_newlines(src, pos + 1);
        assert(is_newline_byte(src[pos]));
        assert(spec_skip(src, pos) == pos);
        assert(spec_raw(src, pos) == (Token::Newline, pos + 1));
        assert(spec_tokens(src, pos) =~= seq![(Token::Newline, pos, pos + 1)] + spec_tokens(
            src,
            pos + 1,
        ));
    }
}

/// Law: a comment is skipped as a whole. The newline byte that terminates
/// it is preserved as the next token, a single `Newline`; a comment that
/// runs to the end of the input yields no token at all.
pub proof fn lemma_comment_yields_newline(src: Seq<u8>, pos: int)
    requires
        0 <= pos < src.len(),
        src[pos] == 42,
    ensures
        ({
            let j = spec_skip_comment(src, pos + 1);
            &&& spec_skip(src, pos) == j
            &&& pos < j <= src.len()
            &&& (j < src.len() ==> spec_next(src, pos) == Some((Token::Newline, j, j + 1)))
            &&& (j == src.len() ==> spec_next(src, pos) is None)
        }),
{
    lemma_skip_comment_bounds(src, pos + 1);
    let j = spec_skip_comment(src, pos + 1);
    if j < src.len() {
        assert(is_newline_byte(src[j]));
        assert(spec_raw(src, j) == (Token::Newline, j + 1));
    }
}

/// Every byte of an identifier run is an identifier byte.
proof fn lemma_ident_run_idents(src: Seq<u8>, pos: int)
    requires
        0 <= pos <= src.len(),
    ensures
        forall|i: int| pos <= i < ident_run_end(src, pos) ==> is_ident_byte(src[i]),
    decreases src.len() - pos,
{
    if pos < src.len() && is_ident_byte(src[pos]) {
        lemma_ident_run_idents(src, pos + 1);
    }
}

/// Every byte of a digit run is a digit.
proof fn lemma_digit_run_is_digits(src: Seq<u8>, pos: int)
    requires
        0 <= pos <= src.len(),
    ensures
        forall|i: int| pos <= i < digit_run_end(src, pos) ==> is_digit_byte(src[i]),
    decreases src.len() - pos,
{
    if pos < src.len() && is_digit_byte(src[pos]) {
        lemma_digit_run_is_digits(src, pos + 1);
    }
}

/// Law: the slice of the source at a token's span spells that token. Each
/// fixed lexeme spans its own spelling; a `Number(v)` spans the digit run
/// whose value is `v`; an `Identifier` spans an identifier-shaped lexeme.
pub proof fn lemma_token_span_spells_token(src: Seq<u8>, pos: int)
    requires
        0 <= pos <= src.len(),
    ensures
        spec_next(src, pos) matches Some((t, s, e)) ==> {
            &&& pos <= s < e <= src.len()
            &&& match t {
                Token::Operator => e == s + 1 && src[s] == 46,
                Token::BehaviourStart => kw_sep_at(src, s) && e == s + 2,
                Token::Is => kw_is_at(src, s) && e == s + 2,
                Token::Then => kw_then_at(src, s) && e == s + 4,
                Token::With => kw_with_at(src, s) && e == s + 4,
                Token::If => kw_if_at(src, s) && e == s + 2,
                Token::Goto => kw_goto_at(src, s) && e == s + 4,
                Token::Discard => (kw_yeet_at(src, s) && e == s + 4) || (kw_fuckall_at(src, s)
                    && e == s + 7),
                Token::NotHere => kw_not_here_at(src, s) && e == s + 8,
                Token::Return => kw_return_at(src, s) && e == s + 6,
                Token::ParenLeft => e == s + 1 && src[s] == 40,
                Token::ParenRight => e == s + 1 && src[s] == 41,
                Token::StillIn => kw_still_in_at(src, s) && e == s + 8,
                Token::And => kw_and_at(src, s) && e == s + 3,
                Token::Newline => e == s + 1 && is_newline_byte(src[s]),
                Token::Identifier => is_ident_start_byte(src[s]) && forall|i: int|
                    s <= i < e ==> is_ident_byte(#[trigger] src[i]),
                Token::Number(v) => v as nat == digits_value(src, s, e) && forall|i: int|
                    s <= i < e ==> is_digit_byte(#[trigger] src[i]),
                Token::Error => true,
            }
        },
{
    lemma_next_bounds(src, pos);
    lemma_skip_bounds(src, pos);
    let s = spec_skip(src, pos);
    if s < src.len() {
        lemma_raw_bounds(src, s);
        lemma_ident_run_idents(src, s);
        lemma_digit_run_is_digits(src, s);
    }
}

fn skip_trivia(src: &[u8], start: usize) -> (r: usize)
    requires
        start <= src@.len(),
    ensures
        start <= r <= src@.len(),
        r == spec_skip(src@, start as int),
{
    let n: usize = src.len();
    let mut i: usize = start;
    loop
        invariant
            start <= i <= n,
            n == src@.len(),
            spec_skip(src@, start as int) == spec_skip(src@, i as int),
        decreases n - i,
    {
        if i >= n {
            return i;
        }
        let b = src[i];
        if b == 32 || b == 9 || b == 13 {
            i = i + 1;
        } else if b == 42 {
            let mut j: usize = i + 1;
            loop
                invariant
                    start < j <= n,
                    n == src@.len(),
                    spec_skip(src@, start as int) == spec_skip_comment(src@, j as int),
                decreases n - j,
            {
                if j >= n {
                    return j;
                }
                let c = src[j];
                if c == 10 || c == 12 {
                    return j;
                }
                j = j + 1;
            }
        } else {
            return i;
        }
    }
}

/// The longest fixed lexeme at `pos`, as the reference `spec_keyword` picks it.
fn keyword_at(src: &[u8], pos: usize) -> (r: Option<(Token, usize)>)
    requires
        pos <= src@.len(),
    ensures
        match r {
            Some((t, l)) => spec_keyword(src@, pos as int) == Some((t, l as int)),
            None => spec_keyword(src@, pos as int) is None,
        },
{
    let n: usize = src.len();
    if n - pos >= 8 && src[pos] == 110 && src[pos + 1] == 111 && src[pos + 2] == 116 && src[pos + 3]
        == 32 && src[pos + 4] == 104 && src[pos + 5] == 101 && src[pos + 6] == 114 && src[pos + 7]
        == 101 {
        Some((Token::NotHere, 8))
    } else if n - pos >= 8 && src[pos] == 115 && src[pos + 1] == 116 && src[pos + 2] == 105
        && src[pos + 3] == 108 && src[pos + 4] == 108 && src[pos + 5] == 32 && src[pos + 6] == 105
        && src[pos + 7] == 110 {
        Some((Token::StillIn, 8))
    } else if n - pos >= 7 && src[pos] == 102 && src[pos + 1] == 117 && src[pos + 2] == 99
        && src[pos + 3] == 107 && src[pos + 4] == 97 && src[pos + 5] == 108 && src[pos + 6] == 108 {
        Some((Token::Discard, 7))
    } else if n - pos >= 6 && src[pos] == 114 && src[pos + 1] == 101 && src[pos + 2] == 116
        && src[pos + 3] == 117 && src[pos + 4] == 114 && src[pos + 5] == 110 {
        Some((Token::Return, 6))
    } else if n - pos >= 4 && src[pos] == 116 && src[pos + 1] == 104 && src[pos + 2] == 101
        && src[pos + 3] == 110 {
        Some((Token::Then, 4))
    } else if n - pos >= 4 && src[pos] == 119 && src[pos + 1] == 105 && src[pos + 2] == 116
        && src[pos + 3] == 104 {
        Some((Token::With, 4))
    } else if n - pos >= 4 && src[pos] == 103 && src[pos + 1] == 111 && src[pos + 2] == 116
        && src[pos + 3] == 111 {
        Some((Token::Goto, 4))
    } else if n - pos >= 4 && src[pos] == 121 && src[pos + 1] == 101 && src[pos + 2] == 101
        && src[pos + 3] == 116 {
        Some((Token::Discard, 4))
    } else if n - pos >= 3 && src[pos] == 97 && src[pos + 1] == 110 && src[pos + 2] == 100 {
        Some((Token::And, 3))
    } else if n - pos >= 2 && src[pos] == 105 && src[pos + 1] == 115 {
        Some((Token::Is, 2))
    } else if n - pos >= 2 && src[pos] == 105 && src[pos + 1] == 102 {
        Some((Token::If, 2))
    } else if n - pos >= 2 && src[pos] == 47 && src[pos + 1] == 47 {
        Some((Token::BehaviourStart, 2))
    } else if pos < n && src[pos] == 46 {
        Some((Token::Operator, 1))
    } else if pos < n && src[pos] == 40 {
        Some((Token::ParenLeft, 1))
    } else if pos < n && src[pos] == 41 {
        Some((Token::ParenRight, 1))
    } else if pos < n && (src[pos] == 10 || src[pos] == 12) {
        Some((Token::Newline, 1))
    } else {
        None
    }
}

fn scan_ident_end(src: &[u8], pos: usize) -> (r: usize)
    requires
        pos <= src@.len(),
    ensures
        pos <= r <= src@.len(),
        r == ident_run_end(src@, pos as int),
{
    let n: usize = src.len();
    let mut i: usize = pos;
    loop
        invariant
            pos <= i <= n,
            n == src@.len(),
            ident_run_end(src@, pos as int) == ident_run_end(src@, i as int),
        decreases n - i,
    {
        if i >= n {
            return i;
        }
        let b = src[i];
        if (65 <= b && b <= 90) || (97 <= b && b <= 122) || b == 95 || (48 <= b && b <= 57) {
            i = i + 1;
        } else {
            return i;
        }
    }
}

fn scan_digit_end(src: &[u8], pos: usize) -> (r: usize)
    requires
        pos <= src@.len(),
    ensures
        pos <= r <= src@.len(),
        r == digit_run_end(src@, pos as int),
{
    let n: usize = src.len();
    let mut i: usize = pos;
    loop
        invariant
            pos <= i <= n,
            n == src@.len(),
            digit_run_end(src@, pos as int) == digit_run_end(src@, i as int),
        decreases n - i,
    {
        if i >= n {
            return i;
        }
        let b = src[i];
        if 48 <= b && b <= 57 {
            i = i + 1;
        } else {
            return i;
        }
    }
}

/// Appending digits can only grow the value of a digit run.
proof fn lemma_digits_value_grows(src: Seq<u8>, start: int, mid: int, end: int)
    requires
        start <= mid <= end,
    ensures
        digits_value(src, start, mid) <= digits_value(src, start, end),
    decreases end - mid,
{
    if mid < end {
        lemma_digits_value_grows(src, start, mid, end - 1);
        assert(digits_value(src, start, end) >= digits_value(src, start, end - 1));
    }
}

fn scan_number(src: &[u8], pos: usize, end: usize) -> (r: Option<usize>)
    requires
        pos <= end <= src@.len(),
        forall|i: int| pos <= i < end ==> is_digit_byte(src@[i]),
    ensures
        match r {
            Some(v) => v as nat == digits_value(src@, pos as int, end as int) && digits_value(
                src@,
                pos as int,
                end as int,
            ) <= usize::MAX as nat,
            None => digits_value(src@, pos as int, end as int) > usize::MAX as nat,
        },
{
    let mut acc: usize = 0;
    let mut i: usize = pos;
    while i < end
        invariant
            pos <= i <= end <= src@.len(),
            forall|k: int| pos <= k < end ==> is_digit_byte(src@[k]),
            acc as nat == digits_value(src@, pos as int, i as int),
        decreases end - i,
    {
        let d = src[i] - 48;
        if acc > (usize::MAX - d as usize) / 10 {
            proof {
                let full = acc as nat * 10 + d as nat;
                assert(full > usize::MAX as nat) by (nonlinear_arith)
                    requires
                        acc as nat > ((usize::MAX - d as usize) as nat) / 10,
                        d as nat <= usize::MAX as nat,
                        full == acc as nat * 10 + d as nat,
                {}
                assert(digits_value(src@, pos as int, i as int + 1) == full);
                lemma_digits_value_grows(src@, pos as int, i as int + 1, end as int);
            }
            return None;
        }
        proof {
            assert(acc as nat * 10 + d as nat <= usize::MAX as nat) by (nonlinear_arith)
                requires
                    acc as nat <= ((usize::MAX - d as usize) as nat) / 10,
                    d as usize <= usize::MAX,
            {}
            assert(digits_value(src@, pos as int, i as int + 1) == acc as nat * 10 + d as nat);
        }
        acc = acc * 10 + d as usize;
        i = i + 1;
    }
    Some(acc)
}

/// The token that starts at an unskipped position `pos`, with its end.
fn raw_token(src: &[u8], pos: usize) -> (r: (Token, usize))
    requires
        pos < src@.len(),
    ensures
        spec_raw(src@, pos as int) == (r.0, r.1 as int),
        pos < r.1 <= src@.len(),
{
    proof {
        lemma_raw_bounds(src@, pos as int);
    }
    let b = src[pos];
    if 48 <= b && b <= 57 {
        let e = scan_digit_end(src, pos);
        proof {
            lemma_digit_run_is_digits(src@, pos as int);
        }
        match scan_number(src, pos, e) {
            Some(v) => (Token::Number(v), e),
            None => (Token::Error, e),
        }
    } else {
        let ie: usize = if (65 <= b && b <= 90) || (97 <= b && b <= 122) || b == 95 {
            scan_ident_end(src, pos)
        } else {
            pos
        };
        match keyword_at(src, pos) {
            Some((t, klen)) => if ie > pos + klen {
                (Token::Identifier, ie)
            } else {
                (t, pos + klen)
            },
            None => if ie > pos {
                (Token::Identifier, ie)
            } else {
                (Token::Error, pos + 1)
            },
        }
    }
}

/// The lexer proper: a cursor into the source buffer. `peek` looks at the
/// next token without consuming it; `next` consumes it.
pub struct Lexer<'a> {
    pub src: &'a [u8],
    pub pos: usize,
}

impl<'a> Lexer<'a> {
    pub open spec fn wf(&self) -> bool {
        self.pos <= self.src@.len()
    }

    /// What `next` will return and where it will leave the cursor.
    pub open spec fn spec_peek(&self) -> Option<(Token, Span)> {
        match spec_next(self.src@, self.pos as int) {
            None => None,
            Some((t, s, e)) => Some((t, Span { start: s as usize, end: e as usize })),
        }
    }

    pub fn next(&mut self) -> (r: Option<(Token, Span)>)
        requires
            old(self).wf(),
        ensures
            final(self).wf(),
            final(self).src == old(self).src,
            old(self).pos <= final(self).pos,
            r == old(self).spec_peek(),
            match r {
                Some((t, sp)) => final(self).pos == sp.end,
                None => final(self).pos == old(self).src@.len(),
            },
    {
        proof {
            lemma_next_bounds(self.src@, self.pos as int);
        }
        let s = skip_trivia(self.src, self.pos);
        if s >= self.src.len() {
            self.pos = s;
            None
        } else {
            let (t, e) = raw_token(self.src, s);
            self.pos = e;
            Some((t, Span { start: s, end: e }))
        }
    }

    pub fn peek(&mut self) -> (r: Option<(Token, Span)>)
        requires
            old(self).wf(),
        ensures
            *final(self) == *old(self),
            r == old(self).spec_peek(),
    {
        proof {
            lemma_next_bounds(self.src@, self.pos as int);
        }
        let s = skip_trivia(self.src, self.pos);
        if s >= self.src.len() {
            None
        } else {
            let (t, e) = raw_token(self.src, s);
            Some((t, Span { start: s, end: e }))
        }
    }

    /// Consume the next token, which must have kind `token`; its span comes
    /// back. Anything else, or the end of input, is a parse error.
    pub fn monch(&mut self, token: Token) -> (r: Result<Span, ParseError>)
        requires
            old(self).wf(),
        ensures
            final(self).wf(),
            final(self).src == old(self).src,
            old(self).pos <= final(self).pos,
            match r {
                Ok(sp) => old(self).spec_peek() == Some((token, sp)) && final(self).pos == sp.end,
                Err(_) => !(old(self).spec_peek() matches Some((t, sp)) && t == token),
            },
    {
        match self.next() {
            Some((t, span)) => if t == token {
                Ok(span)
            } else {
                Err(ParseError::UnexpectedToken { token: t, span })
            },
            None => Err(ParseError::UnexpectedEof),
        }
    }
}

/// A lexer over `input`, positioned at its start.
pub fn lexer<'a>(input: &'a [u8]) -> (r: Lexer<'a>)
    ensures
        r.src == input,
        r.pos == 0,
        r.wf(),
{
    Lexer { src: input, pos: 0 }
}

} // verus!
