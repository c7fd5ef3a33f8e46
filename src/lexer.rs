use crate::loc::{Annot, Loc};
use vstd::prelude::*;
use vstd::string::StringSliceAdditionalSpecFns;

verus! {

/// The kinds of token of the calculator language.
#[derive(Debug, Clone, Copy, PartialEq, Eq, Hash, Structural)]
pub enum TokenKind {
    /// An unsigned integer literal.
    Number(u64),
    Plus,
    Minus,
    Asterisk,
    Slash,
    LParen,
    RParen,
}

pub type Token = Annot<TokenKind>;

/// Why lexing stopped.
///
/// A digit run whose value does not fit in a `u64` is refused as
/// `NumberTooLarge`, located over the whole run, rather than wrapped.
#[derive(Debug, Clone, Copy, PartialEq, Eq, Hash, Structural)]
pub enum LexErrorKind {
    /// A character that starts no token.
    InvalidChar(char),
    /// The input ended inside a lexeme; no lexeme of this language can.
    Eof,
    /// A digit run whose value exceeds `u64::MAX`.
    NumberTooLarge,
}

pub type LexError = Annot<LexErrorKind>;

/// ASCII whitespace: space, tab, line feed, form feed, carriage return.
pub open spec fn is_space(c: char) -> bool {
    c == ' ' || c == '\t' || c == '\n' || c == '\x0c' || c == '\r'
}

pub open spec fn is_digit(c: char) -> bool {
    '0' <= c && c <= '9'
}

/// The token kind of a one-character operator or parenthesis.
pub open spec fn symbol_kind(c: char) -> Option<TokenKind> {
    if c == '+' {
        Some(TokenKind::Plus)
    } else if c == '-' {
        Some(TokenKind::Minus)
    } else if c == '*' {
        Some(TokenKind::Asterisk)
    } else if c == '/' {
        Some(TokenKind::Slash)
    } else if c == '(' {
        Some(TokenKind::LParen)
    } else if c == ')' {
        Some(TokenKind::RParen)
    } else {
        None
    }
}

/// The number of bytes that UTF-8 takes for `c`.
pub open spec fn utf8_len(c: char) -> nat {
    if (c as u32) < 0x80 {
        1
    } else if (c as u32) < 0x800 {
        2
    } else if (c as u32) < 0x10000 {
        3
    } else {
        4
    }
}

/// The first index at or after `i` that does not hold a digit.
pub open spec fn digit_run_end(s: Seq<char>, i: nat) -> nat
    decreases s.len() - i,
{
    if i < s.len() && is_digit(s[i as int]) {
        digit_run_end(s, i + 1)
    } else {
        i
    }
}

/// The decimal value of the digits `s[start..end]`.
pub open spec fn digits_value(s: Seq<char>, start: int, end: int) -> nat
    decreases end - start,
{
    if end <= start {
        0
    } else {
        digits_value(s, start, end - 1) * 10 + (s[end - 1] as u32 - 48) as nat
    }
}

/// Puts `front` before the tokens of a successful result.
pub open spec fn prepend(front: Seq<Token>, r: Result<Seq<Token>, LexError>) -> Result<
    Seq<Token>,
    LexError,
> {
    match r {
        Ok(ts) => Ok(front + ts),
        Err(e) => Err(e),
    }
}

/// The tokens of `s[pos..]`, or the first error in it.
///
/// Lexing stops at the first character that is not ASCII, so every index
/// it reports is that of a one-byte character preceded by one-byte
/// characters only: indices and byte offsets agree.
pub open spec fn lex_from(s: Seq<char>, pos: nat) -> Result<Seq<Token>, LexError>
    decreases s.len() - pos,
{
    if pos >= s.len() {
        Ok(Seq::empty())
    } else {
        let c = s[pos as int];
        if is_space(c) {
            lex_from(s, pos + 1)
        } else if is_digit(c) {
            let end = digit_run_end(s, pos);
            if pos < end && end <= s.len() {
                let v = digits_value(s, pos as int, end as int);
                let loc = Loc(pos as usize, end as usize);
                if v > u64::MAX {
                    Err(Annot { value: LexErrorKind::NumberTooLarge, loc })
                } else {
                    prepend(
                        seq![Annot { value: TokenKind::Number(v as u64), loc }],
                        lex_from(s, end),
                    )
                }
            } else {
                Ok(Seq::empty())
            }
        } else {
            match symbol_kind(c) {
                Some(k) => prepend(
                    seq![Annot { value: k, loc: Loc(pos as usize, (pos + 1) as usize) }],
                    lex_from(s, pos + 1),
                ),
                None => Err(
                    Annot {
                        value: LexErrorKind::InvalidChar(c),
                        loc: Loc(pos as usize, (pos + utf8_len(c)) as usize),
                    },
                ),
            }
        }
    }
}

/// The result of lexing the characters `s`.
pub open spec fn lex_text(s: Seq<char>) -> Result<Seq<Token>, LexError> {
    lex_from(s, 0)
}

/// `r` holds the outcome `m` with its tokens in a `Vec`.
pub open spec fn lex_result_is(r: Result<Vec<Token>, LexError>, m: Result<Seq<Token>, LexError>) -> bool {
    match m {
        Ok(ts) => r is Ok && r->Ok_0@ == ts,
        Err(e) => r == Err::<Vec<Token>, LexError>(e),
    }
}

/// Lexing depends on the text alone: two inputs that hold the same
/// characters lex to the same tokens, or to the same error.
pub proof fn lemma_lex_deterministic(a: &str, b: &str)
    requires
        a@ == b@,
    ensures
        lex_text(a@) == lex_text(b@),
{
}

/// Every range that lexing `s[pos..]` reports is non-empty and starts at or
/// after `pos`; a token's range ends within `s`.
pub proof fn lemma_lex_ranges(s: Seq<char>, pos: nat)
    requires
        pos <= s.len(),
        s.len() + 4 <= usize::MAX,
    ensures
        lex_from(s, pos) matches Ok(ts) ==> forall|i: int|
            0 <= i < ts.len() ==> pos <= #[trigger] ts[i].loc.0 < ts[i].loc.1 <= s.len(),
        lex_from(s, pos) matches Err(e) ==> pos <= e.loc.0 < e.loc.1,
    decreases s.len() - pos,
{
    if pos < s.len() {
        let c = s[pos as int];
        if is_space(c) {
            lemma_lex_ranges(s, pos + 1);
        } else if is_digit(c) {
            lemma_digit_run_end(s, pos);
            let end = digit_run_end(s, pos);
            lemma_lex_ranges(s, end);
            if let Ok(ts) = lex_from(s, pos) {
                let v = digits_value(s, pos as int, end as int);
                let tok = Annot {
                    value: TokenKind::Number(v as u64),
                    loc: Loc(pos as usize, end as usize),
                };
                assert(ts == seq![tok] + lex_from(s, end)->Ok_0);
                assert forall|i: int| 0 <= i < ts.len() implies pos <= #[trigger] ts[i].loc.0
                    < ts[i].loc.1 <= s.len() by {
                    if i > 0 {
                        assert(ts[i] == lex_from(s, end)->Ok_0[i - 1]);
                    }
                }
            }
        } else if symbol_kind(c) is Some {
            lemma_lex_ranges(s, pos + 1);
            if let Ok(ts) = lex_from(s, pos) {
                let tok = Annot {
                    value: symbol_kind(c)->0,
                    loc: Loc(pos as usize, (pos + 1) as usize),
                };
                assert(ts == seq![tok] + lex_from(s, pos + 1)->Ok_0);
                assert forall|i: int| 0 <= i < ts.len() implies pos <= #[trigger] ts[i].loc.0
                    < ts[i].loc.1 <= s.len() by {
                    if i > 0 {
                        assert(ts[i] == lex_from(s, pos + 1)->Ok_0[i - 1]);
                    }
                }
            }
        }
    }
}

/// Lexing `s[pos..]` reads only ASCII characters: all of `s[pos..]` when it
/// succeeds, all those before the error's start when it fails.
pub proof fn lemma_lex_reads_ascii(s: Seq<char>, pos: nat)
    requires
        pos <= s.len(),
    ensures
        lex_from(s, pos) is Ok ==> forall|i: int|
            pos <= i < s.len() ==> '\0' <= #[trigger] s[i] <= '\u{7f}',
        lex_from(s, pos) matches Err(e) ==> forall|i: int|
            pos <= i < e.loc.0 ==> '\0' <= #[trigger] s[i] <= '\u{7f}',
    decreases s.len() - pos,
{
    if pos < s.len() {
        let c = s[pos as int];
        if is_space(c) {
            lemma_lex_reads_ascii(s, pos + 1);
        } else if is_digit(c) {
            lemma_digit_run_end(s, pos);
            lemma_digit_run_digits(s, pos);
            lemma_lex_reads_ascii(s, digit_run_end(s, pos));
        } else if symbol_kind(c) is Some {
            lemma_lex_reads_ascii(s, pos + 1);
        }
    }
}

/// A line that lexes is ASCII: its character indices are its byte offsets.
pub proof fn lemma_lexed_input_is_ascii(a: &str)
    requires
        lex_text(a@) is Ok,
    ensures
        a.spec_bytes().len() == a@.len(),
        forall|i: int| 0 <= i < a@.len() ==> a.spec_bytes()[i] == a@[i] as u8,
{
    lemma_lex_reads_ascii(a@, 0);
    assert(vstd::utf8::is_ascii_chars(a@));
    vstd::utf8::is_ascii_chars_encode_utf8(a@);
}

proof fn lemma_encode_concat(a: Seq<char>, b: Seq<char>)
    ensures
        vstd::utf8::encode_utf8(a + b) == vstd::utf8::encode_utf8(a) + vstd::utf8::encode_utf8(b),
    decreases a.len(),
{
    if a.len() > 0 {
        assert((a + b)[0] == a[0]);
        assert((a + b).drop_first() =~= a.drop_first() + b);
        lemma_encode_concat(a.drop_first(), b);
        assert(vstd::utf8::encode_utf8(a + b) =~= vstd::utf8::encode_utf8(a)
            + vstd::utf8::encode_utf8(b));
    } else {
        assert(a + b =~= b);
    }
}

/// When the characters before `pos` are ASCII, the character at `pos` ends
/// at byte `pos + utf8_len(s[pos])` of the encoding of `s`.
proof fn lemma_char_end_within_bytes(s: Seq<char>, pos: int)
    requires
        0 <= pos < s.len(),
        forall|i: int| 0 <= i < pos ==> '\0' <= #[trigger] s[i] <= '\u{7f}',
    ensures
        pos + utf8_len(s[pos]) <= vstd::utf8::encode_utf8(s).len(),
{
    let pre = s.take(pos);
    let c = s[pos];
    let rest = s.skip(pos + 1);
    assert(s =~= pre + (seq![c] + rest));
    lemma_encode_concat(pre, seq![c] + rest);
    lemma_encode_concat(seq![c], rest);
    assert(vstd::utf8::is_ascii_chars(pre));
    vstd::utf8::is_ascii_chars_encode_utf8(pre);
    vstd::utf8::char_is_scalar(c);
    assert(seq![c].drop_first() =~= Seq::<char>::empty());
    assert(vstd::utf8::encode_utf8(seq![c].drop_first()) =~= Seq::<u8>::empty());
    assert(seq![c][0] == c);
    assert(vstd::utf8::encode_utf8(seq![c]) =~= vstd::utf8::encode_scalar(c as u32));
}

proof fn lemma_digit_run_digits(s: Seq<char>, i: nat)
    ensures
        forall|k: int| i <= k < digit_run_end(s, i) ==> is_digit(#[trigger] s[k]),
    decreases s.len() - i,
{
    if i < s.len() && is_digit(s[i as int]) {
        lemma_digit_run_digits(s, i + 1);
    }
}

proof fn lemma_digit_run_end(s: Seq<char>, i: nat)
    ensures
        i <= digit_run_end(s, i),
        i <= s.len() ==> digit_run_end(s, i) <= s.len(),
        i < s.len() && is_digit(s[i as int]) ==> i < digit_run_end(s, i),
    decreases s.len() - i,
{
    if i < s.len() && is_digit(s[i as int]) {
        lemma_digit_run_end(s, i + 1);
    }
}

proof fn lemma_prepend_assoc(a: Seq<Token>, b: Seq<Token>, r: Result<Seq<Token>, LexError>)
    ensures
        prepend(a, prepend(b, r)) == prepend(a + b, r),
{
    if let Ok(ts) = r {
        assert(a + (b + ts) =~= (a + b) + ts);
    }
}

fn is_space_char(c: char) -> (r: bool)
    ensures
        r == is_space(c),
{
    c == ' ' || c == '\t' || c == '\n' || c == '\x0c' || c == '\r'
}

fn symbol_kind_of(c: char) -> (r: Option<TokenKind>)
    ensures
        r == symbol_kind(c),
{
    if c == '+' {
        Some(TokenKind::Plus)
    } else if c == '-' {
        Some(TokenKind::Minus)
    } else if c == '*' {
        Some(TokenKind::Asterisk)
    } else if c == '/' {
        Some(TokenKind::Slash)
    } else if c == '(' {
        Some(TokenKind::LParen)
    } else if c == ')' {
        Some(TokenKind::RParen)
    } else {
        None
    }
}

fn utf8_len_of(c: char) -> (r: usize)
    ensures
        r == utf8_len(c),
{
    let u = c as u32;
    if u < 0x80 {
        1
    } else if u < 0x800 {
        2
    } else if u < 0x10000 {
        3
    } else {
        4
    }
}

fn chars_of(input: &str) -> (cs: Vec<char>)
    ensures
        cs@ == input@,
{
    broadcast use vstd::string::group_string_axioms;
    let mut cs: Vec<char> = Vec::new();
    for c in it: input.chars()
        invariant
            cs@ == it.seq().take(it.index() as int),
    {
        cs.push(c);
    }
    cs
}

/// Splits `input` into tokens, skipping ASCII whitespace, or reports the
/// first character that starts no token, over the bytes that it takes.
pub fn lex(input: &str) -> (r: Result<Vec<Token>, LexError>)
    ensures
        lex_result_is(r, lex_text(input@)),
{
    let cs = chars_of(input);
    let n = cs.len();
    let byte_len = input.as_bytes().len();
    let ghost s = cs@;
    let mut out: Vec<Token> = Vec::new();
    let mut pos: usize = 0;
    while pos < n
        invariant
            s == input@,
            s == cs@,
            n == s.len(),
            byte_len == input.spec_bytes().len(),
            pos <= n,
            lex_from(s, 0) == prepend(out@, lex_from(s, pos as nat)),
        decreases n - pos,
    {
        let c = cs[pos];
        let ghost before = out@;
        if is_space_char(c) {
            pos = pos + 1;
        } else if '0' <= c && c <= '9' {
            let start = pos;
            let mut v: u64 = 0;
            let mut too_large = false;
            proof {
                lemma_digit_run_end(s, start as nat);
            }
            while pos < n && '0' <= cs[pos] && cs[pos] <= '9'
                invariant
                    s == cs@,
                    n == s.len(),
                    start <= pos <= n,
                    digit_run_end(s, start as nat) == digit_run_end(s, pos as nat),
                    too_large ==> digits_value(s, start as int, pos as int) > u64::MAX,
                    !too_large ==> v == digits_value(s, start as int, pos as int),
                decreases n - pos,
            {
                let d = (cs[pos] as u32 - 48) as u64;
                if !too_large {
                    match v.checked_mul(10) {
                        Some(m) => match m.checked_add(d) {
                            Some(w) => {
                                v = w;
                            },
                            None => {
                                too_large = true;
                            },
                        },
                        None => {
                            too_large = true;
                        },
                    }
                }
                pos = pos + 1;
            }
            let loc = Loc(start, pos);
            proof {
                lemma_digit_run_end(s, pos as nat);
                assert(digit_run_end(s, pos as nat) == pos);
                assert(start < pos);
            }
            if too_large {
                return Err(Annot { value: LexErrorKind::NumberTooLarge, loc });
            }
            let tok = Annot { value: TokenKind::Number(v), loc };
            proof {
                lemma_prepend_assoc(out@, seq![tok], lex_from(s, pos as nat));
            }
            out.push(tok);
            assert(out@ =~= before + seq![tok]);
            assert(lex_from(s, start as nat) == prepend(seq![tok], lex_from(s, pos as nat)));
        } else {
            match symbol_kind_of(c) {
                Some(k) => {
                    let tok = Annot { value: k, loc: Loc(pos, pos + 1) };
                    proof {
                        lemma_prepend_assoc(out@, seq![tok], lex_from(s, (pos + 1) as nat));
                    }
                    out.push(tok);
                    assert(out@ =~= before + seq![tok]);
                    assert(lex_from(s, pos as nat) == prepend(seq![tok], lex_from(s, (pos + 1) as nat)));
                    pos = pos + 1;
                },
                None => {
                    proof {
                        lemma_lex_reads_ascii(s, 0);
                        lemma_char_end_within_bytes(s, pos as int);
                    }
                    return Err(
                        Annot { value: LexErrorKind::InvalidChar(c), loc: Loc(pos, pos + utf8_len_of(c)) },
                    );
                },
            }
        }
    }
    assert(out@ + Seq::<Token>::empty() =~= out@);
    Ok(out)
}

} // verus!
