use vstd::prelude::*;
use crate::chars::{
    is_ident, is_ident_start, is_numeric, is_space, spec_is_ident, spec_is_ident_start,
    spec_is_numeric, spec_is_space,
};
use crate::text::{chars_to_string, str_to_chars, subvec};
use crate::token::{toks_view, Token, TokenModel};

verus! {

/// The first position at or after `i` whose character does not continue an
/// identifier (or the end of the input).
pub open spec fn ident_end(s: Seq<char>, i: int) -> int
    decreases s.len() - i,
{
    if 0 <= i < s.len() && spec_is_ident(s[i]) {
        ident_end(s, i + 1)
    } else {
        i
    }
}

/// The first position at or after `i` whose character is not a digit.
pub open spec fn digits_end(s: Seq<char>, i: int) -> int
    decreases s.len() - i,
{
    if 0 <= i < s.len() && spec_is_numeric(s[i]) {
        digits_end(s, i + 1)
    } else {
        i
    }
}

/// The first position at or after `i` whose character is not whitespace.
pub open spec fn spaces_end(s: Seq<char>, i: int) -> int
    decreases s.len() - i,
{
    if 0 <= i < s.len() && spec_is_space(s[i]) {
        spaces_end(s, i + 1)
    } else {
        i
    }
}

/// The position of the next newline at or after `i`, or the end of the input:
/// where a line comment stops skipping.
pub open spec fn line_end(s: Seq<char>, i: int) -> int
    decreases s.len() - i,
{
    if 0 <= i < s.len() && s[i] != '\n' {
        line_end(s, i + 1)
    } else {
        i
    }
}

/// The position just after the closing `##` at or after `i`, or the end of
/// the input when no closing pair exists.
pub open spec fn multi_end(s: Seq<char>, i: int) -> int
    decreases s.len() - i,
{
    if i < 0 {
        i
    } else if i + 1 >= s.len() {
        s.len() as int
    } else if s[i] == '#' && s[i + 1] == '#' {
        i + 2
    } else {
        multi_end(s, i + 1)
    }
}

pub proof fn lemma_ident_end_bounds(s: Seq<char>, i: int)
    requires
        0 <= i <= s.len(),
    ensures
        i <= ident_end(s, i) <= s.len(),
    decreases s.len() - i,
{
    if i < s.len() && spec_is_ident(s[i]) {
        lemma_ident_end_bounds(s, i + 1);
    }
}

pub proof fn lemma_digits_end_bounds(s: Seq<char>, i: int)
    requires
        0 <= i <= s.len(),
    ensures
        i <= digits_end(s, i) <= s.len(),
    decreases s.len() - i,
{
    if i < s.len() && spec_is_numeric(s[i]) {
        lemma_digits_end_bounds(s, i + 1);
    }
}

pub proof fn lemma_spaces_end_bounds(s: Seq<char>, i: int)
    requires
        0 <= i <= s.len(),
    ensures
        i <= spaces_end(s, i) <= s.len(),
    decreases s.len() - i,
{
    if i < s.len() && spec_is_space(s[i]) {
        lemma_spaces_end_bounds(s, i + 1);
    }
}

pub proof fn lemma_line_end_bounds(s: Seq<char>, i: int)
    requires
        0 <= i <= s.len(),
    ensures
        i <= line_end(s, i) <= s.len(),
    decreases s.len() - i,
{
    if i < s.len() && s[i] != '\n' {
        lemma_line_end_bounds(s, i + 1);
    }
}

pub proof fn lemma_multi_end_bounds(s: Seq<char>, i: int)
    requires
        0 <= i <= s.len(),
    ensures
        i <= multi_end(s, i) <= s.len(),
    decreases s.len() - i,
{
    if i + 1 >= s.len() {
    } else if s[i] == '#' && s[i + 1] == '#' {
    } else {
        lemma_multi_end_bounds(s, i + 1);
    }
}

/// The numeric value of the digit run starting at `i`, accumulated onto
/// `acc`, together with the position after the run; `None` when the value
/// would not fit a 128-bit signed integer.
pub open spec fn spec_int_from(s: Seq<char>, i: int, acc: i128) -> Option<(i128, int)>
    decreases s.len() - i,
{
    if !(0 <= i < s.len()) || !spec_is_numeric(s[i]) {
        Some((acc, i))
    } else {
        let v = acc * 10 + (s[i] as u32 - 48);
        if v > i128::MAX {
            None
        } else {
            spec_int_from(s, i + 1, v as i128)
        }
    }
}

pub proof fn lemma_int_from_bounds(s: Seq<char>, i: int, acc: i128)
    requires
        0 <= i <= s.len(),
    ensures
        spec_int_from(s, i, acc) matches Some(p) ==> i <= p.1 <= s.len() && p.1 == digits_end(
            s,
            i,
        ),
    decreases s.len() - i,
{
    if !(0 <= i < s.len()) || !spec_is_numeric(s[i]) {
    } else {
        let v = acc * 10 + (s[i] as u32 - 48);
        if v <= i128::MAX {
            lemma_int_from_bounds(s, i + 1, v as i128);
        }
    }
}

/// Prefixes a token onto a lexing result.
pub open spec fn lex_cons(t: TokenModel, rest: Option<Seq<TokenModel>>) -> Option<Seq<TokenModel>> {
    match rest {
        Option::Some(ts) => Option::Some(seq![t] + ts),
        Option::None => Option::None,
    }
}

/// The token sequence of the input from position `i` on: `None` exactly when
/// an unrecognized character (or an overlong integer literal) is reached.
pub open spec fn spec_lex(s: Seq<char>, i: int) -> Option<Seq<TokenModel>>
    decreases s.len() - i,
        via spec_lex_dec
{
    if !(0 <= i < s.len()) {
        Some(Seq::empty())
    } else {
        let c = s[i];
        if spec_is_space(c) {
            spec_lex(s, spaces_end(s, i))
        } else if spec_is_ident_start(c) {
            let j = ident_end(s, i);
            lex_cons(TokenModel::Ident(s.subrange(i, j)), spec_lex(s, j))
        } else if spec_is_numeric(c) {
            match spec_int_from(s, i, 0) {
                Option::None => Option::None,
                Option::Some(p) => lex_cons(TokenModel::Integer(p.0), spec_lex(s, p.1)),
            }
        } else if c == '#' {
            if i + 1 < s.len() && s[i + 1] == '#' {
                spec_lex(s, multi_end(s, i + 2))
            } else {
                spec_lex(s, line_end(s, i + 1))
            }
        } else if c == '\'' {
            let j = ident_end(s, i + 1);
            lex_cons(TokenModel::Word(s.subrange(i + 1, j)), spec_lex(s, j))
        } else if c == '<' {
            if i + 1 < s.len() && s[i + 1] == '=' {
                lex_cons(TokenModel::LessEqual, spec_lex(s, i + 2))
            } else if i + 1 < s.len() && s[i + 1] == '>' {
                lex_cons(TokenModel::NotEqual, spec_lex(s, i + 2))
            } else {
                lex_cons(TokenModel::Less, spec_lex(s, i + 1))
            }
        } else if c == '>' {
            if i + 1 < s.len() && s[i + 1] == '=' {
                lex_cons(TokenModel::GreaterEqual, spec_lex(s, i + 2))
            } else {
                lex_cons(TokenModel::Greater, spec_lex(s, i + 1))
            }
        } else if c == '!' {
            if i + 1 < s.len() && s[i + 1] == '=' {
                lex_cons(TokenModel::NotEqual, spec_lex(s, i + 2))
            } else if i + 1 < s.len() && s[i + 1] == '<' {
                lex_cons(TokenModel::GreaterEqual, spec_lex(s, i + 2))
            } else if i + 1 < s.len() && s[i + 1] == '>' {
                lex_cons(TokenModel::LessEqual, spec_lex(s, i + 2))
            } else {
                lex_cons(TokenModel::Exclam, spec_lex(s, i + 1))
            }
        } else if c == '-' {
            if i + 1 < s.len() && s[i + 1] == '>' {
                lex_cons(TokenModel::Arrow, spec_lex(s, i + 2))
            } else {
                lex_cons(TokenModel::Minus, spec_lex(s, i + 1))
            }
        } else {
            match spec_single_token(c) {
                Option::Some(t) => lex_cons(t, spec_lex(s, i + 1)),
                Option::None => Option::None,
            }
        }
    }
}

#[via_fn]
proof fn spec_lex_dec(s: Seq<char>, i: int) {
    if 0 <= i < s.len() {
        let c = s[i];
        if spec_is_space(c) {
            lemma_spaces_end_bounds(s, i + 1);
        } else if spec_is_ident_start(c) {
            lemma_ident_end_bounds(s, i + 1);
        } else if spec_is_numeric(c) {
            lemma_int_from_bounds(s, i, 0);
            lemma_digits_end_bounds(s, i + 1);
        } else if c == '#' {
            if i + 1 < s.len() && s[i + 1] == '#' {
                lemma_multi_end_bounds(s, i + 2);
            } else {
                lemma_line_end_bounds(s, i + 1);
            }
        } else if c == '\'' {
            lemma_ident_end_bounds(s, i + 1);
        }
    }
}

/// The token for a character lexed on its own, if it has one.
pub open spec fn spec_single_token(c: char) -> Option<TokenModel> {
    if c == '$' {
        Some(TokenModel::Dollar)
    } else if c == '.' {
        Some(TokenModel::Period)
    } else if c == '=' {
        Some(TokenModel::Equal)
    } else if c == '_' {
        Some(TokenModel::Underscore)
    } else if c == '+' {
        Some(TokenModel::Plus)
    } else if c == '*' {
        Some(TokenModel::Asterisk)
    } else if c == '/' {
        Some(TokenModel::Slash)
    } else if c == '^' {
        Some(TokenModel::Circumflex)
    } else if c == '[' {
        Some(TokenModel::OpenBracket)
    } else if c == ']' {
        Some(TokenModel::CloseBracket)
    } else if c == '{' {
        Some(TokenModel::OpenBrace)
    } else if c == '}' {
        Some(TokenModel::CloseBrace)
    } else if c == '(' {
        Some(TokenModel::OpenParen)
    } else if c == ')' {
        Some(TokenModel::CloseParen)
    } else if c == '\u{3bb}' || c == '\\' {
        Some(TokenModel::Lambda)
    } else if c == '|' {
        Some(TokenModel::Bar)
    } else if c == '\u{2192}' {
        Some(TokenModel::Arrow)
    } else if c == '\u{2a7e}' || c == '\u{2267}' || c == '\u{2265}' || c == '\u{226e}' {
        Some(TokenModel::GreaterEqual)
    } else if c == '\u{2a7d}' || c == '\u{2266}' || c == '\u{2264}' || c == '\u{226f}' {
        Some(TokenModel::LessEqual)
    } else if c == '\u{2271}' {
        Some(TokenModel::Less)
    } else if c == '\u{2270}' {
        Some(TokenModel::Greater)
    } else if c == '\u{2260}' {
        Some(TokenModel::NotEqual)
    } else {
        None
    }
}

/// Scans past whitespace, returning the first non-whitespace position.
pub fn lex_spaces(s: &Vec<char>, i: usize) -> (j: usize)
    requires
        i <= s@.len(),
    ensures
        j as int == spaces_end(s@, i as int),
        i <= j <= s@.len(),
    decreases s@.len() - i,
{
    if i < s.len() && is_space(s[i]) {
        lex_spaces(s, i + 1)
    } else {
        i
    }
}

/// Scans to the end of an identifier run.
pub fn lex_ident(s: &Vec<char>, i: usize) -> (j: usize)
    requires
        i <= s@.len(),
    ensures
        j as int == ident_end(s@, i as int),
        i <= j <= s@.len(),
    decreases s@.len() - i,
{
    if i < s.len() && is_ident(s[i]) {
        lex_ident(s, i + 1)
    } else {
        i
    }
}

/// Scans to the end of a line comment.
pub fn lex_comment(s: &Vec<char>, i: usize) -> (j: usize)
    requires
        i <= s@.len(),
    ensures
        j as int == line_end(s@, i as int),
        i <= j <= s@.len(),
    decreases s@.len() - i,
{
    if i < s.len() && s[i] != '\n' {
        lex_comment(s, i + 1)
    } else {
        i
    }
}

/// Scans past a multi-line comment body to just after its closing `##`.
pub fn lex_multiline_comment(s: &Vec<char>, i: usize) -> (j: usize)
    requires
        i <= s@.len(),
    ensures
        j as int == multi_end(s@, i as int),
        i <= j <= s@.len(),
    decreases s@.len() - i,
{
    if i >= s.len() {
        s.len()
    } else if i + 1 >= s.len() {
        s.len()
    } else if s[i] == '#' && s[i + 1] == '#' {
        i + 2
    } else {
        lex_multiline_comment(s, i + 1)
    }
}

/// Reads a digit run as a 128-bit signed integer, accumulating onto `acc`;
/// fails when the literal does not fit.
pub fn lex_integer(s: &Vec<char>, i: usize, acc: i128) -> (r: Result<(i128, usize), String>)
    requires
        i <= s@.len(),
        acc >= 0,
    ensures
        match spec_int_from(s@, i as int, acc) {
            Option::Some(p) => r matches Ok(q) && q.0 == p.0 && q.1 as int == p.1 && i <= q.1
                <= s@.len(),
            Option::None => r is Err,
        },
    decreases s@.len() - i,
{
    if i < s.len() && is_numeric(s[i]) {
        let d: u32 = s[i] as u32 - 48;
        match acc.checked_mul(10) {
            Option::None => Err("LexError: integer literal does not fit".to_string()),
            Option::Some(m) => match m.checked_add(d as i128) {
                Option::None => Err("LexError: integer literal does not fit".to_string()),
                Option::Some(v) => lex_integer(s, i + 1, v),
            },
        }
    } else {
        Ok((acc, i))
    }
}

/// Lexes the input from position `i` to the end.
pub fn lex_from(s: &Vec<char>, i: usize) -> (r: Result<Vec<Token>, String>)
    requires
        i <= s@.len(),
    ensures
        match spec_lex(s@, i as int) {
            Option::Some(ts) => r matches Ok(v) && toks_view(v@) == ts,
            Option::None => r is Err,
        },
    decreases s@.len() - i,
{
    if i >= s.len() {
        proof {
            assert(toks_view(Seq::<Token>::empty()) =~= Seq::<TokenModel>::empty());
        }
        Ok(Vec::new())
    } else {
        let c = s[i];
        if is_space(c) {
            proof {
                lemma_spaces_end_bounds(s@, i + 1);
            }
            let j = lex_spaces(s, i);
            lex_from(s, j)
        } else if is_ident_start(c) {
            proof {
                lemma_ident_end_bounds(s@, i + 1);
            }
            let j = lex_ident(s, i);
            let name = subvec(s, i, j);
            push_token(Token::Ident(name), lex_from(s, j))
        } else if is_numeric(c) {
            proof {
                lemma_int_from_bounds(s@, i as int, 0);
                lemma_digits_end_bounds(s@, i + 1);
            }
            match lex_integer(s, i, 0) {
                Err(e) => Err(e),
                Ok((value, j)) => push_token(Token::Integer(value), lex_from(s, j)),
            }
        } else if c == '#' {
            if i + 1 < s.len() && s[i + 1] == '#' {
                let j = lex_multiline_comment(s, i + 2);
                lex_from(s, j)
            } else {
                let j = lex_comment(s, i + 1);
                lex_from(s, j)
            }
        } else if c == '\'' {
            let j = lex_ident(s, i + 1);
            let name = subvec(s, i + 1, j);
            push_token(Token::Word(name), lex_from(s, j))
        } else if c == '<' {
            if i + 1 < s.len() && s[i + 1] == '=' {
                push_token(Token::LessEqual, lex_from(s, i + 2))
            } else if i + 1 < s.len() && s[i + 1] == '>' {
                push_token(Token::NotEqual, lex_from(s, i + 2))
            } else {
                push_token(Token::Less, lex_from(s, i + 1))
            }
        } else if c == '>' {
            if i + 1 < s.len() && s[i + 1] == '=' {
                push_token(Token::GreaterEqual, lex_from(s, i + 2))
            } else {
                push_token(Token::Greater, lex_from(s, i + 1))
            }
        } else if c == '!' {
            if i + 1 < s.len() && s[i + 1] == '=' {
                push_token(Token::NotEqual, lex_from(s, i + 2))
            } else if i + 1 < s.len() && s[i + 1] == '<' {
                push_token(Token::GreaterEqual, lex_from(s, i + 2))
            } else if i + 1 < s.len() && s[i + 1] == '>' {
                push_token(Token::LessEqual, lex_from(s, i + 2))
            } else {
                push_token(Token::Exclam, lex_from(s, i + 1))
            }
        } else if c == '-' {
            if i + 1 < s.len() && s[i + 1] == '>' {
                push_token(Token::Arrow, lex_from(s, i + 2))
            } else {
                push_token(Token::Minus, lex_from(s, i + 1))
            }
        } else {
            match single_token(c) {
                Option::Some(t) => push_token(t, lex_from(s, i + 1)),
                Option::None => {
                    let mut msg = str_to_chars("LexError: unrecognized character ");
                    msg.push(c);
                    Err(chars_to_string(&msg))
                },
            }
        }
    }
}

/// Prefixes a token onto a lexing result, mirroring `lex_cons`.
fn push_token(t: Token, rest: Result<Vec<Token>, String>) -> (r: Result<Vec<Token>, String>)
    ensures
        match rest {
            Ok(v) => r matches Ok(w) && toks_view(w@) == seq![t@] + toks_view(v@),
            Err(_) => r is Err,
        },
{
    match rest {
        Ok(mut v) => {
            let ghost orig: Seq<Token> = v@;
            v.insert(0, t);
            proof {
                assert(toks_view(v@) =~= seq![t@] + toks_view(orig));
            }
            Ok(v)
        },
        Err(e) => Err(e),
    }
}

/// The token for a character lexed on its own, mirroring `spec_single_token`.
fn single_token(c: char) -> (r: Option<Token>)
    ensures
        match spec_single_token(c) {
            Option::Some(t) => r matches Some(u) && u@ == t,
            Option::None => r is None,
        },
{
    if c == '$' {
        Some(Token::Dollar)
    } else if c == '.' {
        Some(Token::Period)
    } else if c == '=' {
        Some(Token::Equal)
    } else if c == '_' {
        Some(Token::Underscore)
    } else if c == '+' {
        Some(Token::Plus)
    } else if c == '*' {
        Some(Token::Asterisk)
    } else if c == '/' {
        Some(Token::Slash)
    } else if c == '^' {
        Some(Token::Circumflex)
    } else if c == '[' {
        Some(Token::OpenBracket)
    } else if c == ']' {
        Some(Token::CloseBracket)
    } else if c == '{' {
        Some(Token::OpenBrace)
    } else if c == '}' {
        Some(Token::CloseBrace)
    } else if c == '(' {
        Some(Token::OpenParen)
    } else if c == ')' {
        Some(Token::CloseParen)
    } else if c == '\u{3bb}' || c == '\\' {
        Some(Token::Lambda)
    } else if c == '|' {
        Some(Token::Bar)
    } else if c == '\u{2192}' {
        Some(Token::Arrow)
    } else if c == '\u{2a7e}' || c == '\u{2267}' || c == '\u{2265}' || c == '\u{226e}' {
        Some(Token::GreaterEqual)
    } else if c == '\u{2a7d}' || c == '\u{2266}' || c == '\u{2264}' || c == '\u{226f}' {
        Some(Token::LessEqual)
    } else if c == '\u{2271}' {
        Some(Token::Less)
    } else if c == '\u{2270}' {
        Some(Token::Greater)
    } else if c == '\u{2260}' {
        Some(Token::NotEqual)
    } else {
        None
    }
}

/// Lexes a source text into its token sequence; fails exactly when the text
/// holds an unrecognized character or an overlong integer literal.
pub fn lex(source: &str) -> (r: Result<Vec<Token>, String>)
    ensures
        match spec_lex(source@, 0) {
            Option::Some(ts) => r matches Ok(v) && toks_view(v@) == ts,
            Option::None => r is Err,
        },
{
    let cs = str_to_chars(source);
    lex_from(&cs, 0)
}

} // verus!
