//! Lexer for the Grey programming language.

use vstd::prelude::*;
use crate::diagnostics::{DiagnosticError, SourceLocation};
use crate::text::str_eq;

verus! {

/// All possible tokens in Grey.
#[derive(Debug, Clone, PartialEq)]
pub enum Token {
    Identifier(String),
    Integer(i64),
    Boolean(bool),
    String(String),
    Module,
    Process,
    Event,
    Const,
    Fn,
    Let,
    If,
    Else,
    While,
    For,
    Return,
    LParen,
    RParen,
    LBrace,
    RBrace,
    LBracket,
    RBracket,
    Comma,
    Semicolon,
    Colon,
    Assign,
    Plus,
    Minus,
    Star,
    Slash,
    Bang,
    LessThan,
    GreaterThan,
    Equals,
    NotEquals,
    Arrow,
    Dot,
    At,
    CoordLiteral,
    Eof,
}

/// Token with source location information.
#[derive(Debug, PartialEq)]
pub struct SpannedToken {
    pub token: Token,
    /// (start, end) character positions.
    pub span: (usize, usize),
}

impl Clone for SpannedToken {
    fn clone(&self) -> Self {
        SpannedToken { token: self.token.clone(), span: self.span }
    }
}

/// Whether a character can start an identifier.
pub open spec fn is_ident_start(c: char) -> bool {
    ('a' <= c && c <= 'z') || ('A' <= c && c <= 'Z') || c == '_'
}

/// Whether a character can continue an identifier.
pub open spec fn is_ident_continue(c: char) -> bool {
    is_ident_start(c) || ('0' <= c && c <= '9')
}

fn ident_start(c: char) -> (r: bool)
    ensures
        r == is_ident_start(c),
{
    ('a' <= c && c <= 'z') || ('A' <= c && c <= 'Z') || c == '_'
}

fn ident_continue(c: char) -> (r: bool)
    ensures
        r == is_ident_continue(c),
{
    ident_start(c) || ('0' <= c && c <= '9')
}

fn chars_to_string(source: &str, from: usize, to: usize) -> (s: String)
    requires
        from <= to <= source@.len(),
    ensures
        s@ == source@.subrange(from as int, to as int),
{
    let piece = source.substring_char(from, to);
    String::from_str(piece)
}

fn keyword_or_identifier(word: String) -> (t: Token)
    ensures
        !(t is Eof),
{
    if str_eq(word.as_str(), "module") {
        Token::Module
    } else if str_eq(word.as_str(), "process") {
        Token::Process
    } else if str_eq(word.as_str(), "event") {
        Token::Event
    } else if str_eq(word.as_str(), "const") {
        Token::Const
    } else if str_eq(word.as_str(), "fn") {
        Token::Fn
    } else if str_eq(word.as_str(), "let") {
        Token::Let
    } else if str_eq(word.as_str(), "if") {
        Token::If
    } else if str_eq(word.as_str(), "else") {
        Token::Else
    } else if str_eq(word.as_str(), "while") {
        Token::While
    } else if str_eq(word.as_str(), "for") {
        Token::For
    } else if str_eq(word.as_str(), "return") {
        Token::Return
    } else if str_eq(word.as_str(), "true") {
        Token::Boolean(true)
    } else if str_eq(word.as_str(), "false") {
        Token::Boolean(false)
    } else {
        Token::Identifier(word)
    }
}

/// Tokenize Grey source code. On success the token stream is non-empty and
/// ends with `Eof`, which appears nowhere else; every span lies within the
/// source, and the spans of successive tokens are disjoint and in source
/// order.
pub fn lex(source: &str) -> (r: Result<Vec<SpannedToken>, DiagnosticError>)
    ensures
        match r {
            Ok(tokens) => {
                &&& tokens@.len() >= 1
                &&& tokens@.last().token is Eof
                &&& (forall|i: int|
                    0 <= i < tokens@.len() - 1 ==> !((#[trigger] tokens@[i]).token is Eof))
                &&& tokens@.last().span.0 == source@.len()
                &&& tokens@.last().span.1 == source@.len()
                &&& (forall|i: int|
                    0 <= i < tokens@.len() ==> (#[trigger] tokens@[i]).span.0 <= tokens@[i].span.1
                        <= source@.len())
                &&& forall|i: int, j: int|
                    0 <= i < j < tokens@.len() ==> (#[trigger] tokens@[i]).span.1 <= (
                    #[trigger] tokens@[j]).span.0
            },
            Err(_) => true,
        },
{
    let chars = crate::text::str_to_chars(source);
    let len = chars.len();
    let mut tokens: Vec<SpannedToken> = Vec::new();
    let mut pos: usize = 0;

    while pos < len
        invariant
            len == chars@.len(),
            chars@ == source@,
            pos <= len,
            forall|i: int| 0 <= i < tokens@.len() ==> !((#[trigger] tokens@[i]).token is Eof),
            forall|i: int|
                0 <= i < tokens@.len() ==> (#[trigger] tokens@[i]).span.0 <= tokens@[i].span.1
                    <= len,
            forall|i: int| 0 <= i < tokens@.len() ==> (#[trigger] tokens@[i]).span.1 <= pos,
            forall|i: int, j: int|
                0 <= i < j < tokens@.len() ==> (#[trigger] tokens@[i]).span.1 <= (
                #[trigger] tokens@[j]).span.0,
        decreases len - pos,
    {
        let c = chars[pos];
        if c == ' ' || c == '\t' || c == '\n' || c == '\r' {
            pos += 1;
        } else if c == '/' && pos + 1 < len && chars[pos + 1] == '/' {
            // Skip to the end of the line.
            let comment_start = pos;
            pos += 2;
            while pos < len && chars[pos] != '\n'
                invariant
                    comment_start + 2 <= pos <= len == chars@.len(),
                decreases len - pos,
            {
                pos += 1;
            }
        } else if ident_start(c) {
            let start = pos;
            while pos < len && ident_continue(chars[pos])
                invariant
                    start <= pos <= len == chars@.len(),
                    chars@ == source@,
                    pos == start ==> pos < len && is_ident_continue(chars@[pos as int]),
                decreases len - pos,
            {
                pos += 1;
            }
            let word = chars_to_string(source, start, pos);
            let token = keyword_or_identifier(word);
            tokens.push(SpannedToken { token, span: (start, pos) });
        } else if '0' <= c && c <= '9' {
            let start = pos;
            let mut value: i64 = 0;
            let mut overflow = false;
            while pos < len && '0' <= chars[pos] && chars[pos] <= '9'
                invariant
                    start <= pos <= len == chars@.len(),
                    0 <= value,
                    pos == start ==> pos < len && '0' <= chars@[pos as int]
                        && chars@[pos as int] <= '9',
                decreases len - pos,
            {
                let d = (chars[pos] as u32 as i64) - 48;
                if value > (i64::MAX - d) / 10 {
                    overflow = true;
                } else {
                    value = value * 10 + d;
                }
                pos += 1;
            }
            if overflow {
                return Err(
                    DiagnosticError::general("Invalid integer", SourceLocation::dummy()),
                );
            }
            tokens.push(SpannedToken { token: Token::Integer(value), span: (start, pos) });
        } else if c == '"' {
            let start = pos;
            pos += 1;
            let mut content = String::new();
            let mut chunk_start = pos;
            while pos < len && chars[pos] != '"'
                invariant
                    start < pos <= len == chars@.len(),
                    chunk_start <= pos,
                    start < chunk_start,
                    chars@ == source@,
                decreases len - pos,
            {
                if chars[pos] == '\\' && pos + 1 < len {
                    // Escape sequences.
                    content.append(source.substring_char(chunk_start, pos));
                    pos += 1;
                    let e = chars[pos];
                    if e == 'n' {
                        content.append("\n");
                    } else if e == 't' {
                        content.append("\t");
                    } else if e == 'r' {
                        content.append("\r");
                    } else if e == '\\' {
                        content.append("\\");
                    } else if e == '"' {
                        content.append("\"");
                    } else {
                        content.append(source.substring_char(pos, pos + 1));
                    }
                    pos += 1;
                    chunk_start = pos;
                } else {
                    pos += 1;
                }
            }
            content.append(source.substring_char(chunk_start, pos));
            if pos >= len {
                return Err(
                    DiagnosticError::general(
                        "Unterminated string literal",
                        SourceLocation::dummy(),
                    ),
                );
            }
            pos += 1;  // Skip the closing quote.
            tokens.push(SpannedToken { token: Token::String(content), span: (start, pos) });
        } else if c == '<' {
            // Try to lex a coordinate literal: '<' ... '>' with only digits,
            // minus signs, commas, and whitespace inside. Otherwise fall back
            // to a less-than token.
            let start = pos;
            let mut i = pos + 1;
            while i < len && (chars[i] == ' ' || chars[i] == '\t' || chars[i] == '\n' || chars[i]
                == '\r')
                invariant
                    pos < i <= len == chars@.len(),
                decreases len - i,
            {
                i += 1;
            }
            let mut saw_digit = false;
            let mut coord_end: usize = 0;
            let mut matched = false;
            let mut failed = false;
            while i < len && !matched && !failed
                invariant
                    pos < i <= len == chars@.len(),
                    matched ==> pos < coord_end <= len,
                    forall|t: int|
                        0 <= t < tokens@.len() ==> !((#[trigger] tokens@[t]).token is Eof),
                    forall|t: int|
                        0 <= t < tokens@.len() ==> (#[trigger] tokens@[t]).span.0
                            <= tokens@[t].span.1 <= len,
                    forall|t: int| 0 <= t < tokens@.len() ==> (#[trigger] tokens@[t]).span.1
                        <= pos,
                    forall|a: int, b: int|
                        0 <= a < b < tokens@.len() ==> (#[trigger] tokens@[a]).span.1 <= (
                        #[trigger] tokens@[b]).span.0,
                decreases len - i + (if matched || failed {
                    0int
                } else {
                    1int
                }),
            {
                let ch = chars[i];
                if '0' <= ch && ch <= '9' {
                    saw_digit = true;
                    i += 1;
                } else if ch == '-' || ch == ',' || ch == ' ' || ch == '\t' || ch == '\n' || ch
                    == '\r' {
                    i += 1;
                } else if ch == '>' && saw_digit {
                    coord_end = i + 1;
                    matched = true;
                } else {
                    failed = true;
                }
            }
            if matched {
                tokens.push(SpannedToken { token: Token::CoordLiteral, span: (start, coord_end) });
                pos = coord_end;
            } else {
                tokens.push(SpannedToken { token: Token::LessThan, span: (pos, pos + 1) });
                pos += 1;
            }
        } else {
            let single: Option<Token> = if c == '(' {
                Some(Token::LParen)
            } else if c == ')' {
                Some(Token::RParen)
            } else if c == '{' {
                Some(Token::LBrace)
            } else if c == '}' {
                Some(Token::RBrace)
            } else if c == '[' {
                Some(Token::LBracket)
            } else if c == ']' {
                Some(Token::RBracket)
            } else if c == ',' {
                Some(Token::Comma)
            } else if c == ';' {
                Some(Token::Semicolon)
            } else if c == ':' {
                Some(Token::Colon)
            } else if c == '+' {
                Some(Token::Plus)
            } else if c == '-' {
                Some(Token::Minus)
            } else if c == '*' {
                Some(Token::Star)
            } else if c == '/' {
                Some(Token::Slash)
            } else if c == '!' {
                Some(Token::Bang)
            } else if c == '>' {
                Some(Token::GreaterThan)
            } else if c == '.' {
                Some(Token::Dot)
            } else if c == '@' {
                Some(Token::At)
            } else {
                None
            };
            match single {
                Some(token) => {
                    tokens.push(SpannedToken { token, span: (pos, pos + 1) });
                    pos += 1;
                },
                None => {
                    if c == '=' {
                        if pos + 1 < len && chars[pos + 1] == '>' {
                            tokens.push(
                                SpannedToken { token: Token::Arrow, span: (pos, pos + 2) },
                            );
                            pos += 2;
                        } else {
                            tokens.push(
                                SpannedToken { token: Token::Assign, span: (pos, pos + 1) },
                            );
                            pos += 1;
                        }
                    } else {
                        return Err(
                            DiagnosticError::general(
                                "Unexpected character",
                                SourceLocation::dummy(),
                            ),
                        );
                    }
                },
            }
        }
    }

    tokens.push(SpannedToken { token: Token::Eof, span: (len, len) });
    Ok(tokens)
}

} // verus!
