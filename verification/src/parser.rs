//! Recursive descent parser for Grey programs.
//!
//! The parser is deliberately tolerant: module items, process members,
//! statements, and expressions it does not recognize are skipped over
//! bracket-aware, so that the structural elements the rest of the pipeline
//! consumes (modules, constants, events, processes, fields, and methods) are
//! still recovered from partially supported programs.

use vstd::prelude::*;
use crate::ast::{
    BlockExpression, ConstantDeclaration, EventDefinition, Expression, FieldDeclaration,
    FunctionDefinition, FunctionParameter, Module, Pattern, ProcessDefinition, Program, Statement,
    Type,
};
use crate::diagnostics::{DiagnosticError, SourceLocation};
use crate::lexer::{SpannedToken, Token};
use crate::text::str_eq;

verus! {

/// A small-integer code for each token kind, used to compare kinds without
/// comparing payloads.
pub open spec fn token_kind(t: Token) -> int {
    match t {
        Token::Identifier(_) => 0,
        Token::Integer(_) => 1,
        Token::Boolean(_) => 2,
        Token::String(_) => 3,
        Token::Module => 4,
        Token::Process => 5,
        Token::Event => 6,
        Token::Const => 7,
        Token::Fn => 8,
        Token::Let => 9,
        Token::If => 10,
        Token::Else => 11,
        Token::While => 12,
        Token::For => 13,
        Token::Return => 14,
        Token::LParen => 15,
        Token::RParen => 16,
        Token::LBrace => 17,
        Token::RBrace => 18,
        Token::LBracket => 19,
        Token::RBracket => 20,
        Token::Comma => 21,
        Token::Semicolon => 22,
        Token::Colon => 23,
        Token::Assign => 24,
        Token::Plus => 25,
        Token::Minus => 26,
        Token::Star => 27,
        Token::Slash => 28,
        Token::Bang => 29,
        Token::LessThan => 30,
        Token::GreaterThan => 31,
        Token::Equals => 32,
        Token::NotEquals => 33,
        Token::Arrow => 34,
        Token::Dot => 35,
        Token::At => 36,
        Token::CoordLiteral => 37,
        Token::Eof => 38,
    }
}

fn kind_of(t: &Token) -> (k: u32)
    ensures
        k as int == token_kind(*t),
{
    match t {
        Token::Identifier(_) => 0,
        Token::Integer(_) => 1,
        Token::Boolean(_) => 2,
        Token::String(_) => 3,
        Token::Module => 4,
        Token::Process => 5,
        Token::Event => 6,
        Token::Const => 7,
        Token::Fn => 8,
        Token::Let => 9,
        Token::If => 10,
        Token::Else => 11,
        Token::While => 12,
        Token::For => 13,
        Token::Return => 14,
        Token::LParen => 15,
        Token::RParen => 16,
        Token::LBrace => 17,
        Token::RBrace => 18,
        Token::LBracket => 19,
        Token::RBracket => 20,
        Token::Comma => 21,
        Token::Semicolon => 22,
        Token::Colon => 23,
        Token::Assign => 24,
        Token::Plus => 25,
        Token::Minus => 26,
        Token::Star => 27,
        Token::Slash => 28,
        Token::Bang => 29,
        Token::LessThan => 30,
        Token::GreaterThan => 31,
        Token::Equals => 32,
        Token::NotEquals => 33,
        Token::Arrow => 34,
        Token::Dot => 35,
        Token::At => 36,
        Token::CoordLiteral => 37,
        Token::Eof => 38,
    }
}

/// Parser over a lexed token stream.
pub struct Parser<'a> {
    tokens: &'a Vec<SpannedToken>,
    current: usize,
}

impl<'a> Parser<'a> {
    /// The stream is non-empty, ends with `Eof`, holds `Eof` nowhere else,
    /// and the cursor never moves past the final `Eof`.
    pub closed spec fn wf(&self) -> bool {
        &&& self.tokens@.len() >= 1
        &&& self.tokens@.last().token is Eof
        &&& (forall|i: int|
            0 <= i < self.tokens@.len() - 1 ==> !((#[trigger] self.tokens@[i]).token is Eof))
        &&& self.current < self.tokens@.len()
    }

    /// The remaining input, for termination measures.
    pub closed spec fn remaining(&self) -> int {
        self.tokens@.len() - self.current
    }

    /// Create a new parser over a token stream that ends with `Eof` and
    /// holds `Eof` nowhere else, as the lexer produces.
    pub fn new(tokens: &'a Vec<SpannedToken>) -> (p: Parser<'a>)
        requires
            tokens@.len() >= 1,
            tokens@.last().token is Eof,
            forall|i: int| 0 <= i < tokens@.len() - 1 ==> !((#[trigger] tokens@[i]).token is Eof),
        ensures
            p.wf(),
    {
        Parser { tokens, current: 0 }
    }

    fn kind_at(&self) -> (k: u32)
        requires
            self.wf(),
        ensures
            k as int == token_kind(self.tokens@[self.current as int].token),
    {
        kind_of(&self.tokens[self.current].token)
    }

    fn kind_n_is(&self, offset: usize, k: u32) -> (r: bool)
        requires
            self.wf(),
        ensures
            r == (self.current + offset < self.tokens@.len() && token_kind(
                self.tokens@[self.current + offset].token,
            ) == k as int),
    {
        if offset < self.tokens.len() - self.current {
            kind_of(&self.tokens[self.current + offset].token) == k
        } else {
            false
        }
    }

    fn is_at_end(&self) -> (r: bool)
        requires
            self.wf(),
        ensures
            r == (self.tokens@[self.current as int].token is Eof),
    {
        self.kind_at() == 38
    }

    /// Advance past the current token, unless it is the final `Eof`.
    fn advance(&mut self)
        requires
            old(self).wf(),
        ensures
            final(self).wf(),
            final(self).tokens == old(self).tokens,
            old(self).tokens@[old(self).current as int].token is Eof ==> final(self).current
                == old(self).current,
            !(old(self).tokens@[old(self).current as int].token is Eof) ==> final(self).current
                == old(self).current + 1,
    {
        if !self.is_at_end() {
            let n = self.tokens.len();
            proof {
                if self.current == n - 1 {
                    assert(self.tokens@.last() == self.tokens@[self.current as int]);
                }
                assert(self.current < n - 1);
            }
            self.current = self.current + 1;
        }
    }

    /// Whether the current token has the same kind as `expected`.
    fn check(&self, expected: &Token) -> (r: bool)
        requires
            self.wf(),
        ensures
            r == (token_kind(self.tokens@[self.current as int].token) == token_kind(*expected)),
    {
        self.kind_at() == kind_of(expected)
    }

    /// Consume the current token when it has the expected kind.
    fn consume_if(&mut self, expected: &Token) -> (r: bool)
        requires
            old(self).wf(),
            !(*expected is Eof),
        ensures
            final(self).wf(),
            final(self).tokens == old(self).tokens,
            r ==> final(self).current == old(self).current + 1,
            !r ==> *final(self) == *old(self),
            r == (token_kind(old(self).tokens@[old(self).current as int].token) == token_kind(
                *expected,
            )),
    {
        if self.check(expected) {
            self.advance();
            true
        } else {
            false
        }
    }

    /// Consume a token of the expected kind, or report an error.
    fn consume(&mut self, expected: &Token, message: &str) -> (r: Result<(), DiagnosticError>)
        requires
            old(self).wf(),
            !(*expected is Eof),
        ensures
            final(self).wf(),
            final(self).tokens == old(self).tokens,
            r is Ok ==> final(self).current == old(self).current + 1,
            r is Err ==> *final(self) == *old(self),
    {
        if self.consume_if(expected) {
            Ok(())
        } else {
            Err(DiagnosticError::general(message, SourceLocation::dummy()))
        }
    }

    /// Consume an identifier and return its name, or report an error.
    fn consume_identifier(&mut self, message: &str) -> (r: Result<String, DiagnosticError>)
        requires
            old(self).wf(),
        ensures
            final(self).wf(),
            final(self).tokens == old(self).tokens,
            r is Ok ==> final(self).current == old(self).current + 1,
            r is Err ==> *final(self) == *old(self),
    {
        match &self.tokens[self.current].token {
            Token::Identifier(name) => {
                let name = name.clone();
                self.advance();
                Ok(name)
            },
            _ => Err(DiagnosticError::general(message, SourceLocation::dummy())),
        }
    }

    /// The current identifier's name equals `word`, without consuming.
    fn at_word(&self, word: &str) -> (r: bool)
        requires
            self.wf(),
    {
        match &self.tokens[self.current].token {
            Token::Identifier(name) => str_eq(name.as_str(), word),
            _ => false,
        }
    }

    /// Skip a balanced `{ ... }` block; the cursor must be at the opening
    /// brace.
    fn skip_balanced_braces(&mut self)
        requires
            old(self).wf(),
            token_kind(old(self).tokens@[old(self).current as int].token) == 17,
        ensures
            final(self).wf(),
            final(self).tokens == old(self).tokens,
            final(self).current > old(self).current,
    {
        self.advance();
        let mut depth: usize = 1;
        while depth > 0 && !self.is_at_end()
            invariant
                self.wf(),
                self.tokens == old(self).tokens,
                self.current > old(self).current,
                depth <= self.current,
            decreases self.remaining(),
        {
            let k = self.kind_at();
            self.advance();
            if k == 17 {
                depth += 1;
            } else if k == 18 {
                depth -= 1;
            }
        }
    }

    /// Skip the rest of an unrecognized module-level item: everything up to
    /// a top-level semicolon, or a balanced brace block (followed by an
    /// optional semicolon), or the module's closing brace, or the end of
    /// input.
    fn skip_to_item_end(&mut self)
        requires
            old(self).wf(),
        ensures
            final(self).wf(),
            final(self).tokens == old(self).tokens,
            final(self).current >= old(self).current,
    {
        loop
            invariant
                self.wf(),
                self.tokens == old(self).tokens,
                self.current >= old(self).current,
            decreases self.remaining(),
        {
            let k = self.kind_at();
            if k == 38 || k == 18 {
                // End of input or the enclosing closing brace.
                return ;
            } else if k == 22 {
                self.advance();
                return ;
            } else if k == 17 {
                self.skip_balanced_braces();
                let _ = self.consume_if(&Token::Semicolon);
                return ;
            } else {
                self.advance();
            }
        }
    }

    /// Skip the rest of an unrecognized or partially parsed statement:
    /// everything up to a top-level semicolon (consumed) or the enclosing
    /// closing brace or end of input (left in place), tracking nested
    /// braces.
    fn skip_to_statement_end(&mut self)
        requires
            old(self).wf(),
        ensures
            final(self).wf(),
            final(self).tokens == old(self).tokens,
            final(self).current >= old(self).current,
            final(self).current == old(self).current ==> token_kind(
                old(self).tokens@[old(self).current as int].token,
            ) == 18 || token_kind(old(self).tokens@[old(self).current as int].token) == 38,
    {
        loop
            invariant
                self.wf(),
                self.tokens == old(self).tokens,
                self.current >= old(self).current,
                self.current == old(self).current ==> self.wf(),
            decreases self.remaining(),
        {
            let k = self.kind_at();
            if k == 38 || k == 18 {
                return ;
            } else if k == 22 {
                self.advance();
                return ;
            } else if k == 17 {
                self.skip_balanced_braces();
            } else {
                self.advance();
            }
        }
    }

    /// Skip tokens until an opening brace, the enclosing closing brace, a
    /// semicolon, or the end of input; used for loop headers and bare
    /// conditions.
    fn skip_to_lbrace(&mut self)
        requires
            old(self).wf(),
        ensures
            final(self).wf(),
            final(self).tokens == old(self).tokens,
            final(self).current >= old(self).current,
    {
        loop
            invariant
                self.wf(),
                self.tokens == old(self).tokens,
                self.current >= old(self).current,
            decreases self.remaining(),
        {
            let k = self.kind_at();
            if k == 38 || k == 18 || k == 17 || k == 22 {
                return ;
            }
            self.advance();
        }
    }

    /// Skip a balanced `< ... >` group; the cursor must be at the opening
    /// angle bracket.
    fn skip_balanced_angles(&mut self)
        requires
            old(self).wf(),
            token_kind(old(self).tokens@[old(self).current as int].token) == 30,
        ensures
            final(self).wf(),
            final(self).tokens == old(self).tokens,
            final(self).current > old(self).current,
    {
        self.advance();
        let mut depth: usize = 1;
        while depth > 0 && !self.is_at_end()
            invariant
                self.wf(),
                self.tokens == old(self).tokens,
                self.current > old(self).current,
                depth <= self.current,
            decreases self.remaining(),
        {
            let k = self.kind_at();
            if k == 22 || k == 17 || k == 18 {
                // A generic argument list never spans statements or blocks;
                // treat this as the end of the malformed group.
                return ;
            }
            self.advance();
            if k == 30 {
                depth += 1;
            } else if k == 31 {
                depth -= 1;
            }
        }
    }

    /// Parse a type, tolerantly: primitive and named types, ownership
    /// markers, generic argument groups, bounded array forms, and
    /// coordinate types.
    fn parse_type(&mut self) -> (r: Result<Type, DiagnosticError>)
        requires
            old(self).wf(),
        ensures
            final(self).wf(),
            final(self).tokens == old(self).tokens,
            final(self).current >= old(self).current,
        decreases self.remaining(), 20int,
    {
        let k = self.kind_at();
        if k == 0 {
            if self.at_word("owned") || self.at_word("shared") || self.at_word("mut") {
                // Ownership markers wrap the underlying type.
                self.advance();
                return self.parse_type();
            }
            let name = match self.consume_identifier("Expected type specification") {
                Ok(n) => n,
                Err(e) => {
                    return Err(e);
                },
            };
            // A generic argument group is part of the type.
            if self.check(&Token::LessThan) {
                self.skip_balanced_angles();
            }
            let ty = if str_eq(name.as_str(), "Int") || str_eq(name.as_str(), "int") {
                Type::Int
            } else if str_eq(name.as_str(), "String") || str_eq(name.as_str(), "string") {
                Type::String
            } else if str_eq(name.as_str(), "Bool") || str_eq(name.as_str(), "bool") {
                Type::Bool
            } else if str_eq(name.as_str(), "Coord") || str_eq(name.as_str(), "coord") {
                Type::Coord
            } else {
                Type::Named(name)
            };
            Ok(ty)
        } else if k == 37 {
            // A coordinate literal in type position denotes the coordinate
            // type.
            self.advance();
            Ok(Type::Coord)
        } else if k == 30 {
            // A typed coordinate form such as `<x: int, y: int, z: int>`.
            self.skip_balanced_angles();
            Ok(Type::Coord)
        } else if k == 19 {
            // A bounded array form: `[n] of T`. The size expression is a
            // handful of tokens at most; the cap keeps a missing closing
            // bracket from consuming the rest of the input.
            self.advance();
            let mut guard: usize = 0;
            while !self.is_at_end() && !self.check(&Token::RBracket) && guard < 16
                invariant
                    self.wf(),
                    self.tokens == old(self).tokens,
                    self.current >= old(self).current,
                decreases self.remaining(),
            {
                self.advance();
                guard += 1;
            }
            let _ = self.consume_if(&Token::RBracket);
            if self.at_word("of") {
                self.advance();
                return self.parse_type();
            }
            Ok(Type::Named(String::from_str("array")))
        } else {
            Err(DiagnosticError::general("Expected type specification", SourceLocation::dummy()))
        }
    }

    /// Parse a primary expression. An unrecognized token is not consumed:
    /// the expression defaults to the integer 0 and the caller's
    /// statement-level recovery skips the rest.
    fn parse_primary(&mut self) -> (r: Expression)
        requires
            old(self).wf(),
        ensures
            final(self).wf(),
            final(self).tokens == old(self).tokens,
            final(self).current >= old(self).current,
        decreases self.remaining(), 2int,
    {
        let k = self.kind_at();
        if k == 1 {
            let value = match &self.tokens[self.current].token {
                Token::Integer(v) => *v,
                _ => 0,
            };
            self.advance();
            Expression::Integer(value)
        } else if k == 2 {
            let value = match &self.tokens[self.current].token {
                Token::Boolean(v) => *v,
                _ => false,
            };
            self.advance();
            Expression::Boolean(value)
        } else if k == 3 {
            let value = match &self.tokens[self.current].token {
                Token::String(v) => v.clone(),
                _ => String::new(),
            };
            self.advance();
            Expression::String(value)
        } else if k == 0 {
            let mut identifier = match self.consume_identifier("Expected identifier") {
                Ok(n) => n,
                Err(_) => String::new(),
            };
            // `this.<field>` lowers to the field identifier.
            if str_eq(identifier.as_str(), "this") && self.consume_if(&Token::Dot) {
                identifier = match self.consume_identifier("Expected field name") {
                    Ok(n) => n,
                    Err(_) => identifier,
                };
            }
            let expr = Expression::Identifier(identifier);
            // Call expression.
            if self.consume_if(&Token::LParen) {
                let arguments = self.parse_expression_list();
                return Expression::Call { function: Box::new(expr), arguments };
            }
            expr
        } else if k == 37 {
            self.advance();
            Expression::CoordLiteral
        } else if k == 15 {
            self.advance();
            let expr = self.parse_expression();
            let _ = self.consume_if(&Token::RParen);
            expr
        } else {
            Expression::Integer(0)
        }
    }

    /// Parse a unary expression: negation and logical not.
    fn parse_unary(&mut self) -> (r: Expression)
        requires
            old(self).wf(),
        ensures
            final(self).wf(),
            final(self).tokens == old(self).tokens,
            final(self).current >= old(self).current,
        decreases self.remaining(), 4int,
    {
        if self.consume_if(&Token::Bang) {
            // Minimal semantics: parse and discard the not operator.
            return self.parse_unary();
        }
        if self.consume_if(&Token::Minus) {
            let expr = self.parse_unary();
            return match expr {
                Expression::Integer(i) => {
                    if i == i64::MIN {
                        Expression::Integer(i)
                    } else {
                        Expression::Integer(-i)
                    }
                },
                other => Expression::Subtract {
                    left: Box::new(Expression::Integer(0)),
                    right: Box::new(other),
                },
            };
        }
        self.parse_primary()
    }

    /// Parse a multiplicative expression.
    fn parse_factor(&mut self) -> (r: Expression)
        requires
            old(self).wf(),
        ensures
            final(self).wf(),
            final(self).tokens == old(self).tokens,
            final(self).current >= old(self).current,
        decreases self.remaining(), 6int,
    {
        let mut expr = self.parse_unary();
        while self.check(&Token::Star) || self.check(&Token::Slash)
            invariant
                self.wf(),
                self.tokens == old(self).tokens,
                self.current >= old(self).current,
            decreases self.remaining(),
        {
            if self.consume_if(&Token::Star) {
                let right = self.parse_unary();
                expr = Expression::Multiply { left: Box::new(expr), right: Box::new(right) };
            } else if self.consume_if(&Token::Slash) {
                let right = self.parse_unary();
                expr = Expression::Divide { left: Box::new(expr), right: Box::new(right) };
            }
        }
        expr
    }

    /// Parse an additive expression.
    fn parse_term(&mut self) -> (r: Expression)
        requires
            old(self).wf(),
        ensures
            final(self).wf(),
            final(self).tokens == old(self).tokens,
            final(self).current >= old(self).current,
        decreases self.remaining(), 8int,
    {
        let mut expr = self.parse_factor();
        while self.check(&Token::Plus) || self.check(&Token::Minus)
            invariant
                self.wf(),
                self.tokens == old(self).tokens,
                self.current >= old(self).current,
            decreases self.remaining(),
        {
            if self.consume_if(&Token::Plus) {
                let right = self.parse_factor();
                expr = Expression::Add { left: Box::new(expr), right: Box::new(right) };
            } else if self.consume_if(&Token::Minus) {
                let right = self.parse_factor();
                expr = Expression::Subtract { left: Box::new(expr), right: Box::new(right) };
            }
        }
        expr
    }

    /// Parse an expression.
    fn parse_expression(&mut self) -> (r: Expression)
        requires
            old(self).wf(),
        ensures
            final(self).wf(),
            final(self).tokens == old(self).tokens,
            final(self).current >= old(self).current,
        decreases self.remaining(), 10int,
    {
        self.parse_term()
    }

    /// Parse a call's argument list, up to the closing parenthesis.
    fn parse_expression_list(&mut self) -> (r: Vec<Expression>)
        requires
            old(self).wf(),
        ensures
            final(self).wf(),
            final(self).tokens == old(self).tokens,
            final(self).current >= old(self).current,
        decreases self.remaining(), 12int,
    {
        let mut expressions: Vec<Expression> = Vec::new();
        if !self.check(&Token::RParen) {
            loop
                invariant
                    self.wf(),
                    self.tokens == old(self).tokens,
                    self.current >= old(self).current,
                decreases self.remaining(),
            {
                let e = self.parse_expression();
                expressions.push(e);
                if self.consume_if(&Token::Comma) {
                    if self.check(&Token::RParen) {
                        break ;
                    }
                    // Progress is guaranteed by the consumed comma.
                    continue ;
                }
                break ;
            }
        }
        // Scan to the closing parenthesis, tracking nesting; stop early at
        // statement or block boundaries for safety on malformed input.
        let mut depth: usize = 0;
        loop
            invariant
                self.wf(),
                self.tokens == old(self).tokens,
                self.current >= old(self).current,
                depth <= self.current,
            decreases self.remaining(),
        {
            let k = self.kind_at();
            if k == 38 {
                return expressions;
            } else if k == 16 {
                if depth == 0 {
                    self.advance();
                    return expressions;
                }
                depth -= 1;
                self.advance();
            } else if k == 15 {
                self.advance();
                depth += 1;
            } else if depth == 0 && (k == 22 || k == 17 || k == 18) {
                return expressions;
            } else {
                self.advance();
            }
        }
    }

    /// Recognize `this.field = expr;` and `name = expr;` assignment forms,
    /// both lowered to a binding of the assigned name.
    fn try_parse_assignment_statement(&mut self) -> (r: Option<Statement>)
        requires
            old(self).wf(),
        ensures
            final(self).wf(),
            final(self).tokens == old(self).tokens,
            final(self).current >= old(self).current,
            r is Some ==> final(self).current > old(self).current,
            r is None ==> final(self).current == old(self).current,
        decreases self.remaining(), 14int,
    {
        // this.field = expr;
        if self.at_word("this") {
            if self.kind_n_is(1, 35) && self.kind_n_is(2, 0) && self.kind_n_is(3, 24) {
                self.advance();  // this
                let _ = self.consume_if(&Token::Dot);
                let field = match self.consume_identifier("Expected field name") {
                    Ok(n) => n,
                    Err(_) => String::new(),
                };
                let _ = self.consume_if(&Token::Assign);
                let value = self.parse_expression();
                self.skip_to_statement_end();
                return Some(Statement::Let { pattern: Pattern::Identifier(field), value });
            }
        }
        // name = expr;
        if self.kind_at() == 0 && self.kind_n_is(1, 24) {
            let name = match self.consume_identifier("Expected assignment target") {
                Ok(n) => n,
                Err(_) => String::new(),
            };
            let _ = self.consume_if(&Token::Assign);
            let value = self.parse_expression();
            self.skip_to_statement_end();
            return Some(Statement::Let { pattern: Pattern::Identifier(name), value });
        }
        None
    }

    /// Parse an `if` statement (optionally parenthesized condition, optional
    /// `else`/`else if` chain) into the flattened statements of its branch
    /// blocks.
    fn parse_if_statement_to_statements(&mut self) -> (r: Vec<Statement>)
        requires
            old(self).wf(),
            token_kind(old(self).tokens@[old(self).current as int].token) == 10,
        ensures
            final(self).wf(),
            final(self).tokens == old(self).tokens,
            final(self).current > old(self).current,
        decreases self.remaining(), 14int,
    {
        self.advance();  // if
        if self.consume_if(&Token::LParen) {
            let _condition = self.parse_expression();
            let _ = self.consume_if(&Token::RParen);
        } else {
            let _condition = self.parse_expression();
        }
        // Whatever is left of the condition runs to the branch block.
        self.skip_to_lbrace();
        let then_block = self.parse_block_expression();
        let mut statements = then_block.statements;
        if self.consume_if(&Token::Else) {
            if self.check(&Token::If) {
                let mut else_branch = self.parse_if_statement_to_statements();
                statements.append(&mut else_branch);
            } else {
                let mut else_block = self.parse_block_expression().statements;
                statements.append(&mut else_block);
            }
        }
        statements
    }

    /// Parse one statement, tolerantly: bindings, returns, control flow
    /// (with branch bodies flattened), assignments, and expression
    /// statements. Unrecognized content is skipped to the end of the
    /// statement.
    fn parse_statement(&mut self) -> (r: Statement)
        requires
            old(self).wf(),
        ensures
            final(self).wf(),
            final(self).tokens == old(self).tokens,
            final(self).current >= old(self).current,
            final(self).current == old(self).current ==> token_kind(
                old(self).tokens@[old(self).current as int].token,
            ) == 18 || token_kind(old(self).tokens@[old(self).current as int].token) == 38,
        decreases self.remaining(), 16int,
    {
        let k = self.kind_at();
        if k == 9 {
            // let name [: type] = expr;
            self.advance();
            let pattern = match self.consume_identifier("Expected pattern") {
                Ok(n) => Pattern::Identifier(n),
                Err(_) => Pattern::Identifier(String::new()),
            };
            if self.consume_if(&Token::Colon) {
                let _ = self.parse_type();
            }
            let _ = self.consume_if(&Token::Assign);
            let value = self.parse_expression();
            self.skip_to_statement_end();
            Statement::Let { pattern, value }
        } else if k == 14 {
            // return [expr];
            self.advance();
            let value = if !self.check(&Token::Semicolon) && !self.check(&Token::RBrace)
                && !self.is_at_end() {
                Some(self.parse_expression())
            } else {
                None
            };
            self.skip_to_statement_end();
            Statement::Return(value)
        } else if k == 10 {
            let merged = self.parse_if_statement_to_statements();
            Statement::Expression(Expression::Block { statements: merged })
        } else if k == 12 || k == 13 {
            // while/for loops: the header is skipped, the body's statements
            // are flattened into a block expression.
            self.advance();
            self.skip_to_lbrace();
            if self.check(&Token::LBrace) {
                let body = self.parse_block_expression();
                Statement::Expression(Expression::Block { statements: body.statements })
            } else {
                self.skip_to_statement_end();
                Statement::Expression(Expression::Block { statements: Vec::new() })
            }
        } else {
            match self.try_parse_assignment_statement() {
                Some(stmt) => stmt,
                None => {
                    let expr = self.parse_expression();
                    self.skip_to_statement_end();
                    Statement::Expression(expr)
                },
            }
        }
    }

    /// Parse a braced block of statements.
    fn parse_block_expression(&mut self) -> (r: BlockExpression)
        requires
            old(self).wf(),
        ensures
            final(self).wf(),
            final(self).tokens == old(self).tokens,
            final(self).current >= old(self).current,
        decreases self.remaining(), 18int,
    {
        let mut statements: Vec<Statement> = Vec::new();
        if !self.consume_if(&Token::LBrace) {
            return BlockExpression { statements, result: None };
        }
        while !self.check(&Token::RBrace) && !self.is_at_end()
            invariant
                self.wf(),
                self.tokens == old(self).tokens,
                self.current >= old(self).current,
            decreases self.remaining(),
        {
            let stmt = self.parse_statement();
            statements.push(stmt);
        }
        let _ = self.consume_if(&Token::RBrace);
        BlockExpression { statements, result: None }
    }

    /// Parse a method's parameter list, return type, and body; the cursor
    /// is just past the method's name.
    fn parse_method_tail(&mut self, name: String) -> (r: FunctionDefinition)
        requires
            old(self).wf(),
        ensures
            final(self).wf(),
            final(self).tokens == old(self).tokens,
            final(self).current >= old(self).current,
        decreases self.remaining(), 24int,
    {
        let mut parameters: Vec<FunctionParameter> = Vec::new();
        if self.consume_if(&Token::LParen) {
            while !self.check(&Token::RParen) && !self.is_at_end()
                invariant
                    self.wf(),
                    self.tokens == old(self).tokens,
                    self.current >= old(self).current,
                decreases self.remaining(),
            {
                let before = self.current;
                if self.kind_at() == 0 && self.kind_n_is(1, 23) {
                    let pname = match self.consume_identifier("Expected parameter name") {
                        Ok(n) => n,
                        Err(_) => String::new(),
                    };
                    let _ = self.consume_if(&Token::Colon);
                    let ptype = match self.parse_type() {
                        Ok(t) => t,
                        Err(_) => Type::Named(String::from_str("unknown")),
                    };
                    parameters.push(FunctionParameter { name: pname, param_type: ptype });
                    let _ = self.consume_if(&Token::Comma);
                } else {
                    self.advance();
                }
                if self.current == before {
                    self.advance();
                }
            }
            let _ = self.consume_if(&Token::RParen);
        }
        // Return type: either `=>` or `->`.
        let return_type = if self.consume_if(&Token::Arrow) {
            match self.parse_type() {
                Ok(t) => Some(t),
                Err(_) => None,
            }
        } else if self.kind_at() == 26 && self.kind_n_is(1, 31) {
            self.advance();
            self.advance();
            match self.parse_type() {
                Ok(t) => Some(t),
                Err(_) => None,
            }
        } else {
            None
        };
        let body = self.parse_block_expression();
        FunctionDefinition { name, parameters, return_type, body }
    }

    /// Parse a field declaration: `name: Type`.
    fn parse_field_declaration(&mut self) -> (r: Result<FieldDeclaration, DiagnosticError>)
        requires
            old(self).wf(),
        ensures
            final(self).wf(),
            final(self).tokens == old(self).tokens,
            final(self).current >= old(self).current,
            r is Ok ==> final(self).current > old(self).current,
        decreases self.remaining(), 22int,
    {
        let name = match self.consume_identifier("Expected field name") {
            Ok(n) => n,
            Err(e) => {
                return Err(e);
            },
        };
        if let Err(e) = self.consume(&Token::Colon, "Expected ':' after field name") {
            return Err(e);
        }
        let field_type = match self.parse_type() {
            Ok(t) => t,
            Err(_) => Type::Named(String::from_str("unknown")),
        };
        Ok(FieldDeclaration { name, field_type })
    }

    fn consume_optional_field_separator(&mut self)
        requires
            old(self).wf(),
        ensures
            final(self).wf(),
            final(self).tokens == old(self).tokens,
            final(self).current >= old(self).current,
    {
        if self.check(&Token::Comma) || self.check(&Token::Semicolon) {
            self.advance();
        }
    }

    /// Parse a constant declaration: `const NAME = expr;`.
    fn parse_constant(&mut self) -> (r: Result<ConstantDeclaration, DiagnosticError>)
        requires
            old(self).wf(),
            token_kind(old(self).tokens@[old(self).current as int].token) == 7,
        ensures
            final(self).wf(),
            final(self).tokens == old(self).tokens,
            final(self).current > old(self).current,
        decreases self.remaining(), 24int,
    {
        self.advance();  // const
        let name = match self.consume_identifier("Expected constant name") {
            Ok(n) => n,
            Err(e) => {
                return Err(e);
            },
        };
        let _ = self.consume_if(&Token::Assign);
        let value = self.parse_expression();
        self.skip_to_statement_end();
        Ok(ConstantDeclaration { name, value })
    }

    /// Parse an event definition with its field declarations.
    fn parse_event(&mut self) -> (r: Result<EventDefinition, DiagnosticError>)
        requires
            old(self).wf(),
            token_kind(old(self).tokens@[old(self).current as int].token) == 6,
        ensures
            final(self).wf(),
            final(self).tokens == old(self).tokens,
            final(self).current > old(self).current,
        decreases self.remaining(), 24int,
    {
        self.advance();  // event
        let name = match self.consume_identifier("Expected event name") {
            Ok(n) => n,
            Err(e) => {
                return Err(e);
            },
        };
        if let Err(e) = self.consume(&Token::LBrace, "Expected '{' after event name") {
            return Err(e);
        }
        let mut fields: Vec<FieldDeclaration> = Vec::new();
        while !self.check(&Token::RBrace) && !self.is_at_end()
            invariant
                self.wf(),
                self.tokens == old(self).tokens,
                self.current > old(self).current,
            decreases self.remaining(),
        {
            if self.kind_at() == 0 && self.kind_n_is(1, 23) {
                match self.parse_field_declaration() {
                    Ok(f) => {
                        fields.push(f);
                    },
                    Err(_) => {
                        self.advance();
                    },
                }
                self.consume_optional_field_separator();
            } else {
                self.advance();
            }
        }
        let _ = self.consume_if(&Token::RBrace);
        Ok(EventDefinition { name, fields })
    }

    /// Parse a process definition: field declarations and methods
    /// (introduced by `fn`, `method`, or `handle`).
    fn parse_process(&mut self) -> (r: Result<ProcessDefinition, DiagnosticError>)
        requires
            old(self).wf(),
            token_kind(old(self).tokens@[old(self).current as int].token) == 5,
        ensures
            final(self).wf(),
            final(self).tokens == old(self).tokens,
            final(self).current > old(self).current,
        decreases self.remaining(), 26int,
    {
        self.advance();  // process
        let name = match self.consume_identifier("Expected process name") {
            Ok(n) => n,
            Err(e) => {
                return Err(e);
            },
        };
        if let Err(e) = self.consume(&Token::LBrace, "Expected '{' after process name") {
            return Err(e);
        }
        let mut fields: Vec<FieldDeclaration> = Vec::new();
        let mut methods: Vec<FunctionDefinition> = Vec::new();
        while !self.check(&Token::RBrace) && !self.is_at_end()
            invariant
                self.wf(),
                self.tokens == old(self).tokens,
                self.current > old(self).current,
            decreases self.remaining(),
        {
            let k = self.kind_at();
            if k == 8 {
                // fn name(...) ...
                self.advance();
                let mname = match self.consume_identifier("Expected method name") {
                    Ok(n) => n,
                    Err(_) => String::new(),
                };
                let m = self.parse_method_tail(mname);
                methods.push(m);
            } else if self.at_word("method") && self.kind_n_is(1, 0) {
                self.advance();
                let mname = match self.consume_identifier("Expected method name") {
                    Ok(n) => n,
                    Err(_) => String::new(),
                };
                let m = self.parse_method_tail(mname);
                methods.push(m);
            } else if self.at_word("handle") && self.kind_n_is(1, 0) && self.kind_n_is(2, 15) {
                // `handle EventName(...)` lowers to a method named
                // `handle_EventName`.
                self.advance();
                let tname = match self.consume_identifier("Expected event name") {
                    Ok(n) => n,
                    Err(_) => String::new(),
                };
                let mname = String::from_str("handle_").concat(tname.as_str());
                let m = self.parse_method_tail(mname);
                methods.push(m);
            } else if k == 0 && self.kind_n_is(1, 23) {
                match self.parse_field_declaration() {
                    Ok(f) => {
                        fields.push(f);
                    },
                    Err(_) => {
                        self.advance();
                    },
                }
                self.consume_optional_field_separator();
            } else if k == 21 || k == 22 {
                self.advance();
            } else {
                self.advance();
                self.skip_to_item_end();
            }
        }
        let _ = self.consume_if(&Token::RBrace);
        Ok(ProcessDefinition { name, fields, methods })
    }

    /// Parse a module: constants, processes, and events; other module items
    /// are skipped.
    fn parse_module(&mut self) -> (r: Result<Module, DiagnosticError>)
        requires
            old(self).wf(),
            token_kind(old(self).tokens@[old(self).current as int].token) == 4,
        ensures
            final(self).wf(),
            final(self).tokens == old(self).tokens,
            final(self).current > old(self).current,
        decreases self.remaining(), 28int,
    {
        self.advance();  // module
        let name = match self.consume_identifier("Expected module name") {
            Ok(n) => n,
            Err(e) => {
                return Err(e);
            },
        };
        if let Err(e) = self.consume(&Token::LBrace, "Expected '{' after module name") {
            return Err(e);
        }
        let mut constants: Vec<ConstantDeclaration> = Vec::new();
        let mut processes: Vec<ProcessDefinition> = Vec::new();
        let mut events: Vec<EventDefinition> = Vec::new();
        while !self.check(&Token::RBrace) && !self.is_at_end()
            invariant
                self.wf(),
                self.tokens == old(self).tokens,
                self.current > old(self).current,
            decreases self.remaining(),
        {
            let k = self.kind_at();
            if k == 7 {
                match self.parse_constant() {
                    Ok(c) => {
                        constants.push(c);
                    },
                    Err(e) => {
                        return Err(e);
                    },
                }
            } else if k == 5 {
                match self.parse_process() {
                    Ok(p) => {
                        processes.push(p);
                    },
                    Err(e) => {
                        return Err(e);
                    },
                }
            } else if k == 6 {
                match self.parse_event() {
                    Ok(ev) => {
                        events.push(ev);
                    },
                    Err(e) => {
                        return Err(e);
                    },
                }
            } else {
                // An unsupported module item (imports, type aliases, enums,
                // free functions): skip it whole.
                self.advance();
                self.skip_to_item_end();
            }
        }
        let _ = self.consume_if(&Token::RBrace);
        Ok(Module { name, constants, processes, events })
    }

    /// Parse the complete program: every top-level item must be a module.
    pub fn parse_program(&mut self) -> (r: Result<Program, DiagnosticError>)
        requires
            old(self).wf(),
    {
        let mut modules: Vec<Module> = Vec::new();
        while !self.is_at_end()
            invariant
                self.wf(),
            decreases self.remaining(),
        {
            if self.check(&Token::Module) {
                match self.parse_module() {
                    Ok(m) => {
                        modules.push(m);
                    },
                    Err(e) => {
                        return Err(e);
                    },
                }
            } else {
                return Err(
                    DiagnosticError::general("Expected 'module'", SourceLocation::dummy()),
                );
            }
        }
        Ok(Program { modules })
    }
}

/// Parse a lexed token stream into a program.
pub fn parse_program(tokens: &Vec<SpannedToken>) -> (r: Result<Program, DiagnosticError>)
    requires
        tokens@.len() >= 1,
        tokens@.last().token is Eof,
        forall|i: int| 0 <= i < tokens@.len() - 1 ==> !((#[trigger] tokens@[i]).token is Eof),
{
    let mut parser = Parser::new(tokens);
    parser.parse_program()
}

} // verus!
