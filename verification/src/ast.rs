//! Abstract syntax tree for Grey programs.

use vstd::prelude::*;

verus! {

/// Source location information.
#[derive(Debug, Clone, Copy)]
pub struct SourceLocation {
    pub line: usize,
    pub column: usize,
    /// Byte positions in the source.
    pub span: (usize, usize),
}

/// Expressions.
#[derive(Debug)]
pub enum Expression {
    Integer(i64),
    Boolean(bool),
    String(String),
    Identifier(String),
    CoordLiteral,
    Add { left: Box<Expression>, right: Box<Expression> },
    Subtract { left: Box<Expression>, right: Box<Expression> },
    Multiply { left: Box<Expression>, right: Box<Expression> },
    Divide { left: Box<Expression>, right: Box<Expression> },
    Call { function: Box<Expression>, arguments: Vec<Expression> },
    Block { statements: Vec<Statement> },
}

/// Statements.
#[derive(Debug)]
pub enum Statement {
    Expression(Expression),
    Let { pattern: Pattern, value: Expression },
    Return(Option<Expression>),
}

/// Patterns for destructuring.
#[derive(Debug, Clone)]
pub enum Pattern {
    Identifier(String),
}

/// Block expression.
#[derive(Debug)]
pub struct BlockExpression {
    pub statements: Vec<Statement>,
    pub result: Option<Box<Expression>>,
}

/// Type representations.
#[derive(Debug, Clone, PartialEq)]
pub enum Type {
    Int,
    String,
    Bool,
    Coord,
    Named(String),
}

/// Constant declaration.
#[derive(Debug, Clone)]
pub struct ConstantDeclaration {
    pub name: String,
    pub value: Expression,
}

/// Field declaration in a process or event.
#[derive(Debug, Clone)]
pub struct FieldDeclaration {
    pub name: String,
    pub field_type: Type,
}

/// Function parameter.
#[derive(Debug, Clone)]
pub struct FunctionParameter {
    pub name: String,
    pub param_type: Type,
}

/// Function definition.
#[derive(Debug, Clone)]
pub struct FunctionDefinition {
    pub name: String,
    pub parameters: Vec<FunctionParameter>,
    pub return_type: Option<Type>,
    pub body: BlockExpression,
}

/// Event definition.
#[derive(Debug, Clone)]
pub struct EventDefinition {
    pub name: String,
    pub fields: Vec<FieldDeclaration>,
}

/// Process definition.
#[derive(Debug, Clone)]
pub struct ProcessDefinition {
    pub name: String,
    pub fields: Vec<FieldDeclaration>,
    pub methods: Vec<FunctionDefinition>,
}

/// Module definition.
#[derive(Debug, Clone)]
pub struct Module {
    pub name: String,
    pub constants: Vec<ConstantDeclaration>,
    pub processes: Vec<ProcessDefinition>,
    pub events: Vec<EventDefinition>,
}

/// Top-level program structure.
#[derive(Debug, Clone)]
pub struct Program {
    pub modules: Vec<Module>,
}

impl Clone for Expression {
    #[verifier::loop_isolation(false)]
    fn clone(&self) -> Self
        decreases *self,
    {
        match self {
            Expression::Integer(v) => Expression::Integer(*v),
            Expression::Boolean(v) => Expression::Boolean(*v),
            Expression::String(s) => Expression::String(s.clone()),
            Expression::Identifier(s) => Expression::Identifier(s.clone()),
            Expression::CoordLiteral => Expression::CoordLiteral,
            Expression::Add { left, right } => Expression::Add {
                left: Box::new((**left).clone()),
                right: Box::new((**right).clone()),
            },
            Expression::Subtract { left, right } => Expression::Subtract {
                left: Box::new((**left).clone()),
                right: Box::new((**right).clone()),
            },
            Expression::Multiply { left, right } => Expression::Multiply {
                left: Box::new((**left).clone()),
                right: Box::new((**right).clone()),
            },
            Expression::Divide { left, right } => Expression::Divide {
                left: Box::new((**left).clone()),
                right: Box::new((**right).clone()),
            },
            Expression::Call { function, arguments } => {
                let mut args: Vec<Expression> = Vec::new();
                let mut i: usize = 0;
                while i < arguments.len()
                    invariant
                        i <= arguments@.len(),
                    decreases arguments@.len() - i,
                {
                    proof {
                        assert(decreases_to!(*arguments => arguments[i as int]));
                    }
                    args.push(arguments[i].clone());
                    i += 1;
                }
                Expression::Call { function: Box::new((**function).clone()), arguments: args }
            },
            Expression::Block { statements } => {
                let mut stmts: Vec<Statement> = Vec::new();
                let mut i: usize = 0;
                while i < statements.len()
                    invariant
                        i <= statements@.len(),
                    decreases statements@.len() - i,
                {
                    proof {
                        assert(decreases_to!(*statements => statements[i as int]));
                    }
                    stmts.push(statements[i].clone());
                    i += 1;
                }
                Expression::Block { statements: stmts }
            },
        }
    }
}

impl Clone for Statement {
    fn clone(&self) -> Self
        decreases *self,
    {
        match self {
            Statement::Expression(e) => Statement::Expression(e.clone()),
            Statement::Let { pattern, value } => Statement::Let {
                pattern: pattern.clone(),
                value: value.clone(),
            },
            Statement::Return(e) => match e {
                Some(inner) => Statement::Return(Some(inner.clone())),
                None => Statement::Return(None),
            },
        }
    }
}

impl Clone for BlockExpression {
    fn clone(&self) -> Self
        decreases *self,
    {
        let mut stmts: Vec<Statement> = Vec::new();
        let mut i: usize = 0;
        while i < self.statements.len()
            invariant
                i <= self.statements@.len(),
            decreases self.statements@.len() - i,
        {
            stmts.push(self.statements[i].clone());
            i += 1;
        }
        let result = match &self.result {
            Some(e) => Some(Box::new((**e).clone())),
            None => None,
        };
        BlockExpression { statements: stmts, result }
    }
}

} // verus!
