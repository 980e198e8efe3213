//! Type system for Grey: typed AST forms and the type checker.

use vstd::prelude::*;
use crate::ast::{
    BlockExpression, ConstantDeclaration, EventDefinition, Expression, FunctionDefinition, Module,
    Pattern, ProcessDefinition, Program, Statement,
};
use crate::diagnostics::DiagnosticError;

verus! {

/// Type representation for the type system.
#[derive(Debug, Clone, PartialEq, Eq, Hash)]
pub enum Type {
    Int,
    String,
    Bool,
    Coord,
    Named(String),
    Unit,
}

/// The display name of a type.
pub open spec fn spec_type_name(t: Type) -> Seq<char> {
    match t {
        Type::Int => "int"@,
        Type::String => "string"@,
        Type::Bool => "bool"@,
        Type::Coord => "coord"@,
        Type::Named(name) => name@,
        Type::Unit => "()"@,
    }
}

impl Type {
    /// Get the type's name as a string.
    pub fn display_name(&self) -> (r: String)
        ensures
            r@ == spec_type_name(*self),
    {
        match self {
            Type::Int => String::from_str("int"),
            Type::String => String::from_str("string"),
            Type::Bool => String::from_str("bool"),
            Type::Coord => String::from_str("coord"),
            Type::Named(name) => name.clone(),
            Type::Unit => String::from_str("()"),
        }
    }
}

/// Typed expression with its resolved type.
#[derive(Debug, Clone)]
pub struct TypedExpression {
    pub expression: Expression,
    pub type_: Type,
}

/// Typed statement.
#[derive(Debug, Clone)]
pub enum TypedStatement {
    Expression(TypedExpression),
    Let { pattern: Pattern, value: TypedExpression },
    Return(Option<TypedExpression>),
}

/// Typed block expression.
#[derive(Debug, Clone)]
pub struct TypedBlockExpression {
    pub statements: Vec<TypedStatement>,
    pub result: Option<Box<TypedExpression>>,
    pub type_: Type,
}

/// Typed constant declaration.
#[derive(Debug, Clone)]
pub struct TypedConstantDeclaration {
    pub name: String,
    pub value: TypedExpression,
}

/// Typed field declaration.
#[derive(Debug, Clone)]
pub struct TypedFieldDeclaration {
    pub name: String,
    pub field_type: Type,
}

/// Typed function parameter.
#[derive(Debug, Clone)]
pub struct TypedFunctionParameter {
    pub name: String,
    pub param_type: Type,
}

/// Typed function definition.
#[derive(Debug, Clone)]
pub struct TypedFunctionDefinition {
    pub name: String,
    pub parameters: Vec<TypedFunctionParameter>,
    pub return_type: Type,
    pub body: TypedBlockExpression,
}

/// Typed event definition.
#[derive(Debug, Clone)]
pub struct TypedEventDefinition {
    pub name: String,
    pub fields: Vec<TypedFieldDeclaration>,
}

/// Typed process definition.
#[derive(Debug, Clone)]
pub struct TypedProcessDefinition {
    pub name: String,
    pub fields: Vec<TypedFieldDeclaration>,
    pub methods: Vec<TypedFunctionDefinition>,
}

/// Typed module.
#[derive(Debug, Clone)]
pub struct TypedModule {
    pub name: String,
    pub constants: Vec<TypedConstantDeclaration>,
    pub processes: Vec<TypedProcessDefinition>,
    pub events: Vec<TypedEventDefinition>,
}

/// Typed program with all types resolved.
#[derive(Debug, Clone)]
pub struct TypedProgram {
    pub modules: Vec<TypedModule>,
}

/// Type checking context.
pub struct TypeChecker {
    /// Errors encountered during type checking.
    errors: Vec<DiagnosticError>,
}

impl TypeChecker {
    /// Create a new type checker.
    pub fn new() -> (tc: Self) {
        TypeChecker { errors: Vec::new() }
    }

    /// Convert an AST type to a type-system type.
    fn convert_ast_type(&self, ast_type: &crate::ast::Type) -> (r: Type) {
        match ast_type {
            crate::ast::Type::Int => Type::Int,
            crate::ast::Type::String => Type::String,
            crate::ast::Type::Bool => Type::Bool,
            crate::ast::Type::Coord => Type::Coord,
            crate::ast::Type::Named(name) => Type::Named(name.clone()),
        }
    }

    /// Type check an expression. Literals carry their own types; identifier
    /// references, calls, blocks, and arithmetic are given the unit type by
    /// this minimal checker.
    fn check_expression(&mut self, expression: &Expression) -> (r: TypedExpression) {
        match expression {
            Expression::Integer(_) => TypedExpression {
                expression: expression.clone(),
                type_: Type::Int,
            },
            Expression::Boolean(_) => TypedExpression {
                expression: expression.clone(),
                type_: Type::Bool,
            },
            Expression::String(_) => TypedExpression {
                expression: expression.clone(),
                type_: Type::String,
            },
            Expression::Identifier(_) => TypedExpression {
                expression: expression.clone(),
                type_: Type::Unit,
            },
            Expression::CoordLiteral => TypedExpression {
                expression: expression.clone(),
                type_: Type::Coord,
            },
            Expression::Call { .. } => TypedExpression {
                expression: expression.clone(),
                type_: Type::Unit,
            },
            Expression::Block { .. } => TypedExpression {
                expression: expression.clone(),
                type_: Type::Unit,
            },
            Expression::Add { .. } => TypedExpression {
                expression: expression.clone(),
                type_: Type::Unit,
            },
            Expression::Subtract { .. } => TypedExpression {
                expression: expression.clone(),
                type_: Type::Unit,
            },
            Expression::Multiply { .. } => TypedExpression {
                expression: expression.clone(),
                type_: Type::Unit,
            },
            Expression::Divide { .. } => TypedExpression {
                expression: expression.clone(),
                type_: Type::Unit,
            },
        }
    }

    /// Type check a statement.
    fn check_statement(&mut self, statement: &Statement) -> (r: TypedStatement) {
        match statement {
            Statement::Expression(expression) => TypedStatement::Expression(
                self.check_expression(expression),
            ),
            Statement::Let { pattern, value } => TypedStatement::Let {
                pattern: pattern.clone(),
                value: self.check_expression(value),
            },
            Statement::Return(value) => match value {
                Some(v) => TypedStatement::Return(Some(self.check_expression(v))),
                None => TypedStatement::Return(None),
            },
        }
    }

    /// Type check a block expression.
    fn check_block_expression(&mut self, block: &BlockExpression) -> (r: TypedBlockExpression)
        ensures
            r.statements@.len() == block.statements@.len(),
    {
        let mut typed_statements: Vec<TypedStatement> = Vec::new();
        let mut i: usize = 0;
        while i < block.statements.len()
            invariant
                i <= block.statements@.len(),
                typed_statements@.len() == i,
            decreases block.statements@.len() - i,
        {
            let ts = self.check_statement(&block.statements[i]);
            typed_statements.push(ts);
            i += 1;
        }
        let result_type = match &block.result {
            Some(result) => self.check_expression(result),
            None => TypedExpression {
                expression: Expression::Block { statements: Vec::new() },
                type_: Type::Unit,
            },
        };
        let type_ = result_type.type_.clone();
        TypedBlockExpression { statements: typed_statements, result: Some(Box::new(result_type)), type_ }
    }

    /// Type check a constant declaration.
    fn check_constant(&mut self, constant: &ConstantDeclaration) -> (r: TypedConstantDeclaration)
        ensures
            r.name@ == constant.name@,
    {
        let value = self.check_expression(&constant.value);
        TypedConstantDeclaration { name: constant.name.clone(), value }
    }

    /// Type check a function definition.
    fn check_function_definition(&mut self, function: &FunctionDefinition) -> (r:
        TypedFunctionDefinition)
        ensures
            r.name@ == function.name@,
            r.body.statements@.len() == function.body.statements@.len(),
    {
        let mut typed_parameters: Vec<TypedFunctionParameter> = Vec::new();
        let mut i: usize = 0;
        while i < function.parameters.len()
            invariant
                i <= function.parameters@.len(),
            decreases function.parameters@.len() - i,
        {
            let converted = self.convert_ast_type(&function.parameters[i].param_type);
            typed_parameters.push(
                TypedFunctionParameter {
                    name: function.parameters[i].name.clone(),
                    param_type: converted,
                },
            );
            i += 1;
        }
        let return_type = match &function.return_type {
            Some(ret) => self.convert_ast_type(ret),
            None => Type::Unit,
        };
        let body = self.check_block_expression(&function.body);
        TypedFunctionDefinition {
            name: function.name.clone(),
            parameters: typed_parameters,
            return_type,
            body,
        }
    }

    /// Type check an event definition.
    fn check_event(&mut self, event: &EventDefinition) -> (r: TypedEventDefinition)
        ensures
            r.name@ == event.name@,
            r.fields@.len() == event.fields@.len(),
    {
        let mut typed_fields: Vec<TypedFieldDeclaration> = Vec::new();
        let mut i: usize = 0;
        while i < event.fields.len()
            invariant
                i <= event.fields@.len(),
                typed_fields@.len() == i,
            decreases event.fields@.len() - i,
        {
            let ft = self.convert_ast_type(&event.fields[i].field_type);
            typed_fields.push(
                TypedFieldDeclaration { name: event.fields[i].name.clone(), field_type: ft },
            );
            i += 1;
        }
        TypedEventDefinition { name: event.name.clone(), fields: typed_fields }
    }

    /// Type check a process definition.
    fn check_process(&mut self, process: &ProcessDefinition) -> (r: TypedProcessDefinition)
        ensures
            r.name@ == process.name@,
            r.fields@.len() == process.fields@.len(),
            r.methods@.len() == process.methods@.len(),
            forall|i: int|
                0 <= i < r.methods@.len() ==> (#[trigger] r.methods@[i]).name@
                    == process.methods@[i].name@,
    {
        let mut typed_fields: Vec<TypedFieldDeclaration> = Vec::new();
        let mut i: usize = 0;
        while i < process.fields.len()
            invariant
                i <= process.fields@.len(),
                typed_fields@.len() == i,
            decreases process.fields@.len() - i,
        {
            let ft = self.convert_ast_type(&process.fields[i].field_type);
            typed_fields.push(
                TypedFieldDeclaration { name: process.fields[i].name.clone(), field_type: ft },
            );
            i += 1;
        }
        let mut typed_methods: Vec<TypedFunctionDefinition> = Vec::new();
        let mut j: usize = 0;
        while j < process.methods.len()
            invariant
                j <= process.methods@.len(),
                typed_methods@.len() == j,
                forall|k: int|
                    0 <= k < j ==> (#[trigger] typed_methods@[k]).name@
                        == process.methods@[k].name@,
            decreases process.methods@.len() - j,
        {
            let tm = self.check_function_definition(&process.methods[j]);
            typed_methods.push(tm);
            j += 1;
        }
        TypedProcessDefinition {
            name: process.name.clone(),
            fields: typed_fields,
            methods: typed_methods,
        }
    }

    /// Type check a module.
    fn check_module(&mut self, module: &Module) -> (r: TypedModule)
        ensures
            r.name@ == module.name@,
            r.constants@.len() == module.constants@.len(),
            r.processes@.len() == module.processes@.len(),
            r.events@.len() == module.events@.len(),
            forall|i: int|
                0 <= i < r.processes@.len() ==> (#[trigger] r.processes@[i]).name@
                    == module.processes@[i].name@,
            forall|i: int|
                0 <= i < r.events@.len() ==> (#[trigger] r.events@[i]).name@
                    == module.events@[i].name@,
            forall|i: int|
                0 <= i < r.constants@.len() ==> (#[trigger] r.constants@[i]).name@
                    == module.constants@[i].name@,
    {
        let mut typed_constants: Vec<TypedConstantDeclaration> = Vec::new();
        let mut i: usize = 0;
        while i < module.constants.len()
            invariant
                i <= module.constants@.len(),
                typed_constants@.len() == i,
                forall|k: int|
                    0 <= k < i ==> (#[trigger] typed_constants@[k]).name@
                        == module.constants@[k].name@,
            decreases module.constants@.len() - i,
        {
            let tc = self.check_constant(&module.constants[i]);
            typed_constants.push(tc);
            i += 1;
        }
        let mut typed_events: Vec<TypedEventDefinition> = Vec::new();
        let mut j: usize = 0;
        while j < module.events.len()
            invariant
                j <= module.events@.len(),
                typed_events@.len() == j,
                forall|k: int|
                    0 <= k < j ==> (#[trigger] typed_events@[k]).name@ == module.events@[k].name@,
            decreases module.events@.len() - j,
        {
            let te = self.check_event(&module.events[j]);
            typed_events.push(te);
            j += 1;
        }
        let mut typed_processes: Vec<TypedProcessDefinition> = Vec::new();
        let mut p: usize = 0;
        while p < module.processes.len()
            invariant
                p <= module.processes@.len(),
                typed_processes@.len() == p,
                forall|k: int|
                    0 <= k < p ==> (#[trigger] typed_processes@[k]).name@
                        == module.processes@[k].name@,
            decreases module.processes@.len() - p,
        {
            let tp = self.check_process(&module.processes[p]);
            typed_processes.push(tp);
            p += 1;
        }
        TypedModule {
            name: module.name.clone(),
            constants: typed_constants,
            processes: typed_processes,
            events: typed_events,
        }
    }

    /// Type check a complete program. The module structure is preserved:
    /// one typed module per module, with names and the counts of constants,
    /// processes, and events unchanged.
    pub fn check_program(&mut self, program: &Program) -> (r: Result<
        TypedProgram,
        DiagnosticError,
    >)
        ensures
            match r {
                Ok(tp) => {
                    &&& tp.modules@.len() == program.modules@.len()
                    &&& forall|i: int|
                        0 <= i < tp.modules@.len() ==> {
                            &&& (#[trigger] tp.modules@[i]).name@ == program.modules@[i].name@
                            &&& tp.modules@[i].processes@.len()
                                == program.modules@[i].processes@.len()
                            &&& tp.modules@[i].events@.len() == program.modules@[i].events@.len()
                            &&& tp.modules@[i].constants@.len()
                                == program.modules@[i].constants@.len()
                        }
                },
                Err(_) => true,
            },
    {
        self.errors.clear();
        let mut typed_modules: Vec<TypedModule> = Vec::new();
        let mut i: usize = 0;
        while i < program.modules.len()
            invariant
                i <= program.modules@.len(),
                typed_modules@.len() == i,
                forall|k: int|
                    0 <= k < i ==> {
                        &&& (#[trigger] typed_modules@[k]).name@ == program.modules@[k].name@
                        &&& typed_modules@[k].processes@.len()
                            == program.modules@[k].processes@.len()
                        &&& typed_modules@[k].events@.len() == program.modules@[k].events@.len()
                        &&& typed_modules@[k].constants@.len()
                            == program.modules@[k].constants@.len()
                    },
            decreases program.modules@.len() - i,
        {
            let tm = self.check_module(&program.modules[i]);
            typed_modules.push(tm);
            i += 1;
        }
        if self.errors.len() > 0 {
            let first = self.errors.remove(0);
            return Err(first);
        }
        Ok(TypedProgram { modules: typed_modules })
    }
}

impl Default for TypeChecker {
    /// A fresh type checker.
    fn default() -> Self {
        TypeChecker::new()
    }
}

} // verus!
