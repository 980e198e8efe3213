//! Intermediate representation for Grey programs: the canonical form consumed
//! by backend code generation, abstracting away surface syntax and keeping the
//! core model of processes, events, and state transitions.

use vstd::prelude::*;

verus! {

/// 3D coordinate for process placement.
#[derive(Debug, Clone, Copy, PartialEq, Eq, Hash, Structural)]
pub struct Coord {
    pub x: i32,
    pub y: i32,
    pub z: i32,
}

/// A coordinate is valid iff each axis lies in the engine's address range.
pub open spec fn coord_valid(x: int, y: int, z: int) -> bool {
    &&& 0 <= x <= 31
    &&& 0 <= y <= 31
    &&& 0 <= z <= 31
}

impl Coord {
    /// Create a new coordinate.
    pub fn new(x: i32, y: i32, z: i32) -> (c: Coord)
        ensures
            c.x == x && c.y == y && c.z == z,
    {
        Coord { x, y, z }
    }

    /// Check if the coordinate is within valid bounds (0-31 for each axis).
    pub fn is_valid(&self) -> (r: bool)
        ensures
            r == coord_valid(self.x as int, self.y as int, self.z as int),
    {
        0 <= self.x && self.x <= 31 && 0 <= self.y && self.y <= 31 && 0 <= self.z && self.z <= 31
    }
}

/// Errors raised while constructing or validating IR.
#[derive(Debug, Clone)]
pub enum IrError {
    TypeMismatch(String),
    ProcessNotFound(String),
    EventNotFound(String),
    InvalidCoordinate(String),
    ResourceConstraint(String),
}

impl IrError {
    /// A human-readable description of the error.
    pub fn message(&self) -> (m: String) {
        match self {
            IrError::TypeMismatch(s) => String::from_str("Type mismatch: ").concat(s.as_str()),
            IrError::ProcessNotFound(s) => String::from_str("Process not found: ").concat(
                s.as_str(),
            ),
            IrError::EventNotFound(s) => String::from_str("Event not found: ").concat(s.as_str()),
            IrError::InvalidCoordinate(s) => String::from_str("Invalid coordinate: ").concat(
                s.as_str(),
            ),
            IrError::ResourceConstraint(s) => String::from_str(
                "Resource constraint violation: ",
            ).concat(s.as_str()),
        }
    }
}

/// IR values.
#[derive(Debug, Clone)]
pub enum IrValue {
    Integer(i64),
    String(String),
    Boolean(bool),
    Coord(Coord),
}

/// IR types.
#[derive(Debug, Clone, PartialEq)]
pub enum IrType {
    Int,
    String,
    Bool,
    Coord,
}

/// Arithmetic operations.
#[derive(Debug, Clone)]
pub enum IrArithmeticOp {
    Add,
    Subtract,
    Multiply,
    Divide,
    Modulo,
}

/// Comparison operations.
#[derive(Debug, Clone)]
pub enum IrComparisonOp {
    Equal,
    NotEqual,
    LessThan,
    LessThanOrEqual,
    GreaterThan,
    GreaterThanOrEqual,
}

/// IR expressions.
#[derive(Debug)]
pub enum IrExpression {
    Constant(IrValue),
    FieldAccess(String),
    Arithmetic { op: IrArithmeticOp, left: Box<IrExpression>, right: Box<IrExpression> },
    Comparison { op: IrComparisonOp, left: Box<IrExpression>, right: Box<IrExpression> },
}

impl Clone for IrExpression {
    fn clone(&self) -> Self
        decreases *self,
    {
        match self {
            IrExpression::Constant(v) => IrExpression::Constant(v.clone()),
            IrExpression::FieldAccess(s) => IrExpression::FieldAccess(s.clone()),
            IrExpression::Arithmetic { op, left, right } => IrExpression::Arithmetic {
                op: op.clone(),
                left: Box::new((**left).clone()),
                right: Box::new((**right).clone()),
            },
            IrExpression::Comparison { op, left, right } => IrExpression::Comparison {
                op: op.clone(),
                left: Box::new((**left).clone()),
                right: Box::new((**right).clone()),
            },
        }
    }
}

/// Process state: field name to initial value, in declaration order,
/// each field name appearing once.
#[derive(Debug, Clone)]
pub struct IrState {
    pub values: Vec<(String, IrValue)>,
}

/// Action performed during a state transition.
#[derive(Debug, Clone)]
pub enum IrAction {
    UpdateField { field: String, value: IrExpression },
    SendEvent { event_type: String, target: Coord, fields: Vec<(String, IrExpression)> },
    SpawnProcess { process_type: String, coord: Coord, initial_state: IrState },
}

/// State transition triggered by an event type.
#[derive(Debug, Clone)]
pub struct IrTransition {
    pub event_type: String,
    pub condition: Option<IrExpression>,
    pub actions: Vec<IrAction>,
}

/// Process definition in IR.
#[derive(Debug, Clone)]
pub struct IrProcess {
    pub name: String,
    pub coord: Coord,
    pub fields: Vec<(String, IrType)>,
    pub initial_state: IrState,
    pub transitions: Vec<IrTransition>,
}

/// Event definition in IR.
#[derive(Debug, Clone)]
pub struct IrEvent {
    pub name: String,
    pub fields: Vec<(String, IrType)>,
}

/// Resource bounds declared by the IR, used for bounded-memory validation.
#[derive(Debug, Clone)]
pub struct IrResourceBounds {
    pub max_processes: usize,
    pub max_events_per_tick: usize,
    pub max_coordinate_value: i32,
}

impl Default for IrResourceBounds {
    /// The default ceiling: 1024 processes, 10000 events per tick,
    /// coordinates up to 31.
    fn default() -> (d: Self)
        ensures
            d.max_processes == 1024,
            d.max_events_per_tick == 10000,
            d.max_coordinate_value == 31,
    {
        IrResourceBounds { max_processes: 1024, max_events_per_tick: 10000, max_coordinate_value: 31 }
    }
}

/// Top-level IR program.
#[derive(Debug, Clone)]
pub struct IrProgram {
    pub name: String,
    pub processes: Vec<IrProcess>,
    pub events: Vec<IrEvent>,
    pub constants: Vec<(String, IrValue)>,
    pub resources: IrResourceBounds,
}

/// First value bound to `key` in an association list, if any.
pub open spec fn assoc_lookup<V>(entries: Seq<(String, V)>, key: Seq<char>) -> Option<V>
    decreases entries.len(),
{
    if entries.len() == 0 {
        None
    } else if entries[0].0@ == key {
        Some(entries[0].1)
    } else {
        assoc_lookup(entries.skip(1), key)
    }
}

/// Look up a constant by name in the program's constant table.
pub fn constants_get<'a>(entries: &'a Vec<(String, IrValue)>, key: &str) -> (r: Option<
    &'a IrValue,
>)
    ensures
        match r {
            Some(v) => assoc_lookup(entries@, key@) == Some(*v),
            None => assoc_lookup(entries@, key@) is None,
        },
{
    let mut i: usize = 0;
    proof {
        assert(entries@.skip(0) =~= entries@);
    }
    while i < entries.len()
        invariant
            i <= entries@.len(),
            assoc_lookup(entries@, key@) == assoc_lookup(entries@.skip(i as int), key@),
        decreases entries@.len() - i,
    {
        proof {
            assert(entries@.skip(i as int)[0] == entries@[i as int]);
            assert(entries@.skip(i as int).skip(1) =~= entries@.skip(i + 1));
        }
        if crate::text::str_eq(entries[i].0.as_str(), key) {
            return Some(&entries[i].1);
        }
        i += 1;
    }
    None
}


/// Looking a key up after a push: an existing binding wins; otherwise the
/// pushed entry is found exactly when its name matches.
pub proof fn lemma_assoc_lookup_push<V>(entries: Seq<(String, V)>, e: (String, V), key: Seq<char>)
    ensures
        assoc_lookup(entries.push(e), key) == (if assoc_lookup(entries, key) is Some {
            assoc_lookup(entries, key)
        } else if e.0@ == key {
            Some(e.1)
        } else {
            None
        }),
    decreases entries.len(),
{
    if entries.len() == 0 {
        assert(entries.push(e).skip(1) =~= entries);
    } else {
        assert(entries.push(e).skip(1) =~= entries.skip(1).push(e));
        lemma_assoc_lookup_push(entries.skip(1), e, key);
    }
}

/// Bind `name` to `value`, replacing an existing binding of that name and
/// appending otherwise.
fn assoc_set(entries: &mut Vec<(String, IrValue)>, name: String, value: IrValue)
    requires
        old(entries)@.len() < usize::MAX,
    ensures
        assoc_lookup(final(entries)@, name@) is Some,
        final(entries)@.len() <= old(entries)@.len() + 1,
        forall|k: Seq<char>|
            assoc_lookup(old(entries)@, k) is Some ==> assoc_lookup(final(entries)@, k) is Some,
{
    let mut i: usize = 0;
    while i < entries.len()
        invariant
            i <= entries@.len(),
            entries@ == old(entries)@,
            forall|j: int| 0 <= j < i ==> (#[trigger] entries@[j]).0@ != name@,
        decreases entries@.len() - i,
    {
        if crate::text::str_eq(entries[i].0.as_str(), name.as_str()) {
            let prev = entries[i].0.clone();
            entries[i] = (prev, value);
            proof {
                lemma_assoc_lookup_at(old(entries)@, name@, i as int);
                assert forall|k: Seq<char>|
                    assoc_lookup(old(entries)@, k) is Some implies assoc_lookup(
                    entries@,
                    k,
                ) is Some by {
                    lemma_assoc_lookup_names(old(entries)@, entries@, k);
                }
                lemma_assoc_lookup_names(old(entries)@, entries@, name@);
            }
            return ;
        }
        i += 1;
    }
    let ghost before = entries@;
    entries.push((name, value));
    proof {
        assert forall|k: Seq<char>| assoc_lookup(before, k) is Some implies assoc_lookup(
            entries@,
            k,
        ) is Some by {
            lemma_assoc_lookup_push(before, entries@.last(), k);
        }
        lemma_assoc_lookup_push(before, entries@.last(), name@);
        crate::ir::lemma_assoc_lookup_at(before, name@, before.len() as int);
    }
}

/// When the scan has passed `i` non-matching names, the lookup's outcome is
/// decided at or after `i`.
pub proof fn lemma_assoc_lookup_at<V>(entries: Seq<(String, V)>, key: Seq<char>, i: int)
    requires
        0 <= i <= entries.len(),
        forall|j: int| 0 <= j < i ==> (#[trigger] entries[j]).0@ != key,
        i < entries.len() ==> entries[i].0@ == key,
    ensures
        assoc_lookup(entries, key) == (if i < entries.len() {
            Some(entries[i].1)
        } else {
            None
        }),
    decreases i,
{
    if i == 0 {
        if entries.len() > 0 && entries[0].0@ != key {
            assert(false);
        }
    } else {
        assert(entries[0].0@ != key);
        lemma_assoc_lookup_at(entries.skip(1), key, i - 1);
    }
}

/// Lookup success depends only on the sequence of names: two association
/// lists with pointwise-equal names succeed on exactly the same keys.
proof fn lemma_assoc_lookup_names(
    before: Seq<(String, IrValue)>,
    after: Seq<(String, IrValue)>,
    key: Seq<char>,
)
    requires
        after.len() == before.len(),
        forall|j: int| 0 <= j < before.len() ==> (#[trigger] after[j]).0@ == before[j].0@,
    ensures
        (assoc_lookup(after, key) is Some) == (assoc_lookup(before, key) is Some),
    decreases before.len(),
{
    if before.len() > 0 {
        if before[0].0@ == key {
        } else {
            assert(after.skip(1).len() == before.skip(1).len());
            assert(forall|j: int|
                0 <= j < before.skip(1).len() ==> (#[trigger] after.skip(1)[j]).0@
                    == before.skip(1)[j].0@);
            lemma_assoc_lookup_names(before.skip(1), after.skip(1), key);
        }
    }
}

/// Capitalize the first character of an identifier (ASCII letters only, as
/// the lexer produces).
fn capitalize_first(s: &str) -> (r: String) {
    let len = s.unicode_len();
    if len == 0 {
        return String::new();
    }
    let c = s.get_char(0);
    let rest = s.substring_char(1, len);
    let head: &str = if c == 'a' {
        "A"
    } else if c == 'b' {
        "B"
    } else if c == 'c' {
        "C"
    } else if c == 'd' {
        "D"
    } else if c == 'e' {
        "E"
    } else if c == 'f' {
        "F"
    } else if c == 'g' {
        "G"
    } else if c == 'h' {
        "H"
    } else if c == 'i' {
        "I"
    } else if c == 'j' {
        "J"
    } else if c == 'k' {
        "K"
    } else if c == 'l' {
        "L"
    } else if c == 'm' {
        "M"
    } else if c == 'n' {
        "N"
    } else if c == 'o' {
        "O"
    } else if c == 'p' {
        "P"
    } else if c == 'q' {
        "Q"
    } else if c == 'r' {
        "R"
    } else if c == 's' {
        "S"
    } else if c == 't' {
        "T"
    } else if c == 'u' {
        "U"
    } else if c == 'v' {
        "V"
    } else if c == 'w' {
        "W"
    } else if c == 'x' {
        "X"
    } else if c == 'y' {
        "Y"
    } else if c == 'z' {
        "Z"
    } else {
        return String::from_str(s.substring_char(0, 1)).concat(rest);
    };
    String::from_str(head).concat(rest)
}

/// IR builder: constructs programs from the typed AST. Each call builds and
/// returns an owned program.
pub struct IrBuilder {
}

impl IrBuilder {
    /// Create a new IR builder.
    pub fn new() -> (b: Self) {
        IrBuilder {  }
    }

    fn convert_type(&self, ty: &crate::types::Type) -> (r: Result<IrType, IrError>) {
        match ty {
            crate::types::Type::Int => Ok(IrType::Int),
            crate::types::Type::String => Ok(IrType::String),
            crate::types::Type::Bool => Ok(IrType::Bool),
            crate::types::Type::Coord => Ok(IrType::Coord),
            crate::types::Type::Named(_) => Ok(IrType::Int),
            _ => Err(IrError::TypeMismatch(String::from_str("Unsupported type"))),
        }
    }

    fn expression_to_value(&self, expr: &crate::ast::Expression) -> (r: IrValue) {
        match expr {
            crate::ast::Expression::Integer(i) => IrValue::Integer(*i),
            crate::ast::Expression::String(st) => IrValue::String(st.clone()),
            crate::ast::Expression::Boolean(b) => IrValue::Boolean(*b),
            crate::ast::Expression::CoordLiteral => IrValue::Coord(Coord::new(0, 0, 0)),
            _ => IrValue::Integer(0),  // Default for unrecognized expressions.
        }
    }

    fn expression_to_ir_expression(&self, expr: &crate::ast::Expression) -> (r: IrExpression)
        decreases *expr,
    {
        match expr {
            crate::ast::Expression::Integer(i) => IrExpression::Constant(IrValue::Integer(*i)),
            crate::ast::Expression::Boolean(b) => IrExpression::Constant(IrValue::Boolean(*b)),
            crate::ast::Expression::String(st) => IrExpression::Constant(
                IrValue::String(st.clone()),
            ),
            crate::ast::Expression::Identifier(name) => IrExpression::FieldAccess(name.clone()),
            crate::ast::Expression::Add { left, right } => IrExpression::Arithmetic {
                op: IrArithmeticOp::Add,
                left: Box::new(self.expression_to_ir_expression(left)),
                right: Box::new(self.expression_to_ir_expression(right)),
            },
            crate::ast::Expression::Subtract { left, right } => IrExpression::Arithmetic {
                op: IrArithmeticOp::Subtract,
                left: Box::new(self.expression_to_ir_expression(left)),
                right: Box::new(self.expression_to_ir_expression(right)),
            },
            crate::ast::Expression::Multiply { left, right } => IrExpression::Arithmetic {
                op: IrArithmeticOp::Multiply,
                left: Box::new(self.expression_to_ir_expression(left)),
                right: Box::new(self.expression_to_ir_expression(right)),
            },
            crate::ast::Expression::Divide { left, right } => IrExpression::Arithmetic {
                op: IrArithmeticOp::Divide,
                left: Box::new(self.expression_to_ir_expression(left)),
                right: Box::new(self.expression_to_ir_expression(right)),
            },
            crate::ast::Expression::CoordLiteral => IrExpression::Constant(
                IrValue::Coord(Coord::new(0, 0, 0)),
            ),
            _ => IrExpression::Constant(IrValue::Integer(0)),
        }
    }

    fn build_constant(&self, expr: &crate::types::TypedExpression) -> (r: Result<IrValue, IrError>)
        ensures
            r is Err ==> r.get_Err_0() is TypeMismatch,
    {
        match &expr.expression {
            crate::ast::Expression::Integer(i) => Ok(IrValue::Integer(*i)),
            crate::ast::Expression::String(st) => Ok(IrValue::String(st.clone())),
            _ => Err(IrError::TypeMismatch(String::from_str("Unsupported constant type"))),
        }
    }

    fn build_event(&self, event: &crate::types::TypedEventDefinition) -> (r: Result<
        IrEvent,
        IrError,
    >)
        ensures
            match r {
                Ok(e) => e.name@ == event.name@ && e.fields@.len() == event.fields@.len(),
                Err(_) => true,
            },
    {
        let mut fields: Vec<(String, IrType)> = Vec::new();
        let mut i: usize = 0;
        while i < event.fields.len()
            invariant
                i <= event.fields@.len(),
                fields@.len() == i,
            decreases event.fields@.len() - i,
        {
            let ir_type = match self.convert_type(&event.fields[i].field_type) {
                Ok(t) => t,
                Err(e) => {
                    return Err(e);
                },
            };
            fields.push((event.fields[i].name.clone(), ir_type));
            i += 1;
        }
        Ok(IrEvent { name: event.name.clone(), fields })
    }

    fn extract_initial_state(
        &self,
        methods: &Vec<crate::types::TypedFunctionDefinition>,
        fields: &Vec<(String, IrType)>,
    ) -> (r: Result<IrState, IrError>)
        ensures
            match r {
                Ok(state) => forall|j: int|
                    0 <= j < fields@.len() ==> assoc_lookup(
                        state.values@,
                        (#[trigger] fields@[j]).0@,
                    ) is Some,
                Err(_) => true,
            },
    {
        let mut values: Vec<(String, IrValue)> = Vec::new();

        // Initial values from the init() method's bindings.
        let mut m: usize = 0;
        let mut init_index: Option<usize> = None;
        while m < methods.len()
            invariant
                m <= methods@.len(),
                match init_index {
                    Some(ix) => ix < methods@.len(),
                    None => true,
                },
            decreases methods@.len() - m,
        {
            if crate::text::str_eq(methods[m].name.as_str(), "init") && matches!(
                init_index,
                None,
            ) {
                init_index = Some(m);
            }
            m += 1;
        }
        if let Some(ix) = init_index {
            let body = &methods[ix].body;
            let mut s: usize = 0;
            while s < body.statements.len()
                invariant
                    s <= body.statements@.len(),
                decreases body.statements@.len() - s,
            {
                if let crate::types::TypedStatement::Let { pattern, value } = &body.statements[s] {
                    let crate::ast::Pattern::Identifier(field_name) = pattern;
                    let ir_value = self.expression_to_value(&value.expression);
                    if values.len() < usize::MAX {
                        assoc_set(&mut values, field_name.clone(), ir_value);
                    }
                }
                s += 1;
            }
        }

        // Default values for fields the init method did not bind.
        let mut f: usize = 0;
        while f < fields.len()
            invariant
                f <= fields@.len(),
                forall|j: int|
                    0 <= j < f ==> assoc_lookup(values@, (#[trigger] fields@[j]).0@) is Some,
            decreases fields@.len() - f,
        {
            let name = fields[f].0.clone();
            let missing = matches!(constants_get(&values, name.as_str()), None);
            if missing {
                let default_value = match &fields[f].1 {
                    IrType::Int => IrValue::Integer(0),
                    IrType::String => IrValue::String(String::new()),
                    IrType::Bool => IrValue::Boolean(false),
                    IrType::Coord => IrValue::Coord(Coord::new(0, 0, 0)),
                };
                let ghost before = values@;
                values.push((name, default_value));
                proof {
                    assert(values@.last().0@ == fields@[f as int].0@);
                    assert forall|j: int| 0 <= j <= f implies assoc_lookup(
                        values@,
                        (#[trigger] fields@[j]).0@,
                    ) is Some by {
                        lemma_assoc_lookup_push(before, values@.last(), fields@[j].0@);
                    }
                }
            }
            f += 1;
        }
        Ok(IrState { values })
    }

    fn extract_actions(&self, statements: &Vec<crate::types::TypedStatement>) -> (r: Result<
        Vec<IrAction>,
        IrError,
    >) {
        let mut actions: Vec<IrAction> = Vec::new();
        let mut s: usize = 0;
        while s < statements.len()
            invariant
                s <= statements@.len(),
            decreases statements@.len() - s,
        {
            if let crate::types::TypedStatement::Let { pattern, value } = &statements[s] {
                let crate::ast::Pattern::Identifier(field_name) = pattern;
                let expr = self.expression_to_ir_expression(&value.expression);
                actions.push(IrAction::UpdateField { field: field_name.clone(), value: expr });
            }
            s += 1;
        }
        Ok(actions)
    }

    fn extract_transitions(&self, methods: &Vec<crate::types::TypedFunctionDefinition>) -> (r:
        Result<Vec<IrTransition>, IrError>) {
        let mut transitions: Vec<IrTransition> = Vec::new();
        let mut m: usize = 0;
        while m < methods.len()
            invariant
                m <= methods@.len(),
            decreases methods@.len() - m,
        {
            // Handler methods start with "handle_"; the event type is the
            // capitalized suffix.
            let name = &methods[m].name;
            let name_len = name.as_str().unicode_len();
            if name_len > 7 && crate::text::str_eq(
                name.as_str().substring_char(0, 7),
                "handle_",
            ) {
                let suffix = name.as_str().substring_char(7, name_len);
                let event_type = capitalize_first(suffix);
                let actions = match self.extract_actions(&methods[m].body.statements) {
                    Ok(a) => a,
                    Err(e) => {
                        return Err(e);
                    },
                };
                transitions.push(IrTransition { event_type, condition: None, actions });
            }
            m += 1;
        }
        Ok(transitions)
    }

    fn build_process(&self, process: &crate::types::TypedProcessDefinition) -> (r: Result<
        IrProcess,
        IrError,
    >)
        ensures
            match r {
                Ok(p) => {
                    &&& p.name@ == process.name@
                    &&& forall|j: int|
                        0 <= j < p.fields@.len() ==> assoc_lookup(
                            p.initial_state.values@,
                            (#[trigger] p.fields@[j]).0@,
                        ) is Some
                },
                Err(_) => true,
            },
    {
        let mut fields: Vec<(String, IrType)> = Vec::new();
        let mut i: usize = 0;
        while i < process.fields.len()
            invariant
                i <= process.fields@.len(),
                fields@.len() == i,
            decreases process.fields@.len() - i,
        {
            let ir_type = match self.convert_type(&process.fields[i].field_type) {
                Ok(t) => t,
                Err(e) => {
                    return Err(e);
                },
            };
            fields.push((process.fields[i].name.clone(), ir_type));
            i += 1;
        }
        let initial_state = match self.extract_initial_state(&process.methods, &fields) {
            Ok(st) => st,
            Err(e) => {
                return Err(e);
            },
        };
        let transitions = match self.extract_transitions(&process.methods) {
            Ok(t) => t,
            Err(e) => {
                return Err(e);
            },
        };
        Ok(
            IrProcess {
                name: process.name.clone(),
                // Default placement; the backend overrides it.
                coord: Coord::new(0, 0, 0),
                fields,
                initial_state,
                transitions,
            },
        )
    }

    /// Build an IR program from a typed Grey program: events, processes, and
    /// constants of every module, in module order.
    pub fn build_program(
        &mut self,
        name: &str,
        typed_program: &crate::types::TypedProgram,
    ) -> (r: Result<IrProgram, IrError>)
        ensures
            match r {
                Ok(p) => {
                    &&& p.name@ == name@
                    &&& forall|k: int|
                        0 <= k < p.processes@.len() ==> (forall|j: int|
                            0 <= j < (#[trigger] p.processes@[k]).fields@.len() ==> assoc_lookup(
                                p.processes@[k].initial_state.values@,
                                (#[trigger] p.processes@[k].fields@[j]).0@,
                            ) is Some)
                },
                Err(_) => true,
            },
    {
        let mut processes: Vec<IrProcess> = Vec::new();
        let mut events: Vec<IrEvent> = Vec::new();
        let mut constants: Vec<(String, IrValue)> = Vec::new();

        let mut m: usize = 0;
        while m < typed_program.modules.len()
            invariant
                m <= typed_program.modules@.len(),
                forall|k: int|
                    0 <= k < processes@.len() ==> (forall|j: int|
                        0 <= j < (#[trigger] processes@[k]).fields@.len() ==> assoc_lookup(
                            processes@[k].initial_state.values@,
                            (#[trigger] processes@[k].fields@[j]).0@,
                        ) is Some),
            decreases typed_program.modules@.len() - m,
        {
            let module = &typed_program.modules[m];

            // Events first.
            let mut e: usize = 0;
            while e < module.events.len()
                invariant
                    e <= module.events@.len(),
                decreases module.events@.len() - e,
            {
                let ir_event = match self.build_event(&module.events[e]) {
                    Ok(ev) => ev,
                    Err(err) => {
                        return Err(err);
                    },
                };
                events.push(ir_event);
                e += 1;
            }

            // Processes.
            let mut p: usize = 0;
            while p < module.processes.len()
                invariant
                    p <= module.processes@.len(),
                    forall|k: int|
                        0 <= k < processes@.len() ==> (forall|j: int|
                            0 <= j < (#[trigger] processes@[k]).fields@.len() ==> assoc_lookup(
                                processes@[k].initial_state.values@,
                                (#[trigger] processes@[k].fields@[j]).0@,
                            ) is Some),
                decreases module.processes@.len() - p,
            {
                let ir_process = match self.build_process(&module.processes[p]) {
                    Ok(pr) => pr,
                    Err(err) => {
                        return Err(err);
                    },
                };
                processes.push(ir_process);
                p += 1;
            }

            // Constants.
            let mut c: usize = 0;
            while c < module.constants.len()
                invariant
                    c <= module.constants@.len(),
                decreases module.constants@.len() - c,
            {
                let value = match self.build_constant(&module.constants[c].value) {
                    Ok(v) => v,
                    Err(err) => {
                        return Err(err);
                    },
                };
                // A redeclared constant takes the later value.
                if constants.len() < usize::MAX {
                    assoc_set(&mut constants, module.constants[c].name.clone(), value);
                }
                c += 1;
            }

            m += 1;
        }

        Ok(
            IrProgram {
                name: String::from_str(name),
                processes,
                events,
                constants,
                resources: IrResourceBounds::default(),
            },
        )
    }
}

} // verus!
