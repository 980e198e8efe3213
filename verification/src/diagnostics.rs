//! Diagnostics for the Grey compiler frontend: source locations and the
//! error type every frontend stage reports.

use vstd::prelude::*;

verus! {

/// Source location information for diagnostics.
#[derive(Debug, Clone, Copy)]
pub struct SourceLocation {
    pub line: usize,
    pub column: usize,
    /// (start, end) byte positions in the source.
    pub span: (usize, usize),
}

impl SourceLocation {
    /// Create a new source location.
    pub fn new(line: usize, column: usize, span: (usize, usize)) -> (loc: Self)
        ensures
            loc.line == line,
            loc.column == column,
            loc.span == span,
    {
        SourceLocation { line, column, span }
    }

    /// A placeholder location for errors without source context.
    pub fn dummy() -> (loc: Self)
        ensures
            loc.line == 0,
            loc.column == 0,
            loc.span == (0usize, 0usize),
    {
        SourceLocation { line: 0, column: 0, span: (0, 0) }
    }

    /// Render the location as `line {l}, column {c}`.
    pub fn describe(&self) -> (s: String)
        ensures
            s@ == "line "@ + crate::text::dec_digits(self.line as int) + ", column "@
                + crate::text::dec_digits(self.column as int),
    {
        let mut s = String::from_str("line ");
        s.append(crate::text::usize_to_string(self.line).as_str());
        s.append(", column ");
        s.append(crate::text::usize_to_string(self.column).as_str());
        proof {
            assert(s@ =~= "line "@ + crate::text::dec_digits(self.line as int) + ", column "@
                + crate::text::dec_digits(self.column as int));
        }
        s
    }
}

/// Main diagnostic error type.
#[derive(Debug, Clone)]
pub enum DiagnosticError {
    General { message: String, location: SourceLocation },
}

/// What every compiler diagnostic can report: a message and a location.
pub trait Diagnostic {
    /// The error message.
    fn message(&self) -> &str;

    /// Where in the source the error arose.
    fn location(&self) -> &SourceLocation;
}

impl Diagnostic for DiagnosticError {
    fn message(&self) -> &str {
        match self {
            DiagnosticError::General { message, .. } => message.as_str(),
        }
    }

    fn location(&self) -> &SourceLocation {
        match self {
            DiagnosticError::General { location, .. } => location,
        }
    }
}

impl DiagnosticError {
    /// Create a general error.
    pub fn general(message: &str, location: SourceLocation) -> (e: Self)
        ensures
            e matches DiagnosticError::General { message: m, location: l } && m@ == message@ && l
                == location,
    {
        DiagnosticError::General { message: String::from_str(message), location }
    }
}

} // verus!
