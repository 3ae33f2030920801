//! A linter for SQL schema migrations: a closed registry of rule kinds, a
//! table of rules over parsed statements, and an engine that runs the rules
//! not excluded and orders their findings by source position.
pub mod violations;
pub mod syntax;
pub mod rules;
pub mod engine;
pub mod laws;

pub use violations::{RuleViolation, RuleViolationKind, Span, ViolationMessage};
pub use rules::{rules, SquawkRule};
pub use syntax::{CheckSQLError, Statement};
pub use engine::{check_sql, check_statements};
