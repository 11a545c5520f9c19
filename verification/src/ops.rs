use vstd::prelude::*;

use crate::text::str_eq;

verus! {

/// The operations the harness can dispatch. Built-in operations carry a
/// precompiled execution image; `Dynamic` and `Precompiled` run
/// caller-supplied programs.
#[derive(Clone, Copy, Debug, PartialEq, Eq, Structural)]
pub enum Operation {
    Add,
    Multiply,
    Sqrt,
    Modexp,
    Range,
    AuthenticatedAdd,
    Dynamic,
    Precompiled,
}

/// The kind of a single argument in an operation's schema.
#[derive(Clone, Copy, Debug, PartialEq, Eq, Structural)]
pub enum ArgKind {
    /// A decimal value, rescaled to fixed point before emission.
    Decimal,
    /// An unsigned integer emitted as eight little-endian bytes.
    Unsigned,
    /// A signed integer emitted as eight little-endian bytes.
    Signed,
    /// Free text, such as a key reference or caller-supplied source.
    Text,
    /// An opaque binary payload, such as an already-built execution image.
    Binary,
    /// A JSON document passed through to the execution image verbatim.
    Json,
}

/// The number of arguments each operation takes.
pub open spec fn spec_arity(op: Operation) -> nat {
    match op {
        Operation::Add => 2,
        Operation::Multiply => 2,
        Operation::Sqrt => 1,
        Operation::Modexp => 3,
        Operation::Range => 3,
        Operation::AuthenticatedAdd => 3,
        Operation::Dynamic => 2,
        Operation::Precompiled => 2,
    }
}

/// Executable arity lookup.
pub fn arity(op: Operation) -> (r: usize)
    ensures
        r == spec_arity(op),
{
    match op {
        Operation::Add => 2,
        Operation::Multiply => 2,
        Operation::Sqrt => 1,
        Operation::Modexp => 3,
        Operation::Range => 3,
        Operation::AuthenticatedAdd => 3,
        Operation::Dynamic => 2,
        Operation::Precompiled => 2,
    }
}

/// The argument schema of an operation, in positional order.
pub open spec fn spec_arg_schema(op: Operation) -> Seq<ArgKind> {
    match op {
        Operation::Add => seq![ArgKind::Decimal, ArgKind::Decimal],
        Operation::Multiply => seq![ArgKind::Decimal, ArgKind::Decimal],
        Operation::Sqrt => seq![ArgKind::Decimal],
        Operation::Modexp => seq![ArgKind::Unsigned, ArgKind::Unsigned, ArgKind::Unsigned],
        Operation::Range => seq![ArgKind::Unsigned, ArgKind::Unsigned, ArgKind::Unsigned],
        Operation::AuthenticatedAdd => seq![ArgKind::Signed, ArgKind::Signed, ArgKind::Text],
        Operation::Dynamic => seq![ArgKind::Text, ArgKind::Json],
        Operation::Precompiled => seq![ArgKind::Binary, ArgKind::Json],
    }
}

/// Executable argument schema lookup.
pub fn arg_schema(op: Operation) -> (r: Vec<ArgKind>)
    ensures
        r@ == spec_arg_schema(op),
{
    match op {
        Operation::Add => vec![ArgKind::Decimal, ArgKind::Decimal],
        Operation::Multiply => vec![ArgKind::Decimal, ArgKind::Decimal],
        Operation::Sqrt => vec![ArgKind::Decimal],
        Operation::Modexp => vec![ArgKind::Unsigned, ArgKind::Unsigned, ArgKind::Unsigned],
        Operation::Range => vec![ArgKind::Unsigned, ArgKind::Unsigned, ArgKind::Unsigned],
        Operation::AuthenticatedAdd => vec![ArgKind::Signed, ArgKind::Signed, ArgKind::Text],
        Operation::Dynamic => vec![ArgKind::Text, ArgKind::Json],
        Operation::Precompiled => vec![ArgKind::Binary, ArgKind::Json],
    }
}

/// Name-to-operation resolution, as a spec-level table.
pub open spec fn spec_operation_for_name(name: Seq<char>) -> Option<Operation> {
    if name == "add"@ {
        Some(Operation::Add)
    } else if name == "multiply"@ {
        Some(Operation::Multiply)
    } else if name == "sqrt"@ {
        Some(Operation::Sqrt)
    } else if name == "modexp"@ {
        Some(Operation::Modexp)
    } else if name == "range"@ {
        Some(Operation::Range)
    } else if name == "authenticated_add"@ {
        Some(Operation::AuthenticatedAdd)
    } else if name == "dynamic"@ {
        Some(Operation::Dynamic)
    } else if name == "precompiled"@ {
        Some(Operation::Precompiled)
    } else {
        None
    }
}

/// The fixed-point scale of an operation's decimal arguments and results.
/// Addition works at five decimal places; the multiplication and square
/// root images are built at four. Encode, rescale and decode within one
/// operation all use this one scale — the two scales are never mixed
/// inside a family. Integer families carry no decimal fields and scale
/// by 1.
pub open spec fn spec_scale_for(op: Operation) -> u64 {
    match op {
        Operation::Add => 100_000,
        Operation::Multiply | Operation::Sqrt => 10_000,
        _ => 1,
    }
}

/// Executable scale lookup.
pub fn scale_for(op: Operation) -> (r: u64)
    ensures
        r == spec_scale_for(op),
{
    match op {
        Operation::Add => 100_000,
        Operation::Multiply | Operation::Sqrt => 10_000,
        _ => 1,
    }
}

/// The schema and the arity agree: one argument kind per position.
pub proof fn lemma_schema_matches_arity(op: Operation)
    ensures
        spec_arg_schema(op).len() == spec_arity(op),
{
}

/// Resolves an operation name; unrecognized names resolve to `None`.
pub fn operation_for_name(name: &str) -> (r: Option<Operation>)
    ensures
        r == spec_operation_for_name(name@),
{
    if str_eq(name, "add") {
        Some(Operation::Add)
    } else if str_eq(name, "multiply") {
        Some(Operation::Multiply)
    } else if str_eq(name, "sqrt") {
        Some(Operation::Sqrt)
    } else if str_eq(name, "modexp") {
        Some(Operation::Modexp)
    } else if str_eq(name, "range") {
        Some(Operation::Range)
    } else if str_eq(name, "authenticated_add") {
        Some(Operation::AuthenticatedAdd)
    } else if str_eq(name, "dynamic") {
        Some(Operation::Dynamic)
    } else if str_eq(name, "precompiled") {
        Some(Operation::Precompiled)
    } else {
        None
    }
}

/// Resolves an operation name for dispatch; unrecognized names fail with
/// `UnknownOperation`.
pub fn resolve_operation(name: &str) -> (r: Result<Operation, crate::errors::HarnessError>)
    ensures
        spec_operation_for_name(name@) matches Some(op) ==> r == Ok::<
            Operation,
            crate::errors::HarnessError,
        >(op),
        spec_operation_for_name(name@) is None <==> (r matches Err(e) && e is UnknownOperation),
{
    match operation_for_name(name) {
        Some(op) => Ok(op),
        None => Err(crate::errors::HarnessError::UnknownOperation),
    }
}

/// The canonical name of an operation, used in artifact file names.
pub open spec fn spec_operation_name(op: Operation) -> Seq<char> {
    match op {
        Operation::Add => "add"@,
        Operation::Multiply => "multiply"@,
        Operation::Sqrt => "sqrt"@,
        Operation::Modexp => "modexp"@,
        Operation::Range => "range"@,
        Operation::AuthenticatedAdd => "authenticated_add"@,
        Operation::Dynamic => "dynamic"@,
        Operation::Precompiled => "precompiled"@,
    }
}

/// Executable canonical name lookup.
pub fn operation_name(op: Operation) -> (r: &'static str)
    ensures
        r@ == spec_operation_name(op),
{
    match op {
        Operation::Add => "add",
        Operation::Multiply => "multiply",
        Operation::Sqrt => "sqrt",
        Operation::Modexp => "modexp",
        Operation::Range => "range",
        Operation::AuthenticatedAdd => "authenticated_add",
        Operation::Dynamic => "dynamic",
        Operation::Precompiled => "precompiled",
    }
}

} // verus!
