//! The decisions of the `node` attribute, which turns an `async fn main` into a
//! function that blocks on a Tokio runtime: how the rewritten body ends, and
//! which source span the generated runtime code takes.
use vstd::prelude::*;

verus! {

/// The last statement of the function body, as far as the rewrite tells kinds apart.
#[derive(Clone, Copy, Debug, PartialEq, Eq, Structural)]
pub enum LastStatement {
    /// `return ...;`
    Return,
    /// Any other expression followed by a semicolon.
    Statement,
    /// A `let` binding.
    Binding,
    /// The body is empty.
    Nothing,
    /// A tail expression or an item.
    Expression,
}

/// The declared result type of the function.
#[derive(Clone, Copy, Debug, PartialEq, Eq, Structural)]
pub enum ReturnKind {
    /// No `->` at all.
    Default,
    /// `-> ()`.
    Unit,
    /// Any other type, `!` included.
    Other,
}

/// How the block that runs the body on the runtime ends: with `return` in
/// front of it, and with a semicolon after it.
#[derive(Clone, Copy, Debug, PartialEq, Eq, Structural)]
pub struct TailForm {
    pub returns: bool,
    pub semicolon: bool,
}

/// The ending of the rewritten body, by the kind of the last statement and the
/// declared result.
pub open spec fn expected_tail(last: LastStatement, output: ReturnKind) -> TailForm {
    TailForm {
        returns: last is Return,
        semicolon: last is Return || (!(last is Expression) && !(output is Other)),
    }
}

/// The ending of the rewritten body: a body that ended in `return ...;` keeps
/// the `return` and the semicolon; a body that ends in a statement, a binding
/// or nothing gets a semicolon when the function returns unit; a body with a
/// tail expression, or a function with another result type, gets neither.
pub fn tail_form(last: LastStatement, output: ReturnKind) -> (form: TailForm)
    ensures
        form == expected_tail(last, output),
{
    match last {
        LastStatement::Return => TailForm { returns: true, semicolon: true },
        LastStatement::Statement | LastStatement::Binding | LastStatement::Nothing => match output {
            ReturnKind::Unit | ReturnKind::Default => TailForm { returns: false, semicolon: true },
            ReturnKind::Other => TailForm { returns: false, semicolon: false },
        },
        LastStatement::Expression => TailForm { returns: false, semicolon: false },
    }
}

/// The spans between which the generated runtime code stands: it starts at
/// the first token of the last statement (or at the call site when the body is
/// empty) and ends at the last of the remaining tokens (or where it starts, when
/// the statement has a single token).
pub fn statement_span_bounds<S: Copy>(first: Option<S>, rest_last: Option<S>, call_site: S) -> (bounds: (S, S))
    ensures
        bounds.0 == (match first {
            Some(span) => span,
            None => call_site,
        }),
        bounds.1 == (match rest_last {
            Some(span) => span,
            None => bounds.0,
        }),
{
    let start = match first {
        Some(span) => span,
        None => call_site,
    };
    let end = match rest_last {
        Some(span) => span,
        None => start,
    };
    (start, end)
}

/// The runtime block returns its value only together with a semicolon, and a
/// function that returns unit never leaves a bare value behind its last
/// statement: when the body does not end in a tail expression, the block gets
/// a semicolon.
pub proof fn lemma_tail_form_closes_unit_bodies(last: LastStatement, output: ReturnKind)
    ensures
        expected_tail(last, output).returns ==> expected_tail(last, output).semicolon,
        !(output is Other) && !(last is Expression) ==> expected_tail(last, output).semicolon,
        last is Expression ==> !expected_tail(last, output).returns && !expected_tail(last, output).semicolon,
{
}

/// A body that ends in `return ...;` keeps its `return` and its semicolon,
/// whatever result type the function declares; and only such a body keeps a
/// `return`: whether the block returns does not depend on the declared result.
pub proof fn lemma_return_is_kept(last: LastStatement, output: ReturnKind, other_output: ReturnKind)
    ensures
        expected_tail(LastStatement::Return, output).returns,
        expected_tail(LastStatement::Return, output).semicolon,
        expected_tail(last, output).returns ==> last == LastStatement::Return,
        expected_tail(last, output).returns == expected_tail(last, other_output).returns,
{
}

} // verus!
