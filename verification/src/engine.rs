//! The shell's parser and evaluator, as the completion engine calls them.
//! Nothing in this file is proved: each item states what is taken on trust
//! of the code that it names.

use vstd::prelude::*;
use crate::candidate::Span;
use crate::cursor::{Shape, Token};
use crate::text::is_prefix;

verus! {

/// The shell's long-lived state.
#[verifier::external_type_specification]
#[verifier::external_body]
pub struct ExEngineState(nu_protocol::engine::EngineState);

/// The parser's working set: what a parse adds on top of the shell's state,
/// thrown away after the request.
#[verifier::external_type_specification]
#[verifier::external_body]
pub struct ExStateWorkingSet<'a>(nu_protocol::engine::StateWorkingSet<'a>);

/// A value of the shell.
#[verifier::external_type_specification]
#[verifier::external_body]
pub struct ExValue(nu_protocol::Value);

/// The classifier's tag for a token.
#[verifier::external_type_specification]
#[verifier::external_body]
pub struct ExFlatShape(nu_parser::FlatShape);

/// What an environment variable holds, as far as the completion engine
/// reads it.
#[derive(Clone, Debug)]
pub enum EnvValue {
    /// A value that reads as text.
    Text(String),
    /// A list: each item as text, `None` for an item that does not read as
    /// text.
    List(Vec<Option<String>>),
    /// Anything else.
    Other,
}

/// An environment variable's value as contracts see it.
pub enum EnvView {
    Text(Seq<char>),
    List(Seq<Option<Seq<char>>>),
    Other,
}

/// An item of a list as contracts see it.
pub open spec fn item_view(item: Option<String>) -> Option<Seq<char>> {
    match item {
        Some(s) => Some(s@),
        None => None,
    }
}

impl View for EnvValue {
    type V = EnvView;

    open spec fn view(&self) -> EnvView {
        match *self {
            EnvValue::Text(s) => EnvView::Text(s@),
            EnvValue::List(items) => EnvView::List(items@.map_values(|i: Option<String>| item_view(i))),
            EnvValue::Other => EnvView::Other,
        }
    }
}

/// The environment variables that the shell's state holds, each by its
/// name.
pub uninterp spec fn env_vars(state: nu_protocol::engine::EngineState) -> Map<Seq<char>, EnvView>;

/// The number of declarations that the shell's state holds.
pub uninterp spec fn decl_count(state: nu_protocol::engine::EngineState) -> nat;

/// `StateWorkingSet::new` makes an empty working set on top of the state.
pub assume_specification<'a>[ nu_protocol::engine::StateWorkingSet::<'a>::new ](
    permanent_state: &'a nu_protocol::engine::EngineState,
) -> nu_protocol::engine::StateWorkingSet<'a>
;

/// `StateWorkingSet::next_span_start` gives the offset at which the next
/// text handed to the parser will start.
pub assume_specification<'a>[ nu_protocol::engine::StateWorkingSet::<'a>::next_span_start ](
    working_set: &nu_protocol::engine::StateWorkingSet<'a>,
) -> usize
;

/// `EngineState::num_decls` counts the declarations that the state holds.
pub assume_specification[ nu_protocol::engine::EngineState::num_decls ](
    state: &nu_protocol::engine::EngineState,
) -> (n: usize)
    ensures
        n == decl_count(*state),
;

/// `EngineState::clone`, which `EngineState` derives, copies the state.
pub assume_specification[ <nu_protocol::engine::EngineState as Clone>::clone ](
    state: &nu_protocol::engine::EngineState,
) -> nu_protocol::engine::EngineState
;

/// Tells the variants of `nu_parser::FlatShape` apart. The shapes that no
/// strategy completes become `Other`.
#[verifier::external_body]
pub(crate) fn shape_of(shape: &nu_parser::FlatShape) -> Shape {
    match shape {
        nu_parser::FlatShape::Variable => Shape::Variable,
        nu_parser::FlatShape::Custom(id) => Shape::Provider(*id),
        nu_parser::FlatShape::External => Shape::External,
        nu_parser::FlatShape::InternalCall => Shape::InternalCall,
        nu_parser::FlatShape::String => Shape::BareString,
        nu_parser::FlatShape::Filepath => Shape::Filepath,
        nu_parser::FlatShape::GlobPattern => Shape::GlobPattern,
        nu_parser::FlatShape::ExternalArg => Shape::ExternalArg,
        _ => Shape::Other,
    }
}

/// Calls `nu_parser::parse` on the line, as a text of its own named
/// "completer", and `nu_parser::flatten_block` on the block that the parser
/// made of it: the tokens of every expression of every pipeline of the line,
/// in the order of the text, each with its span in the working set's
/// coordinates. The parser reports an error beside the block; the block is
/// whatever it could make of the line, and the error is dropped.
#[verifier::external_body]
pub(crate) fn parse_tokens(working_set: &mut nu_protocol::engine::StateWorkingSet, line: &[u8]) -> Vec<
    Token,
> {
    let (block, _) = nu_parser::parse(working_set, Some("completer"), line, false, &[]);
    nu_parser::flatten_block(working_set, &block).into_iter().map(
        |(span, shape)| Token {
            span: Span { start: span.start, end: span.end },
            shape: shape_of(&shape),
        },
    ).collect()
}

/// The names of the variables of each scope of the working set
/// (`StateWorkingSet::delta`, its field `scope`), a scope's names in the
/// order in which its map hands them out.
#[verifier::external_body]
pub(crate) fn ephemeral_scopes(working_set: &nu_protocol::engine::StateWorkingSet) -> Vec<
    Vec<Vec<u8>>,
> {
    working_set.delta.scope.iter().map(|scope| scope.vars.keys().cloned().collect()).collect()
}

/// The names of the variables of each scope of the shell's state
/// (`EngineState`, its field `scope`), a scope's names in the order in which
/// its map hands them out.
#[verifier::external_body]
pub(crate) fn persistent_scopes(state: &nu_protocol::engine::EngineState) -> Vec<Vec<Vec<u8>>> {
    state.scope.iter().map(|scope| scope.vars.keys().cloned().collect()).collect()
}

/// Calls `StateWorkingSet::find_commands_by_prefix`: the names of the
/// declarations in scope that start with `prefix`.
#[verifier::external_body]
pub(crate) fn known_commands(working_set: &nu_protocol::engine::StateWorkingSet, prefix: &[u8]) -> (names:
    Vec<Vec<u8>>)
    ensures
        forall|i: int| 0 <= i < names@.len() ==> is_prefix(prefix@, (#[trigger] names@[i])@),
{
    working_set.find_commands_by_prefix(prefix)
}

/// Looks the variable up in the environment of the shell's state
/// (`EngineState`, its field `env_vars`) and hands its value out as a value
/// of this library: a list, where `Value::as_list` gives its items, each
/// read with `Value::as_string`; else a text, where `Value::as_string` gives
/// one; else neither. `None` where the variable is not set.
#[verifier::external_body]
pub(crate) fn env_var(state: &nu_protocol::engine::EngineState, name: &str) -> (r: Option<EnvValue>)
    ensures
        match r {
            Some(value) => env_vars(*state).contains_key(name@) && env_vars(*state)[name@]
                == value@,
            None => !env_vars(*state).contains_key(name@),
        },
{
    let value = state.env_vars.get(name)?;
    Some(match (value.as_list(), value.as_string()) {
        (Ok(items), _) => EnvValue::List(items.iter().map(|item| item.as_string().ok()).collect()),
        (_, Ok(text)) => EnvValue::Text(text),
        _ => EnvValue::Other,
    })
}

/// Calls `Value::as_string`: the value as text, for a value that can be
/// read as text.
#[verifier::external_body]
pub(crate) fn value_text(value: &nu_protocol::Value) -> Option<String> {
    value.as_string().ok()
}

/// Calls `nu_engine::eval_call` on the declaration `provider`, without
/// arguments, with a value for input that is nothing but the span, in a
/// fresh stack that holds an empty configuration record and nothing else
/// (the evaluator looks the configuration up whenever it enters a block);
/// and collects what the call yields. `None` where the call ended with an
/// error. The declaration has to be one that the state holds.
#[verifier::external_body]
pub(crate) fn call_provider(
    state: &nu_protocol::engine::EngineState,
    provider: usize,
    span: Span,
) -> Option<Vec<nu_protocol::Value>>
    requires
        provider < decl_count(*state),
{
    let head = nu_protocol::Span { start: span.start, end: span.end };
    let mut call = nu_protocol::ast::Call::new(head);
    call.decl_id = provider;
    let mut stack = nu_protocol::engine::Stack::new();
    let config = nu_protocol::Value::Record { cols: vec![], vals: vec![], span: head };
    stack.add_var(nu_protocol::CONFIG_VARIABLE_ID, config);
    let input = nu_protocol::PipelineData::new(head);
    nu_engine::eval_call(state, &mut stack, &call, input).ok().map(|data| data.into_iter().collect())
}

/// Calls `nu_path::expand_path_with`: `base` taken relative to `cwd`, with a
/// leading tilde and the dot components resolved as far as that can be done
/// without looking at the file system. The result depends on the user's home
/// directory. Of every outcome this holds: the base `./` stands for `cwd`
/// itself, so that with an empty `cwd` it resolves to the empty path.
#[verifier::external_body]
pub(crate) fn resolve_base(base: &str, cwd: &str) -> (resolved: String)
    ensures
        base@ == seq!['.', '/'] && cwd@.len() == 0 ==> resolved@.len() == 0,
{
    nu_path::expand_path_with(base, cwd).to_string_lossy().into_owned()
}

/// `std::path::MAIN_SEPARATOR`, the separator that the platform writes.
#[verifier::external_body]
pub(crate) fn main_separator() -> char {
    std::path::MAIN_SEPARATOR
}

} // verus!
