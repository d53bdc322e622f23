//! Lines of shell code, run by the shell's evaluator and completed by the
//! completion engine. The evaluator knows only the commands that this file
//! gives it.

use nu_completion::candidate::Span as LineSpan;
use nu_completion::completer::NuCompleter;
use nu_completion::length::Input;
use nu_completion::paths::BaseDir;
use nu_engine::{eval_block, eval_expression, CallExt};
use nu_protocol::ast::Call;
use nu_protocol::engine::{CaptureBlock, Command, EngineState, Stack, StateWorkingSet};
use nu_protocol::{
    Category, Config, IntoPipelineData, PipelineData, ShellError, Signature, Span, SyntaxShape,
    Value, CONFIG_VARIABLE_ID,
};

#[derive(Clone)]
struct Let;

impl Command for Let {
    fn name(&self) -> &str {
        "let"
    }

    fn usage(&self) -> &str {
        "Create a variable and give it a value."
    }

    fn signature(&self) -> Signature {
        Signature::build("let")
            .required("var_name", SyntaxShape::VarWithOptType, "variable name")
            .required(
                "initial_value",
                SyntaxShape::Keyword(b"=".to_vec(), Box::new(SyntaxShape::Expression)),
                "equals sign followed by value",
            )
            .category(Category::Core)
    }

    fn run(
        &self,
        engine_state: &EngineState,
        stack: &mut Stack,
        call: &Call,
        _input: PipelineData,
    ) -> Result<PipelineData, ShellError> {
        let var_id = call.positional[0].as_var().expect("a variable");
        let value = call.positional[1].as_keyword().expect("a value");
        let value = eval_expression(engine_state, stack, value)?;
        stack.add_var(var_id, value);
        Ok(PipelineData::new(call.head))
    }
}

#[derive(Clone)]
struct Def;

impl Command for Def {
    fn name(&self) -> &str {
        "def"
    }

    fn usage(&self) -> &str {
        "Define a custom command"
    }

    fn signature(&self) -> Signature {
        Signature::build("def")
            .required("def_name", SyntaxShape::String, "definition name")
            .required("params", SyntaxShape::Signature, "parameters")
            .required("block", SyntaxShape::Block(Some(vec![])), "body of the definition")
            .category(Category::Core)
    }

    fn run(
        &self,
        _engine_state: &EngineState,
        _stack: &mut Stack,
        call: &Call,
        _input: PipelineData,
    ) -> Result<PipelineData, ShellError> {
        Ok(PipelineData::new(call.head))
    }
}

fn run_block(
    engine_state: &EngineState,
    stack: &Stack,
    block: &CaptureBlock,
    input: PipelineData,
) -> Result<PipelineData, ShellError> {
    let body = engine_state.get_block(block.block_id);
    let mut stack = stack.captures_to_stack(&block.captures);
    eval_block(engine_state, &mut stack, body, input, false, false)
}

#[derive(Clone)]
struct If;

impl Command for If {
    fn name(&self) -> &str {
        "if"
    }

    fn usage(&self) -> &str {
        "Conditionally run a block."
    }

    fn signature(&self) -> Signature {
        Signature::build("if")
            .required("cond", SyntaxShape::Expression, "condition to check")
            .required("then_block", SyntaxShape::Block(Some(vec![])), "block to run if check succeeds")
            .optional(
                "else_expression",
                SyntaxShape::Keyword(b"else".to_vec(), Box::new(SyntaxShape::Expression)),
                "expression or block to run if check fails",
            )
            .category(Category::Core)
    }

    fn run(
        &self,
        engine_state: &EngineState,
        stack: &mut Stack,
        call: &Call,
        input: PipelineData,
    ) -> Result<PipelineData, ShellError> {
        let holds = match eval_expression(engine_state, stack, &call.positional[0])? {
            Value::Bool { val, .. } => val,
            other => panic!("the condition is no boolean: {:?}", other),
        };
        let chosen = if holds {
            Some(&call.positional[1])
        } else {
            call.positional.get(2).map(|e| e.as_keyword().unwrap_or(e))
        };
        match chosen {
            None => Ok(PipelineData::new(call.head)),
            Some(expr) => match eval_expression(engine_state, stack, expr)? {
                Value::Block { val, captures, .. } => {
                    let block = CaptureBlock { block_id: val, captures };
                    run_block(engine_state, stack, &block, input)
                }
                value => Ok(value.into_pipeline_data()),
            },
        }
    }
}

#[derive(Clone)]
struct Do;

impl Command for Do {
    fn name(&self) -> &str {
        "do"
    }

    fn usage(&self) -> &str {
        "Run a block"
    }

    fn signature(&self) -> Signature {
        Signature::build("do")
            .required("block", SyntaxShape::Any, "the block to run")
            .rest("rest", SyntaxShape::Any, "the parameter(s) for the block")
            .category(Category::Core)
    }

    fn run(
        &self,
        engine_state: &EngineState,
        stack: &mut Stack,
        call: &Call,
        input: PipelineData,
    ) -> Result<PipelineData, ShellError> {
        let block: CaptureBlock = call.req(engine_state, stack, 0)?;
        let rest: Vec<Value> = call.rest(engine_state, stack, 1)?;
        let body = engine_state.get_block(block.block_id);
        let mut inner = stack.captures_to_stack(&block.captures);
        let params = body.signature.required_positional.iter().chain(
            body.signature.optional_positional.iter(),
        );
        for (param, value) in params.zip(rest.into_iter()) {
            inner.add_var(param.var_id.expect("a parameter"), value);
        }
        eval_block(engine_state, &mut inner, body, input, false, false)
    }
}

#[derive(Clone)]
struct Collect;

impl Command for Collect {
    fn name(&self) -> &str {
        "collect"
    }

    fn usage(&self) -> &str {
        "Collect the stream and pass it to a block."
    }

    fn signature(&self) -> Signature {
        Signature::build("collect")
            .required(
                "block",
                SyntaxShape::Block(Some(vec![SyntaxShape::Any])),
                "the block to run once the stream is collected",
            )
            .category(Category::Core)
    }

    fn run(
        &self,
        engine_state: &EngineState,
        stack: &mut Stack,
        call: &Call,
        input: PipelineData,
    ) -> Result<PipelineData, ShellError> {
        let block: CaptureBlock = call.req(engine_state, stack, 0)?;
        let body = engine_state.get_block(block.block_id);
        let mut inner = stack.captures_to_stack(&block.captures);
        if let Some(param) = body.signature.get_positional(0) {
            if let Some(var_id) = param.var_id {
                inner.add_var(var_id, input.into_value(call.head));
            }
        }
        eval_block(engine_state, &mut inner, body, PipelineData::new(call.head), false, false)
    }
}

#[derive(Clone)]
struct Each;

impl Command for Each {
    fn name(&self) -> &str {
        "each"
    }

    fn usage(&self) -> &str {
        "Run a block on each element of input"
    }

    fn signature(&self) -> Signature {
        Signature::build("each")
            .required(
                "block",
                SyntaxShape::Block(Some(vec![SyntaxShape::Any])),
                "the block to run",
            )
            .category(Category::Filters)
    }

    fn run(
        &self,
        engine_state: &EngineState,
        stack: &mut Stack,
        call: &Call,
        input: PipelineData,
    ) -> Result<PipelineData, ShellError> {
        let block: CaptureBlock = call.req(engine_state, stack, 0)?;
        let body = engine_state.get_block(block.block_id);
        let mut inner = stack.captures_to_stack(&block.captures);
        let mut vals = Vec::new();
        for item in input.into_iter() {
            if let Some(param) = body.signature.get_positional(0) {
                inner.add_var(param.var_id.expect("a parameter"), item.clone());
            }
            let given = item.into_pipeline_data();
            vals.push(eval_block(engine_state, &mut inner, body, given, false, false)?.into_value(call.head));
        }
        Ok(Value::List { vals, span: call.head }.into_pipeline_data())
    }
}

/// The `length` command, counting as the library counts.
#[derive(Clone)]
struct Length;

fn rows(items: &[Value]) -> Vec<Option<Vec<String>>> {
    items
        .iter()
        .map(|item| match item {
            Value::Record { cols, .. } => Some(cols.clone()),
            _ => None,
        })
        .collect()
}

fn describe(input: PipelineData) -> Input {
    match input {
        PipelineData::Value(Value::Nothing { .. }, ..) => Input::Nothing,
        PipelineData::Value(Value::List { vals, .. }, ..) => Input::Rows(rows(&vals)),
        PipelineData::ListStream(stream, ..) => {
            let items: Vec<Value> = stream.into_iter().collect();
            Input::Rows(rows(&items))
        }
        other => Input::Value(other.into_iter().count()),
    }
}

impl Command for Length {
    fn name(&self) -> &str {
        nu_completion::length::Length.name()
    }

    fn usage(&self) -> &str {
        nu_completion::length::Length.usage()
    }

    fn signature(&self) -> Signature {
        Signature::build("length")
            .switch("column", "Show the number of columns in a table", Some('c'))
            .category(Category::Filters)
    }

    fn run(
        &self,
        _engine_state: &EngineState,
        _stack: &mut Stack,
        call: &Call,
        input: PipelineData,
    ) -> Result<PipelineData, ShellError> {
        let count = nu_completion::length::run(call.has_flag("column"), &describe(input));
        Ok(Value::Int { val: count as i64, span: call.head }.into_pipeline_data())
    }
}

fn shell() -> EngineState {
    let mut engine_state = EngineState::new();
    let delta = {
        let mut working_set = StateWorkingSet::new(&engine_state);
        working_set.add_decl(Box::new(Let));
        working_set.add_decl(Box::new(Def));
        working_set.add_decl(Box::new(If));
        working_set.add_decl(Box::new(Do));
        working_set.add_decl(Box::new(Collect));
        working_set.add_decl(Box::new(Each));
        working_set.add_decl(Box::new(Length));
        working_set.render()
    };
    engine_state.merge_delta(delta, None, ".").expect("the commands are taken in");
    engine_state
}

fn evaluate(input: &str) -> Result<String, String> {
    let mut engine_state = shell();
    let (block, delta) = {
        let mut working_set = StateWorkingSet::new(&engine_state);
        let (block, err) = nu_parser::parse(&mut working_set, None, input.as_bytes(), false, &[]);
        if let Some(err) = err {
            return Err(format!("{:?}", err));
        }
        (block, working_set.render())
    };
    engine_state.merge_delta(delta, None, ".").map_err(|e| format!("{:?}", e))?;
    let mut stack = Stack::new();
    let nowhere = Span::new(0, 0);
    stack.add_var(CONFIG_VARIABLE_ID, Value::Record { cols: vec![], vals: vec![], span: nowhere });
    let input = PipelineData::new(nowhere);
    match eval_block(&engine_state, &mut stack, &block, input, false, false) {
        Ok(data) => data.collect_string("", &Config::default()).map_err(|e| format!("{:?}", e)),
        Err(err) => Err(format!("{:?}", err)),
    }
}

/// Completes `input` with the cursor at its end: whatever the line holds,
/// the engine answers, and what it answers replaces a token that ends at
/// the cursor. Gives the candidates' texts.
fn complete_at_end(input: &str) -> Vec<String> {
    let completer = NuCompleter::new(shell());
    let request = completer.completion_helper(input, input.len()).expect("no provider is asked");
    assert!(request.span.start <= request.span.end);
    assert!(request.span.end <= input.len());
    let found = request.complete(&BaseDir::Unreadable, &Vec::new());
    for (span, _) in found.iter() {
        assert_eq!(*span, LineSpan { start: request.span.start, end: input.len() });
    }
    for pair in found.windows(2) {
        assert!(pair[0].1 <= pair[1].1);
    }
    found.into_iter().map(|(_, text)| text).collect()
}

fn run_test(input: &str, expected: &str) {
    complete_at_end(input);
    match evaluate(input) {
        Ok(output) => assert_eq!(output.trim(), expected),
        Err(err) => panic!("{} fails: {}", input, err),
    }
}

#[test]
fn concrete_variable_assignment() {
    run_test(
        "let x = (1..100 | each { |y| $y + 100 }); let y = ($x | length); $x | length",
        "100",
    )
}

#[test]
fn length_of_rows_and_columns() {
    run_test("[[a b]; [1 2] [3 4] [5 6]] | length", "3");
    run_test("[[a b]; [1 2] [3 4] [5 6]] | length --column", "2");
    run_test("[{a: 1} {b: 2 a: 3} {c: 4}] | length -c", "3");
    run_test("[{a: 1} 2] | length -c", "0");
    run_test("[] | length", "0");
    run_test("7 | length", "1");
    run_test("7 | length -c", "1");
    run_test("1..5 | length", "5");
    run_test("1..5 | length -c", "1");
    run_test("$nothing | length", "0");
}

#[test]
fn commands_are_completed_by_name() {
    assert_eq!(complete_at_end("le"), vec!["length".to_string(), "let".to_string()]);
    assert_eq!(complete_at_end("3 | d"), vec!["def".to_string(), "do".to_string()]);
    assert_eq!(complete_at_end("let x = 3; $x | e"), vec!["each".to_string()]);
    assert!(complete_at_end("zz").is_empty());
}

#[test]
fn proper_shadow() {
    run_test("let x = 10; let x = $x + 9; $x", "19");
    let found = complete_at_end("let x = 10; let x = $x + 9; $x");
    assert_eq!(found, vec!["$x".to_string()]);
}

#[test]
fn in_variable_1() {
    run_test(r#"[3] | if $in.0 > 4 { "yay!" } else { "boo" }"#, "boo")
}

#[test]
fn in_variable_2() {
    run_test(r#"3 | if $in > 2 { "yay!" } else { "boo" }"#, "yay!")
}

#[test]
fn in_variable_3() {
    run_test(r#"3 | if $in > 4 { "yay!" } else { $in }"#, "3")
}

#[test]
fn in_variable_4() {
    run_test(r#"3 | do { $in }"#, "3")
}

#[test]
fn in_variable_5() {
    run_test(r#"3 | if $in > 2 { $in - 10 } else { $in * 10 }"#, "-7")
}

#[test]
fn in_variable_6() {
    run_test(r#"3 | if $in > 6 { $in - 10 } else { $in * 10 }"#, "30")
}

#[test]
fn missing_flags_are_nothing() {
    run_test(
        r#"def foo [--aaa(-a): int, --bbb(-b): int] { (if $aaa == $nothing { 10 } else { $aaa }) + (if $bbb == $nothing { 100 } else { $bbb }) }; foo"#,
        "110",
    )
}

#[test]
fn missing_flags_are_nothing2() {
    run_test(
        r#"def foo [--aaa(-a): int, --bbb(-b): int] { (if $aaa == $nothing { 10 } else { $aaa }) + (if $bbb == $nothing { 100 } else { $bbb }) }; foo -a 90"#,
        "190",
    )
}

#[test]
fn missing_flags_are_nothing3() {
    run_test(
        r#"def foo [--aaa(-a): int, --bbb(-b): int] { (if $aaa == $nothing { 10 } else { $aaa }) + (if $bbb == $nothing { 100 } else { $bbb }) }; foo -b 45"#,
        "55",
    )
}

#[test]
fn missing_flags_are_nothing4() {
    run_test(
        r#"def foo [--aaa(-a): int, --bbb(-b): int] { (if $aaa == $nothing { 10 } else { $aaa }) + (if $bbb == $nothing { 100 } else { $bbb }) }; foo -a 3 -b 10000"#,
        "10003",
    )
}

#[test]
fn proper_variable_captures() {
    run_test(
        r#"def foo [x] { let y = 100; { $y + $x } }; do (foo 23)"#,
        "123",
    )
}

#[test]
fn proper_variable_captures_with_calls() {
    run_test(
        r#"def foo [] { let y = 60; def bar [] { $y }; { bar } }; do (foo)"#,
        "60",
    )
}

#[test]
fn proper_variable_captures_with_nesting() {
    run_test(
        r#"def foo [x] { let z = 100; def bar [y] { $y - $x + $z } ; { |z| bar $z } }; do (foo 11) 13"#,
        "102",
    )
}

#[test]
fn divide_duration() {
    run_test(r#"4ms / 4ms"#, "1")
}

#[test]
fn divide_filesize() {
    run_test(r#"4mb / 4mb"#, "1")
}
