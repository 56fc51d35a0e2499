use conso::either;
use conso::parse;
use conso::Constraint;
use conso::Ctx;
use conso::Dispatch;
use conso::ErrorKind;
use conso::FinishedState;
use conso::Value;

fn lit(s: &str) -> Constraint {
    Constraint::Literal(s.to_string())
}

fn toks(ts: &[&str]) -> Vec<String> {
    ts.iter().map(|t| t.to_string()).collect()
}

fn wasd() -> Ctx {
    Ctx::new()
        .command(lit("w"))
        .description("Move forward")
        .run(0)
        .command(lit("s"))
        .description("Move backwards")
        .run(1)
        .command(lit("a"))
        .description("Move left")
        .run(2)
        .command(lit("d"))
        .description("Move right")
        .run(3)
}

#[test]
fn wasd_single_token_matches() {
    let ctx = wasd();
    let tokens = toks(&["d"]);
    match parse(&tokens, &ctx) {
        FinishedState::Okay(Dispatch::Run { handler, data }) => {
            assert_eq!(handler, 3);
            assert!(matches!(data, Value::Unit));
        }
        other => panic!("expected a successful match, got {:?}", state_name(&other)),
    }
}

#[test]
fn wasd_each_leaf_dispatches_its_own_handler() {
    let ctx = wasd();
    for (word, id) in [("w", 0), ("s", 1), ("a", 2), ("d", 3)] {
        let tokens = toks(&[word]);
        match parse(&tokens, &ctx) {
            FinishedState::Okay(Dispatch::Run { handler, .. }) => assert_eq!(handler, id),
            other => panic!("{} should match, got {}", word, state_name(&other)),
        }
    }
}

#[test]
fn multiply_out_of_range_argument_errors_at_depth_two() {
    let ctx = Ctx::new()
        .command(lit("multiply"))
        .constrained_arg(Constraint::IntRange(0, 100))
        .constrained_arg(Constraint::IntRange(0, 100))
        .run(7);
    let tokens = toks(&["multiply", "5", "200"]);
    match parse(&tokens, &ctx) {
        FinishedState::Error { depth, kind, .. } => {
            assert_eq!(depth, 2);
            assert_eq!(kind, ErrorKind::InvalidArgument);
        }
        other => panic!("expected an error, got {}", state_name(&other)),
    }
}

#[test]
fn multiply_in_range_yields_paired_values() {
    let ctx = Ctx::new()
        .command(lit("multiply"))
        .constrained_arg(Constraint::IntRange(0, 100))
        .constrained_arg(Constraint::IntRange(0, 100))
        .run(7);
    let tokens = toks(&["multiply", "5", "20"]);
    match parse(&tokens, &ctx) {
        FinishedState::Okay(Dispatch::Run { handler, data }) => {
            assert_eq!(handler, 7);
            match data {
                Value::Pair(a, b) => {
                    assert!(matches!(*a, Value::Int(5)));
                    assert!(matches!(*b, Value::Int(20)));
                }
                _ => panic!("expected a pair of integers"),
            }
        }
        other => panic!("expected a successful match, got {}", state_name(&other)),
    }
}

#[test]
fn nonexistent_command_errors_at_depth_zero_with_suggestions() {
    let ctx = Ctx::new()
        .command(lit("greet"))
        .run(0)
        .command(lit("order"))
        .run(1);
    let tokens = toks(&["nonexistent"]);
    match parse(&tokens, &ctx) {
        FinishedState::Error { depth, kind, help } => {
            assert_eq!(depth, 0);
            assert_eq!(kind, ErrorKind::NoMatchingCommand);
            let tree = help.expect("every surfaced error carries contextual help");
            assert_eq!(tree.print_terse(), "greet | order");
        }
        other => panic!("expected an error, got {}", state_name(&other)),
    }
}

#[test]
fn excess_arguments_error_at_depth_one() {
    let ctx = Ctx::new()
        .command(lit("greet"))
        .run(0)
        .command(lit("order"))
        .run(1);
    let tokens = toks(&["greet", "extra"]);
    match parse(&tokens, &ctx) {
        FinishedState::Error { depth, kind, help } => {
            assert_eq!(depth, 1);
            assert_eq!(kind, ErrorKind::ExcessArguments);
            assert!(help.is_some());
        }
        other => panic!("expected an error, got {}", state_name(&other)),
    }
}

#[test]
fn nested_literal_path_dispatches_leaf() {
    let subs = Ctx::new()
        .command(lit("placehold"))
        .description("Prints placeholder text")
        .run(10);
    let ctx = Ctx::new()
        .command(lit("print"))
        .sub_commands(subs)
        .run(11)
        .command(lit("quit"))
        .run(12);
    let tokens = toks(&["print", "placehold"]);
    match parse(&tokens, &ctx) {
        FinishedState::Okay(Dispatch::Run { handler, .. }) => assert_eq!(handler, 10),
        other => panic!("expected the leaf to run, got {}", state_name(&other)),
    }
}

#[test]
fn parent_run_is_fallback_when_no_sub_matches() {
    let subs = Ctx::new().command(lit("placehold")).run(10);
    let ctx = Ctx::new().command(lit("print")).sub_commands(subs).run(11);
    let tokens = toks(&["print"]);
    match parse(&tokens, &ctx) {
        FinishedState::Okay(Dispatch::Run { handler, .. }) => assert_eq!(handler, 11),
        other => panic!("expected the parent fallback, got {}", state_name(&other)),
    }
}

#[test]
fn committed_match_forecloses_siblings() {
    // first-committed-match: once `print`'s head matched, a failure deeper in
    // never falls back to a later sibling, even one that would match
    let subs = Ctx::new().command(lit("placehold")).run(10);
    let ctx = Ctx::new()
        .command(lit("print"))
        .sub_commands(subs)
        .finish()
        .command(lit("print"))
        .run(20);
    let tokens = toks(&["print"]);
    match parse(&tokens, &ctx) {
        FinishedState::Error { depth, kind, .. } => {
            assert_eq!(depth, 1);
            assert_eq!(kind, ErrorKind::UnresolvedScope);
        }
        other => panic!("expected an unresolved scope, got {}", state_name(&other)),
    }
}

#[test]
fn empty_input_is_no_matching_command() {
    let ctx = Ctx::new().command(lit("greet")).run(0);
    let tokens = toks(&[]);
    match parse(&tokens, &ctx) {
        FinishedState::Error { depth, kind, .. } => {
            assert_eq!(depth, 0);
            assert_eq!(kind, ErrorKind::NoMatchingCommand);
        }
        other => panic!("expected an error, got {}", state_name(&other)),
    }
}

#[test]
fn otherwise_matches_empty_input() {
    let ctx = Ctx::new().command(lit("greet")).run(0).otherwise().run(9);
    let tokens = toks(&[]);
    match parse(&tokens, &ctx) {
        FinishedState::Okay(Dispatch::Run { handler, .. }) => assert_eq!(handler, 9),
        other => panic!("expected the fallback to run, got {}", state_name(&other)),
    }
}

#[test]
fn either_accepts_both_alternatives() {
    let ctx = Ctx::new()
        .command(either(lit("start"), lit("begin")))
        .run(5);
    for word in ["start", "begin"] {
        let tokens = toks(&[word]);
        match parse(&tokens, &ctx) {
            FinishedState::Okay(Dispatch::Run { handler, .. }) => assert_eq!(handler, 5),
            other => panic!("{} should match, got {}", word, state_name(&other)),
        }
    }
}

#[test]
fn optional_argument_present_and_absent() {
    let make = || {
        Ctx::new()
            .command(lit("jump"))
            .constrained_arg(Constraint::Optional(Box::new(Constraint::IntRange(0, 50))))
            .run(6)
    };
    let tokens = toks(&["jump", "7"]);
    match parse(&tokens, &make()) {
        FinishedState::Okay(Dispatch::Run { data, .. }) => match data {
            Value::Maybe(Some(v)) => assert!(matches!(*v, Value::Int(7))),
            _ => panic!("expected the captured number"),
        },
        other => panic!("expected a match, got {}", state_name(&other)),
    }
    let tokens = toks(&["jump"]);
    match parse(&tokens, &make()) {
        FinishedState::Okay(Dispatch::Run { data, .. }) => {
            assert!(matches!(data, Value::Maybe(None)));
        }
        other => panic!("expected a match, got {}", state_name(&other)),
    }
}

#[test]
fn data_command_hands_head_value_through() {
    let ctx = Ctx::new()
        .data_command(Constraint::IntRange(0, 10))
        .run(4);
    let tokens = toks(&["7"]);
    match parse(&tokens, &ctx) {
        FinishedState::Okay(Dispatch::Run { handler, data }) => {
            assert_eq!(handler, 4);
            assert!(matches!(data, Value::Int(7)));
        }
        other => panic!("expected a match, got {}", state_name(&other)),
    }
}

#[test]
fn plain_arg_captures_any_token() {
    let ctx = Ctx::new().command(lit("add")).arg().run(8);
    let tokens = toks(&["add", "sword"]);
    match parse(&tokens, &ctx) {
        FinishedState::Okay(Dispatch::Run { data, .. }) => match data {
            Value::Str(s) => assert_eq!(s, "sword"),
            _ => panic!("expected the captured token"),
        },
        other => panic!("expected a match, got {}", state_name(&other)),
    }
}

#[test]
fn signed_and_overflowing_numbers() {
    let make = || {
        Ctx::new()
            .command(lit("n"))
            .constrained_arg(Constraint::IntRange(-100, 100))
            .run(1)
    };
    let tokens = toks(&["n", "-7"]);
    match parse(&tokens, &make()) {
        FinishedState::Okay(Dispatch::Run { data, .. }) => {
            assert!(matches!(data, Value::Int(-7)));
        }
        other => panic!("expected a match, got {}", state_name(&other)),
    }
    let tokens = toks(&["n", "+42"]);
    match parse(&tokens, &make()) {
        FinishedState::Error { kind, depth, .. } => {
            // 42 parses but lies outside -100..100? no — it is in range
            panic!("+42 should be accepted, got {:?} at {}", kind, depth);
        }
        FinishedState::Okay(Dispatch::Run { data, .. }) => {
            assert!(matches!(data, Value::Int(42)));
        }
        other => panic!("expected a match, got {}", state_name(&other)),
    }
    // a value past i64 does not read as a number at all
    let tokens = toks(&["n", "99999999999999999999999999"]);
    match parse(&tokens, &make()) {
        FinishedState::Error { depth, kind, .. } => {
            assert_eq!(depth, 1);
            assert_eq!(kind, ErrorKind::InvalidArgument);
        }
        other => panic!("expected an error, got {}", state_name(&other)),
    }
}

#[test]
fn full_machine_range_boundaries() {
    let make = || {
        Ctx::new()
            .command(lit("n"))
            .constrained_arg(Constraint::IntRange(i64::MIN, i64::MAX))
            .run(1)
    };
    let tokens = toks(&["n", "-9223372036854775808"]);
    match parse(&tokens, &make()) {
        FinishedState::Okay(Dispatch::Run { data, .. }) => {
            assert!(matches!(data, Value::Int(i64::MIN)));
        }
        other => panic!("expected a match, got {}", state_name(&other)),
    }
    // the upper bound is exclusive
    let tokens = toks(&["n", "9223372036854775807"]);
    match parse(&tokens, &make()) {
        FinishedState::Error { depth, kind, .. } => {
            assert_eq!(depth, 1);
            assert_eq!(kind, ErrorKind::InvalidArgument);
        }
        other => panic!("expected an error, got {}", state_name(&other)),
    }
    let tokens = toks(&["n", "9223372036854775806"]);
    match parse(&tokens, &make()) {
        FinishedState::Okay(Dispatch::Run { data, .. }) => {
            assert!(matches!(data, Value::Int(9223372036854775806)));
        }
        other => panic!("expected a match, got {}", state_name(&other)),
    }
}

#[test]
fn empty_declaration_set_rejects_everything() {
    let ctx = Ctx::new();
    let tokens = toks(&["anything"]);
    match parse(&tokens, &ctx) {
        FinishedState::Error { depth, kind, help } => {
            assert_eq!(depth, 0);
            assert_eq!(kind, ErrorKind::NoMatchingCommand);
            assert_eq!(help.expect("help is attached").print_terse(), "");
        }
        other => panic!("expected an error, got {}", state_name(&other)),
    }
}

#[test]
fn pair_composition_fails_fast() {
    let ctx = Ctx::new()
        .command(Constraint::Pair(
            Box::new(lit("two")),
            Box::new(Constraint::IntRange(0, 10)),
        ))
        .run(2);
    let tokens = toks(&["two", "3"]);
    match parse(&tokens, &ctx) {
        FinishedState::Okay(Dispatch::Run { handler, data }) => {
            assert_eq!(handler, 2);
            // the head's value is discarded by `command`
            assert!(matches!(data, Value::Unit));
        }
        other => panic!("expected a match, got {}", state_name(&other)),
    }
    // a failing second half dooms the whole head: the declaration is dead
    // and the token matches nothing else
    let tokens = toks(&["two", "99"]);
    match parse(&tokens, &ctx) {
        FinishedState::Error { depth, kind, .. } => {
            assert_eq!(depth, 0);
            assert_eq!(kind, ErrorKind::NoMatchingCommand);
        }
        other => panic!("expected an error, got {}", state_name(&other)),
    }
}

#[test]
fn user_loop_start_is_reported_not_entered() {
    let loop_cmds = Ctx::new().command(lit("hi")).run(30).command(lit("quit")).run(31);
    let ctx = Ctx::new().command(lit("repeat")).user_loop(loop_cmds);
    let tokens = toks(&["repeat"]);
    match parse(&tokens, &ctx) {
        FinishedState::Okay(Dispatch::StartLoop(inner)) => {
            // the loop's own declarations parse independently
            let tokens = toks(&["hi"]);
            match parse(&tokens, inner) {
                FinishedState::Okay(Dispatch::Run { handler, .. }) => assert_eq!(handler, 30),
                other => panic!("loop command should match, got {}", state_name(&other)),
            }
        }
        other => panic!("expected the loop start, got {}", state_name(&other)),
    }
}

#[test]
fn cursor_consumes_in_order_and_snapshots_independently() {
    let tokens = toks(&["one", "two"]);
    let mut cur = conso::Segments::new(&tokens);
    assert!(!cur.finished());
    let snap = cur;
    assert_eq!(cur.next().map(|s| s.as_str()), Some("one"));
    assert_eq!(cur.next().map(|s| s.as_str()), Some("two"));
    assert!(cur.finished());
    assert_eq!(cur.next(), None);
    // the snapshot still stands at the start
    let mut snap = snap;
    assert_eq!(snap.next().map(|s| s.as_str()), Some("one"));
}

#[test]
fn constraint_consume_runs_a_pair() {
    let tokens = toks(&["go", "12"]);
    let mut cur = conso::Segments::new(&tokens);
    let pair = Constraint::Pair(
        Box::new(lit("go")),
        Box::new(Constraint::IntRange(0, 100)),
    );
    match conso::consume(&pair, &mut cur) {
        Some(Value::Pair(a, b)) => {
            assert!(matches!(*a, Value::Unit));
            assert!(matches!(*b, Value::Int(12)));
        }
        _ => panic!("the pair should consume both tokens"),
    }
    assert!(cur.finished());
}

fn state_name(s: &FinishedState) -> &'static str {
    match s {
        FinishedState::Okay(Dispatch::Run { .. }) => "a handler dispatch",
        FinishedState::Okay(Dispatch::StartLoop(_)) => "a loop start",
        FinishedState::Help(_) => "a help request",
        FinishedState::Error { .. } => "an error",
    }
}
