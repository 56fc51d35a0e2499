use conso::parse;
use conso::render_finished_state;
use conso::Constraint;
use conso::Ctx;
use conso::Dispatch;
use conso::FinishedState;
use conso::HelpFmt;

fn lit(s: &str) -> Constraint {
    Constraint::Literal(s.to_string())
}

fn toks(ts: &[&str]) -> Vec<String> {
    ts.iter().map(|t| t.to_string()).collect()
}

fn greetings() -> Ctx {
    Ctx::new()
        .command(lit("greet"))
        .description("Give the world a wonderful greeting")
        .run(0)
        .command(lit("order"))
        .description("Order something delicious")
        .run(1)
}

#[test]
fn help_token_yields_help_not_a_dispatch() {
    let ctx = greetings();
    let tokens = toks(&["help"]);
    match parse(&tokens, &ctx) {
        FinishedState::Help(tree) => {
            assert_eq!(tree.print_terse(), "greet | order");
        }
        FinishedState::Okay(_) => panic!("a help request must never dispatch a handler"),
        FinishedState::Error { .. } => panic!("a help request is not an error"),
    }
}

#[test]
fn help_token_in_sub_scope_describes_that_scope() {
    let subs = Ctx::new()
        .command(lit("list"))
        .run(10)
        .command(lit("add"))
        .arg()
        .run(11);
    let ctx = Ctx::new().command(lit("inv")).sub_commands(subs).finish();
    let tokens = toks(&["inv", "help"]);
    match parse(&tokens, &ctx) {
        FinishedState::Help(tree) => {
            assert_eq!(tree.print_terse(), "list | add <string>");
        }
        FinishedState::Okay(_) => panic!("a help request must never dispatch a handler"),
        FinishedState::Error { .. } => panic!("a help request is not an error"),
    }
}

#[test]
fn help_token_two_scopes_deep() {
    let inner = Ctx::new().command(lit("low")).run(20);
    let mid = Ctx::new().command(lit("deep")).sub_commands(inner).finish();
    let ctx = Ctx::new().command(lit("outer")).sub_commands(mid).finish();
    let tokens = toks(&["outer", "deep", "help"]);
    match parse(&tokens, &ctx) {
        FinishedState::Help(tree) => {
            assert_eq!(tree.print_terse(), "low");
        }
        FinishedState::Okay(_) => panic!("a help request must never dispatch a handler"),
        FinishedState::Error { .. } => panic!("a help request is not an error"),
    }
}

#[test]
fn three_level_literal_path_dispatches() {
    let inner = Ctx::new().command(lit("low")).run(20).command(lit("other")).run(21);
    let mid = Ctx::new().command(lit("deep")).sub_commands(inner).finish();
    let ctx = Ctx::new()
        .command(lit("outer"))
        .sub_commands(mid)
        .finish()
        .command(lit("second"))
        .run(30);
    let tokens = toks(&["outer", "deep", "low"]);
    match parse(&tokens, &ctx) {
        FinishedState::Okay(Dispatch::Run { handler, .. }) => assert_eq!(handler, 20),
        _ => panic!("the three-token path should dispatch its leaf"),
    }
}

#[test]
fn help_names_reparse_to_their_commands() {
    let ctx = greetings();
    let tokens = toks(&["help"]);
    let tree = match parse(&tokens, &ctx) {
        FinishedState::Help(tree) => tree,
        _ => panic!("expected the help tree"),
    };
    let mut seen = 0;
    for branch in &tree.branches {
        let name = branch.path_segment.join(" ");
        let tokens = toks(&[name.as_str()]);
        match parse(&tokens, &ctx) {
            FinishedState::Okay(Dispatch::Run { .. }) => seen += 1,
            _ => panic!("the name {} shown in help should parse", name),
        }
    }
    assert_eq!(seen, 2);
}

#[test]
fn full_help_render_format() {
    let ctx = greetings();
    let tokens = toks(&["help"]);
    let state = parse(&tokens, &ctx);
    let text = render_finished_state(&tokens, &state);
    let expected = "# Help information\n\
                    greet\n \
                    Give the world a wonderful greeting\n\
                    order\n \
                    Order something delicious\n";
    assert_eq!(text, expected);
}

#[test]
fn nested_help_render_indents_with_hooks() {
    let subs = Ctx::new()
        .command(lit("placehold"))
        .description("Prints placeholder text")
        .run(10);
    let ctx = Ctx::new()
        .command(lit("print"))
        .description("Prints a hello world message")
        .sub_commands(subs)
        .run(11);
    let tokens = toks(&["help"]);
    let state = parse(&tokens, &ctx);
    let text = render_finished_state(&tokens, &state);
    let expected =
        "# Help information\nprint\n Prints a hello world message\n | placehold\n |  Prints placeholder text\n";
    assert_eq!(text, expected);
}

#[test]
fn unreachable_branch_carries_todo_marker() {
    // a declaration with neither a terminal nor sub-commands cannot be called
    let ctx = Ctx::new().command(lit("ghost")).finish();
    let tokens = toks(&["help"]);
    let state = parse(&tokens, &ctx);
    let text = render_finished_state(&tokens, &state);
    assert!(text.contains("TODO: This command cannot be called"));
}

#[test]
fn error_render_format() {
    let ctx = greetings();
    let tokens = toks(&["greet", "extra"]);
    let state = parse(&tokens, &ctx);
    let text = render_finished_state(&tokens, &state);
    let expected = "# Error\n\
                    greet extra\n      \
                    ^^^^^ Excess arguments passed\n\
                    Potential inputs: \n";
    assert_eq!(text, expected);
}

#[test]
fn error_render_caret_at_missing_token() {
    let ctx = Ctx::new()
        .command(lit("multiply"))
        .constrained_arg(Constraint::IntRange(0, 100))
        .run(7);
    let tokens = toks(&["multiply"]);
    let state = parse(&tokens, &ctx);
    let text = render_finished_state(&tokens, &state);
    // input ran out at depth 1: a single caret past the echoed line
    let expected = "# Error\n\
                    multiply\n         \
                    ^ Invalid argument\n\
                    Potential inputs: multiply <number 0..100>\n";
    assert_eq!(text, expected);
}

#[test]
fn okay_renders_nothing() {
    let ctx = greetings();
    let tokens = toks(&["greet"]);
    let state = parse(&tokens, &ctx);
    assert_eq!(render_finished_state(&tokens, &state), "");
}

#[test]
fn number_range_describes_itself() {
    let ctx = Ctx::new()
        .command(lit("multiply"))
        .constrained_arg(Constraint::IntRange(0, 100))
        .constrained_arg(Constraint::IntRange(-5, 100))
        .run(7);
    let tokens = toks(&["help"]);
    match parse(&tokens, &ctx) {
        FinishedState::Help(tree) => {
            assert_eq!(
                tree.print_terse(),
                "multiply <number 0..100> <number -5..100>"
            );
        }
        _ => panic!("expected the help tree"),
    }
}

#[test]
fn either_and_optional_describe_themselves() {
    let ctx = Ctx::new()
        .command(conso::either(lit("start"), lit("begin")))
        .constrained_arg(Constraint::Optional(Box::new(Constraint::CaptureString)))
        .run(5);
    let tokens = toks(&["help"]);
    match parse(&tokens, &ctx) {
        FinishedState::Help(tree) => {
            assert_eq!(tree.print_terse(), "[ start | begin ] ( <string> )?");
        }
        _ => panic!("expected the help tree"),
    }
}

#[test]
fn help_fmt_wraps_long_lines() {
    let mut fmt = HelpFmt::default();
    let long = "x".repeat(98);
    fmt.push_word(&long);
    fmt.push_word(&long);
    fmt.line_break();
    let out = fmt.into_output();
    // the second word would pass the 100-column bound, so it wraps
    assert_eq!(out, format!("{}\n{}\n", long, long));
}

#[test]
fn user_loop_documents_nested_commands() {
    let loop_cmds = Ctx::new().command(lit("hi")).run(30);
    let ctx = Ctx::new()
        .command(lit("repeat"))
        .description("Prints on repeat until you stop it")
        .user_loop(loop_cmds);
    let tokens = toks(&["help"]);
    let state = parse(&tokens, &ctx);
    let text = render_finished_state(&tokens, &state);
    assert!(text.contains("repeat"));
    assert!(text.contains("User loop"));
    assert!(text.contains("hi"));
}
