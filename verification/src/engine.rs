//! The command state machine: one consume-and-match walk of the recorded
//! declarations. The whole walk is specified by a spec-level interpreter —
//! [`spec_parse`] and the functions under it — and the executable walk is
//! proved to return exactly what the interpreter says, token for token and
//! branch for branch.
//!
//! The outcome slot is written first-wins: every write is guarded on the slot
//! still being empty, so the first command whose head tokens matched owns the
//! outcome, and later siblings cannot overturn it.

use vstd::prelude::*;

use crate::constraint::consume;
use crate::constraint::spec_consume;
use crate::constraint::val_view;
use crate::constraint::Constraint;
use crate::constraint::SpecValue;
use crate::constraint::Value;
use crate::cursor::Segments;
use crate::decl::Ctx;
use crate::decl::Decl;
use crate::decl::Terminal;
use crate::outcome::fin_view;
use crate::outcome::Dispatch;
use crate::outcome::DispatchModel;
use crate::outcome::ErrorKind;
use crate::outcome::FinModel;
use crate::outcome::FinishedState;
use crate::tree::build_tree;
use crate::tree::spec_build_tree;
use crate::tree::tree_view;
use crate::tree::HelpTree;
use crate::tree::TreeModel;

verus! {

/// The values a declaration hands its handler, viewed mathematically.
pub open spec fn vals_view(vs: Seq<Value>) -> Seq<SpecValue> {
    Seq::new(vs.len(), |i: int| val_view(vs[i]))
}

/// The outcome slot, viewed mathematically.
pub open spec fn slot_view(s: Option<FinishedState>) -> Option<FinModel> {
    match s {
        Some(f) => Some(fin_view(f)),
        None => None,
    }
}

/// The help tree over a whole scope: a root with no label of its own whose
/// branches describe the scope's declarations.
pub open spec fn scope_tree_model(nodes: Seq<Decl>) -> TreeModel {
    TreeModel {
        path: Seq::empty(),
        descs: Seq::empty(),
        branches: spec_build_tree(nodes),
        standalone: false,
    }
}

/// Parsed values collapse to one datum by left-nested pairing: none is the
/// unit value, one stands alone, more pair up from the left.
pub open spec fn fold_pairs(vals: Seq<SpecValue>) -> SpecValue
    decreases vals.len(),
{
    if vals.len() == 0 {
        SpecValue::Unit
    } else if vals.len() == 1 {
        vals[0]
    } else {
        SpecValue::Pair(Box::new(fold_pairs(vals.drop_last())), Box::new(vals.last()))
    }
}

/// Argument consumption after a matched head: each argument constraint runs
/// in turn on the advanced cursor; the first failure writes an
/// invalid-argument error at the depth where that argument began, and nothing
/// later in the list runs. Yields the slot, the cursor depth afterwards, and
/// the values gathered.
pub open spec fn spec_run_args(
    args: Seq<Constraint>,
    toks: Seq<Seq<char>>,
    d: int,
    slot: Option<FinModel>,
    vals: Seq<SpecValue>,
) -> (Option<FinModel>, int, Seq<SpecValue>)
    decreases args.len(),
{
    if args.len() == 0 || slot is Some {
        (slot, d, vals)
    } else {
        let (r, d2) = spec_consume(args[0], toks, d);
        match r {
            Some(v) => spec_run_args(args.drop_first(), toks, d2, slot, vals.push(v)),
            None => (
                Some(
                    FinModel::Error {
                        depth: d,
                        kind: ErrorKind::InvalidArgument,
                        help: None,
                    },
                ),
                d2,
                vals,
            ),
        }
    }
}

/// One declaration tried against the scope-entry cursor. A head that does not
/// match leaves the slot alone (the next sibling is tried against the same
/// snapshot). A head that matches commits: arguments run, sub-declarations
/// run on the advanced cursor, the terminal fires if the slot is still empty
/// — excess tokens are an error, otherwise the handler dispatch or loop start
/// is recorded — and a matched declaration that resolved nothing records an
/// unresolved-scope error as it ends.
pub open spec fn spec_pick_node(
    n: Decl,
    toks: Seq<Seq<char>>,
    entry: int,
    slot: Option<FinModel>,
) -> Option<FinModel>
    decreases n, 2int,
{
    if slot is Some {
        slot
    } else {
        let (hr, d0) = spec_consume(n.head, toks, entry);
        match hr {
            None => slot,
            Some(hv) => {
                let vals0 = if n.data_from_head {
                    seq![hv]
                } else {
                    Seq::empty()
                };
                let (slot1, d1, vals) = spec_run_args(n.args@, toks, d0, slot, vals0);
                let slot2 = if n.subs@.len() > 0 {
                    spec_scope(n.subs@, toks, d1, slot1, false)
                } else {
                    slot1
                };
                let slot3 = match n.terminal {
                    Terminal::Unset => slot2,
                    Terminal::Run(h) => if slot2 is Some {
                        slot2
                    } else if d1 < toks.len() {
                        Some(
                            FinModel::Error {
                                depth: d1,
                                kind: ErrorKind::ExcessArguments,
                                help: None,
                            },
                        )
                    } else {
                        Some(
                            FinModel::Okay(
                                DispatchModel::Run { handler: h, data: fold_pairs(vals) },
                            ),
                        )
                    },
                    Terminal::UserLoop(c) => if slot2 is Some {
                        slot2
                    } else if d1 < toks.len() {
                        Some(
                            FinModel::Error {
                                depth: d1,
                                kind: ErrorKind::ExcessArguments,
                                help: None,
                            },
                        )
                    } else {
                        Some(FinModel::Okay(DispatchModel::StartLoop(c)))
                    },
                };
                if slot3 is None {
                    Some(
                        FinModel::Error {
                            depth: d1,
                            kind: ErrorKind::UnresolvedScope,
                            help: None,
                        },
                    )
                } else {
                    slot3
                }
            },
        }
    }
}

/// The declarations of one scope tried in declaration order, each against the
/// scope-entry cursor; the slot, once written, silences everything after.
pub open spec fn spec_pick_nodes(
    nodes: Seq<Decl>,
    toks: Seq<Seq<char>>,
    entry: int,
    slot: Option<FinModel>,
) -> Option<FinModel>
    decreases nodes, 0int,
{
    if nodes.len() == 0 {
        slot
    } else {
        spec_pick_nodes(
            nodes.drop_first(),
            toks,
            entry,
            spec_pick_node(nodes[0], toks, entry, slot),
        )
    }
}

/// One scope walked: a sole remaining `help` token short-circuits to the help
/// tree rooted at this scope, bypassing matching entirely; otherwise the
/// declarations are tried in order, and — where resolution is required and
/// nothing wrote the slot — a no-matching-command error is recorded at the
/// scope's entry depth.
pub open spec fn spec_scope(
    nodes: Seq<Decl>,
    toks: Seq<Seq<char>>,
    entry: int,
    slot: Option<FinModel>,
    require: bool,
) -> Option<FinModel>
    decreases nodes, 1int,
{
    if slot is None && toks.len() - entry == 1 && toks[entry] == "help"@ {
        Some(FinModel::Help(scope_tree_model(nodes)))
    } else {
        let s1 = spec_pick_nodes(nodes, toks, entry, slot);
        if require && s1 is None {
            Some(
                FinModel::Error {
                    depth: entry,
                    kind: ErrorKind::NoMatchingCommand,
                    help: None,
                },
            )
        } else {
            s1
        }
    }
}

/// The cursor depth a declaration's head and arguments reach from `lo`, when
/// every one of them matches.
pub open spec fn spec_args_span(args: Seq<Constraint>, toks: Seq<Seq<char>>, d: int) -> Option<int>
    decreases args.len(),
{
    if args.len() == 0 {
        Some(d)
    } else {
        let (r, d2) = spec_consume(args[0], toks, d);
        if r is Some {
            spec_args_span(args.drop_first(), toks, d2)
        } else {
            None
        }
    }
}

pub open spec fn spec_node_span(n: Decl, toks: Seq<Seq<char>>, lo: int) -> Option<int> {
    let (hr, d0) = spec_consume(n.head, toks, lo);
    if hr is Some {
        spec_args_span(n.args@, toks, d0)
    } else {
        None
    }
}

/// The first declaration, in order, whose head and arguments consume tokens
/// from `lo` to some depth within `(lo, hi]`, together with that depth.
pub open spec fn spec_first_span(
    nodes: Seq<Decl>,
    toks: Seq<Seq<char>>,
    lo: int,
    hi: int,
) -> Option<(Decl, int)>
    decreases nodes.len(),
{
    if nodes.len() == 0 {
        None
    } else {
        match spec_node_span(nodes[0], toks, lo) {
            Some(d) => if lo < d <= hi {
                Some((nodes[0], d))
            } else {
                spec_first_span(nodes.drop_first(), toks, lo, hi)
            },
            None => spec_first_span(nodes.drop_first(), toks, lo, hi),
        }
    }
}

proof fn lemma_first_span_bounds(nodes: Seq<Decl>, toks: Seq<Seq<char>>, lo: int, hi: int)
    ensures
        spec_first_span(nodes, toks, lo, hi) matches Some((n, d)) ==> lo < d <= hi,
    decreases nodes.len(),
{
    if nodes.len() > 0 {
        lemma_first_span_bounds(nodes.drop_first(), toks, lo, hi);
    }
}

/// The scope standing at the end of the command path `toks[lo..hi]`: the walk
/// follows, at each step, the first declaration whose head and arguments
/// consume a further stretch of the path, and stops where no declaration
/// leads on. An error's contextual help is the help tree of this scope.
pub open spec fn spec_scope_at(
    nodes: Seq<Decl>,
    toks: Seq<Seq<char>>,
    lo: int,
    hi: int,
) -> Seq<Decl>
    decreases hi - lo,
    via spec_scope_at_dec
{
    if lo >= hi {
        nodes
    } else {
        match spec_first_span(nodes, toks, lo, hi) {
            Some((n, d)) => spec_scope_at(n.subs@, toks, d, hi),
            None => nodes,
        }
    }
}

#[via_fn]
proof fn spec_scope_at_dec(nodes: Seq<Decl>, toks: Seq<Seq<char>>, lo: int, hi: int) {
    lemma_first_span_bounds(nodes, toks, lo, hi);
}

/// What parsing a token list against a declaration set resolves to: exactly
/// one terminal state. The scope walk always writes the slot (resolution is
/// required at the top), and an error that reaches the surface carries the
/// help tree of the scope at the command path already consumed.
pub open spec fn spec_parse(toks: Seq<Seq<char>>, decls: Seq<Decl>) -> FinModel {
    match spec_scope(decls, toks, 0, None, true) {
        Some(s) => match s {
            FinModel::Error { depth, kind, help } => if help is None {
                FinModel::Error {
                    depth,
                    kind,
                    help: Some(scope_tree_model(spec_scope_at(decls, toks, 0, depth))),
                }
            } else {
                s
            },
            _ => s,
        },
        // resolution is required at the top level, so this branch is never
        // reached; it keeps the function total
        None => FinModel::Help(scope_tree_model(decls)),
    }
}

fn run_args<'a, 't>(
    args: &Vec<Constraint>,
    input: &mut Segments<'t>,
    vals: &mut Vec<Value>,
    slot: &mut Option<FinishedState<'a>>,
)
    requires
        old(input).wf(),
    ensures
        ({
            let (s, d, vs) = spec_run_args(
                args@,
                old(input).toks(),
                old(input).spec_depth(),
                slot_view(*old(slot)),
                vals_view(old(vals)@),
            );
            &&& slot_view(*final(slot)) == s
            &&& final(input).spec_depth() == d
            &&& vals_view(final(vals)@) == vs
        }),
        final(input).toks() == old(input).toks(),
        final(input).wf(),
{
    let ghost toks = input.toks();
    let ghost ret = spec_run_args(
        args@,
        input.toks(),
        input.spec_depth(),
        slot_view(*slot),
        vals_view(vals@),
    );
    assert(args@.subrange(0, args@.len() as int) =~= args@);
    let mut i: usize = 0;
    while i < args.len() && slot.is_none()
        invariant
            i <= args.len(),
            input.toks() == toks,
            input.wf(),
            ret == spec_run_args(
                args@.subrange(i as int, args@.len() as int),
                toks,
                input.spec_depth(),
                slot_view(*slot),
                vals_view(vals@),
            ),
        decreases args.len() - i,
    {
        let ghost rest = args@.subrange(i as int, args@.len() as int);
        assert(rest.drop_first() =~= args@.subrange(i + 1, args@.len() as int));
        assert(rest[0] == args@[i as int]);
        let depth_here = input.depth();
        match consume(&args[i], input) {
            Some(v) => {
                let ghost vbefore = vals@;
                vals.push(v);
                assert(vals_view(vals@) =~= vals_view(vbefore).push(val_view(v)));
            },
            None => {
                *slot = Some(
                    FinishedState::Error {
                        depth: depth_here,
                        kind: ErrorKind::InvalidArgument,
                        help: None,
                    },
                );
            },
        }
        i = i + 1;
    }
    proof {
        if i == args.len() {
            assert(args@.subrange(args@.len() as int, args@.len() as int) =~= Seq::<
                Constraint,
            >::empty());
        }
    }
}

fn fold_values(vals: Vec<Value>) -> (r: Value)
    ensures
        r@ == fold_pairs(vals_view(vals@)),
    decreases vals@.len(),
{
    let mut vals = vals;
    let ghost v0 = vals_view(vals@);
    match vals.pop() {
        None => {
            assert(v0.len() == 0);
            Value::Unit
        },
        Some(last) => {
            assert(v0.last() == val_view(last));
            assert(vals_view(vals@) =~= v0.drop_last());
            if vals.len() == 0 {
                assert(v0.len() == 1);
                last
            } else {
                let rest = fold_values(vals);
                Value::Pair(Box::new(rest), Box::new(last))
            }
        },
    }
}

/// Tries one declaration against the scope-entry cursor, exactly as
/// [`spec_pick_node`] says.
fn pick_node<'a, 't>(n: &'a Decl, input: Segments<'t>, slot: &mut Option<FinishedState<'a>>)
    requires
        input.wf(),
    ensures
        slot_view(*final(slot)) == spec_pick_node(
            *n,
            input.toks(),
            input.spec_depth(),
            slot_view(*old(slot)),
        ),
    decreases *n, 2int,
{
    if slot.is_some() {
        return ;
    }
    let mut cur = input;
    let head_val = consume(&n.head, &mut cur);
    match head_val {
        None => {},
        Some(hv) => {
            let mut vals: Vec<Value> = Vec::new();
            if n.data_from_head {
                vals.push(hv);
            }
            proof {
                if n.data_from_head {
                    assert(vals_view(vals@) =~= seq![val_view(hv)]);
                } else {
                    assert(vals_view(vals@) =~= Seq::<SpecValue>::empty());
                }
            }
            run_args(&n.args, &mut cur, &mut vals, slot);
            let d1 = cur.depth();
            let at_end = cur.finished();
            if n.subs.len() > 0 {
                pick_scope_driver(&n.subs, cur, slot, false);
            }
            match &n.terminal {
                Terminal::Unset => {},
                Terminal::Run(h) => {
                    if slot.is_none() {
                        if !at_end {
                            *slot = Some(
                                FinishedState::Error {
                                    depth: d1,
                                    kind: ErrorKind::ExcessArguments,
                                    help: None,
                                },
                            );
                        } else {
                            *slot = Some(
                                FinishedState::Okay(
                                    Dispatch::Run { handler: *h, data: fold_values(vals) },
                                ),
                            );
                        }
                    }
                },
                Terminal::UserLoop(c) => {
                    if slot.is_none() {
                        if !at_end {
                            *slot = Some(
                                FinishedState::Error {
                                    depth: d1,
                                    kind: ErrorKind::ExcessArguments,
                                    help: None,
                                },
                            );
                        } else {
                            *slot = Some(FinishedState::Okay(Dispatch::StartLoop(c)));
                        }
                    }
                },
            }
            if slot.is_none() {
                *slot = Some(
                    FinishedState::Error {
                        depth: d1,
                        kind: ErrorKind::UnresolvedScope,
                        help: None,
                    },
                );
            }
        },
    }
}

/// Walks one scope, exactly as [`spec_scope`] says: the scope-local `help`
/// short-circuit, then each declaration in order, then — where required —
/// the no-matching-command error at the scope's entry depth.
fn pick_scope_driver<'a, 't>(
    nodes: &'a Vec<Decl>,
    input: Segments<'t>,
    slot: &mut Option<FinishedState<'a>>,
    require: bool,
)
    requires
        input.wf(),
    ensures
        slot_view(*final(slot)) == spec_scope(
            nodes@,
            input.toks(),
            input.spec_depth(),
            slot_view(*old(slot)),
            require,
        ),
    decreases nodes@, 1int,
{
    if slot.is_none() {
        let mut probe = input;
        match probe.next() {
            Some(t) => {
                if probe.finished() {
                    let help_word = String::from_str("help");
                    if *t == help_word {
                        let branches = build_tree(nodes);
                        *slot = Some(FinishedState::Help(HelpTree::over(branches)));
                        return ;
                    }
                }
            },
            None => {},
        }
    }
    let ghost toks = input.toks();
    let ghost entry = input.spec_depth();
    let ghost slot0 = slot_view(*slot);
    assert(nodes@.subrange(0, nodes@.len() as int) =~= nodes@);
    let mut i: usize = 0;
    while i < nodes.len()
        invariant
            i <= nodes.len(),
            input.wf(),
            toks == input.toks(),
            entry == input.spec_depth(),
            spec_pick_nodes(nodes@.subrange(i as int, nodes@.len() as int), toks, entry, slot_view(
                *slot,
            )) == spec_pick_nodes(nodes@, toks, entry, slot0),
        decreases nodes.len() - i,
    {
        let ghost rest = nodes@.subrange(i as int, nodes@.len() as int);
        assert(rest.drop_first() =~= nodes@.subrange(i + 1, nodes@.len() as int));
        assert(rest[0] == nodes@[i as int]);
        pick_node(&nodes[i], input, slot);
        i = i + 1;
    }
    assert(nodes@.subrange(nodes@.len() as int, nodes@.len() as int) =~= Seq::<Decl>::empty());
    if require && slot.is_none() {
        *slot = Some(
            FinishedState::Error {
                depth: input.depth(),
                kind: ErrorKind::NoMatchingCommand,
                help: None,
            },
        );
    }
}

/// The depth this declaration's head and arguments reach from the cursor, as
/// [`spec_node_span`] says, or `None` where one of them fails.
fn node_span<'t>(n: &Decl, input: Segments<'t>) -> (r: Option<Segments<'t>>)
    requires
        input.wf(),
    ensures
        match spec_node_span(*n, input.toks(), input.spec_depth()) {
            Some(d) => r matches Some(c) && c.spec_depth() == d && c.toks() == input.toks()
                && c.wf(),
            None => r is None,
        },
{
    let mut cur = input;
    match consume(&n.head, &mut cur) {
        None => None,
        Some(_) => {
            let ghost toks = cur.toks();
            assert(n.args@.subrange(0, n.args@.len() as int) =~= n.args@);
            let mut i: usize = 0;
            while i < n.args.len()
                invariant
                    i <= n.args.len(),
                    cur.wf(),
                    cur.toks() == toks,
                    toks == input.toks(),
                    spec_consume(n.head, input.toks(), input.spec_depth()).0 is Some,
                    spec_args_span(n.args@.subrange(i as int, n.args@.len() as int), toks,
                    cur.spec_depth()) == spec_args_span(
                        n.args@,
                        toks,
                        spec_consume(n.head, input.toks(), input.spec_depth()).1,
                    ),
                decreases n.args.len() - i,
            {
                let ghost rest = n.args@.subrange(i as int, n.args@.len() as int);
                assert(rest.drop_first() =~= n.args@.subrange(i + 1, n.args@.len() as int));
                assert(rest[0] == n.args@[i as int]);
                let ghost dprev = cur.spec_depth();
                match consume(&n.args[i], &mut cur) {
                    Some(_) => {},
                    None => {
                        proof {
                            assert(spec_args_span(rest, toks, dprev) is None);
                            assert(spec_args_span(
                                n.args@,
                                toks,
                                spec_consume(n.head, input.toks(), input.spec_depth()).1,
                            ) is None);
                        }
                        return None;
                    },
                }
                i = i + 1;
            }
            assert(n.args@.subrange(n.args@.len() as int, n.args@.len() as int) =~= Seq::<
                Constraint,
            >::empty());
            Some(cur)
        },
    }
}

/// The scope at the end of the consumed command path, as [`spec_scope_at`]
/// says.
fn scope_at<'a, 't>(nodes: &'a Vec<Decl>, input: Segments<'t>, hi: usize) -> (r: &'a Vec<Decl>)
    requires
        input.wf(),
    ensures
        r@ == spec_scope_at(nodes@, input.toks(), input.spec_depth(), hi as int),
    decreases hi as int - input.spec_depth(),
{
    let ghost toks = input.toks();
    let ghost lo = input.spec_depth();
    if input.depth() >= hi {
        return nodes;
    }
    assert(nodes@.subrange(0, nodes@.len() as int) =~= nodes@);
    let mut i: usize = 0;
    while i < nodes.len()
        invariant
            i <= nodes.len(),
            toks == input.toks(),
            lo == input.spec_depth(),
            input.wf(),
            lo < hi as int,
            spec_first_span(nodes@.subrange(i as int, nodes@.len() as int), toks, lo, hi as int)
                == spec_first_span(nodes@, toks, lo, hi as int),
        decreases nodes.len() - i,
    {
        let ghost rest = nodes@.subrange(i as int, nodes@.len() as int);
        assert(rest.drop_first() =~= nodes@.subrange(i + 1, nodes@.len() as int));
        assert(rest[0] == nodes@[i as int]);
        match node_span(&nodes[i], input) {
            Some(cur) => {
                let d = cur.depth();
                if input.depth() < d && d <= hi {
                    proof {
                        lemma_first_span_bounds(nodes@, toks, lo, hi as int);
                    }
                    return scope_at(&nodes[i].subs, cur, hi);
                }
            },
            None => {},
        }
        i = i + 1;
    }
    assert(nodes@.subrange(nodes@.len() as int, nodes@.len() as int) =~= Seq::<Decl>::empty());
    nodes
}

/// One full match attempt: walks the declarations over the token list and
/// resolves to exactly one terminal state, as [`spec_parse`] says. A `help`
/// token as the sole remaining input at any scope yields the help tree rooted
/// there; an error comes back stamped with its token depth and carrying the
/// help tree of the scope at the command path already consumed.
pub fn parse<'a>(tokens: &Vec<String>, decls: &'a Ctx) -> (r: FinishedState<'a>)
    ensures
        r@ == spec_parse(tokens.deep_view(), decls.decls@),
{
    let input = Segments::new(tokens);
    let mut slot: Option<FinishedState<'a>> = None;
    pick_scope_driver(&decls.decls, input, &mut slot, true);
    proof {
        // resolution is required at the top level, so the driver wrote the slot
        assert(spec_scope(decls.decls@, input.toks(), 0, None, true) is Some);
    }
    match slot {
        Some(FinishedState::Error { depth, kind, help: None }) => {
            let scope = scope_at(&decls.decls, input, depth);
            let branches = build_tree(scope);
            FinishedState::Error { depth, kind, help: Some(HelpTree::over(branches)) }
        },
        Some(s) => s,
        None => unreached(),
    }
}

} // verus!
