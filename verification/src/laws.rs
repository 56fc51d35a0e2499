//! The engine's laws, stated and proved over the spec-level interpreter: the
//! outcome slot is written exactly once per attempt; a help request never
//! dispatches a handler; a literal command path dispatches exactly its leaf's
//! handler; an unmatched token is a depth-zero error carrying every
//! declaration's name; extra tokens after a complete command are an error at
//! the depth where they begin; and the names the help tree shows are exactly
//! the names parsing accepts.

use vstd::prelude::*;

use crate::constraint::spec_consume;
use crate::constraint::Constraint;
use crate::constraint::SpecValue;
use crate::decl::Decl;
use crate::decl::Terminal;
use crate::engine::fold_pairs;
use crate::engine::scope_tree_model;
use crate::engine::spec_parse;
use crate::engine::spec_pick_node;
use crate::engine::spec_pick_nodes;
use crate::engine::spec_run_args;
use crate::engine::spec_scope;
use crate::engine::spec_scope_at;
use crate::outcome::DispatchModel;
use crate::outcome::ErrorKind;
use crate::outcome::FinModel;
use crate::tree::spec_branch;
use crate::tree::spec_build_tree;
use crate::tree::TreeModel;

verus! {

/// A written outcome slot is never overwritten: trying one more declaration
/// leaves it as it stands.
pub proof fn lemma_node_preserves_slot(n: Decl, toks: Seq<Seq<char>>, entry: int, s: FinModel)
    ensures
        spec_pick_node(n, toks, entry, Some(s)) == Some(s),
{
}

/// A written outcome slot is never overwritten: walking a whole scope's
/// declarations leaves it as it stands.
pub proof fn lemma_nodes_preserve_slot(
    nodes: Seq<Decl>,
    toks: Seq<Seq<char>>,
    entry: int,
    s: FinModel,
)
    ensures
        spec_pick_nodes(nodes, toks, entry, Some(s)) == Some(s),
    decreases nodes,
{
    if nodes.len() > 0 {
        lemma_node_preserves_slot(nodes[0], toks, entry, s);
        lemma_nodes_preserve_slot(nodes.drop_first(), toks, entry, s);
    }
}

/// First write wins: once the outcome slot holds a terminal state, a whole
/// scope walk — help short-circuit, matching and the required-resolution
/// fallback included — returns it unchanged.
pub proof fn lemma_scope_preserves_slot(
    nodes: Seq<Decl>,
    toks: Seq<Seq<char>>,
    entry: int,
    s: FinModel,
    require: bool,
)
    ensures
        spec_scope(nodes, toks, entry, Some(s), require) == Some(s),
{
    lemma_nodes_preserve_slot(nodes, toks, entry, s);
}

/// Every parse attempt resolves: with resolution required, the scope walk
/// always writes the outcome slot, so `spec_parse` yields exactly one
/// terminal state for every token list and declaration set.
pub proof fn lemma_parse_resolves(toks: Seq<Seq<char>>, decls: Seq<Decl>)
    ensures
        spec_scope(decls, toks, 0, None, true) is Some,
        spec_parse(toks, decls) == spec_scope(decls, toks, 0, None, true)->Some_0 || (
        spec_scope(decls, toks, 0, None, true)->Some_0 matches FinModel::Error {
            depth,
            kind,
            help: None,
        } && spec_parse(toks, decls) == FinModel::Error {
            depth,
            kind,
            help: Some(scope_tree_model(spec_scope_at(decls, toks, 0, depth))),
        }),
{
}

/// A help request never dispatches a handler: `help` as the sole remaining
/// input at any scope resolves to the help tree rooted at that scope —
/// never to a handler dispatch, so no handler body observes the traversal.
pub proof fn lemma_help_dispatches_no_handler(
    nodes: Seq<Decl>,
    toks: Seq<Seq<char>>,
    entry: int,
    require: bool,
)
    requires
        toks.len() - entry == 1,
        toks[entry] == "help"@,
    ensures
        spec_scope(nodes, toks, entry, None, require) == Some(
            FinModel::Help(scope_tree_model(nodes)),
        ),
{
}

/// A help request at the top level: parsing the sole token `help` yields the
/// help tree of the whole declaration set, and runs nothing.
pub proof fn lemma_parse_help(toks: Seq<Seq<char>>, decls: Seq<Decl>)
    requires
        toks.len() == 1,
        toks[0] == "help"@,
    ensures
        spec_parse(toks, decls) == FinModel::Help(scope_tree_model(decls)),
{
    lemma_help_dispatches_no_handler(decls, toks, 0, true);
}

/// An outcome whose error depth, if any, lies within the token list.
pub open spec fn depth_in_bounds(slot: Option<FinModel>, toks: Seq<Seq<char>>) -> bool {
    match slot {
        Some(FinModel::Error { depth, .. }) => 0 <= depth <= toks.len(),
        _ => true,
    }
}

proof fn lemma_run_args_bounds(
    args: Seq<Constraint>,
    toks: Seq<Seq<char>>,
    d: int,
    slot: Option<FinModel>,
    vals: Seq<SpecValue>,
)
    requires
        0 <= d <= toks.len(),
        depth_in_bounds(slot, toks),
    ensures
        ({
            let (s, d2, _) = spec_run_args(args, toks, d, slot, vals);
            depth_in_bounds(s, toks) && d <= d2 <= toks.len()
        }),
    decreases args.len(),
{
    if args.len() > 0 && slot is None {
        let (r, d2) = spec_consume(args[0], toks, d);
        crate::constraint::lemma_consume_bounds(args[0], toks, d);
        if r is Some {
            lemma_run_args_bounds(args.drop_first(), toks, d2, slot, vals.push(r->Some_0));
        }
    }
}

proof fn lemma_pick_node_bounds(n: Decl, toks: Seq<Seq<char>>, entry: int, slot: Option<FinModel>)
    requires
        0 <= entry <= toks.len(),
        depth_in_bounds(slot, toks),
    ensures
        depth_in_bounds(spec_pick_node(n, toks, entry, slot), toks),
    decreases n, 2int,
{
    if slot is None {
        let (hr, d0) = spec_consume(n.head, toks, entry);
        crate::constraint::lemma_consume_bounds(n.head, toks, entry);
        if hr is Some {
            let vals0 = if n.data_from_head {
                seq![hr->Some_0]
            } else {
                Seq::empty()
            };
            lemma_run_args_bounds(n.args@, toks, d0, slot, vals0);
            let (slot1, d1, _) = spec_run_args(n.args@, toks, d0, slot, vals0);
            if n.subs@.len() > 0 {
                lemma_scope_bounds(n.subs@, toks, d1, slot1, false);
            }
        }
    }
}

proof fn lemma_pick_nodes_bounds(
    nodes: Seq<Decl>,
    toks: Seq<Seq<char>>,
    entry: int,
    slot: Option<FinModel>,
)
    requires
        0 <= entry <= toks.len(),
        depth_in_bounds(slot, toks),
    ensures
        depth_in_bounds(spec_pick_nodes(nodes, toks, entry, slot), toks),
    decreases nodes, 0int,
{
    if nodes.len() > 0 {
        lemma_pick_node_bounds(nodes[0], toks, entry, slot);
        lemma_pick_nodes_bounds(
            nodes.drop_first(),
            toks,
            entry,
            spec_pick_node(nodes[0], toks, entry, slot),
        );
    }
}

proof fn lemma_scope_bounds(
    nodes: Seq<Decl>,
    toks: Seq<Seq<char>>,
    entry: int,
    slot: Option<FinModel>,
    require: bool,
)
    requires
        0 <= entry <= toks.len(),
        depth_in_bounds(slot, toks),
    ensures
        depth_in_bounds(spec_scope(nodes, toks, entry, slot, require), toks),
    decreases nodes, 1int,
{
    if !(slot is None && toks.len() - entry == 1 && toks[entry] == "help"@) {
        lemma_pick_nodes_bounds(nodes, toks, entry, slot);
    }
}

/// Every reported error is stamped with a depth that lies within the token
/// list: the position of the erroring token, or the end of the input.
pub proof fn lemma_error_depth_in_bounds(toks: Seq<Seq<char>>, decls: Seq<Decl>)
    ensures
        spec_parse(toks, decls) matches FinModel::Error { depth, .. } ==> 0 <= depth <= toks.len(),
{
    lemma_scope_bounds(decls, toks, 0, None, true);
}

/// The literal a declaration's head matches, where its head is a literal.
pub open spec fn head_text(n: Decl) -> Seq<char> {
    match n.head {
        Constraint::Literal(l) => l@,
        _ => Seq::empty(),
    }
}

/// A declaration tree with only literal leaf commands: every head is a
/// literal without arguments, every leaf carries a handler, and every
/// interior declaration resolves only through its sub-declarations.
pub open spec fn literal_node(n: Decl) -> bool
    decreases n,
{
    &&& n.head matches Constraint::Literal(_)
    &&& n.args@.len() == 0
    &&& if n.subs@.len() == 0 {
        n.terminal matches Terminal::Run(_)
    } else {
        n.terminal matches Terminal::Unset
    }
    &&& literal_tree(n.subs@)
}

pub open spec fn literal_tree(nodes: Seq<Decl>) -> bool
    decreases nodes,
{
    forall|i: int| 0 <= i < nodes.len() ==> literal_node(#[trigger] nodes[i])
}

/// No two sibling declarations share a name, at any depth.
pub open spec fn unambiguous(nodes: Seq<Decl>) -> bool
    decreases nodes,
{
    &&& forall|i: int, j: int|
        0 <= i < j < nodes.len() ==> head_text(#[trigger] nodes[i]) != head_text(
            #[trigger] nodes[j],
        )
    &&& forall|i: int| 0 <= i < nodes.len() ==> unambiguous((#[trigger] nodes[i]).subs@)
}

/// A path of declaration indices that ends at a leaf.
pub open spec fn leaf_path(nodes: Seq<Decl>, idxs: Seq<int>) -> bool
    decreases idxs.len(),
{
    &&& idxs.len() >= 1
    &&& 0 <= idxs[0] < nodes.len()
    &&& if idxs.len() == 1 {
        nodes[idxs[0]].subs@.len() == 0
    } else {
        leaf_path(nodes[idxs[0]].subs@, idxs.drop_first())
    }
}

/// The token list that spells a path: the head literal at each step.
pub open spec fn path_tokens(nodes: Seq<Decl>, idxs: Seq<int>) -> Seq<Seq<char>>
    recommends
        leaf_path(nodes, idxs),
    decreases idxs.len(),
{
    if idxs.len() == 0 {
        Seq::empty()
    } else {
        seq![head_text(nodes[idxs[0]])] + path_tokens(nodes[idxs[0]].subs@, idxs.drop_first())
    }
}

/// The handler declared at the path's leaf.
pub open spec fn path_handler(nodes: Seq<Decl>, idxs: Seq<int>) -> u64
    recommends
        leaf_path(nodes, idxs),
    decreases idxs.len(),
{
    if idxs.len() <= 1 {
        match nodes[idxs[0]].terminal {
            Terminal::Run(h) => h,
            _ => 0,
        }
    } else {
        path_handler(nodes[idxs[0]].subs@, idxs.drop_first())
    }
}

proof fn lemma_path_tokens_len(nodes: Seq<Decl>, idxs: Seq<int>)
    ensures
        path_tokens(nodes, idxs).len() == idxs.len(),
    decreases idxs.len(),
{
    if idxs.len() > 0 {
        lemma_path_tokens_len(nodes[idxs[0]].subs@, idxs.drop_first());
    }
}

/// Walking a scope splits at any point: the suffix continues from whatever
/// the prefix left in the slot.
proof fn lemma_pick_nodes_split(
    nodes: Seq<Decl>,
    toks: Seq<Seq<char>>,
    entry: int,
    slot: Option<FinModel>,
    k: int,
)
    requires
        0 <= k <= nodes.len(),
    ensures
        spec_pick_nodes(nodes, toks, entry, slot) == spec_pick_nodes(
            nodes.subrange(k, nodes.len() as int),
            toks,
            entry,
            spec_pick_nodes(nodes.subrange(0, k), toks, entry, slot),
        ),
    decreases k,
{
    if k == 0 {
        assert(nodes.subrange(0, 0) =~= Seq::<Decl>::empty());
        assert(nodes.subrange(0, nodes.len() as int) =~= nodes);
    } else {
        let first = nodes[0];
        let rest = nodes.drop_first();
        lemma_pick_nodes_split(rest, toks, entry, spec_pick_node(first, toks, entry, slot), k - 1);
        assert(nodes.subrange(0, k).drop_first() =~= rest.subrange(0, k - 1));
        assert(nodes.subrange(k, nodes.len() as int) =~= rest.subrange(k - 1, rest.len() as int));
        assert(nodes.subrange(0, k)[0] == first);
    }
}

/// Declarations whose literal heads differ from the token at the scope's
/// entry are all dead: they leave the slot empty.
proof fn lemma_dead_nodes(nodes: Seq<Decl>, toks: Seq<Seq<char>>, entry: int)
    requires
        0 <= entry < toks.len(),
        forall|j: int|
            0 <= j < nodes.len() ==> ((#[trigger] nodes[j]).head matches Constraint::Literal(_))
                && head_text(nodes[j]) != toks[entry],
    ensures
        spec_pick_nodes(nodes, toks, entry, None) == None::<FinModel>,
    decreases nodes,
{
    if nodes.len() > 0 {
        assert((nodes[0].head matches Constraint::Literal(_)) && head_text(nodes[0])
            != toks[entry]);
        assert(spec_consume(nodes[0].head, toks, entry).0 is None);
        assert(spec_pick_node(nodes[0], toks, entry, None) == None::<FinModel>);
        lemma_dead_nodes(nodes.drop_first(), toks, entry);
    }
}

/// The heart of the literal-path law, one scope at a time: when the tokens
/// from the scope's entry onward spell a leaf path, the scope walk dispatches
/// that leaf's handler with the unit datum.
proof fn lemma_scope_dispatch(
    nodes: Seq<Decl>,
    toks: Seq<Seq<char>>,
    entry: int,
    idxs: Seq<int>,
    require: bool,
)
    requires
        literal_tree(nodes),
        unambiguous(nodes),
        leaf_path(nodes, idxs),
        0 <= entry <= toks.len(),
        toks.subrange(entry, toks.len() as int) == path_tokens(nodes, idxs),
        toks.len() >= 1,
        toks[toks.len() - 1] != "help"@,
    ensures
        spec_scope(nodes, toks, entry, None, require) == Some(
            FinModel::Okay(
                DispatchModel::Run { handler: path_handler(nodes, idxs), data: SpecValue::Unit },
            ),
        ),
    decreases idxs.len(),
{
    lemma_path_tokens_len(nodes, idxs);
    let i0 = idxs[0];
    let n = nodes[i0];
    assert(literal_node(n));
    assert(toks.len() - entry == idxs.len());
    assert(toks[entry] == path_tokens(nodes, idxs)[0]);
    assert(toks[entry] == head_text(n));

    // the scope-local help short-circuit does not fire
    if toks.len() - entry == 1 {
        assert(toks[entry] == toks[toks.len() - 1]);
    }

    // siblings before the path's declaration are dead
    let prefix = nodes.subrange(0, i0);
    assert forall|j: int| 0 <= j < prefix.len() implies ((#[trigger] prefix[j]).head
        matches Constraint::Literal(_)) && head_text(prefix[j]) != toks[entry] by {
        assert(prefix[j] == nodes[j]);
        assert(literal_node(nodes[j]));
        assert(head_text(nodes[j]) != head_text(nodes[i0]));
    }
    lemma_dead_nodes(prefix, toks, entry);
    lemma_pick_nodes_split(nodes, toks, entry, None, i0);

    // the path's declaration matches and resolves
    let (hr, d0) = spec_consume(n.head, toks, entry);
    assert(hr == Some(SpecValue::Unit) && d0 == entry + 1) by {
        assert(n.head matches Constraint::Literal(_));
        assert(toks[entry] == head_text(n));
    }
    let vals0: Seq<SpecValue> = if n.data_from_head {
        seq![SpecValue::Unit]
    } else {
        Seq::empty()
    };
    assert(spec_run_args(n.args@, toks, d0, None, vals0) == (None::<FinModel>, d0, vals0));
    assert(fold_pairs(vals0) == SpecValue::Unit);

    let outcome = FinModel::Okay(
        DispatchModel::Run { handler: path_handler(nodes, idxs), data: SpecValue::Unit },
    );
    if idxs.len() == 1 {
        assert(n.subs@.len() == 0);
        assert(n.terminal matches Terminal::Run(_));
        assert(d0 == toks.len());
        assert(path_handler(nodes, idxs) == n.terminal->Run_0);
        assert(spec_pick_node(n, toks, entry, None) == Some(outcome));
    } else {
        assert(n.subs@.len() > 0) by {
            assert(leaf_path(n.subs@, idxs.drop_first()));
        }
        assert(n.terminal matches Terminal::Unset);
        assert(toks.subrange(entry + 1, toks.len() as int) =~= path_tokens(
            n.subs@,
            idxs.drop_first(),
        )) by {
            assert(toks.subrange(entry, toks.len() as int).drop_first() =~= toks.subrange(
                entry + 1,
                toks.len() as int,
            ));
            assert(path_tokens(nodes, idxs).drop_first() =~= path_tokens(
                n.subs@,
                idxs.drop_first(),
            ));
        }
        assert(literal_tree(n.subs@));
        assert(unambiguous(n.subs@));
        lemma_scope_dispatch(n.subs@, toks, entry + 1, idxs.drop_first(), false);
        assert(path_handler(nodes, idxs) == path_handler(n.subs@, idxs.drop_first()));
        assert(spec_pick_node(n, toks, entry, None) == Some(outcome));
    }

    // siblings after it see a written slot and leave it alone
    let suffix = nodes.subrange(i0, nodes.len() as int);
    assert(suffix[0] == n);
    assert(suffix.drop_first() =~= nodes.subrange(i0 + 1, nodes.len() as int));
    lemma_nodes_preserve_slot(nodes.subrange(i0 + 1, nodes.len() as int), toks, entry, outcome);
    assert(spec_pick_nodes(nodes, toks, entry, None) == Some(outcome));
}

/// For a declaration tree with only literal leaf commands and distinct
/// sibling names, parsing the token list that spells one leaf's path
/// dispatches exactly that leaf's handler, with the unit datum — and, the
/// outcome being a single dispatch, no other leaf's handler. (A final path
/// token named `help` is the one exception: it is taken as a help request.)
pub proof fn lemma_literal_path_dispatch(nodes: Seq<Decl>, toks: Seq<Seq<char>>, idxs: Seq<int>)
    requires
        literal_tree(nodes),
        unambiguous(nodes),
        leaf_path(nodes, idxs),
        toks == path_tokens(nodes, idxs),
        toks.len() >= 1,
        toks[toks.len() - 1] != "help"@,
    ensures
        spec_parse(toks, nodes) == FinModel::Okay(
            DispatchModel::Run { handler: path_handler(nodes, idxs), data: SpecValue::Unit },
        ),
{
    assert(toks.subrange(0, toks.len() as int) =~= toks);
    lemma_scope_dispatch(nodes, toks, 0, idxs, true);
}

/// A path of indices descending through scopes: each step names a
/// declaration that has sub-declarations to descend into.
pub open spec fn scope_path(nodes: Seq<Decl>, idxs: Seq<int>) -> bool
    decreases idxs.len(),
{
    if idxs.len() == 0 {
        true
    } else {
        &&& 0 <= idxs[0] < nodes.len()
        &&& nodes[idxs[0]].subs@.len() > 0
        &&& scope_path(nodes[idxs[0]].subs@, idxs.drop_first())
    }
}

/// The scope the path descends to.
pub open spec fn scope_nodes(nodes: Seq<Decl>, idxs: Seq<int>) -> Seq<Decl>
    recommends
        scope_path(nodes, idxs),
    decreases idxs.len(),
{
    if idxs.len() == 0 {
        nodes
    } else {
        scope_nodes(nodes[idxs[0]].subs@, idxs.drop_first())
    }
}

/// The tokens that spell the path.
pub open spec fn scope_tokens(nodes: Seq<Decl>, idxs: Seq<int>) -> Seq<Seq<char>>
    recommends
        scope_path(nodes, idxs),
    decreases idxs.len(),
{
    if idxs.len() == 0 {
        Seq::empty()
    } else {
        seq![head_text(nodes[idxs[0]])] + scope_tokens(nodes[idxs[0]].subs@, idxs.drop_first())
    }
}

proof fn lemma_scope_tokens_len(nodes: Seq<Decl>, idxs: Seq<int>)
    ensures
        scope_tokens(nodes, idxs).len() == idxs.len(),
    decreases idxs.len(),
{
    if idxs.len() > 0 {
        lemma_scope_tokens_len(nodes[idxs[0]].subs@, idxs.drop_first());
    }
}

/// Help-mode traversal never invokes a terminal handler, at any depth: a
/// command path followed by the sole token `help` resolves to the help tree
/// of the scope the path descends to — a description, never a dispatch.
pub proof fn lemma_nested_help_is_help(nodes: Seq<Decl>, toks: Seq<Seq<char>>, idxs: Seq<int>)
    requires
        literal_tree(nodes),
        unambiguous(nodes),
        scope_path(nodes, idxs),
        toks == scope_tokens(nodes, idxs) + seq!["help"@],
    ensures
        spec_parse(toks, nodes) == FinModel::Help(scope_tree_model(scope_nodes(nodes, idxs))),
{
    assert(toks.subrange(0, toks.len() as int) =~= toks);
    lemma_nested_help_scope(nodes, toks, 0, idxs, true);
}

proof fn lemma_nested_help_scope(
    nodes: Seq<Decl>,
    toks: Seq<Seq<char>>,
    entry: int,
    idxs: Seq<int>,
    require: bool,
)
    requires
        literal_tree(nodes),
        unambiguous(nodes),
        scope_path(nodes, idxs),
        0 <= entry <= toks.len(),
        toks.subrange(entry, toks.len() as int) == scope_tokens(nodes, idxs) + seq!["help"@],
    ensures
        spec_scope(nodes, toks, entry, None, require) == Some(
            FinModel::Help(scope_tree_model(scope_nodes(nodes, idxs))),
        ),
    decreases idxs.len(),
{
    lemma_scope_tokens_len(nodes, idxs);
    assert(toks.subrange(entry, toks.len() as int).len() == toks.len() - entry);
    assert((scope_tokens(nodes, idxs) + seq!["help"@]).len() == idxs.len() + 1);
    assert(toks.len() - entry == idxs.len() + 1);
    if idxs.len() == 0 {
        assert(toks[entry] == (scope_tokens(nodes, idxs) + seq!["help"@])[0]);
        lemma_help_dispatches_no_handler(nodes, toks, entry, require);
    } else {
        let i0 = idxs[0];
        let n = nodes[i0];
        assert(literal_node(n));
        assert(toks[entry] == (scope_tokens(nodes, idxs) + seq!["help"@])[0]);
        assert(toks[entry] == head_text(n));

        let prefix = nodes.subrange(0, i0);
        assert forall|j: int| 0 <= j < prefix.len() implies ((#[trigger] prefix[j]).head
            matches Constraint::Literal(_)) && head_text(prefix[j]) != toks[entry] by {
            assert(prefix[j] == nodes[j]);
            assert(literal_node(nodes[j]));
            assert(head_text(nodes[j]) != head_text(nodes[i0]));
        }
        lemma_dead_nodes(prefix, toks, entry);
        lemma_pick_nodes_split(nodes, toks, entry, None, i0);

        let (hr, d0) = spec_consume(n.head, toks, entry);
        assert(hr == Some(SpecValue::Unit) && d0 == entry + 1);
        let vals0: Seq<SpecValue> = if n.data_from_head {
            seq![SpecValue::Unit]
        } else {
            Seq::empty()
        };
        assert(spec_run_args(n.args@, toks, d0, None, vals0) == (None::<FinModel>, d0, vals0));

        assert(n.subs@.len() > 0);
        assert(n.terminal matches Terminal::Unset);
        assert(toks.subrange(entry + 1, toks.len() as int) =~= scope_tokens(
            n.subs@,
            idxs.drop_first(),
        ) + seq!["help"@]) by {
            assert(toks.subrange(entry, toks.len() as int).drop_first() =~= toks.subrange(
                entry + 1,
                toks.len() as int,
            ));
            assert((scope_tokens(nodes, idxs) + seq!["help"@]).drop_first() =~= scope_tokens(
                n.subs@,
                idxs.drop_first(),
            ) + seq!["help"@]);
        }
        assert(literal_tree(n.subs@));
        assert(unambiguous(n.subs@));
        lemma_nested_help_scope(n.subs@, toks, entry + 1, idxs.drop_first(), false);

        let outcome = FinModel::Help(scope_tree_model(scope_nodes(n.subs@, idxs.drop_first())));
        assert(spec_pick_node(n, toks, entry, None) == Some(outcome));

        let suffix = nodes.subrange(i0, nodes.len() as int);
        assert(suffix[0] == n);
        assert(suffix.drop_first() =~= nodes.subrange(i0 + 1, nodes.len() as int));
        lemma_nodes_preserve_slot(nodes.subrange(i0 + 1, nodes.len() as int), toks, entry, outcome);
        assert(spec_pick_nodes(nodes, toks, entry, None) == Some(outcome));

        // this scope's own help short-circuit cannot fire over two or more
        // remaining tokens
        assert(toks.len() - entry >= 2);
    }
}

/// Each declaration's help branch, by position.
proof fn lemma_build_tree_index(nodes: Seq<Decl>)
    ensures
        spec_build_tree(nodes).len() == nodes.len(),
        forall|i: int|
            0 <= i < nodes.len() ==> spec_build_tree(nodes)[i] == spec_branch(#[trigger] nodes[i]),
    decreases nodes,
{
    if nodes.len() > 0 {
        lemma_build_tree_index(nodes.drop_first());
        assert forall|i: int| 0 <= i < nodes.len() implies spec_build_tree(nodes)[i] == spec_branch(
            #[trigger] nodes[i],
        ) by {
            if i > 0 {
                assert(nodes.drop_first()[i - 1] == nodes[i]);
                assert(spec_build_tree(nodes)[i] == spec_build_tree(nodes.drop_first())[i - 1]);
            }
        }
    }
}

/// An unmatched single token against literal-headed declarations resolves to
/// a no-matching-command error at depth zero, carrying the help tree of the
/// whole scope — one branch per declaration, each branch's label starting
/// with that declaration's name.
pub proof fn lemma_unmatched_token(nodes: Seq<Decl>, toks: Seq<Seq<char>>)
    requires
        nodes.len() > 0,
        toks.len() == 1,
        toks[0] != "help"@,
        forall|i: int|
            0 <= i < nodes.len() ==> ((#[trigger] nodes[i]).head matches Constraint::Literal(_))
                && head_text(nodes[i]) != toks[0],
    ensures
        spec_parse(toks, nodes) == (FinModel::Error {
            depth: 0,
            kind: ErrorKind::NoMatchingCommand,
            help: Some(scope_tree_model(nodes)),
        }),
        scope_tree_model(nodes).branches.len() == nodes.len(),
        forall|i: int|
            0 <= i < nodes.len() ==> scope_tree_model(nodes).branches[i].path[0] == head_text(
                #[trigger] nodes[i],
            ),
{
    lemma_dead_nodes(nodes, toks, 0);
    assert(spec_scope(nodes, toks, 0, None, true) == Some(
        FinModel::Error { depth: 0, kind: ErrorKind::NoMatchingCommand, help: None },
    ));
    assert(spec_scope_at(nodes, toks, 0, 0) == nodes);
    lemma_build_tree_index(nodes);
    assert forall|i: int|
        0 <= i < nodes.len() implies scope_tree_model(nodes).branches[i].path[0] == head_text(
        #[trigger] nodes[i],
    ) by {
        assert(spec_build_tree(nodes)[i] == spec_branch(nodes[i]));
        let l = nodes[i].head->Literal_0;
        assert(crate::constraint::spec_describe(nodes[i].head) == seq![l@]);
        assert(spec_branch(nodes[i]).path[0] == l@);
    }
}

/// A command that takes no arguments, given one token more than its name,
/// resolves to an excess-arguments error at depth one — just past the matched
/// head — with contextual help attached.
pub proof fn lemma_excess_arguments(nodes: Seq<Decl>, toks: Seq<Seq<char>>, i: int)
    requires
        literal_tree(nodes),
        unambiguous(nodes),
        0 <= i < nodes.len(),
        nodes[i].subs@.len() == 0,
        toks.len() == 2,
        toks[0] == head_text(nodes[i]),
    ensures
        (spec_parse(toks, nodes) matches FinModel::Error {
            depth,
            kind: ErrorKind::ExcessArguments,
            help,
        } && depth == 1 && help is Some),
{
    let n = nodes[i];
    assert(literal_node(n));
    let prefix = nodes.subrange(0, i);
    assert forall|j: int| 0 <= j < prefix.len() implies ((#[trigger] prefix[j]).head
        matches Constraint::Literal(_)) && head_text(prefix[j]) != toks[0] by {
        assert(prefix[j] == nodes[j]);
        assert(literal_node(nodes[j]));
        assert(head_text(nodes[j]) != head_text(nodes[i]));
    }
    lemma_dead_nodes(prefix, toks, 0);
    lemma_pick_nodes_split(nodes, toks, 0, None, i);
    let (hr, d0) = spec_consume(n.head, toks, 0);
    assert(hr == Some(SpecValue::Unit) && d0 == 1);
    let vals0: Seq<SpecValue> = if n.data_from_head {
        seq![SpecValue::Unit]
    } else {
        Seq::empty()
    };
    assert(spec_run_args(n.args@, toks, 1, None, vals0) == (None::<FinModel>, 1int, vals0));
    let err = FinModel::Error { depth: 1, kind: ErrorKind::ExcessArguments, help: None };
    assert(spec_pick_node(n, toks, 0, None) == Some(err));
    let suffix = nodes.subrange(i, nodes.len() as int);
    assert(suffix[0] == n);
    assert(suffix.drop_first() =~= nodes.subrange(i + 1, nodes.len() as int));
    lemma_nodes_preserve_slot(nodes.subrange(i + 1, nodes.len() as int), toks, 0, err);
    assert(spec_scope(nodes, toks, 0, None, true) == Some(err));
}

/// What follows the first name in a scope's name list: each further
/// declaration's name after a `" | "` separator.
pub open spec fn names_rest(nodes: Seq<Decl>) -> Seq<char>
    decreases nodes.len(),
{
    if nodes.len() == 0 {
        Seq::empty()
    } else {
        " | "@ + head_text(nodes[0]) + names_rest(nodes.drop_first())
    }
}

/// The scope's declaration names joined by `" | "`.
pub open spec fn names_joined(nodes: Seq<Decl>) -> Seq<char> {
    if nodes.len() == 0 {
        Seq::empty()
    } else {
        head_text(nodes[0]) + names_rest(nodes.drop_first())
    }
}

proof fn lemma_label_of_name(n: Decl)
    requires
        n.head matches Constraint::Literal(_),
        n.args@.len() == 0,
    ensures
        crate::tree::spec_label(spec_branch(n).path) == head_text(n),
{
    let l = n.head->Literal_0;
    assert(crate::constraint::spec_describe(n.head) == seq![l@]);
    assert(crate::tree::spec_args_frags(n.args@) == Seq::<Seq<char>>::empty());
    assert(spec_branch(n).path =~= seq![head_text(n)]);
    assert(seq![head_text(n)].drop_first() =~= Seq::<Seq<char>>::empty());
    assert(crate::tree::spec_label(spec_branch(n).path) =~= head_text(n));
}

proof fn lemma_terse_rest_names(nodes: Seq<Decl>)
    requires
        forall|i: int|
            0 <= i < nodes.len() ==> ((#[trigger] nodes[i]).head matches Constraint::Literal(_))
                && nodes[i].args@.len() == 0,
    ensures
        crate::tree::spec_terse_rest(spec_build_tree(nodes)) == names_rest(nodes),
    decreases nodes,
{
    lemma_build_tree_index(nodes);
    if nodes.len() > 0 {
        lemma_label_of_name(nodes[0]);
        lemma_terse_rest_names(nodes.drop_first());
        assert(spec_build_tree(nodes)[0] == spec_branch(nodes[0]));
        assert(spec_build_tree(nodes).drop_first() =~= spec_build_tree(nodes.drop_first())) by {
            lemma_build_tree_index(nodes.drop_first());
            assert forall|i: int|
                0 <= i < nodes.len() - 1 implies spec_build_tree(nodes).drop_first()[i]
                == spec_build_tree(nodes.drop_first())[i] by {
                assert(spec_build_tree(nodes).drop_first()[i] == spec_build_tree(nodes)[i + 1]);
                assert(nodes.drop_first()[i] == nodes[i + 1]);
            }
        }
        assert(crate::tree::spec_terse_rest(spec_build_tree(nodes)) =~= names_rest(nodes));
    }
}

/// The terse rendering of a scope of named commands lists every command name,
/// in declaration order, joined by `" | "` — exactly the names that parsing
/// accepts at that scope.
pub proof fn lemma_terse_lists_names(nodes: Seq<Decl>)
    requires
        forall|i: int|
            0 <= i < nodes.len() ==> ((#[trigger] nodes[i]).head matches Constraint::Literal(_))
                && nodes[i].args@.len() == 0,
    ensures
        crate::tree::spec_terse(scope_tree_model(nodes).branches) == names_joined(nodes),
{
    lemma_build_tree_index(nodes);
    if nodes.len() > 0 {
        lemma_label_of_name(nodes[0]);
        lemma_terse_rest_names(nodes.drop_first());
        assert(spec_build_tree(nodes)[0] == spec_branch(nodes[0]));
        assert(spec_build_tree(nodes).drop_first() =~= spec_build_tree(nodes.drop_first())) by {
            lemma_build_tree_index(nodes.drop_first());
            assert forall|i: int|
                0 <= i < nodes.len() - 1 implies spec_build_tree(nodes).drop_first()[i]
                == spec_build_tree(nodes.drop_first())[i] by {
                assert(spec_build_tree(nodes).drop_first()[i] == spec_build_tree(nodes)[i + 1]);
                assert(nodes.drop_first()[i] == nodes[i + 1]);
            }
        }
        assert(crate::tree::spec_terse(spec_build_tree(nodes)) =~= names_joined(nodes));
    }
}

/// The names the help tree shows mirror the declaration tree exactly: for a
/// literal tree, each branch's label is its declaration's name and its nested
/// branches mirror the nested declarations.
pub open spec fn names_mirror(nodes: Seq<Decl>, trees: Seq<TreeModel>) -> bool
    decreases nodes,
{
    &&& trees.len() == nodes.len()
    &&& forall|i: int|
        0 <= i < nodes.len() ==> (#[trigger] trees[i]).path == seq![head_text(nodes[i])]
            && names_mirror(nodes[i].subs@, trees[i].branches)
}

/// Round trip, names side: the help tree built from a literal declaration set
/// shows exactly the declared names, level by level. Re-parsing a shown leaf
/// path therefore dispatches the matching leaf (`lemma_literal_path_dispatch`).
pub proof fn lemma_round_trip_names(nodes: Seq<Decl>)
    requires
        literal_tree(nodes),
    ensures
        names_mirror(nodes, spec_build_tree(nodes)),
    decreases nodes,
{
    lemma_build_tree_index(nodes);
    assert forall|i: int| 0 <= i < nodes.len() implies (#[trigger] spec_build_tree(nodes)[i]).path
        == seq![head_text(nodes[i])] && names_mirror(
        nodes[i].subs@,
        spec_build_tree(nodes)[i].branches,
    ) by {
        assert(literal_node(nodes[i]));
        let l = nodes[i].head->Literal_0;
        assert(crate::constraint::spec_describe(nodes[i].head) == seq![l@]);
        assert(crate::tree::spec_args_frags(nodes[i].args@) == Seq::<Seq<char>>::empty());
        assert(spec_branch(nodes[i]).path =~= seq![head_text(nodes[i])]);
        assert(spec_branch(nodes[i]).branches =~= spec_build_tree(nodes[i].subs@));
        lemma_round_trip_names(nodes[i].subs@);
        assert(spec_build_tree(nodes)[i] == spec_branch(nodes[i]));
    }
    assert(names_mirror(nodes, spec_build_tree(nodes)));
}

} // verus!
