//! The help tree: a purely descriptive mirror of a declaration scope, built
//! by one describe-for-help traversal and rendered either in full (the
//! indented tree) or tersely (the immediate branch labels, used to suggest
//! alternatives at an error site).

use vstd::prelude::*;

use crate::constraint::describe;
use crate::constraint::spec_describe;
use crate::constraint::Constraint;
use crate::decl::Ctx;
use crate::decl::Decl;
use crate::decl::Terminal;
use crate::help::spec_deindent;
use crate::help::spec_indent;
use crate::help::spec_line_break;
use crate::help::spec_push_paragraph;
use crate::help::spec_push_word;
use crate::help::spec_small_deindent;
use crate::help::spec_small_indent;
use crate::help::FmtModel;
use crate::help::HelpFmt;

verus! {

/// A rendered-to-be help node: the path label fragments, free-text
/// description lines, nested branches in declaration order, and whether the
/// node is directly invocable.
pub struct HelpTree {
    pub path_segment: Vec<String>,
    pub descriptions: Vec<String>,
    pub branches: Vec<HelpTree>,
    pub is_standalone_command: bool,
}

/// The mathematical shadow of a [`HelpTree`].
pub ghost struct TreeModel {
    pub path: Seq<Seq<char>>,
    pub descs: Seq<Seq<char>>,
    pub branches: Seq<TreeModel>,
    pub standalone: bool,
}

pub open spec fn tree_view(t: HelpTree) -> TreeModel
    decreases t,
    via tree_view_dec
{
    TreeModel {
        path: t.path_segment.deep_view(),
        descs: t.descriptions.deep_view(),
        branches: Seq::new(
            t.branches@.len(),
            |i: int|
                if 0 <= i < t.branches@.len() {
                    tree_view(t.branches@[i])
                } else {
                    arbitrary()
                },
        ),
        standalone: t.is_standalone_command,
    }
}

#[via_fn]
proof fn tree_view_dec(t: HelpTree) {
    assert forall|i: int| 0 <= i < t.branches@.len() implies decreases_to!(t => t.branches@[i]) by {
        assert(decreases_to!(t => t.branches));
        assert(decreases_to!(t.branches => t.branches@));
        assert(decreases_to!(t.branches@ => t.branches@[i]));
    }
}

pub open spec fn trees_view(ts: Seq<HelpTree>) -> Seq<TreeModel> {
    Seq::new(ts.len(), |i: int| tree_view(ts[i]))
}

impl View for HelpTree {
    type V = TreeModel;

    open spec fn view(&self) -> TreeModel {
        tree_view(*self)
    }
}

/// The fixed description line a loop declaration carries.
pub open spec fn user_loop_text() -> Seq<char> {
    "User loop"@
}

/// The marker rendered under a branch that no token can invoke.
pub open spec fn unreachable_text() -> Seq<char> {
    "This command cannot be called"@
}

/// The path label of one declaration: its head's name fragments followed by
/// its arguments' fragments.
pub open spec fn spec_args_frags(args: Seq<Constraint>) -> Seq<Seq<char>>
    decreases args.len(),
{
    if args.len() == 0 {
        Seq::empty()
    } else {
        spec_describe(args[0]) + spec_args_frags(args.drop_first())
    }
}

/// The help branch one declaration builds: path label from head and argument
/// fragments; description lines, with `User loop` appended for a loop;
/// branches from the nested scope, and from the loop's own declarations;
/// standalone exactly when a terminal was declared.
pub open spec fn spec_branch(n: Decl) -> TreeModel
    decreases n,
{
    TreeModel {
        path: spec_describe(n.head) + spec_args_frags(n.args@),
        descs: n.descriptions.deep_view() + (match n.terminal {
            Terminal::UserLoop(_) => seq![user_loop_text()],
            _ => Seq::empty(),
        }),
        branches: spec_build_tree(n.subs@) + (match n.terminal {
            Terminal::UserLoop(c) => spec_build_tree(c.decls@),
            _ => Seq::empty(),
        }),
        standalone: n.terminal matches Terminal::Run(_) || n.terminal matches Terminal::UserLoop(
            _,
        ),
    }
}

/// The help branches of a whole scope, in declaration order.
pub open spec fn spec_build_tree(nodes: Seq<Decl>) -> Seq<TreeModel>
    decreases nodes,
{
    if nodes.len() == 0 {
        Seq::empty()
    } else {
        seq![spec_branch(nodes[0])] + spec_build_tree(nodes.drop_first())
    }
}

fn clone_strings(v: &Vec<String>) -> (r: Vec<String>)
    ensures
        r.deep_view() == v.deep_view(),
{
    let mut r: Vec<String> = Vec::new();
    assert(r.deep_view() =~= v.deep_view().subrange(0, 0));
    let mut i: usize = 0;
    while i < v.len()
        invariant
            i <= v.len(),
            r.deep_view() =~= v.deep_view().subrange(0, i as int),
        decreases v.len() - i,
    {
        let c = v[i].clone();
        let ghost before = r@;
        assert(r.deep_view().len() == before.len());
        assert(before.len() == i as int);
        r.push(c);
        assert(r.deep_view()[i as int] == c@);
        assert(r.deep_view() =~= v.deep_view().subrange(0, i + 1));
        i = i + 1;
    }
    assert(v.deep_view().subrange(0, v@.len() as int) =~= v.deep_view());
    r
}

/// Builds the help branch of one declaration.
pub fn build_branch(n: &Decl) -> (r: HelpTree)
    ensures
        tree_view(r) == spec_branch(*n),
    decreases *n,
{
    let mut path: Vec<String> = Vec::new();
    assert(path.deep_view() =~= Seq::<Seq<char>>::empty());
    describe(&n.head, &mut path);
    assert(path.deep_view() =~= spec_describe(n.head));
    assert(n.args@.subrange(0, n.args@.len() as int) =~= n.args@);
    let mut i: usize = 0;
    while i < n.args.len()
        invariant
            i <= n.args.len(),
            path.deep_view() + spec_args_frags(n.args@.subrange(i as int, n.args@.len() as int))
                =~= spec_describe(n.head) + spec_args_frags(n.args@),
        decreases n.args.len() - i,
    {
        assert(n.args@.subrange(i as int, n.args@.len() as int).drop_first() =~= n.args@.subrange(
            i + 1,
            n.args@.len() as int,
        ));
        assert(n.args@.subrange(i as int, n.args@.len() as int)[0] == n.args@[i as int]);
        describe(&n.args[i], &mut path);
        i = i + 1;
    }
    assert(n.args@.subrange(n.args@.len() as int, n.args@.len() as int) =~= Seq::<
        Constraint,
    >::empty());
    assert(path.deep_view() =~= spec_describe(n.head) + spec_args_frags(n.args@));
    let mut descriptions = clone_strings(&n.descriptions);
    let mut branches = build_tree(&n.subs);
    let is_standalone_command: bool;
    match &n.terminal {
        Terminal::Unset => {
            is_standalone_command = false;
        },
        Terminal::Run(_) => {
            is_standalone_command = true;
        },
        Terminal::UserLoop(c) => {
            is_standalone_command = true;
            descriptions.push(String::from_str("User loop"));
            let mut more = build_tree(&c.decls);
            branches.append(&mut more);
        },
    }
    let r = HelpTree { path_segment: path, descriptions, branches, is_standalone_command };
    assert(tree_view(r).descs =~= spec_branch(*n).descs);
    assert(tree_view(r).branches =~= spec_branch(*n).branches);
    r
}

/// Builds the help branches of a whole scope.
pub fn build_tree(nodes: &Vec<Decl>) -> (r: Vec<HelpTree>)
    ensures
        trees_view(r@) == spec_build_tree(nodes@),
    decreases nodes@,
{
    let mut r: Vec<HelpTree> = Vec::new();
    assert(trees_view(r@) =~= Seq::<TreeModel>::empty());
    assert(nodes@.subrange(0, nodes@.len() as int) =~= nodes@);
    let mut i: usize = 0;
    while i < nodes.len()
        invariant
            i <= nodes.len(),
            trees_view(r@) + spec_build_tree(nodes@.subrange(i as int, nodes@.len() as int))
                =~= spec_build_tree(nodes@),
        decreases nodes.len() - i,
    {
        assert(nodes@.subrange(i as int, nodes@.len() as int).drop_first() =~= nodes@.subrange(
            i + 1,
            nodes@.len() as int,
        ));
        assert(nodes@.subrange(i as int, nodes@.len() as int)[0] == nodes@[i as int]);
        let b = build_branch(&nodes[i]);
        let ghost before = r@;
        r.push(b);
        assert(trees_view(r@) =~= trees_view(before).push(tree_view(b)));
        i = i + 1;
    }
    assert(nodes@.subrange(nodes@.len() as int, nodes@.len() as int) =~= Seq::<Decl>::empty());
    assert(trees_view(r@) =~= spec_build_tree(nodes@));
    r
}

/// Pushes a sequence of words one by one.
pub open spec fn spec_push_words(m: FmtModel, words: Seq<Seq<char>>) -> FmtModel
    decreases words.len(),
{
    if words.len() == 0 {
        m
    } else {
        spec_push_words(spec_push_word(m, words[0]), words.drop_first())
    }
}

/// One description line: one space deeper, as a wrapped paragraph.
pub open spec fn spec_render_desc(m: FmtModel, d: Seq<char>) -> FmtModel {
    spec_small_deindent(spec_push_paragraph(spec_small_indent(m), d))
}

pub open spec fn spec_render_descs(m: FmtModel, ds: Seq<Seq<char>>) -> FmtModel
    decreases ds.len(),
{
    if ds.len() == 0 {
        m
    } else {
        spec_render_descs(spec_render_desc(m, ds[0]), ds.drop_first())
    }
}

/// One branch of the full help render: the path label line; the description
/// lines one space deeper; a marker when no token can reach the branch; then
/// the nested branches one indent hook deeper.
pub open spec fn spec_render_branch(t: TreeModel, m: FmtModel) -> FmtModel
    decreases t,
{
    let m1 = spec_push_words(spec_line_break(m), t.path);
    let m2 = spec_render_descs(m1, t.descs);
    let m3 = if t.branches.len() == 0 && !t.standalone {
        spec_render_desc(m2, "TODO: "@ + unreachable_text())
    } else {
        m2
    };
    spec_deindent(spec_render_branches(t.branches, spec_indent(m3)))
}

pub open spec fn spec_render_branches(ts: Seq<TreeModel>, m: FmtModel) -> FmtModel
    decreases ts,
{
    if ts.len() == 0 {
        m
    } else {
        spec_render_branches(ts.drop_first(), spec_render_branch(ts[0], m))
    }
}

fn render_branch(t: &HelpTree, fmt: &mut HelpFmt)
    ensures
        final(fmt)@ == spec_render_branch(tree_view(*t), old(fmt)@),
    decreases *t,
{
    fmt.line_break();
    let ghost after_break = fmt@;
    let ghost words = t.path_segment.deep_view();
    assert(words.subrange(0, words.len() as int) =~= words);
    let mut i: usize = 0;
    while i < t.path_segment.len()
        invariant
            i <= t.path_segment.len(),
            words == t.path_segment.deep_view(),
            spec_push_words(fmt@, words.subrange(i as int, words.len() as int)) == spec_push_words(
                after_break,
                words,
            ),
        decreases t.path_segment.len() - i,
    {
        let ghost rest = words.subrange(i as int, words.len() as int);
        assert(rest.drop_first() =~= words.subrange(i + 1, words.len() as int));
        assert(rest[0] == words[i as int]);
        fmt.push_word(t.path_segment[i].as_str());
        i = i + 1;
    }
    assert(words.subrange(words.len() as int, words.len() as int) =~= Seq::<Seq<char>>::empty());
    let ghost after_words = fmt@;
    assert(after_words == spec_push_words(after_break, words));
    let ghost descs = t.descriptions.deep_view();
    assert(descs.subrange(0, descs.len() as int) =~= descs);
    let mut j: usize = 0;
    while j < t.descriptions.len()
        invariant
            j <= t.descriptions.len(),
            descs == t.descriptions.deep_view(),
            spec_render_descs(fmt@, descs.subrange(j as int, descs.len() as int))
                == spec_render_descs(after_words, descs),
        decreases t.descriptions.len() - j,
    {
        let ghost rest = descs.subrange(j as int, descs.len() as int);
        assert(rest.drop_first() =~= descs.subrange(j + 1, descs.len() as int));
        assert(rest[0] == descs[j as int]);
        fmt.small_indent();
        fmt.push_paragraph(t.descriptions[j].as_str());
        fmt.small_deindent();
        j = j + 1;
    }
    assert(descs.subrange(descs.len() as int, descs.len() as int) =~= Seq::<Seq<char>>::empty());
    if t.branches.len() == 0 && !t.is_standalone_command {
        fmt.small_indent();
        fmt.push_paragraph("TODO: This command cannot be called");
        fmt.small_deindent();
        proof {
            reveal_strlit("TODO: This command cannot be called");
            reveal_strlit("TODO: ");
            reveal_strlit("This command cannot be called");
            assert("TODO: This command cannot be called"@ =~= "TODO: "@ + unreachable_text());
        }
    }
    fmt.indent();
    render_branches(&t.branches, fmt);
    fmt.deindent();
    assert(trees_view(t.branches@) =~= tree_view(*t).branches);
}

fn render_branches(ts: &Vec<HelpTree>, fmt: &mut HelpFmt)
    ensures
        final(fmt)@ == spec_render_branches(trees_view(ts@), old(fmt)@),
    decreases ts@,
{
    let ghost whole = trees_view(ts@);
    assert(whole.subrange(0, whole.len() as int) =~= whole);
    let mut i: usize = 0;
    while i < ts.len()
        invariant
            i <= ts.len(),
            whole == trees_view(ts@),
            spec_render_branches(whole.subrange(i as int, whole.len() as int), fmt@)
                == spec_render_branches(whole, old(fmt)@),
        decreases ts.len() - i,
    {
        let ghost rest = whole.subrange(i as int, whole.len() as int);
        assert(rest.drop_first() =~= whole.subrange(i + 1, whole.len() as int));
        assert(rest[0] == whole[i as int]);
        render_branch(&ts[i], fmt);
        i = i + 1;
    }
    assert(whole.subrange(whole.len() as int, whole.len() as int) =~= Seq::<TreeModel>::empty());
}

/// What follows the first segment of a label: each further segment after one
/// space.
pub open spec fn spec_label_rest(path: Seq<Seq<char>>) -> Seq<char>
    decreases path.len(),
{
    if path.len() == 0 {
        Seq::empty()
    } else {
        " "@ + path[0] + spec_label_rest(path.drop_first())
    }
}

/// The label of one branch: its path segments joined by single spaces.
pub open spec fn spec_label(path: Seq<Seq<char>>) -> Seq<char> {
    if path.len() == 0 {
        Seq::empty()
    } else {
        path[0] + spec_label_rest(path.drop_first())
    }
}

/// What follows the first label of a terse rendering: each further label
/// after a `" | "` separator.
pub open spec fn spec_terse_rest(ts: Seq<TreeModel>) -> Seq<char>
    decreases ts.len(),
{
    if ts.len() == 0 {
        Seq::empty()
    } else {
        " | "@ + spec_label(ts[0].path) + spec_terse_rest(ts.drop_first())
    }
}

/// The terse rendering: the immediate branches' labels joined by `" | "`.
pub open spec fn spec_terse(ts: Seq<TreeModel>) -> Seq<char> {
    if ts.len() == 0 {
        Seq::empty()
    } else {
        spec_label(ts[0].path) + spec_terse_rest(ts.drop_first())
    }
}

fn push_label(path: &Vec<String>, out: &mut String)
    ensures
        final(out)@ == old(out)@ + spec_label(path.deep_view()),
{
    let ghost words = path.deep_view();
    if path.len() == 0 {
        assert(old(out)@ + spec_label(words) =~= old(out)@);
        return ;
    }
    out.append(path[0].as_str());
    assert(words.subrange(1, words.len() as int) =~= words.drop_first());
    let mut i: usize = 1;
    while i < path.len()
        invariant
            1 <= i <= path.len(),
            words == path.deep_view(),
            words.len() >= 1,
            out@ + spec_label_rest(words.subrange(i as int, words.len() as int)) == old(out)@
                + spec_label(words),
        decreases path.len() - i,
    {
        let ghost rest = words.subrange(i as int, words.len() as int);
        assert(rest.drop_first() =~= words.subrange(i + 1, words.len() as int));
        assert(rest[0] == words[i as int]);
        out.append(" ");
        out.append(path[i].as_str());
        proof {
            assert(out@ + spec_label_rest(words.subrange(i + 1, words.len() as int)) =~= old(out)@
                + spec_label(words));
        }
        i = i + 1;
    }
    assert(words.subrange(words.len() as int, words.len() as int) =~= Seq::<Seq<char>>::empty());
    assert(out@ =~= old(out)@ + spec_label(words));
}

impl HelpTree {
    /// A bare tree: no label, no descriptions, no branches, not invocable.
    pub fn empty() -> (r: HelpTree)
        ensures
            tree_view(r) == (TreeModel {
                path: Seq::<Seq<char>>::empty(),
                descs: Seq::<Seq<char>>::empty(),
                branches: Seq::<TreeModel>::empty(),
                standalone: false,
            }),
    {
        let r = HelpTree {
            path_segment: Vec::new(),
            descriptions: Vec::new(),
            branches: Vec::new(),
            is_standalone_command: false,
        };
        assert(tree_view(r).path =~= Seq::<Seq<char>>::empty());
        assert(tree_view(r).descs =~= Seq::<Seq<char>>::empty());
        assert(tree_view(r).branches =~= Seq::<TreeModel>::empty());
        r
    }

    /// The root tree over a whole scope's branches.
    pub fn over(branches: Vec<HelpTree>) -> (r: HelpTree)
        ensures
            tree_view(r) == (TreeModel {
                path: Seq::<Seq<char>>::empty(),
                descs: Seq::<Seq<char>>::empty(),
                branches: trees_view(branches@),
                standalone: false,
            }),
    {
        let r = HelpTree {
            path_segment: Vec::new(),
            descriptions: Vec::new(),
            branches,
            is_standalone_command: false,
        };
        assert(tree_view(r).path =~= Seq::<Seq<char>>::empty());
        assert(tree_view(r).descs =~= Seq::<Seq<char>>::empty());
        assert(tree_view(r).branches =~= trees_view(r.branches@));
        r
    }

    /// Renders this tree's branches in full: each branch as an
    /// indent-hook-prefixed path label line, its description lines one space
    /// deeper, then its nested branches one indent hook deeper.
    pub fn print_full(&self, fmt: &mut HelpFmt)
        ensures
            final(fmt)@ == spec_render_branches(tree_view(*self).branches, old(fmt)@),
    {
        render_branches(&self.branches, fmt);
        assert(trees_view(self.branches@) =~= tree_view(*self).branches);
    }

    /// Renders only the immediate branches' path labels, joined by `" | "`.
    pub fn print_terse(&self) -> (r: String)
        ensures
            r@ == spec_terse(tree_view(*self).branches),
    {
        let ghost whole = trees_view(self.branches@);
        proof {
            assert(tree_view(*self).branches =~= whole);
        }
        let mut out = String::new();
        if self.branches.len() == 0 {
            assert(out@ =~= spec_terse(whole));
            return out;
        }
        push_label(&self.branches[0].path_segment, &mut out);
        proof {
            assert(whole[0].path == self.branches@[0].path_segment.deep_view());
            assert(out@ =~= spec_label(whole[0].path));
            assert(whole.subrange(1, whole.len() as int) =~= whole.drop_first());
        }
        let mut i: usize = 1;
        while i < self.branches.len()
            invariant
                1 <= i <= self.branches.len(),
                whole == trees_view(self.branches@),
                whole.len() == self.branches@.len(),
                out@ + spec_terse_rest(whole.subrange(i as int, whole.len() as int)) == spec_terse(
                    whole,
                ),
            decreases self.branches.len() - i,
        {
            let ghost rest = whole.subrange(i as int, whole.len() as int);
            assert(rest.drop_first() =~= whole.subrange(i + 1, whole.len() as int));
            assert(rest[0] == whole[i as int]);
            out.append(" | ");
            push_label(&self.branches[i].path_segment, &mut out);
            proof {
                assert(whole[i as int].path == self.branches@[i as int].path_segment.deep_view());
                assert(out@ + spec_terse_rest(whole.subrange(i + 1, whole.len() as int))
                    =~= spec_terse(whole));
            }
            i = i + 1;
        }
        assert(whole.subrange(whole.len() as int, whole.len() as int) =~= Seq::<
            TreeModel,
        >::empty());
        assert(out@ =~= spec_terse(whole));
        out
    }
}

} // verus!
