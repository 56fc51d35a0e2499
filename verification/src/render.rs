//! Rendering a terminal state for the user: the `# Help information` page for
//! a help request, and the `# Error` report — the input echoed, a caret run
//! under the erroring token, the message, and the terse list of potential
//! inputs — for a failure. Every character of the report is specified.

use vstd::prelude::*;

use crate::help::spec_fmt_new;
use crate::help::spec_line_break;
use crate::help::HelpFmt;
use crate::outcome::fin_view;
use crate::outcome::spec_message;
use crate::outcome::ErrorKind;
use crate::outcome::FinModel;
use crate::outcome::FinishedState;
use crate::tree::spec_render_branches;
use crate::tree::spec_terse;
use crate::tree::HelpTree;
use crate::tree::TreeModel;

verus! {

/// `n` copies of one character.
pub open spec fn repeat_char(c: char, n: int) -> Seq<char>
    decreases n,
{
    if n <= 0 {
        Seq::empty()
    } else {
        repeat_char(c, n - 1).push(c)
    }
}

/// What follows the first token of the echoed input line: each further token
/// after one space.
pub open spec fn spec_join_rest(toks: Seq<Seq<char>>) -> Seq<char>
    decreases toks.len(),
{
    if toks.len() == 0 {
        Seq::empty()
    } else {
        " "@ + toks[0] + spec_join_rest(toks.drop_first())
    }
}

/// The input line echoed verbatim: the tokens joined by single spaces.
pub open spec fn spec_join_tokens(toks: Seq<Seq<char>>) -> Seq<char> {
    if toks.len() == 0 {
        Seq::empty()
    } else {
        toks[0] + spec_join_rest(toks.drop_first())
    }
}

/// The spaces that align the caret run with the erroring token: each token
/// before it, plus the space that followed it, as blanks.
pub open spec fn spec_caret_pad(toks: Seq<Seq<char>>, d: int) -> Seq<char>
    recommends
        d <= toks.len(),
    decreases d,
{
    if d <= 0 {
        Seq::empty()
    } else {
        spec_caret_pad(toks, d - 1) + repeat_char(' ', toks[d - 1].len() as int).push(' ')
    }
}

/// The error report: `# Error`, the input echoed, the caret line with the
/// message, and — when help was attached — the terse list of potential
/// inputs.
pub open spec fn spec_render_error(
    toks: Seq<Seq<char>>,
    depth: int,
    kind: ErrorKind,
    help: Option<TreeModel>,
) -> Seq<char> {
    let clamped = if depth <= toks.len() {
        depth
    } else {
        toks.len() as int
    };
    let width = if 0 <= depth < toks.len() {
        toks[depth].len() as int
    } else {
        1
    };
    "# Error\n"@ + spec_join_tokens(toks) + "\n"@ + spec_caret_pad(toks, clamped) + repeat_char(
        '^',
        width,
    ) + " "@ + spec_message(kind) + "\n"@ + (match help {
        Some(t) => "Potential inputs: "@ + spec_terse(t.branches) + "\n"@,
        None => Seq::<char>::empty(),
    })
}

/// What the driver shows for a terminal state: nothing for a successful
/// match, the help page for a help request, the error report for a failure.
pub open spec fn spec_render_state(toks: Seq<Seq<char>>, f: FinModel) -> Seq<char> {
    match f {
        FinModel::Okay(_) => Seq::empty(),
        FinModel::Help(t) => "# Help information\n"@ + spec_line_break(
            spec_render_branches(t.branches, spec_fmt_new()),
        ).out,
        FinModel::Error { depth, kind, help } => spec_render_error(toks, depth, kind, help),
    }
}

fn append_repeat(out: &mut String, piece: char, n: usize)
    requires
        piece == ' ' || piece == '^',
    ensures
        final(out)@ == old(out)@ + repeat_char(piece, n as int),
{
    let mut i: usize = 0;
    while i < n
        invariant
            i <= n,
            piece == ' ' || piece == '^',
            out@ == old(out)@ + repeat_char(piece, i as int),
        decreases n - i,
    {
        if piece == '^' {
            out.append("^");
            proof {
                reveal_strlit("^");
                assert("^"@ =~= seq!['^']);
            }
        } else {
            out.append(" ");
            proof {
                reveal_strlit(" ");
                assert(" "@ =~= seq![' ']);
            }
        }
        proof {
            assert(repeat_char(piece, i + 1) =~= repeat_char(piece, i as int).push(piece));
            assert(out@ =~= old(out)@ + repeat_char(piece, i + 1));
        }
        i = i + 1;
    }
}

fn append_joined(out: &mut String, tokens: &Vec<String>)
    ensures
        final(out)@ == old(out)@ + spec_join_tokens(tokens.deep_view()),
{
    let ghost toks = tokens.deep_view();
    if tokens.len() == 0 {
        assert(old(out)@ + spec_join_tokens(toks) =~= old(out)@);
        return ;
    }
    out.append(tokens[0].as_str());
    assert(toks.subrange(1, toks.len() as int) =~= toks.drop_first());
    let mut i: usize = 1;
    while i < tokens.len()
        invariant
            1 <= i <= tokens.len(),
            toks == tokens.deep_view(),
            toks.len() >= 1,
            out@ + spec_join_rest(toks.subrange(i as int, toks.len() as int)) == old(out)@
                + spec_join_tokens(toks),
        decreases tokens.len() - i,
    {
        let ghost rest = toks.subrange(i as int, toks.len() as int);
        assert(rest.drop_first() =~= toks.subrange(i + 1, toks.len() as int));
        assert(rest[0] == toks[i as int]);
        out.append(" ");
        out.append(tokens[i].as_str());
        proof {
            assert(out@ + spec_join_rest(toks.subrange(i + 1, toks.len() as int)) =~= old(out)@
                + spec_join_tokens(toks));
        }
        i = i + 1;
    }
    assert(toks.subrange(toks.len() as int, toks.len() as int) =~= Seq::<Seq<char>>::empty());
    assert(out@ =~= old(out)@ + spec_join_tokens(toks));
}

fn append_caret_pad(out: &mut String, tokens: &Vec<String>, clamped: usize)
    requires
        clamped <= tokens@.len(),
    ensures
        final(out)@ == old(out)@ + spec_caret_pad(tokens.deep_view(), clamped as int),
{
    let ghost toks = tokens.deep_view();
    let mut i: usize = 0;
    while i < clamped
        invariant
            i <= clamped <= tokens@.len(),
            toks == tokens.deep_view(),
            out@ == old(out)@ + spec_caret_pad(toks, i as int),
        decreases clamped - i,
    {
        let w = tokens[i].unicode_len();
        append_repeat(out, ' ', w);
        out.append(" ");
        proof {
            reveal_strlit(" ");
            assert(" "@ =~= seq![' ']);
            assert(toks[i as int].len() == w as int);
            assert(out@ =~= old(out)@ + spec_caret_pad(toks, i + 1));
        }
        i = i + 1;
    }
}

/// Renders a terminal state as the driver shows it: an empty string for a
/// successful match, the `# Help information` page for a help request, and
/// the `# Error` report — the input echoed, a caret run the width of the
/// erroring token (one caret where input ran out) under it, the message, and
/// the attached potential inputs — for a failure.
pub fn render_finished_state(tokens: &Vec<String>, state: &FinishedState) -> (r: String)
    ensures
        r@ == spec_render_state(tokens.deep_view(), fin_view(*state)),
{
    match state {
        FinishedState::Okay(_) => {
            let r = String::new();
            assert(r@ =~= spec_render_state(tokens.deep_view(), fin_view(*state)));
            r
        },
        FinishedState::Help(t) => {
            let mut out = String::from_str("# Help information\n");
            let mut fmt = HelpFmt::default();
            t.print_full(&mut fmt);
            fmt.line_break();
            let body = fmt.into_output();
            out.append(body.as_str());
            out
        },
        FinishedState::Error { depth, kind, help } => {
            let ghost toks = tokens.deep_view();
            let mut out = String::from_str("# Error\n");
            append_joined(&mut out, tokens);
            out.append("\n");
            let clamped: usize = if *depth <= tokens.len() {
                *depth
            } else {
                tokens.len()
            };
            proof {
                assert(tokens@.len() == toks.len());
            }
            append_caret_pad(&mut out, tokens, clamped);
            if *depth < tokens.len() {
                let w = tokens[*depth].unicode_len();
                append_repeat(&mut out, '^', w);
            } else {
                append_repeat(&mut out, '^', 1);
            }
            out.append(" ");
            let msg = kind.message();
            out.append(msg.as_str());
            out.append("\n");
            match help {
                Some(t) => {
                    out.append("Potential inputs: ");
                    let terse = t.print_terse();
                    out.append(terse.as_str());
                    out.append("\n");
                },
                None => {},
            }
            assert(out@ =~= spec_render_state(toks, fin_view(*state)));
            out
        },
    }
}

} // verus!
