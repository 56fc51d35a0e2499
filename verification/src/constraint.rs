//! Constraints: how a command declaration consumes zero or more tokens and
//! produces a typed value or fails, and how it describes itself for help
//! text. Constraints compose: pair composition runs two constraints in
//! sequence, `either` tries two alternatives against independent snapshots,
//! `optional` never fails.

use vstd::prelude::*;

use crate::cursor::Segments;
use crate::digits::dec_int;
use crate::digits::parse_i64;
use crate::digits::push_dec_i64;
use crate::digits::spec_parse_i64;

verus! {

/// A token constraint. Literals, open string captures and numeric ranges
/// consume exactly one token; the composite forms consume whatever their
/// parts consume; `Nothing` consumes no token and always matches.
pub enum Constraint {
    /// Matches one token equal to the given text.
    Literal(String),
    /// Captures any one token; fails only at the end of the input.
    CaptureString,
    /// Consumes one token, which must read as a decimal integer within
    /// `lo..hi` (half-open).
    IntRange(i64, i64),
    /// Both parts in sequence; fails fast if either fails, without rolling
    /// back what the first part consumed.
    Pair(Box<Constraint>, Box<Constraint>),
    /// The first part, or — against a fresh snapshot — the second.
    Either(Box<Constraint>, Box<Constraint>),
    /// The part if it matches, otherwise a successful empty match that
    /// consumes nothing.
    Optional(Box<Constraint>),
    /// Consumes nothing and always matches; the head of an `otherwise`
    /// declaration.
    Nothing,
}

/// A parsed value, shaped by the constraint that produced it.
pub enum Value {
    Unit,
    Str(String),
    Int(i64),
    Pair(Box<Value>, Box<Value>),
    Maybe(Option<Box<Value>>),
}

/// The mathematical shadow of [`Value`]: text as character sequences,
/// integers unbounded.
pub enum SpecValue {
    Unit,
    Str(Seq<char>),
    Int(int),
    Pair(Box<SpecValue>, Box<SpecValue>),
    Maybe(Option<Box<SpecValue>>),
}

pub open spec fn val_view(v: Value) -> SpecValue
    decreases v,
{
    match v {
        Value::Unit => SpecValue::Unit,
        Value::Str(s) => SpecValue::Str(s@),
        Value::Int(n) => SpecValue::Int(n as int),
        Value::Pair(a, b) => SpecValue::Pair(Box::new(val_view(*a)), Box::new(val_view(*b))),
        Value::Maybe(o) => match o {
            Some(b) => SpecValue::Maybe(Some(Box::new(val_view(*b)))),
            None => SpecValue::Maybe(None),
        },
    }
}

impl View for Value {
    type V = SpecValue;

    open spec fn view(&self) -> SpecValue {
        val_view(*self)
    }
}

/// What consuming tokens under a constraint yields: the parsed value (or
/// `None` on failure) and the cursor depth afterwards. Failure can leave
/// tokens consumed — callers that may retry must snapshot first.
pub open spec fn spec_consume(c: Constraint, toks: Seq<Seq<char>>, depth: int) -> (Option<
    SpecValue,
>, int)
    decreases c,
{
    match c {
        Constraint::Literal(l) => if depth < toks.len() {
            (
                if toks[depth] == l@ {
                    Some(SpecValue::Unit)
                } else {
                    None
                },
                depth + 1,
            )
        } else {
            (None, depth)
        },
        Constraint::CaptureString => if depth < toks.len() {
            (Some(SpecValue::Str(toks[depth])), depth + 1)
        } else {
            (None, depth)
        },
        Constraint::IntRange(lo, hi) => if depth < toks.len() {
            (
                match spec_parse_i64(toks[depth]) {
                    Some(v) => if lo <= v < hi {
                        Some(SpecValue::Int(v))
                    } else {
                        None
                    },
                    None => None,
                },
                depth + 1,
            )
        } else {
            (None, depth)
        },
        Constraint::Pair(a, b) => {
            let (ra, da) = spec_consume(*a, toks, depth);
            match ra {
                Some(va) => {
                    let (rb, db) = spec_consume(*b, toks, da);
                    match rb {
                        Some(vb) => (
                            Some(SpecValue::Pair(Box::new(va), Box::new(vb))),
                            db,
                        ),
                        None => (None, db),
                    }
                },
                None => (None, da),
            }
        },
        Constraint::Either(a, b) => {
            let (ra, da) = spec_consume(*a, toks, depth);
            if ra is Some {
                (ra, da)
            } else {
                let (rb, db) = spec_consume(*b, toks, depth);
                if rb is Some {
                    (rb, db)
                } else {
                    (None, depth)
                }
            }
        },
        Constraint::Optional(a) => {
            let (ra, da) = spec_consume(*a, toks, depth);
            match ra {
                Some(v) => (Some(SpecValue::Maybe(Some(Box::new(v)))), da),
                None => (Some(SpecValue::Maybe(None)), depth),
            }
        },
        Constraint::Nothing => (Some(SpecValue::Unit), depth),
    }
}

/// Consumption moves the cursor forwards and never past the end.
pub proof fn lemma_consume_bounds(c: Constraint, toks: Seq<Seq<char>>, depth: int)
    requires
        0 <= depth <= toks.len(),
    ensures
        depth <= spec_consume(c, toks, depth).1 <= toks.len(),
    decreases c,
{
    match c {
        Constraint::Pair(a, b) => {
            lemma_consume_bounds(*a, toks, depth);
            let (ra, da) = spec_consume(*a, toks, depth);
            if ra is Some {
                lemma_consume_bounds(*b, toks, da);
            }
        },
        Constraint::Either(a, b) => {
            lemma_consume_bounds(*a, toks, depth);
            lemma_consume_bounds(*b, toks, depth);
        },
        Constraint::Optional(a) => {
            lemma_consume_bounds(*a, toks, depth);
        },
        _ => {},
    }
}

/// Runs a constraint against the cursor: on success returns the parsed value
/// with the cursor advanced past what was consumed; on failure returns
/// `None`, possibly leaving tokens consumed, exactly as [`spec_consume`]
/// says.
pub fn consume(c: &Constraint, input: &mut Segments) -> (r: Option<Value>)
    requires
        old(input).wf(),
    ensures
        final(input).toks() == old(input).toks(),
        final(input).wf(),
        ({
            let (sv, d) = spec_consume(*c, old(input).toks(), old(input).spec_depth());
            &&& final(input).spec_depth() == d
            &&& match sv {
                Some(v) => r matches Some(x) && x@ == v,
                None => r is None,
            }
        }),
    decreases *c,
{
    match c {
        Constraint::Literal(l) => {
            match input.next() {
                Some(t) => if *t == *l {
                    Some(Value::Unit)
                } else {
                    None
                },
                None => None,
            }
        },
        Constraint::CaptureString => {
            match input.next() {
                Some(t) => Some(Value::Str(t.clone())),
                None => None,
            }
        },
        Constraint::IntRange(lo, hi) => {
            match input.next() {
                Some(t) => match parse_i64(t.as_str()) {
                    Some(v) => if *lo <= v && v < *hi {
                        Some(Value::Int(v))
                    } else {
                        None
                    },
                    None => None,
                },
                None => None,
            }
        },
        Constraint::Pair(a, b) => {
            match consume(a, input) {
                Some(va) => match consume(b, input) {
                    Some(vb) => Some(Value::Pair(Box::new(va), Box::new(vb))),
                    None => None,
                },
                None => None,
            }
        },
        Constraint::Either(a, b) => {
            let mut attempt = *input;
            match consume(a, &mut attempt) {
                Some(v) => {
                    *input = attempt;
                    Some(v)
                },
                None => {
                    let mut attempt = *input;
                    match consume(b, &mut attempt) {
                        Some(v) => {
                            *input = attempt;
                            Some(v)
                        },
                        None => None,
                    }
                },
            }
        },
        Constraint::Optional(a) => {
            let mut attempt = *input;
            match consume(a, &mut attempt) {
                Some(v) => {
                    *input = attempt;
                    Some(Value::Maybe(Some(Box::new(v))))
                },
                None => Some(Value::Maybe(None)),
            }
        },
        Constraint::Nothing => Some(Value::Unit),
    }
}

/// The name fragments a constraint contributes to a help-tree path label.
pub open spec fn spec_describe(c: Constraint) -> Seq<Seq<char>>
    decreases c,
{
    match c {
        Constraint::Literal(l) => seq![l@],
        Constraint::CaptureString => seq!["<string>"@],
        Constraint::IntRange(lo, hi) => seq![
            "<number "@ + dec_int(lo as int) + ".."@ + dec_int(hi as int) + ">"@,
        ],
        Constraint::Pair(a, b) => spec_describe(*a) + spec_describe(*b),
        Constraint::Either(a, b) => seq!["["@] + spec_describe(*a) + seq!["|"@] + spec_describe(*b)
            + seq!["]"@],
        Constraint::Optional(a) => seq!["("@] + spec_describe(*a) + seq![")?"@],
        Constraint::Nothing => Seq::empty(),
    }
}

fn push_fragment(out: &mut Vec<String>, s: String)
    ensures
        final(out).deep_view() == old(out).deep_view() + seq![s@],
{
    let ghost v = s@;
    out.push(s);
    assert(final(out).deep_view() =~= old(out).deep_view() + seq![v]);
}

/// Appends the constraint's name fragments to `out`.
pub fn describe(c: &Constraint, out: &mut Vec<String>)
    ensures
        final(out).deep_view() == old(out).deep_view() + spec_describe(*c),
    decreases *c,
{
    match c {
        Constraint::Literal(l) => {
            push_fragment(out, l.clone());
            assert(final(out).deep_view() =~= old(out).deep_view() + spec_describe(*c));
        },
        Constraint::CaptureString => {
            push_fragment(out, String::from_str("<string>"));
            assert(final(out).deep_view() =~= old(out).deep_view() + spec_describe(*c));
        },
        Constraint::IntRange(lo, hi) => {
            let mut s = String::from_str("<number ");
            push_dec_i64(*lo, &mut s);
            s.append("..");
            push_dec_i64(*hi, &mut s);
            s.append(">");
            assert(s@ =~= "<number "@ + dec_int(*lo as int) + ".."@ + dec_int(*hi as int) + ">"@);
            push_fragment(out, s);
            assert(final(out).deep_view() =~= old(out).deep_view() + spec_describe(*c));
        },
        Constraint::Pair(a, b) => {
            describe(a, out);
            describe(b, out);
            assert(final(out).deep_view() =~= old(out).deep_view() + spec_describe(*c));
        },
        Constraint::Either(a, b) => {
            push_fragment(out, String::from_str("["));
            describe(a, out);
            push_fragment(out, String::from_str("|"));
            describe(b, out);
            push_fragment(out, String::from_str("]"));
            assert(final(out).deep_view() =~= old(out).deep_view() + spec_describe(*c));
        },
        Constraint::Optional(a) => {
            push_fragment(out, String::from_str("("));
            describe(a, out);
            push_fragment(out, String::from_str(")?"));
            assert(final(out).deep_view() =~= old(out).deep_view() + spec_describe(*c));
        },
        Constraint::Nothing => {
            assert(final(out).deep_view() =~= old(out).deep_view() + spec_describe(*c));
        },
    }
}

/// A constraint matching either alternative, the first taking precedence.
pub fn either(a: Constraint, b: Constraint) -> (r: Constraint)
    ensures
        r == Constraint::Either(Box::new(a), Box::new(b)),
{
    Constraint::Either(Box::new(a), Box::new(b))
}

/// The constraint of a plain argument: any one token, captured as text.
pub fn unconstrained() -> (r: Constraint)
    ensures
        r == Constraint::CaptureString,
{
    Constraint::CaptureString
}

} // verus!
