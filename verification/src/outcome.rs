//! The outcome slot's vocabulary: the terminal states a parse attempt can
//! resolve to, the error kinds with their depth stamps, and the control-flow
//! handle a terminal handler uses to end an interactive loop.

use vstd::prelude::*;

use crate::constraint::SpecValue;
use crate::constraint::Value;
use crate::decl::Ctx;
use crate::tree::tree_view;
use crate::tree::HelpTree;
use crate::tree::TreeModel;

verus! {

/// Why a parse attempt failed, stamped with the token depth where it did.
#[derive(Clone, Copy, PartialEq, Eq, Structural, Debug)]
pub enum ErrorKind {
    /// No sibling constraint at the scope consumed successfully.
    NoMatchingCommand,
    /// A command fully matched but unconsumed tokens remain.
    ExcessArguments,
    /// An argument constraint failed after the command head had matched.
    InvalidArgument,
    /// A command's head matched but neither a terminal handler nor a deeper
    /// resolution occurred before its scope ended.
    UnresolvedScope,
}

pub open spec fn spec_message(k: ErrorKind) -> Seq<char> {
    match k {
        ErrorKind::NoMatchingCommand => "Input did not match any wanted command"@,
        ErrorKind::ExcessArguments => "Excess arguments passed"@,
        ErrorKind::InvalidArgument => "Invalid argument"@,
        ErrorKind::UnresolvedScope => "Argument did not match any possible command"@,
    }
}

impl ErrorKind {
    /// The human-readable message reported for this kind of error.
    pub fn message(&self) -> (r: String)
        ensures
            r@ == spec_message(*self),
    {
        match self {
            ErrorKind::NoMatchingCommand => String::from_str("Input did not match any wanted command"),
            ErrorKind::ExcessArguments => String::from_str("Excess arguments passed"),
            ErrorKind::InvalidArgument => String::from_str("Invalid argument"),
            ErrorKind::UnresolvedScope => String::from_str(
                "Argument did not match any possible command",
            ),
        }
    }
}

/// What a successful match asks the driver to do.
pub enum Dispatch<'a> {
    /// Invoke the terminal handler the caller knows under `handler`, with the
    /// parsed data.
    Run { handler: u64, data: Value },
    /// Enter an interactive loop over the given declarations.
    StartLoop(&'a Ctx),
}

/// The mathematical shadow of [`Dispatch`].
pub enum DispatchModel {
    Run { handler: u64, data: SpecValue },
    StartLoop(Ctx),
}

/// One terminal state of a parse attempt. The outcome slot holds at most one
/// of these, written first-wins.
pub enum FinishedState<'a> {
    /// A command matched and its handler is to run.
    Okay(Dispatch<'a>),
    /// Help was requested; the tree describes the scope it was requested in.
    Help(HelpTree),
    /// The attempt failed at token depth `depth`, with contextual
    /// suggestions attached once the attempt is over.
    Error { depth: usize, kind: ErrorKind, help: Option<HelpTree> },
}

/// The mathematical shadow of [`FinishedState`].
pub enum FinModel {
    Okay(DispatchModel),
    Help(TreeModel),
    Error { depth: int, kind: ErrorKind, help: Option<TreeModel> },
}

pub open spec fn fin_view(f: FinishedState) -> FinModel {
    match f {
        FinishedState::Okay(d) => FinModel::Okay(
            match d {
                Dispatch::Run { handler, data } => DispatchModel::Run {
                    handler,
                    data: data@,
                },
                Dispatch::StartLoop(c) => DispatchModel::StartLoop(*c),
            },
        ),
        FinishedState::Help(t) => FinModel::Help(tree_view(t)),
        FinishedState::Error { depth, kind, help } => FinModel::Error {
            depth: depth as int,
            kind,
            help: match help {
                Some(t) => Some(tree_view(t)),
                None => None,
            },
        },
    }
}

impl<'a> View for FinishedState<'a> {
    type V = FinModel;

    open spec fn view(&self) -> FinModel {
        fin_view(*self)
    }
}

/// A terminal handler's way to end an enclosing interactive loop: `quit`
/// records the value the loop returns. Outside a loop the handle is
/// disconnected and `quit` records nothing.
pub struct ControlFlow<T> {
    pub connected: bool,
    pub result: Option<T>,
}

impl<T> ControlFlow<T> {
    /// A handle wired to an enclosing loop.
    pub fn new() -> (r: ControlFlow<T>)
        ensures
            r.connected,
            r.result is None,
    {
        ControlFlow { connected: true, result: None }
    }

    /// A disconnected handle: `quit` on it records nothing.
    pub fn detached() -> (r: ControlFlow<T>)
        ensures
            !r.connected,
            r.result is None,
    {
        ControlFlow { connected: false, result: None }
    }

    /// Asks the enclosing loop to end with `value` once the current match
    /// attempt completes.
    pub fn quit(&mut self, value: T)
        ensures
            final(self).connected == old(self).connected,
            final(self).result == if old(self).connected {
                Some(value)
            } else {
                old(self).result
            },
    {
        if self.connected {
            self.result = Some(value);
        }
    }
}

} // verus!
