//! Recording command declarations. A [`Ctx`] is one scope of declarations in
//! declaration order; [`Command`] and [`DataCommand`] are linear builders for
//! one declaration each. A builder is finished by `run`, `user_loop` or
//! `finish`, which hand the scope back — so every declaration is installed on
//! every path, the scope-exit contract the engine depends on.

use vstd::prelude::*;

use crate::constraint::Constraint;

verus! {

/// How a declaration terminates when its tokens have all been matched.
pub enum Terminal {
    /// No terminal was declared: a match that resolves nothing deeper is an
    /// unresolved-scope error.
    Unset,
    /// Dispatch to the terminal handler the caller knows under this name.
    Run(u64),
    /// Enter an interactive loop whose own declarations these are.
    UserLoop(Ctx),
}

/// One recorded command declaration: a head constraint, argument constraints,
/// description lines, nested sub-declarations and a terminal.
pub struct Decl {
    pub head: Constraint,
    /// Whether the head constraint's parsed value is part of the data handed
    /// to the handler (`data_command`) or discarded (`command`).
    pub data_from_head: bool,
    pub descriptions: Vec<String>,
    pub args: Vec<Constraint>,
    pub subs: Vec<Decl>,
    pub terminal: Terminal,
}

/// One scope of declarations, tried in order.
pub struct Ctx {
    pub decls: Vec<Decl>,
}

/// A declaration under construction whose parsed data is discarded.
pub struct Command {
    pub scope: Ctx,
    pub node: Decl,
}

/// A declaration under construction whose parsed data is handed to the
/// handler.
pub struct DataCommand {
    pub scope: Ctx,
    pub node: Decl,
}

/// The node fields a builder step leaves untouched, besides the one it
/// changes.
pub open spec fn same_head(a: Decl, b: Decl) -> bool {
    a.head == b.head && a.data_from_head == b.data_from_head
}

impl Ctx {
    /// An empty scope.
    pub fn new() -> (r: Ctx)
        ensures
            r.decls@ == Seq::<Decl>::empty(),
    {
        Ctx { decls: Vec::new() }
    }

    /// Starts declaring a command whose head must match `constraint`; the
    /// head's parsed value is discarded.
    pub fn command(self, constraint: Constraint) -> (r: Command)
        ensures
            r.scope == self,
            r.node.head == constraint,
            r.node.data_from_head == false,
            r.node.descriptions.deep_view() == Seq::<Seq<char>>::empty(),
            r.node.args@ == Seq::<Constraint>::empty(),
            r.node.subs@ == Seq::<Decl>::empty(),
            r.node.terminal == Terminal::Unset,
    {
        let node = Decl {
            head: constraint,
            data_from_head: false,
            descriptions: Vec::new(),
            args: Vec::new(),
            subs: Vec::new(),
            terminal: Terminal::Unset,
        };
        assert(node.descriptions.deep_view() =~= Seq::<Seq<char>>::empty());
        Command { scope: self, node }
    }

    /// Starts declaring a command whose head's parsed value is kept as data.
    pub fn data_command(self, constraint: Constraint) -> (r: DataCommand)
        ensures
            r.scope == self,
            r.node.head == constraint,
            r.node.data_from_head == true,
            r.node.descriptions.deep_view() == Seq::<Seq<char>>::empty(),
            r.node.args@ == Seq::<Constraint>::empty(),
            r.node.subs@ == Seq::<Decl>::empty(),
            r.node.terminal == Terminal::Unset,
    {
        let node = Decl {
            head: constraint,
            data_from_head: true,
            descriptions: Vec::new(),
            args: Vec::new(),
            subs: Vec::new(),
            terminal: Terminal::Unset,
        };
        assert(node.descriptions.deep_view() =~= Seq::<Seq<char>>::empty());
        DataCommand { scope: self, node }
    }

    /// A fallback declaration: its head consumes nothing and always matches,
    /// so it fires whenever it is reached with the outcome still unresolved.
    pub fn otherwise(self) -> (r: Command)
        ensures
            r.scope == self,
            r.node.head == Constraint::Nothing,
            r.node.data_from_head == false,
            r.node.descriptions.deep_view() == Seq::<Seq<char>>::empty(),
            r.node.args@ == Seq::<Constraint>::empty(),
            r.node.subs@ == Seq::<Decl>::empty(),
            r.node.terminal == Terminal::Unset,
    {
        self.command(Constraint::Nothing)
    }
}

impl Command {
    /// Adds a line of help text to the declaration.
    pub fn description(self, desc: &str) -> (r: Command)
        ensures
            r.scope == self.scope,
            same_head(r.node, self.node),
            r.node.descriptions.deep_view() == self.node.descriptions.deep_view().push(desc@),
            r.node.args@ == self.node.args@,
            r.node.subs@ == self.node.subs@,
            r.node.terminal == self.node.terminal,
    {
        let Command { scope, mut node } = self;
        node.descriptions.push(String::from_str(desc));
        assert(node.descriptions.deep_view() =~= self.node.descriptions.deep_view().push(desc@));
        Command { scope, node }
    }

    /// Adds a plain argument: any one token, captured as text.
    pub fn arg(self) -> (r: DataCommand)
        ensures
            r.scope == self.scope,
            same_head(r.node, self.node),
            r.node.descriptions.deep_view() == self.node.descriptions.deep_view(),
            r.node.args@ == self.node.args@.push(Constraint::CaptureString),
            r.node.subs@ == self.node.subs@,
            r.node.terminal == self.node.terminal,
    {
        self.constrained_arg(Constraint::CaptureString)
    }

    /// Adds an argument that must match the given constraint.
    pub fn constrained_arg(self, sub_c: Constraint) -> (r: DataCommand)
        ensures
            r.scope == self.scope,
            same_head(r.node, self.node),
            r.node.descriptions.deep_view() == self.node.descriptions.deep_view(),
            r.node.args@ == self.node.args@.push(sub_c),
            r.node.subs@ == self.node.subs@,
            r.node.terminal == self.node.terminal,
    {
        let Command { scope, mut node } = self;
        node.args.push(sub_c);
        DataCommand { scope, node }
    }

    /// Attaches a nested scope: when this declaration's head has matched,
    /// the nested declarations are tried on the remaining tokens.
    pub fn sub_commands(self, sub: Ctx) -> (r: Command)
        ensures
            r.scope == self.scope,
            same_head(r.node, self.node),
            r.node.descriptions.deep_view() == self.node.descriptions.deep_view(),
            r.node.args@ == self.node.args@,
            r.node.subs@ == self.node.subs@ + sub.decls@,
            r.node.terminal == self.node.terminal,
    {
        let Command { scope, mut node } = self;
        let mut incoming = sub.decls;
        node.subs.append(&mut incoming);
        Command { scope, node }
    }

    /// Finishes the declaration with a terminal handler, named by the id the
    /// caller dispatches on, and installs it in the scope.
    pub fn run(self, handler: u64) -> (r: Ctx)
        ensures
            r.decls@ == self.scope.decls@.push(
                Decl { terminal: Terminal::Run(handler), ..self.node },
            ),
    {
        let Command { scope, node } = self;
        let Ctx { mut decls } = scope;
        decls.push(Decl { terminal: Terminal::Run(handler), ..node });
        Ctx { decls }
    }

    /// Finishes the declaration as an interactive loop over its own nested
    /// declarations, and installs it in the scope.
    pub fn user_loop(self, commands: Ctx) -> (r: Ctx)
        ensures
            r.decls@ == self.scope.decls@.push(
                Decl { terminal: Terminal::UserLoop(commands), ..self.node },
            ),
    {
        let Command { scope, node } = self;
        let Ctx { mut decls } = scope;
        decls.push(Decl { terminal: Terminal::UserLoop(commands), ..node });
        Ctx { decls }
    }

    /// Finishes the declaration without a terminal of its own — resolution
    /// must come from its sub-declarations — and installs it in the scope.
    pub fn finish(self) -> (r: Ctx)
        ensures
            r.decls@ == self.scope.decls@.push(self.node),
    {
        let Command { scope, node } = self;
        let Ctx { mut decls } = scope;
        decls.push(node);
        Ctx { decls }
    }
}

impl DataCommand {
    /// Adds a line of help text to the declaration.
    pub fn description(self, desc: &str) -> (r: DataCommand)
        ensures
            r.scope == self.scope,
            same_head(r.node, self.node),
            r.node.descriptions.deep_view() == self.node.descriptions.deep_view().push(desc@),
            r.node.args@ == self.node.args@,
            r.node.subs@ == self.node.subs@,
            r.node.terminal == self.node.terminal,
    {
        let DataCommand { scope, mut node } = self;
        node.descriptions.push(String::from_str(desc));
        assert(node.descriptions.deep_view() =~= self.node.descriptions.deep_view().push(desc@));
        DataCommand { scope, node }
    }

    /// Adds a plain argument: any one token, captured as text.
    pub fn arg(self) -> (r: DataCommand)
        ensures
            r.scope == self.scope,
            same_head(r.node, self.node),
            r.node.descriptions.deep_view() == self.node.descriptions.deep_view(),
            r.node.args@ == self.node.args@.push(Constraint::CaptureString),
            r.node.subs@ == self.node.subs@,
            r.node.terminal == self.node.terminal,
    {
        self.constrained_arg(Constraint::CaptureString)
    }

    /// Adds an argument that must match the given constraint.
    pub fn constrained_arg(self, sub_c: Constraint) -> (r: DataCommand)
        ensures
            r.scope == self.scope,
            same_head(r.node, self.node),
            r.node.descriptions.deep_view() == self.node.descriptions.deep_view(),
            r.node.args@ == self.node.args@.push(sub_c),
            r.node.subs@ == self.node.subs@,
            r.node.terminal == self.node.terminal,
    {
        let DataCommand { scope, mut node } = self;
        node.args.push(sub_c);
        DataCommand { scope, node }
    }

    /// Finishes the declaration with a terminal handler, named by the id the
    /// caller dispatches on, and installs it in the scope.
    pub fn run(self, handler: u64) -> (r: Ctx)
        ensures
            r.decls@ == self.scope.decls@.push(
                Decl { terminal: Terminal::Run(handler), ..self.node },
            ),
    {
        let DataCommand { scope, node } = self;
        let Ctx { mut decls } = scope;
        decls.push(Decl { terminal: Terminal::Run(handler), ..node });
        Ctx { decls }
    }
}

} // verus!
