//! A declarative engine for matching a sequence of input tokens against a
//! command tree, dispatching to exactly one terminal handler, or — when
//! matching fails or help is requested — producing a depth-located error or a
//! rendered help tree.
//!
//! Declarations are recorded once, through a linear builder ([`Ctx`],
//! [`Command`], [`DataCommand`]), and the recorded declarations are then
//! walked under two interpretations: consume-and-match (see [`parse`]) and
//! describe-for-help (see [`HelpTree`]). A parse attempt resolves to exactly
//! one terminal [`FinishedState`], written first-wins into the outcome slot.

pub mod constraint;
pub mod cursor;
pub mod decl;
pub mod digits;
pub mod engine;
pub mod help;
pub mod laws;
pub mod outcome;
pub mod render;
pub mod tree;

pub use constraint::consume;
pub use constraint::describe;
pub use constraint::either;
pub use constraint::unconstrained;
pub use constraint::Constraint;
pub use constraint::SpecValue;
pub use constraint::Value;
pub use cursor::Segments;
pub use decl::Command;
pub use decl::Ctx;
pub use decl::DataCommand;
pub use decl::Decl;
pub use decl::Terminal;
pub use engine::parse;
pub use help::HelpFmt;
pub use outcome::ControlFlow;
pub use outcome::Dispatch;
pub use outcome::ErrorKind;
pub use outcome::FinishedState;
pub use render::render_finished_state;
pub use tree::build_tree;
pub use tree::HelpTree;
