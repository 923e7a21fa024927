//! Kinds of module items and the errors of the module system.

use vstd::prelude::*;

use crate::meta::Span;

verus! {

/// The kinds of items a module holds.
#[derive(Debug, Clone, Copy, PartialEq, Eq, Structural)]
pub enum ItemKind {
    Connector,
    Pipeline,
    Window,
    Script,
    Operator,
    Flow,
    Const,
    Function,
}

impl ItemKind {
    /// The word for this kind in error messages.
    pub open spec fn word_spec(self) -> Seq<char> {
        match self {
            ItemKind::Connector => "connector"@,
            ItemKind::Pipeline => "pipeline"@,
            ItemKind::Window => "window"@,
            ItemKind::Script => "script"@,
            ItemKind::Operator => "operator"@,
            ItemKind::Flow => "flow"@,
            ItemKind::Const => "const"@,
            ItemKind::Function => "function"@,
        }
    }

    /// The word for this kind in error messages, such as `flow`.
    pub fn word(&self) -> (r: &'static str)
        ensures
            r@ == self.word_spec(),
    {
        match self {
            ItemKind::Connector => "connector",
            ItemKind::Pipeline => "pipeline",
            ItemKind::Window => "window",
            ItemKind::Script => "script",
            ItemKind::Operator => "operator",
            ItemKind::Flow => "flow",
            ItemKind::Const => "const",
            ItemKind::Function => "function",
        }
    }
}

/// Errors of the module system.
#[derive(Debug)]
pub enum Error {
    /// An item of this kind and name is already defined in the module
    /// (the range of the second definition, its kind, its name).
    AlreadyDefined(Span, ItemKind, String),
    /// A module uses itself, directly or through other modules (outer and
    /// inner range of the `use`, the files of the modules being loaded).
    CyclicUse(Span, Span, Vec<String>),
    /// No module path holds the module (outer and inner range, the fully
    /// qualified name of the module, the module paths searched).
    ModuleNotFound(Span, Span, String, Vec<String>),
    /// A failure outside the module system, such as reading or parsing a file.
    Other(String),
}

} // verus!
