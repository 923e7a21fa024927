//! Module loading and module contents of the tremor scripting language:
//! content-addressed module identities, per-module symbol tables and the
//! module manager that deduplicates loads and detects cyclic `use`s.

pub mod content;
pub mod defs;
pub mod error;
pub mod id;
pub mod loader;
pub mod manager;
pub mod meta;
pub mod module;
pub mod named;

pub use content::{Content, ContentView, GetMod};
pub use defs::{
    ConnectorDefinition, Const, FlowDefinition, FnDefn, OperatorDefinition, PipelineDefinition,
    ScriptDefinition, UseRaw, WindowDefinition,
};
pub use error::{Error, ItemKind};
pub use id::{Id, Index};
pub use loader::{LoadAction, Loader, Wanted};
pub use manager::{Get, Manager, ModulePath, Source};
pub use meta::{NodeId, NodeMeta, Span};
pub use module::{LoadStep, Module, ModuleLoad, ModuleRaw, ModuleStmtRaw, PendingUse};
pub use named::NamedEntities;
