//! The items a module can define. Each is known to the module system by its
//! name and by where it stands in the source; what an item computes is
//! compiled elsewhere and carried here unchanged.

use vstd::prelude::*;

use vstd::std_specs::cmp::PartialEqSpecImpl;

use crate::meta::{views_of, NodeId, NodeMeta};

verus! {

/// A connector definition of a module.
#[derive(Debug)]
pub struct ConnectorDefinition {
    pub id: String,
    pub mid: NodeMeta,
}

impl Clone for ConnectorDefinition {
    fn clone(&self) -> (r: Self)
        ensures
            r == *self,
    {
        ConnectorDefinition { id: self.id.clone(), mid: self.mid }
    }
}

impl PartialEq for ConnectorDefinition {
    fn eq(&self, other: &Self) -> (r: bool) {
        self.id.eq(&other.id) && self.mid == other.mid
    }
}

impl PartialEqSpecImpl for ConnectorDefinition {
    open spec fn obeys_eq_spec() -> bool {
        true
    }

    open spec fn eq_spec(&self, other: &Self) -> bool {
        self.id@ == other.id@ && self.mid == other.mid
    }
}

/// A pipeline definition of a module.
#[derive(Debug)]
pub struct PipelineDefinition {
    pub id: String,
    pub mid: NodeMeta,
}

impl Clone for PipelineDefinition {
    fn clone(&self) -> (r: Self)
        ensures
            r == *self,
    {
        PipelineDefinition { id: self.id.clone(), mid: self.mid }
    }
}

impl PartialEq for PipelineDefinition {
    fn eq(&self, other: &Self) -> (r: bool) {
        self.id.eq(&other.id) && self.mid == other.mid
    }
}

impl PartialEqSpecImpl for PipelineDefinition {
    open spec fn obeys_eq_spec() -> bool {
        true
    }

    open spec fn eq_spec(&self, other: &Self) -> bool {
        self.id@ == other.id@ && self.mid == other.mid
    }
}

/// A window definition of a module.
#[derive(Debug)]
pub struct WindowDefinition {
    pub id: String,
    pub mid: NodeMeta,
}

impl Clone for WindowDefinition {
    fn clone(&self) -> (r: Self)
        ensures
            r == *self,
    {
        WindowDefinition { id: self.id.clone(), mid: self.mid }
    }
}

impl PartialEq for WindowDefinition {
    fn eq(&self, other: &Self) -> (r: bool) {
        self.id.eq(&other.id) && self.mid == other.mid
    }
}

impl PartialEqSpecImpl for WindowDefinition {
    open spec fn obeys_eq_spec() -> bool {
        true
    }

    open spec fn eq_spec(&self, other: &Self) -> bool {
        self.id@ == other.id@ && self.mid == other.mid
    }
}

/// A script definition of a module.
#[derive(Debug)]
pub struct ScriptDefinition {
    pub id: String,
    pub mid: NodeMeta,
}

impl Clone for ScriptDefinition {
    fn clone(&self) -> (r: Self)
        ensures
            r == *self,
    {
        ScriptDefinition { id: self.id.clone(), mid: self.mid }
    }
}

impl PartialEq for ScriptDefinition {
    fn eq(&self, other: &Self) -> (r: bool) {
        self.id.eq(&other.id) && self.mid == other.mid
    }
}

impl PartialEqSpecImpl for ScriptDefinition {
    open spec fn obeys_eq_spec() -> bool {
        true
    }

    open spec fn eq_spec(&self, other: &Self) -> bool {
        self.id@ == other.id@ && self.mid == other.mid
    }
}

/// A operator definition of a module.
#[derive(Debug)]
pub struct OperatorDefinition {
    pub id: String,
    pub mid: NodeMeta,
}

impl Clone for OperatorDefinition {
    fn clone(&self) -> (r: Self)
        ensures
            r == *self,
    {
        OperatorDefinition { id: self.id.clone(), mid: self.mid }
    }
}

impl PartialEq for OperatorDefinition {
    fn eq(&self, other: &Self) -> (r: bool) {
        self.id.eq(&other.id) && self.mid == other.mid
    }
}

impl PartialEqSpecImpl for OperatorDefinition {
    open spec fn obeys_eq_spec() -> bool {
        true
    }

    open spec fn eq_spec(&self, other: &Self) -> bool {
        self.id@ == other.id@ && self.mid == other.mid
    }
}

/// A flow definition of a module.
#[derive(Debug)]
pub struct FlowDefinition {
    pub id: String,
    pub mid: NodeMeta,
}

impl Clone for FlowDefinition {
    fn clone(&self) -> (r: Self)
        ensures
            r == *self,
    {
        FlowDefinition { id: self.id.clone(), mid: self.mid }
    }
}

impl PartialEq for FlowDefinition {
    fn eq(&self, other: &Self) -> (r: bool) {
        self.id.eq(&other.id) && self.mid == other.mid
    }
}

impl PartialEqSpecImpl for FlowDefinition {
    open spec fn obeys_eq_spec() -> bool {
        true
    }

    open spec fn eq_spec(&self, other: &Self) -> bool {
        self.id@ == other.id@ && self.mid == other.mid
    }
}

/// A constant of a module.
#[derive(Debug)]
pub struct Const {
    pub id: String,
    pub mid: NodeMeta,
}

impl Clone for Const {
    fn clone(&self) -> (r: Self)
        ensures
            r == *self,
    {
        Const { id: self.id.clone(), mid: self.mid }
    }
}

impl PartialEq for Const {
    fn eq(&self, other: &Self) -> (r: bool) {
        self.id.eq(&other.id) && self.mid == other.mid
    }
}

impl PartialEqSpecImpl for Const {
    open spec fn obeys_eq_spec() -> bool {
        true
    }

    open spec fn eq_spec(&self, other: &Self) -> bool {
        self.id@ == other.id@ && self.mid == other.mid
    }
}

/// A function definition of a module.
#[derive(Debug)]
pub struct FnDefn {
    pub name: String,
    pub mid: NodeMeta,
}

impl Clone for FnDefn {
    fn clone(&self) -> (r: Self)
        ensures
            r == *self,
    {
        FnDefn { name: self.name.clone(), mid: self.mid }
    }
}

impl PartialEq for FnDefn {
    fn eq(&self, other: &Self) -> (r: bool) {
        self.name.eq(&other.name) && self.mid == other.mid
    }
}

impl PartialEqSpecImpl for FnDefn {
    open spec fn obeys_eq_spec() -> bool {
        true
    }

    open spec fn eq_spec(&self, other: &Self) -> bool {
        self.name@ == other.name@ && self.mid == other.mid
    }
}

/// A `use` statement: brings the module `module` into scope under `alias`,
/// or under the module's own name when no alias is given.
#[derive(Debug)]
pub struct UseRaw {
    pub alias: Option<String>,
    pub module: NodeId,
    pub mid: NodeMeta,
}

impl UseRaw {
    /// The alias, as text.
    pub open spec fn alias_view(&self) -> Option<Seq<char>> {
        match self.alias {
            Some(a) => Some(a@),
            None => None,
        }
    }

    /// The name under which the used module is known in the using module.
    pub open spec fn alias_spec(&self) -> Seq<char> {
        match self.alias {
            Some(a) => a@,
            None => self.module.id@,
        }
    }
}

impl Clone for UseRaw {
    fn clone(&self) -> (r: Self)
        ensures
            r.alias == self.alias,
            r.module.id == self.module.id,
            r.module.module@ == self.module.module@,
            r.mid == self.mid,
    {
        let alias = match &self.alias {
            Some(a) => Some(a.clone()),
            None => None,
        };
        UseRaw { alias, module: self.module.copy(), mid: self.mid }
    }
}

impl PartialEq for UseRaw {
    fn eq(&self, other: &Self) -> (r: bool) {
        let same_alias = match (&self.alias, &other.alias) {
            (Some(a), Some(b)) => a.eq(b),
            (None, None) => true,
            _ => false,
        };
        same_alias && self.module.eq(&other.module) && self.mid == other.mid
    }
}

impl PartialEqSpecImpl for UseRaw {
    open spec fn obeys_eq_spec() -> bool {
        true
    }

    open spec fn eq_spec(&self, other: &Self) -> bool {
        &&& self.alias_view() == other.alias_view()
        &&& self.module.id@ == other.module.id@
        &&& views_of(self.module.module@) == views_of(other.module.module@)
        &&& self.mid == other.mid
    }
}

} // verus!
