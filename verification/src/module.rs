//! Modules: the statements of a parsed module, and loading a module from them.
//!
//! Loading walks the statements in order and adds each definition to the
//! module's content. A `use` statement needs another module to be loaded
//! first, which may mean reading and parsing a file; loading therefore stops
//! there and hands back a request, and continues once it is given the result.

use std::collections::VecDeque;
use vstd::prelude::*;
use vstd::std_specs::cmp::PartialEqSpecImpl;

use crate::content::{content_same, same_items, Content, ContentView};
use crate::defs::{
    ConnectorDefinition, Const, FlowDefinition, FnDefn, OperatorDefinition, PipelineDefinition,
    ScriptDefinition, UseRaw, WindowDefinition,
};
use crate::error::{Error, ItemKind};
use crate::id::{Id, Index};
use crate::meta::{views_of, NodeId, NodeMeta, Span};
use crate::named::NamedEntities;

verus! {

/// A statement at the top level of a module file.
#[derive(Debug)]
pub enum ModuleStmtRaw {
    Flow(FlowDefinition),
    Connector(ConnectorDefinition),
    Const(Const),
    FnDefn(FnDefn),
    Pipeline(PipelineDefinition),
    Use(UseRaw),
    Window(WindowDefinition),
    Operator(OperatorDefinition),
    Script(ScriptDefinition),
}

impl ModuleStmtRaw {
    /// The metadata of the statement.
    pub open spec fn meta_spec(&self) -> NodeMeta {
        match self {
            ModuleStmtRaw::Flow(e) => e.mid,
            ModuleStmtRaw::Connector(e) => e.mid,
            ModuleStmtRaw::Const(e) => e.mid,
            ModuleStmtRaw::FnDefn(e) => e.mid,
            ModuleStmtRaw::Pipeline(e) => e.mid,
            ModuleStmtRaw::Use(e) => e.mid,
            ModuleStmtRaw::Window(e) => e.mid,
            ModuleStmtRaw::Operator(e) => e.mid,
            ModuleStmtRaw::Script(e) => e.mid,
        }
    }

    /// The metadata of the statement: where it stands in the source.
    pub fn meta(&self) -> (r: &NodeMeta)
        ensures
            *r == self.meta_spec(),
    {
        match self {
            ModuleStmtRaw::Flow(e) => &e.mid,
            ModuleStmtRaw::Connector(e) => &e.mid,
            ModuleStmtRaw::Const(e) => &e.mid,
            ModuleStmtRaw::FnDefn(e) => &e.mid,
            ModuleStmtRaw::Pipeline(e) => &e.mid,
            ModuleStmtRaw::Use(e) => &e.mid,
            ModuleStmtRaw::Window(e) => &e.mid,
            ModuleStmtRaw::Operator(e) => &e.mid,
            ModuleStmtRaw::Script(e) => &e.mid,
        }
    }
}

/// Two statements say the same: the same kind of item with the same name and
/// range, or `use`s of the same module under the same alias at the same range.
pub open spec fn stmt_same(a: ModuleStmtRaw, b: ModuleStmtRaw) -> bool {
    match (a, b) {
        (ModuleStmtRaw::Flow(x), ModuleStmtRaw::Flow(y)) => x.id@ == y.id@ && x.mid == y.mid,
        (ModuleStmtRaw::Connector(x), ModuleStmtRaw::Connector(y)) => x.id@ == y.id@ && x.mid == y.mid,
        (ModuleStmtRaw::Const(x), ModuleStmtRaw::Const(y)) => x.id@ == y.id@ && x.mid == y.mid,
        (ModuleStmtRaw::FnDefn(x), ModuleStmtRaw::FnDefn(y)) => x.name@ == y.name@ && x.mid == y.mid,
        (ModuleStmtRaw::Pipeline(x), ModuleStmtRaw::Pipeline(y)) => x.id@ == y.id@ && x.mid == y.mid,
        (ModuleStmtRaw::Window(x), ModuleStmtRaw::Window(y)) => x.id@ == y.id@ && x.mid == y.mid,
        (ModuleStmtRaw::Operator(x), ModuleStmtRaw::Operator(y)) => x.id@ == y.id@ && x.mid == y.mid,
        (ModuleStmtRaw::Script(x), ModuleStmtRaw::Script(y)) => x.id@ == y.id@ && x.mid == y.mid,
        (ModuleStmtRaw::Use(x), ModuleStmtRaw::Use(y)) => {
            &&& x.alias_view() == y.alias_view()
            &&& x.module.id@ == y.module.id@
            &&& views_of(x.module.module@) == views_of(y.module.module@)
            &&& x.mid == y.mid
        },
        _ => false,
    }
}

impl Clone for ModuleStmtRaw {
    fn clone(&self) -> (r: Self)
        ensures
            stmt_same(*self, r),
    {
        match self {
            ModuleStmtRaw::Flow(x) => ModuleStmtRaw::Flow(x.clone()),
            ModuleStmtRaw::Connector(x) => ModuleStmtRaw::Connector(x.clone()),
            ModuleStmtRaw::Const(x) => ModuleStmtRaw::Const(x.clone()),
            ModuleStmtRaw::FnDefn(x) => ModuleStmtRaw::FnDefn(x.clone()),
            ModuleStmtRaw::Pipeline(x) => ModuleStmtRaw::Pipeline(x.clone()),
            ModuleStmtRaw::Window(x) => ModuleStmtRaw::Window(x.clone()),
            ModuleStmtRaw::Operator(x) => ModuleStmtRaw::Operator(x.clone()),
            ModuleStmtRaw::Script(x) => ModuleStmtRaw::Script(x.clone()),
            ModuleStmtRaw::Use(x) => ModuleStmtRaw::Use(x.clone()),
        }
    }
}

impl PartialEq for ModuleStmtRaw {
    fn eq(&self, other: &Self) -> (r: bool) {
        match (self, other) {
            (ModuleStmtRaw::Flow(x), ModuleStmtRaw::Flow(y)) => x.eq(y),
            (ModuleStmtRaw::Connector(x), ModuleStmtRaw::Connector(y)) => x.eq(y),
            (ModuleStmtRaw::Const(x), ModuleStmtRaw::Const(y)) => x.eq(y),
            (ModuleStmtRaw::FnDefn(x), ModuleStmtRaw::FnDefn(y)) => x.eq(y),
            (ModuleStmtRaw::Pipeline(x), ModuleStmtRaw::Pipeline(y)) => x.eq(y),
            (ModuleStmtRaw::Window(x), ModuleStmtRaw::Window(y)) => x.eq(y),
            (ModuleStmtRaw::Operator(x), ModuleStmtRaw::Operator(y)) => x.eq(y),
            (ModuleStmtRaw::Script(x), ModuleStmtRaw::Script(y)) => x.eq(y),
            (ModuleStmtRaw::Use(x), ModuleStmtRaw::Use(y)) => x.eq(y),
            _ => false,
        }
    }
}

impl PartialEqSpecImpl for ModuleStmtRaw {
    open spec fn obeys_eq_spec() -> bool {
        true
    }

    open spec fn eq_spec(&self, other: &Self) -> bool {
        stmt_same(*self, *other)
    }
}

/// A parsed module file.
#[derive(Debug)]
pub struct ModuleRaw {
    pub name: String,
    pub stmts: Vec<ModuleStmtRaw>,
    pub doc: Option<Vec<String>>,
    pub mid: NodeMeta,
}

/// The documentation lines, as text.
pub open spec fn doc_view(doc: Option<Vec<String>>) -> Option<Seq<Seq<char>>> {
    match doc {
        Some(d) => Some(views_of(d@)),
        None => None,
    }
}

/// Two parsed module files say the same: same name, range and documentation,
/// and statements that say the same, in the same order.
pub open spec fn raw_same(a: ModuleRaw, b: ModuleRaw) -> bool {
    &&& a.name@ == b.name@
    &&& a.stmts@.len() == b.stmts@.len()
    &&& forall|i: int| 0 <= i < a.stmts@.len() ==> stmt_same(#[trigger] a.stmts@[i], b.stmts@[i])
    &&& doc_view(a.doc) == doc_view(b.doc)
    &&& a.mid == b.mid
}

/// A copy of a list of strings.
fn copy_strings(v: &Vec<String>) -> (r: Vec<String>)
    ensures
        r@ == v@,
{
    let mut r: Vec<String> = Vec::new();
    let mut i: usize = 0;
    while i < v.len()
        invariant
            i <= v@.len(),
            r@ == v@.take(i as int),
        decreases v@.len() - i,
    {
        r.push(v[i].clone());
        assert(r@ =~= v@.take(i + 1));
        i = i + 1;
    }
    assert(v@.take(i as int) =~= v@);
    r
}

/// Whether two lists of strings are equal, string by string.
fn same_strings(a: &Vec<String>, b: &Vec<String>) -> (r: bool)
    ensures
        r == (views_of(a@) == views_of(b@)),
{
    if a.len() != b.len() {
        assert(views_of(a@).len() != views_of(b@).len());
        return false;
    }
    let mut i: usize = 0;
    while i < a.len()
        invariant
            a@.len() == b@.len(),
            i <= a@.len(),
            forall|j: int| 0 <= j < i ==> (#[trigger] a@[j])@ == b@[j]@,
        decreases a@.len() - i,
    {
        if !a[i].eq(&b[i]) {
            assert(views_of(a@)[i as int] != views_of(b@)[i as int]);
            return false;
        }
        i = i + 1;
    }
    assert(views_of(a@) =~= views_of(b@));
    true
}

impl Clone for ModuleRaw {
    fn clone(&self) -> (r: Self)
        ensures
            raw_same(*self, r),
    {
        let mut stmts: Vec<ModuleStmtRaw> = Vec::new();
        let mut i: usize = 0;
        while i < self.stmts.len()
            invariant
                i <= self.stmts@.len(),
                stmts@.len() == i,
                forall|j: int| 0 <= j < i ==> stmt_same(#[trigger] self.stmts@[j], stmts@[j]),
            decreases self.stmts@.len() - i,
        {
            stmts.push(self.stmts[i].clone());
            i = i + 1;
        }
        let doc = match &self.doc {
            Some(d) => Some(copy_strings(d)),
            None => None,
        };
        ModuleRaw { name: self.name.clone(), stmts, doc, mid: self.mid }
    }
}

impl PartialEq for ModuleRaw {
    fn eq(&self, other: &Self) -> (r: bool) {
        if !self.name.eq(&other.name) || self.mid != other.mid {
            return false;
        }
        let same_doc = match (&self.doc, &other.doc) {
            (Some(a), Some(b)) => same_strings(a, b),
            (None, None) => true,
            _ => false,
        };
        if !same_doc {
            return false;
        }
        if self.stmts.len() != other.stmts.len() {
            return false;
        }
        let mut i: usize = 0;
        while i < self.stmts.len()
            invariant
                self.stmts@.len() == other.stmts@.len(),
                i <= self.stmts@.len(),
                forall|j: int| 0 <= j < i ==> stmt_same(#[trigger] self.stmts@[j], other.stmts@[j]),
            decreases self.stmts@.len() - i,
        {
            if !self.stmts[i].eq(&other.stmts[i]) {
                return false;
            }
            i = i + 1;
        }
        true
    }
}

impl PartialEqSpecImpl for ModuleRaw {
    open spec fn obeys_eq_spec() -> bool {
        true
    }

    open spec fn eq_spec(&self, other: &Self) -> bool {
        raw_same(*self, *other)
    }
}

/// The content after a definition statement; `use` statements leave it as it is.
pub open spec fn content_after(c: ContentView, s: ModuleStmtRaw) -> Result<ContentView, Error> {
    match s {
        ModuleStmtRaw::Flow(d) => c.insert_flow(d),
        ModuleStmtRaw::Connector(d) => c.insert_connector(d),
        ModuleStmtRaw::Const(d) => c.insert_const(d),
        ModuleStmtRaw::FnDefn(d) => c.insert_function(d),
        ModuleStmtRaw::Pipeline(d) => c.insert_pipeline(d),
        ModuleStmtRaw::Use(_) => Ok(c),
        ModuleStmtRaw::Window(d) => c.insert_window(d),
        ModuleStmtRaw::Operator(d) => c.insert_operator(d),
        ModuleStmtRaw::Script(d) => c.insert_script(d),
    }
}

/// Each definition statement goes to the table of its own kind: when that
/// table already has the name, the statement fails with the error naming the
/// kind, the name and the statement's range; otherwise the content gains the
/// item under its name in that table, and every other table stays as it was.
/// A `use` statement leaves the content as it is.
pub proof fn law_definition_goes_to_its_table(c: ContentView, s: ModuleStmtRaw)
    ensures
        match s {
            ModuleStmtRaw::Connector(d) => content_after(c, s) == if c.connectors.contains_key(d.id@) {
                Err(Error::AlreadyDefined(d.mid.range, ItemKind::Connector, d.id))
            } else {
                Ok(ContentView { connectors: c.connectors.insert(d.id@, d), ..c })
            },
            ModuleStmtRaw::Pipeline(d) => content_after(c, s) == if c.pipelines.contains_key(d.id@) {
                Err(Error::AlreadyDefined(d.mid.range, ItemKind::Pipeline, d.id))
            } else {
                Ok(ContentView { pipelines: c.pipelines.insert(d.id@, d), ..c })
            },
            ModuleStmtRaw::Window(d) => content_after(c, s) == if c.windows.contains_key(d.id@) {
                Err(Error::AlreadyDefined(d.mid.range, ItemKind::Window, d.id))
            } else {
                Ok(ContentView { windows: c.windows.insert(d.id@, d), ..c })
            },
            ModuleStmtRaw::Script(d) => content_after(c, s) == if c.scripts.contains_key(d.id@) {
                Err(Error::AlreadyDefined(d.mid.range, ItemKind::Script, d.id))
            } else {
                Ok(ContentView { scripts: c.scripts.insert(d.id@, d), ..c })
            },
            ModuleStmtRaw::Operator(d) => content_after(c, s) == if c.operators.contains_key(d.id@) {
                Err(Error::AlreadyDefined(d.mid.range, ItemKind::Operator, d.id))
            } else {
                Ok(ContentView { operators: c.operators.insert(d.id@, d), ..c })
            },
            ModuleStmtRaw::Flow(d) => content_after(c, s) == if c.flows.contains_key(d.id@) {
                Err(Error::AlreadyDefined(d.mid.range, ItemKind::Flow, d.id))
            } else {
                Ok(ContentView { flows: c.flows.insert(d.id@, d), ..c })
            },
            ModuleStmtRaw::Const(d) => content_after(c, s) == if c.consts.contains_key(d.id@) {
                Err(Error::AlreadyDefined(d.mid.range, ItemKind::Const, d.id))
            } else {
                Ok(ContentView { consts: c.consts.insert(d.id@, d), ..c })
            },
            ModuleStmtRaw::FnDefn(d) => content_after(c, s) == if c.functions.contains_key(d.name@) {
                Err(Error::AlreadyDefined(d.mid.range, ItemKind::Function, d.name))
            } else {
                Ok(ContentView { functions: c.functions.insert(d.name@, d), ..c })
            },
            ModuleStmtRaw::Use(_) => content_after(c, s) == Ok::<ContentView, Error>(c),
        },
{
}

/// How a run of definitions ends.
pub enum Run {
    /// At a `use` statement (the first of the statements left) or at the
    /// end (no statement left), with the content built so far.
    Halted(ContentView, Seq<ModuleStmtRaw>),
    /// A definition could not be added.
    Failed(Error),
}

/// Adds the definitions of `stmts` to `c` in order, up to the first `use`.
pub open spec fn run(c: ContentView, stmts: Seq<ModuleStmtRaw>) -> Run
    decreases stmts.len(),
{
    if stmts.len() == 0 {
        Run::Halted(c, stmts)
    } else {
        match stmts[0] {
            ModuleStmtRaw::Use(_) => Run::Halted(c, stmts),
            _ => match content_after(c, stmts[0]) {
                Ok(c2) => run(c2, stmts.drop_first()),
                Err(e) => Run::Failed(e),
            },
        }
    }
}

/// The error reported for a failed `use` whose range is `range`: a cyclic
/// use is reported at the `use` statement, any other error as it came.
pub open spec fn error_at_use(e: Error, range: Span) -> Error {
    match e {
        Error::CyclicUse(_, _, uses) => Error::CyclicUse(range, range, uses),
        _ => e,
    }
}

/// A loaded module: its identity, its content and the modules it uses,
/// by the alias under which it uses them.
pub struct Module {
    pub id: Id,
    pub content: Content,
    pub modules: NamedEntities<Index>,
}

/// A loaded module as values: its identity, content and used modules.
pub struct ModuleView {
    pub id: Seq<u8>,
    pub content: ContentView,
    pub modules: Map<Seq<char>, Index>,
}

impl View for Module {
    type V = ModuleView;

    open spec fn view(&self) -> ModuleView {
        ModuleView { id: self.id@, content: self.content@, modules: self.modules@ }
    }
}

impl Clone for Module {
    /// A copy with the same identity, items and used modules, and the same
    /// orders of names.
    fn clone(&self) -> (r: Module)
        ensures
            r@ == self@,
            r.modules.order() == self.modules.order(),
            r.content.connectors.order() == self.content.connectors.order(),
            r.content.pipelines.order() == self.content.pipelines.order(),
            r.content.windows.order() == self.content.windows.order(),
            r.content.scripts.order() == self.content.scripts.order(),
            r.content.operators.order() == self.content.operators.order(),
            r.content.flows.order() == self.content.flows.order(),
            r.content.consts.order() == self.content.consts.order(),
            r.content.functions.order() == self.content.functions.order(),
    {
        let modules = self.modules.clone();
        assert(modules@ =~= self.modules@);
        Module { id: self.id.clone(), content: self.content.clone(), modules }
    }
}

impl PartialEq for Module {
    /// Equal when the identities, items and used modules are equal.
    fn eq(&self, other: &Self) -> (r: bool) {
        self.id.same_as(&other.id) && self.content.eq(&other.content) && self.modules.eq(&other.modules)
    }
}

impl PartialEqSpecImpl for Module {
    open spec fn obeys_eq_spec() -> bool {
        true
    }

    open spec fn eq_spec(&self, other: &Self) -> bool {
        &&& self.id@ == other.id@
        &&& content_same(self.content@, other.content@)
        &&& same_items(self.modules@, other.modules@, |a: Index, b: Index| a == b)
    }
}

/// A `use` whose module is being loaded.
pub struct PendingUse {
    /// The name under which the module is used.
    pub alias: String,
    /// Where the `use` statement stands.
    pub range: Span,
    /// The module to load.
    pub module: NodeId,
}

/// A pending `use` as values.
pub struct PendingView {
    pub alias: Seq<char>,
    pub range: Span,
    pub module: NodeId,
}

impl View for PendingUse {
    type V = PendingView;

    open spec fn view(&self) -> PendingView {
        PendingView { alias: self.alias@, range: self.range, module: self.module }
    }
}

/// The pending `use` that a `use` statement makes.
pub open spec fn pending_of(u: UseRaw) -> PendingView {
    PendingView { alias: u.alias_spec(), range: u.mid.range, module: u.module }
}

/// A module being loaded, as values.
pub struct LoadView {
    pub id: Seq<u8>,
    pub remaining: Seq<ModuleStmtRaw>,
    pub content: ContentView,
    pub modules: Map<Seq<char>, Index>,
    pub pending: Option<PendingView>,
}

/// A module being loaded: the statements not yet processed, the content and
/// used modules so far, and the `use` waiting for its module, if any.
pub struct ModuleLoad {
    pub id: Id,
    pub remaining: VecDeque<ModuleStmtRaw>,
    pub content: Content,
    pub modules: NamedEntities<Index>,
    pub pending: Option<PendingUse>,
}

impl View for ModuleLoad {
    type V = LoadView;

    open spec fn view(&self) -> LoadView {
        LoadView {
            id: self.id@,
            remaining: self.remaining@,
            content: self.content@,
            modules: self.modules@,
            pending: match self.pending {
                Some(p) => Some(p@),
                None => None,
            },
        }
    }
}

/// What loading a module asks for next.
pub enum LoadStep {
    /// The module of the pending `use` must be loaded; pass its index (or
    /// the error) to the next call of `Module::load` with this state.
    Use(ModuleLoad),
    /// All statements are processed.
    Loaded(Module),
}

impl ModuleLoad {
    /// Starts loading the module `id` from its parsed statements.
    pub fn new(id: Id, raw: ModuleRaw) -> (s: ModuleLoad)
        ensures
            s@ == (LoadView {
                id: id@,
                remaining: raw.stmts@,
                content: Content::new_spec(),
                modules: Map::empty(),
                pending: None,
            }),
    {
        let ghost stmts = raw.stmts@;
        let mut v = raw.stmts;
        let mut q: VecDeque<ModuleStmtRaw> = VecDeque::new();
        while v.len() > 0
            invariant
                v@ == stmts.subrange(0, v@.len() as int),
                q@ == stmts.subrange(v@.len() as int, stmts.len() as int),
                v@.len() <= stmts.len(),
            decreases v@.len(),
        {
            let ghost n = v@.len();
            match v.pop() {
                Some(s) => {
                    q.push_front(s);
                    assert(q@ =~= stmts.subrange(n - 1, stmts.len() as int));
                },
                None => {},
            }
        }
        assert(q@ =~= stmts);
        ModuleLoad {
            id,
            remaining: q,
            content: Content::new(),
            modules: NamedEntities::new(),
            pending: None,
        }
    }

    /// The module the pending `use` asks for.
    pub fn requested(&self) -> (r: Option<&NodeId>)
        ensures
            match self.pending {
                Some(p) => r == Some(&p.module),
                None => r is None,
            },
    {
        match &self.pending {
            Some(p) => Some(&p.module),
            None => None,
        }
    }
}

/// Adds a definition statement to `content`.
fn add_definition(content: &mut Content, s: ModuleStmtRaw) -> (r: Result<(), Error>)
    ensures
        match content_after(old(content)@, s) {
            Ok(c) => r is Ok && final(content)@ == c,
            Err(e) => r == Err::<(), Error>(e),
        },
{
    match s {
        ModuleStmtRaw::Flow(d) => content.insert_flow(d),
        ModuleStmtRaw::Connector(d) => content.insert_connector(d),
        ModuleStmtRaw::Const(d) => content.insert_const(d),
        ModuleStmtRaw::FnDefn(d) => content.insert_function(d),
        ModuleStmtRaw::Pipeline(d) => content.insert_pipeline(d),
        ModuleStmtRaw::Use(_) => Ok(()),
        ModuleStmtRaw::Window(d) => content.insert_window(d),
        ModuleStmtRaw::Operator(d) => content.insert_operator(d),
        ModuleStmtRaw::Script(d) => content.insert_script(d),
    }
}

/// The used modules once the result for the pending `use` is in.
pub open spec fn aliases_after(
    modules: Map<Seq<char>, Index>,
    pending: Option<PendingView>,
    nested: Option<Result<Index, Error>>,
) -> Map<Seq<char>, Index> {
    match (pending, nested) {
        (Some(p), Some(Ok(i))) => modules.insert(p.alias, i),
        _ => modules,
    }
}

/// What a module being loaded looks like after one step.
pub enum StepView {
    /// Waiting for the module of its pending `use`.
    Use(LoadView),
    /// Every statement processed.
    Loaded(ModuleView),
}

/// One step of loading a module, given the result for its pending `use`.
pub open spec fn load_spec(s: LoadView, nested: Option<Result<Index, Error>>) -> Result<StepView, Error> {
    match (s.pending, nested) {
        (Some(_), None) => Ok(StepView::Use(s)),
        (Some(p), Some(Err(e))) => Err(error_at_use(e, p.range)),
        _ => {
            let aliases = aliases_after(s.modules, s.pending, nested);
            match run(s.content, s.remaining) {
                Run::Failed(e) => Err(e),
                Run::Halted(c, rest) => if rest.len() == 0 {
                    Ok(StepView::Loaded(ModuleView { id: s.id, content: c, modules: aliases }))
                } else {
                    match rest[0] {
                        ModuleStmtRaw::Use(u) => Ok(
                            StepView::Use(
                                LoadView {
                                    id: s.id,
                                    remaining: rest.drop_first(),
                                    content: c,
                                    modules: aliases,
                                    pending: Some(pending_of(u)),
                                },
                            ),
                        ),
                        // a run halts only at a `use` or at the end
                        _ => Ok(StepView::Use(s)),
                    }
                },
            }
        },
    }
}

impl Module {
    /// Continues loading a module.
    ///
    /// `nested` is the result of loading the module of the pending `use`
    /// (`None` on the first call). With a pending `use` and no result, the
    /// request is made again. A failed nested load fails this one, a cyclic
    /// use being reported at this module's `use` statement. Otherwise the
    /// used module is recorded under its alias, and the remaining definitions
    /// are added in order until the next `use` (which is requested) or the
    /// end (the module is loaded); the first definition whose name is taken
    /// fails the load.
    pub fn load(state: ModuleLoad, nested: Option<Result<Index, Error>>) -> (r: Result<LoadStep, Error>)
        ensures
            match (r, load_spec(state@, nested)) {
                (Ok(LoadStep::Use(s)), Ok(StepView::Use(v))) => s@ == v,
                (Ok(LoadStep::Loaded(m)), Ok(StepView::Loaded(v))) => m@ == v,
                (Err(e), Err(e2)) => e == e2,
                _ => false,
            },
    {
        let mut st = state;
        match st.pending.take() {
            Some(p) => match nested {
                None => {
                    st.pending = Some(p);
                    return Ok(LoadStep::Use(st));
                },
                Some(Err(e)) => {
                    return Err(match e {
                        Error::CyclicUse(_, _, uses) => Error::CyclicUse(p.range, p.range, uses),
                        other => other,
                    });
                },
                Some(Ok(i)) => {
                    st.modules.insert(p.alias, i);
                },
            },
            None => {},
        }
        loop
            invariant
                run(st.content@, st.remaining@) == run(state.content@, state.remaining@),
                st.id@ == state.id@,
                st.modules@ == aliases_after(state.modules@, state@.pending, nested),
                st.pending is None,
                state.pending is None || nested matches Some(Ok(_)),
            decreases st.remaining@.len(),
        {
            let ghost before = st.remaining@;
            match st.remaining.pop_front() {
                None => {
                    return Ok(
                        LoadStep::Loaded(Module { id: st.id, content: st.content, modules: st.modules }),
                    );
                },
                Some(ModuleStmtRaw::Use(u)) => {
                    let alias = match u.alias {
                        Some(a) => a,
                        None => u.module.id.clone(),
                    };
                    st.pending = Some(PendingUse { alias, range: u.mid.range, module: u.module });
                    assert(before.drop_first() =~= st.remaining@);
                    return Ok(LoadStep::Use(st));
                },
                Some(s) => {
                    assert(before.drop_first() =~= st.remaining@);
                    match add_definition(&mut st.content, s) {
                        Ok(()) => {},
                        Err(e) => {
                            return Err(e);
                        },
                    }
                },
            }
        }
    }
}

/// A `use` is recorded under its alias, or under the used module's own name
/// when it has none, at the range of the statement, for the module it names.
pub proof fn law_use_alias(u: UseRaw)
    ensures
        pending_of(u).alias == match u.alias {
            Some(a) => a@,
            None => u.module.id@,
        },
        pending_of(u).range == u.mid.range,
        pending_of(u).module == u.module,
{
}

/// What the result for a pending `use` does: with no result yet, the request
/// stands and nothing changes; an error fails the module, a cyclic use being
/// reported at the `use` statement and any other error as it came; an index
/// is recorded under the alias, and loading goes on from there with the
/// same content and statements.
pub proof fn law_pending_use_result(s: LoadView, nested: Option<Result<Index, Error>>)
    requires
        s.pending is Some,
    ensures
        nested is None ==> load_spec(s, nested) == Ok::<StepView, Error>(StepView::Use(s)),
        nested matches Some(Err(e)) ==> load_spec(s, nested) == Err::<StepView, Error>(match e {
            Error::CyclicUse(_, _, uses) => Error::CyclicUse(s.pending.unwrap().range, s.pending.unwrap().range, uses),
            _ => e,
        }),
        nested matches Some(Ok(i)) ==> load_spec(s, nested) == load_spec(
            LoadView { modules: s.modules.insert(s.pending.unwrap().alias, i), pending: None, ..s },
            None,
        ),
{
    lemma_run_halts_at_use(s.content, s.remaining);
}

/// Loading goes through the statements in order: a definition first in line
/// is added (or fails the module) and loading goes on with the rest; a `use`
/// first in line stops loading, which then waits for the module it names,
/// with the content as it is and the statements after the `use` left.
pub proof fn law_statements_in_order(s: LoadView)
    requires
        s.pending is None,
        s.remaining.len() > 0,
    ensures
        s.remaining[0] matches ModuleStmtRaw::Use(u) ==> load_spec(s, None) == Ok::<StepView, Error>(
            StepView::Use(LoadView { remaining: s.remaining.drop_first(), pending: Some(pending_of(u)), ..s }),
        ),
        !(s.remaining[0] is Use) ==> load_spec(s, None) == match content_after(s.content, s.remaining[0]) {
            Ok(c2) => load_spec(LoadView { content: c2, remaining: s.remaining.drop_first(), ..s }, None),
            Err(e) => Err(e),
        },
{
    lemma_run_halts_at_use(s.content, s.remaining);
    if !(s.remaining[0] is Use) {
        match content_after(s.content, s.remaining[0]) {
            Ok(c2) => {
                lemma_run_halts_at_use(c2, s.remaining.drop_first());
            },
            Err(_) => {},
        }
    }
}

/// With no statement left and no pending `use`, the module is complete: its
/// identity, content and used modules are those loaded so far.
pub proof fn law_end_of_statements(s: LoadView)
    requires
        s.pending is None,
        s.remaining.len() == 0,
    ensures
        load_spec(s, None) == Ok::<StepView, Error>(
            StepView::Loaded(ModuleView { id: s.id, content: s.content, modules: s.modules }),
        ),
{
}

/// A run of definitions halts at a `use` statement or at the end.
pub proof fn lemma_run_halts_at_use(c: ContentView, stmts: Seq<ModuleStmtRaw>)
    ensures
        run(c, stmts) matches Run::Halted(_, rest) ==> rest.len() == 0 || rest[0] is Use,
    decreases stmts.len(),
{
    if stmts.len() > 0 {
        match stmts[0] {
            ModuleStmtRaw::Use(_) => {},
            _ => match content_after(c, stmts[0]) {
                Ok(c2) => lemma_run_halts_at_use(c2, stmts.drop_first()),
                Err(_) => {},
            },
        }
    }
}

/// A module that waits after a step waits for the module of a `use`.
pub proof fn lemma_waiting_has_pending(s: LoadView, nested: Option<Result<Index, Error>>)
    ensures
        load_spec(s, nested) matches Ok(StepView::Use(v)) ==> v.pending is Some,
{
    lemma_run_halts_at_use(s.content, s.remaining);
}

} // verus!
