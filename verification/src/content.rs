//! The content of a module: one table per kind of item, keyed by the item's name.

use vstd::prelude::*;
use vstd::std_specs::cmp::PartialEqSpecImpl;
use vstd::string::*;

use crate::meta::{join_with, views_of};
use crate::named::NamedEntities;

use crate::defs::{
    ConnectorDefinition, Const, FlowDefinition, FnDefn, OperatorDefinition, PipelineDefinition,
    ScriptDefinition, WindowDefinition,
};
use crate::error::{Error, ItemKind};

verus! {

/// `m` with `name` bound to `v`, or `None` when `name` is already bound.
pub open spec fn named_insert<T>(m: Map<Seq<char>, T>, name: Seq<char>, v: T) -> Option<Map<Seq<char>, T>> {
    if m.contains_key(name) {
        None
    } else {
        Some(m.insert(name, v))
    }
}

/// The content of a module, as tables from names to items.
pub struct ContentView {
    pub connectors: Map<Seq<char>, ConnectorDefinition>,
    pub pipelines: Map<Seq<char>, PipelineDefinition>,
    pub windows: Map<Seq<char>, WindowDefinition>,
    pub scripts: Map<Seq<char>, ScriptDefinition>,
    pub operators: Map<Seq<char>, OperatorDefinition>,
    pub flows: Map<Seq<char>, FlowDefinition>,
    pub consts: Map<Seq<char>, Const>,
    pub functions: Map<Seq<char>, FnDefn>,
}

impl ContentView {
    /// The content with `d` added to its connectors, or the error for a connector defined twice.
    pub open spec fn insert_connector(self, d: ConnectorDefinition) -> Result<ContentView, Error> {
        match named_insert(self.connectors, d.id@, d) {
            Some(m) => Ok(ContentView { connectors: m, ..self }),
            None => Err(Error::AlreadyDefined(d.mid.range, ItemKind::Connector, d.id)),
        }
    }

    /// The content with `d` added to its pipelines, or the error for a pipeline defined twice.
    pub open spec fn insert_pipeline(self, d: PipelineDefinition) -> Result<ContentView, Error> {
        match named_insert(self.pipelines, d.id@, d) {
            Some(m) => Ok(ContentView { pipelines: m, ..self }),
            None => Err(Error::AlreadyDefined(d.mid.range, ItemKind::Pipeline, d.id)),
        }
    }

    /// The content with `d` added to its windows, or the error for a window defined twice.
    pub open spec fn insert_window(self, d: WindowDefinition) -> Result<ContentView, Error> {
        match named_insert(self.windows, d.id@, d) {
            Some(m) => Ok(ContentView { windows: m, ..self }),
            None => Err(Error::AlreadyDefined(d.mid.range, ItemKind::Window, d.id)),
        }
    }

    /// The content with `d` added to its scripts, or the error for a script defined twice.
    pub open spec fn insert_script(self, d: ScriptDefinition) -> Result<ContentView, Error> {
        match named_insert(self.scripts, d.id@, d) {
            Some(m) => Ok(ContentView { scripts: m, ..self }),
            None => Err(Error::AlreadyDefined(d.mid.range, ItemKind::Script, d.id)),
        }
    }

    /// The content with `d` added to its operators, or the error for an operator defined twice.
    pub open spec fn insert_operator(self, d: OperatorDefinition) -> Result<ContentView, Error> {
        match named_insert(self.operators, d.id@, d) {
            Some(m) => Ok(ContentView { operators: m, ..self }),
            None => Err(Error::AlreadyDefined(d.mid.range, ItemKind::Operator, d.id)),
        }
    }

    /// The content with `d` added to its flows, or the error for a flow defined twice.
    pub open spec fn insert_flow(self, d: FlowDefinition) -> Result<ContentView, Error> {
        match named_insert(self.flows, d.id@, d) {
            Some(m) => Ok(ContentView { flows: m, ..self }),
            None => Err(Error::AlreadyDefined(d.mid.range, ItemKind::Flow, d.id)),
        }
    }

    /// The content with `d` added to its consts, or the error for a constant defined twice.
    pub open spec fn insert_const(self, d: Const) -> Result<ContentView, Error> {
        match named_insert(self.consts, d.id@, d) {
            Some(m) => Ok(ContentView { consts: m, ..self }),
            None => Err(Error::AlreadyDefined(d.mid.range, ItemKind::Const, d.id)),
        }
    }

    /// The content with `d` added to its functions, or the error for a function defined twice.
    pub open spec fn insert_function(self, d: FnDefn) -> Result<ContentView, Error> {
        match named_insert(self.functions, d.name@, d) {
            Some(m) => Ok(ContentView { functions: m, ..self }),
            None => Err(Error::AlreadyDefined(d.mid.range, ItemKind::Function, d.name)),
        }
    }

}

/// Content of a module: its connectors, pipelines, windows, scripts,
/// operators, flows, constants and functions, each table keyed by name.
pub struct Content {
    /// connector definitions in this module
    pub connectors: NamedEntities<ConnectorDefinition>,
    /// pipeline definitions in this module
    pub pipelines: NamedEntities<PipelineDefinition>,
    /// window definitions in this module
    pub windows: NamedEntities<WindowDefinition>,
    /// script definitions in this module
    pub scripts: NamedEntities<ScriptDefinition>,
    /// operator definitions in this module
    pub operators: NamedEntities<OperatorDefinition>,
    /// flow definitions in this module
    pub flows: NamedEntities<FlowDefinition>,
    /// constants in this module
    pub consts: NamedEntities<Const>,
    /// function definitions in this module
    pub functions: NamedEntities<FnDefn>,
}

/// The text `{:?}` gives for the string `s`: `s` between double quotes, with
/// quotes, backslashes and control characters escaped, as std writes it.
pub uninterp spec fn debug_text(s: Seq<char>) -> Seq<char>;

/// Formats `s` with `format!("{:?}", s)`, the `Debug` impl of `str`.
/// Trusted: the text depends on `s` alone; what it is, is named `debug_text`.
#[verifier::external_body]
fn debug_quote(s: &str) -> (r: String)
    ensures
        r@ == debug_text(s@),
{
    format!("{:?}", s)
}

/// A list of names as `Debug` writes it: `["a", "b"]`.
pub open spec fn names_text(names: Seq<Seq<char>>) -> Seq<char> {
    "["@ + join_with(names.map_values(|n: Seq<char>| debug_text(n)), ", "@) + "]"@
}

/// The listing of a module's content: for each table, in the order
/// connectors, pipelines, windows, scripts, operators, flows, constants and
/// functions, the list of its names.
pub open spec fn content_text(connectors: Seq<Seq<char>>, pipelines: Seq<Seq<char>>, windows: Seq<Seq<char>>, scripts: Seq<Seq<char>>, operators: Seq<Seq<char>>, flows: Seq<Seq<char>>, consts: Seq<Seq<char>>, functions: Seq<Seq<char>>) -> Seq<char> {
    "ModuleContent { connectors: "@ + names_text(connectors)
        + ", pipelines: "@ + names_text(pipelines)
        + ", windows: "@ + names_text(windows)
        + ", scripts: "@ + names_text(scripts)
        + ", operators: "@ + names_text(operators)
        + ", flows: "@ + names_text(flows)
        + ", consts: "@ + names_text(consts)
        + ", functions: "@ + names_text(functions)
        + " }"@
}

/// One field of a `Debug` struct listing: the label, a colon, the value.
pub open spec fn field_text(label: Seq<char>, names: Seq<Seq<char>>) -> Seq<char> {
    label + ": "@ + names_text(names)
}

/// A `Debug` struct listing: the struct's name, then its fields in braces,
/// separated by commas.
pub open spec fn struct_text(name: Seq<char>, fields: Seq<Seq<char>>) -> Seq<char> {
    name + " { "@ + join_with(fields, ", "@) + " }"@
}

proof fn lemma_listing_step(
    p: Seq<char>,
    head: Seq<char>,
    f: Seq<Seq<char>>,
    k: int,
    lit: Seq<char>,
    label: Seq<char>,
    n: Seq<Seq<char>>,
)
    requires
        1 <= k < f.len(),
        p == head + join_with(f.take(k), ", "@),
        lit == ", "@ + label + ": "@,
        f[k] == field_text(label, n),
    ensures
        p + lit + names_text(n) == head + join_with(f.take(k + 1), ", "@),
{
    assert(f.take(k + 1).drop_last() =~= f.take(k));
    assert(f.take(k + 1).last() == f[k]);
    assert(p + lit + names_text(n) =~= head + join_with(f.take(k + 1), ", "@));
}

/// The content listing is the `Debug` listing of a struct `ModuleContent`
/// whose fields are labelled by the tables, in the order connectors,
/// pipelines, windows, scripts, operators, flows, consts, functions, each
/// label followed by the list of its own table's names.
pub proof fn law_listing_labels_each_table(connectors: Seq<Seq<char>>, pipelines: Seq<Seq<char>>, windows: Seq<Seq<char>>, scripts: Seq<Seq<char>>, operators: Seq<Seq<char>>, flows: Seq<Seq<char>>, consts: Seq<Seq<char>>, functions: Seq<Seq<char>>)
    ensures
        content_text(connectors, pipelines, windows, scripts, operators, flows, consts, functions) == struct_text(
            "ModuleContent"@,
            seq![
                field_text("connectors"@, connectors),
                field_text("pipelines"@, pipelines),
                field_text("windows"@, windows),
                field_text("scripts"@, scripts),
                field_text("operators"@, operators),
                field_text("flows"@, flows),
                field_text("consts"@, consts),
                field_text("functions"@, functions),
            ],
        ),
{
    let f = seq![
        field_text("connectors"@, connectors),
        field_text("pipelines"@, pipelines),
        field_text("windows"@, windows),
        field_text("scripts"@, scripts),
        field_text("operators"@, operators),
        field_text("flows"@, flows),
        field_text("consts"@, consts),
        field_text("functions"@, functions),
    ];
    let head = "ModuleContent"@ + " { "@;
    assert("ModuleContent { connectors: "@ =~= head + "connectors"@ + ": "@) by {
        reveal_strlit("ModuleContent { connectors: ");
        reveal_strlit("ModuleContent");
        reveal_strlit(" { ");
        reveal_strlit("connectors");
        reveal_strlit(": ");
    }
    assert(f.take(1) =~= seq![f[0]]);
    let p0 = "ModuleContent { connectors: "@ + names_text(connectors);
    assert(p0 =~= head + join_with(f.take(1), ", "@));
    assert(", pipelines: "@ =~= ", "@ + "pipelines"@ + ": "@) by {
        reveal_strlit(", pipelines: ");
        reveal_strlit(", ");
        reveal_strlit("pipelines");
        reveal_strlit(": ");
    }
    lemma_listing_step(p0, head, f, 1, ", pipelines: "@, "pipelines"@, pipelines);
    let p1 = p0 + ", pipelines: "@ + names_text(pipelines);
    assert(", windows: "@ =~= ", "@ + "windows"@ + ": "@) by {
        reveal_strlit(", windows: ");
        reveal_strlit(", ");
        reveal_strlit("windows");
        reveal_strlit(": ");
    }
    lemma_listing_step(p1, head, f, 2, ", windows: "@, "windows"@, windows);
    let p2 = p1 + ", windows: "@ + names_text(windows);
    assert(", scripts: "@ =~= ", "@ + "scripts"@ + ": "@) by {
        reveal_strlit(", scripts: ");
        reveal_strlit(", ");
        reveal_strlit("scripts");
        reveal_strlit(": ");
    }
    lemma_listing_step(p2, head, f, 3, ", scripts: "@, "scripts"@, scripts);
    let p3 = p2 + ", scripts: "@ + names_text(scripts);
    assert(", operators: "@ =~= ", "@ + "operators"@ + ": "@) by {
        reveal_strlit(", operators: ");
        reveal_strlit(", ");
        reveal_strlit("operators");
        reveal_strlit(": ");
    }
    lemma_listing_step(p3, head, f, 4, ", operators: "@, "operators"@, operators);
    let p4 = p3 + ", operators: "@ + names_text(operators);
    assert(", flows: "@ =~= ", "@ + "flows"@ + ": "@) by {
        reveal_strlit(", flows: ");
        reveal_strlit(", ");
        reveal_strlit("flows");
        reveal_strlit(": ");
    }
    lemma_listing_step(p4, head, f, 5, ", flows: "@, "flows"@, flows);
    let p5 = p4 + ", flows: "@ + names_text(flows);
    assert(", consts: "@ =~= ", "@ + "consts"@ + ": "@) by {
        reveal_strlit(", consts: ");
        reveal_strlit(", ");
        reveal_strlit("consts");
        reveal_strlit(": ");
    }
    lemma_listing_step(p5, head, f, 6, ", consts: "@, "consts"@, consts);
    let p6 = p5 + ", consts: "@ + names_text(consts);
    assert(", functions: "@ =~= ", "@ + "functions"@ + ": "@) by {
        reveal_strlit(", functions: ");
        reveal_strlit(", ");
        reveal_strlit("functions");
        reveal_strlit(": ");
    }
    lemma_listing_step(p6, head, f, 7, ", functions: "@, "functions"@, functions);
    let p7 = p6 + ", functions: "@ + names_text(functions);
    assert(f.take(8) =~= f);
}

/// Appends the list of `names` to `out`.
fn append_names(out: &mut String, names: &Vec<String>)
    ensures
        final(out)@ == old(out)@ + names_text(views_of(names@)),
{
    let ghost q = views_of(names@).map_values(|n: Seq<char>| debug_text(n));
    let sep: &str = ", ";
    out.append("[");
    let mut i: usize = 0;
    while i < names.len()
        invariant
            q == views_of(names@).map_values(|n: Seq<char>| debug_text(n)),
            i <= names@.len(),
            out@ == old(out)@ + "["@ + join_with(q.take(i as int), sep@),
        decreases names@.len() - i,
    {
        let ghost before = out@;
        if i > 0 {
            out.append(sep);
        }
        let t = debug_quote(names[i].as_str());
        out.append(t.as_str());
        proof {
            if i == 0 {
                assert(q.take(1) =~= seq![q[0]]);
            } else {
                assert(q.take(i + 1).drop_last() =~= q.take(i as int));
            }
            assert(t@ == q[i as int]);
        }
        i = i + 1;
    }
    assert(q.take(i as int) =~= q);
    out.append("]");
}

impl View for Content {
    type V = ContentView;

    open spec fn view(&self) -> ContentView {
        ContentView {
            connectors: self.connectors@,
            pipelines: self.pipelines@,
            windows: self.windows@,
            scripts: self.scripts@,
            operators: self.operators@,
            flows: self.flows@,
            consts: self.consts@,
            functions: self.functions@,
        }
    }
}

impl Content {
    /// The content of a module without any item.
    pub open spec fn new_spec() -> ContentView {
        ContentView {
            connectors: Map::<Seq<char>, ConnectorDefinition>::empty(),
            pipelines: Map::<Seq<char>, PipelineDefinition>::empty(),
            windows: Map::<Seq<char>, WindowDefinition>::empty(),
            scripts: Map::<Seq<char>, ScriptDefinition>::empty(),
            operators: Map::<Seq<char>, OperatorDefinition>::empty(),
            flows: Map::<Seq<char>, FlowDefinition>::empty(),
            consts: Map::<Seq<char>, Const>::empty(),
            functions: Map::<Seq<char>, FnDefn>::empty(),
        }
    }

    /// A module content without any item.
    pub fn new() -> (c: Content)
        ensures
            c@ == Content::new_spec(),
    {
        Content {
            connectors: NamedEntities::new(),
            pipelines: NamedEntities::new(),
            windows: NamedEntities::new(),
            scripts: NamedEntities::new(),
            operators: NamedEntities::new(),
            flows: NamedEntities::new(),
            consts: NamedEntities::new(),
            functions: NamedEntities::new(),
        }
    }

    /// The listing of the content, as `{:?}` writes it:
    /// `ModuleContent { connectors: ["a"], pipelines: [], ... }`. Each list
    /// holds the names of that table, each once; which order they come in is
    /// the table's own (first added, first listed).
    pub fn to_debug_string(&self) -> (r: String)
        ensures
            r@ == content_text(
                self.connectors.order(),
                self.pipelines.order(),
                self.windows.order(),
                self.scripts.order(),
                self.operators.order(),
                self.flows.order(),
                self.consts.order(),
                self.functions.order(),
            ),
            self.connectors.order().no_duplicates(),
            self.connectors.order().to_set() == self@.connectors.dom(),
            self.pipelines.order().no_duplicates(),
            self.pipelines.order().to_set() == self@.pipelines.dom(),
            self.windows.order().no_duplicates(),
            self.windows.order().to_set() == self@.windows.dom(),
            self.scripts.order().no_duplicates(),
            self.scripts.order().to_set() == self@.scripts.dom(),
            self.operators.order().no_duplicates(),
            self.operators.order().to_set() == self@.operators.dom(),
            self.flows.order().no_duplicates(),
            self.flows.order().to_set() == self@.flows.dom(),
            self.consts.order().no_duplicates(),
            self.consts.order().to_set() == self@.consts.dom(),
            self.functions.order().no_duplicates(),
            self.functions.order().to_set() == self@.functions.dom(),
    {
        let mut out = String::new();
        out.append("ModuleContent { connectors: ");
        append_names(&mut out, self.connectors.names());
        out.append(", pipelines: ");
        append_names(&mut out, self.pipelines.names());
        out.append(", windows: ");
        append_names(&mut out, self.windows.names());
        out.append(", scripts: ");
        append_names(&mut out, self.scripts.names());
        out.append(", operators: ");
        append_names(&mut out, self.operators.names());
        out.append(", flows: ");
        append_names(&mut out, self.flows.names());
        out.append(", consts: ");
        append_names(&mut out, self.consts.names());
        out.append(", functions: ");
        append_names(&mut out, self.functions.names());
        out.append(" }");
        out
    }

    /// Adds a connector definition; fails when the module already has a connector of that name,
    /// and then leaves the content as it was.
    pub fn insert_connector(&mut self, elem: ConnectorDefinition) -> (r: Result<(), Error>)
        ensures
            match old(self)@.insert_connector(elem) {
                Ok(c) => {
                    &&& r == Ok::<(), Error>(())
                    &&& final(self)@ == c
                    &&& final(self).connectors.order() == old(self).connectors.order().push(elem.id@)
                    &&& final(self).pipelines == old(self).pipelines
                    &&& final(self).windows == old(self).windows
                    &&& final(self).scripts == old(self).scripts
                    &&& final(self).operators == old(self).operators
                    &&& final(self).flows == old(self).flows
                    &&& final(self).consts == old(self).consts
                    &&& final(self).functions == old(self).functions
                },
                Err(e) => r == Err::<(), Error>(e) && *final(self) == *old(self),
            },
    {
        if self.connectors.contains_key(elem.id.as_str()) {
            Err(Error::AlreadyDefined(elem.mid.range, ItemKind::Connector, elem.id))
        } else {
            let name = elem.id.clone();
            self.connectors.insert(name, elem);
            Ok(())
        }
    }

    /// Adds a pipeline definition; fails when the module already has a pipeline of that name,
    /// and then leaves the content as it was.
    pub fn insert_pipeline(&mut self, elem: PipelineDefinition) -> (r: Result<(), Error>)
        ensures
            match old(self)@.insert_pipeline(elem) {
                Ok(c) => {
                    &&& r == Ok::<(), Error>(())
                    &&& final(self)@ == c
                    &&& final(self).pipelines.order() == old(self).pipelines.order().push(elem.id@)
                    &&& final(self).connectors == old(self).connectors
                    &&& final(self).windows == old(self).windows
                    &&& final(self).scripts == old(self).scripts
                    &&& final(self).operators == old(self).operators
                    &&& final(self).flows == old(self).flows
                    &&& final(self).consts == old(self).consts
                    &&& final(self).functions == old(self).functions
                },
                Err(e) => r == Err::<(), Error>(e) && *final(self) == *old(self),
            },
    {
        if self.pipelines.contains_key(elem.id.as_str()) {
            Err(Error::AlreadyDefined(elem.mid.range, ItemKind::Pipeline, elem.id))
        } else {
            let name = elem.id.clone();
            self.pipelines.insert(name, elem);
            Ok(())
        }
    }

    /// Adds a window definition; fails when the module already has a window of that name,
    /// and then leaves the content as it was.
    pub fn insert_window(&mut self, elem: WindowDefinition) -> (r: Result<(), Error>)
        ensures
            match old(self)@.insert_window(elem) {
                Ok(c) => {
                    &&& r == Ok::<(), Error>(())
                    &&& final(self)@ == c
                    &&& final(self).windows.order() == old(self).windows.order().push(elem.id@)
                    &&& final(self).connectors == old(self).connectors
                    &&& final(self).pipelines == old(self).pipelines
                    &&& final(self).scripts == old(self).scripts
                    &&& final(self).operators == old(self).operators
                    &&& final(self).flows == old(self).flows
                    &&& final(self).consts == old(self).consts
                    &&& final(self).functions == old(self).functions
                },
                Err(e) => r == Err::<(), Error>(e) && *final(self) == *old(self),
            },
    {
        if self.windows.contains_key(elem.id.as_str()) {
            Err(Error::AlreadyDefined(elem.mid.range, ItemKind::Window, elem.id))
        } else {
            let name = elem.id.clone();
            self.windows.insert(name, elem);
            Ok(())
        }
    }

    /// Adds a script definition; fails when the module already has a script of that name,
    /// and then leaves the content as it was.
    pub fn insert_script(&mut self, elem: ScriptDefinition) -> (r: Result<(), Error>)
        ensures
            match old(self)@.insert_script(elem) {
                Ok(c) => {
                    &&& r == Ok::<(), Error>(())
                    &&& final(self)@ == c
                    &&& final(self).scripts.order() == old(self).scripts.order().push(elem.id@)
                    &&& final(self).connectors == old(self).connectors
                    &&& final(self).pipelines == old(self).pipelines
                    &&& final(self).windows == old(self).windows
                    &&& final(self).operators == old(self).operators
                    &&& final(self).flows == old(self).flows
                    &&& final(self).consts == old(self).consts
                    &&& final(self).functions == old(self).functions
                },
                Err(e) => r == Err::<(), Error>(e) && *final(self) == *old(self),
            },
    {
        if self.scripts.contains_key(elem.id.as_str()) {
            Err(Error::AlreadyDefined(elem.mid.range, ItemKind::Script, elem.id))
        } else {
            let name = elem.id.clone();
            self.scripts.insert(name, elem);
            Ok(())
        }
    }

    /// Adds an operator definition; fails when the module already has an operator of that name,
    /// and then leaves the content as it was.
    pub fn insert_operator(&mut self, elem: OperatorDefinition) -> (r: Result<(), Error>)
        ensures
            match old(self)@.insert_operator(elem) {
                Ok(c) => {
                    &&& r == Ok::<(), Error>(())
                    &&& final(self)@ == c
                    &&& final(self).operators.order() == old(self).operators.order().push(elem.id@)
                    &&& final(self).connectors == old(self).connectors
                    &&& final(self).pipelines == old(self).pipelines
                    &&& final(self).windows == old(self).windows
                    &&& final(self).scripts == old(self).scripts
                    &&& final(self).flows == old(self).flows
                    &&& final(self).consts == old(self).consts
                    &&& final(self).functions == old(self).functions
                },
                Err(e) => r == Err::<(), Error>(e) && *final(self) == *old(self),
            },
    {
        if self.operators.contains_key(elem.id.as_str()) {
            Err(Error::AlreadyDefined(elem.mid.range, ItemKind::Operator, elem.id))
        } else {
            let name = elem.id.clone();
            self.operators.insert(name, elem);
            Ok(())
        }
    }

    /// Adds a flow definition; fails when the module already has a flow of that name,
    /// and then leaves the content as it was.
    pub fn insert_flow(&mut self, elem: FlowDefinition) -> (r: Result<(), Error>)
        ensures
            match old(self)@.insert_flow(elem) {
                Ok(c) => {
                    &&& r == Ok::<(), Error>(())
                    &&& final(self)@ == c
                    &&& final(self).flows.order() == old(self).flows.order().push(elem.id@)
                    &&& final(self).connectors == old(self).connectors
                    &&& final(self).pipelines == old(self).pipelines
                    &&& final(self).windows == old(self).windows
                    &&& final(self).scripts == old(self).scripts
                    &&& final(self).operators == old(self).operators
                    &&& final(self).consts == old(self).consts
                    &&& final(self).functions == old(self).functions
                },
                Err(e) => r == Err::<(), Error>(e) && *final(self) == *old(self),
            },
    {
        if self.flows.contains_key(elem.id.as_str()) {
            Err(Error::AlreadyDefined(elem.mid.range, ItemKind::Flow, elem.id))
        } else {
            let name = elem.id.clone();
            self.flows.insert(name, elem);
            Ok(())
        }
    }

    /// Adds a constant; fails when the module already has a constant of that name,
    /// and then leaves the content as it was.
    pub fn insert_const(&mut self, elem: Const) -> (r: Result<(), Error>)
        ensures
            match old(self)@.insert_const(elem) {
                Ok(c) => {
                    &&& r == Ok::<(), Error>(())
                    &&& final(self)@ == c
                    &&& final(self).consts.order() == old(self).consts.order().push(elem.id@)
                    &&& final(self).connectors == old(self).connectors
                    &&& final(self).pipelines == old(self).pipelines
                    &&& final(self).windows == old(self).windows
                    &&& final(self).scripts == old(self).scripts
                    &&& final(self).operators == old(self).operators
                    &&& final(self).flows == old(self).flows
                    &&& final(self).functions == old(self).functions
                },
                Err(e) => r == Err::<(), Error>(e) && *final(self) == *old(self),
            },
    {
        if self.consts.contains_key(elem.id.as_str()) {
            Err(Error::AlreadyDefined(elem.mid.range, ItemKind::Const, elem.id))
        } else {
            let name = elem.id.clone();
            self.consts.insert(name, elem);
            Ok(())
        }
    }

    /// Adds a function definition; fails when the module already has a function of that name,
    /// and then leaves the content as it was.
    pub fn insert_function(&mut self, elem: FnDefn) -> (r: Result<(), Error>)
        ensures
            match old(self)@.insert_function(elem) {
                Ok(c) => {
                    &&& r == Ok::<(), Error>(())
                    &&& final(self)@ == c
                    &&& final(self).functions.order() == old(self).functions.order().push(elem.name@)
                    &&& final(self).connectors == old(self).connectors
                    &&& final(self).pipelines == old(self).pipelines
                    &&& final(self).windows == old(self).windows
                    &&& final(self).scripts == old(self).scripts
                    &&& final(self).operators == old(self).operators
                    &&& final(self).flows == old(self).flows
                    &&& final(self).consts == old(self).consts
                },
                Err(e) => r == Err::<(), Error>(e) && *final(self) == *old(self),
            },
    {
        if self.functions.contains_key(elem.name.as_str()) {
            Err(Error::AlreadyDefined(elem.mid.range, ItemKind::Function, elem.name))
        } else {
            let name = elem.name.clone();
            self.functions.insert(name, elem);
            Ok(())
        }
    }
}

impl Clone for Content {
    /// A copy with the same items, each table listing its names in the same order.
    fn clone(&self) -> (r: Content)
        ensures
            r@ == self@,
            r.connectors.order() == self.connectors.order(),
            r.pipelines.order() == self.pipelines.order(),
            r.windows.order() == self.windows.order(),
            r.scripts.order() == self.scripts.order(),
            r.operators.order() == self.operators.order(),
            r.flows.order() == self.flows.order(),
            r.consts.order() == self.consts.order(),
            r.functions.order() == self.functions.order(),
    {
        let connectors = self.connectors.clone();
        assert(connectors@ =~= self.connectors@);
        let pipelines = self.pipelines.clone();
        assert(pipelines@ =~= self.pipelines@);
        let windows = self.windows.clone();
        assert(windows@ =~= self.windows@);
        let scripts = self.scripts.clone();
        assert(scripts@ =~= self.scripts@);
        let operators = self.operators.clone();
        assert(operators@ =~= self.operators@);
        let flows = self.flows.clone();
        assert(flows@ =~= self.flows@);
        let consts = self.consts.clone();
        assert(consts@ =~= self.consts@);
        let functions = self.functions.clone();
        assert(functions@ =~= self.functions@);
        Content { connectors, pipelines, windows, scripts, operators, flows, consts, functions }
    }
}

/// Two tables have the same names, and `same` holds of the entries under each.
pub open spec fn same_items<T>(a: Map<Seq<char>, T>, b: Map<Seq<char>, T>, same: spec_fn(T, T) -> bool) -> bool {
    &&& a.dom() == b.dom()
    &&& forall|k: Seq<char>| #[trigger] a.contains_key(k) ==> same(a[k], b[k])
}

/// Two contents have the same names in every table, and items under the same
/// name have the same name and range.
pub open spec fn content_same(a: ContentView, b: ContentView) -> bool {
    &&& same_items(a.connectors, b.connectors, |x: ConnectorDefinition, y: ConnectorDefinition| x.id@ == y.id@ && x.mid == y.mid)
    &&& same_items(a.pipelines, b.pipelines, |x: PipelineDefinition, y: PipelineDefinition| x.id@ == y.id@ && x.mid == y.mid)
    &&& same_items(a.windows, b.windows, |x: WindowDefinition, y: WindowDefinition| x.id@ == y.id@ && x.mid == y.mid)
    &&& same_items(a.scripts, b.scripts, |x: ScriptDefinition, y: ScriptDefinition| x.id@ == y.id@ && x.mid == y.mid)
    &&& same_items(a.operators, b.operators, |x: OperatorDefinition, y: OperatorDefinition| x.id@ == y.id@ && x.mid == y.mid)
    &&& same_items(a.flows, b.flows, |x: FlowDefinition, y: FlowDefinition| x.id@ == y.id@ && x.mid == y.mid)
    &&& same_items(a.consts, b.consts, |x: Const, y: Const| x.id@ == y.id@ && x.mid == y.mid)
    &&& same_items(a.functions, b.functions, |x: FnDefn, y: FnDefn| x.name@ == y.name@ && x.mid == y.mid)
}

impl PartialEq for Content {
    /// Equal when every table has the same names, with equal items.
    fn eq(&self, other: &Self) -> (r: bool) {
        self.connectors.eq(&other.connectors) && self.pipelines.eq(&other.pipelines) && self.windows.eq(&other.windows) && self.scripts.eq(&other.scripts) && self.operators.eq(&other.operators) && self.flows.eq(&other.flows) && self.consts.eq(&other.consts) && self.functions.eq(&other.functions)
    }
}

impl PartialEqSpecImpl for Content {
    open spec fn obeys_eq_spec() -> bool {
        true
    }

    open spec fn eq_spec(&self, other: &Self) -> bool {
        content_same(self@, other@)
    }
}

impl Default for Content {
    fn default() -> (c: Content)
        ensures
            c@ == Content::new_spec(),
    {
        Content::new()
    }
}

/// Something that can be looked up by name in a module's content.
pub trait GetMod<Target> {
    /// The item of this type named `id`, if the content has one.
    spec fn lookup(&self, id: Seq<char>) -> Option<Target>;

    /// Gets a copy of the item of this type named `id`.
    fn get(&self, id: &str) -> (r: Option<Target>)
        ensures
            r == self.lookup(id@),
    ;
}

impl GetMod<ConnectorDefinition> for Content {
    open spec fn lookup(&self, id: Seq<char>) -> Option<ConnectorDefinition> {
        self@.connectors.get(id)
    }

    fn get(&self, id: &str) -> (r: Option<ConnectorDefinition>) {
        match self.connectors.get(id) {
            Some(d) => Some(d.clone()),
            None => None,
        }
    }
}

impl GetMod<PipelineDefinition> for Content {
    open spec fn lookup(&self, id: Seq<char>) -> Option<PipelineDefinition> {
        self@.pipelines.get(id)
    }

    fn get(&self, id: &str) -> (r: Option<PipelineDefinition>) {
        match self.pipelines.get(id) {
            Some(d) => Some(d.clone()),
            None => None,
        }
    }
}

impl GetMod<WindowDefinition> for Content {
    open spec fn lookup(&self, id: Seq<char>) -> Option<WindowDefinition> {
        self@.windows.get(id)
    }

    fn get(&self, id: &str) -> (r: Option<WindowDefinition>) {
        match self.windows.get(id) {
            Some(d) => Some(d.clone()),
            None => None,
        }
    }
}

impl GetMod<ScriptDefinition> for Content {
    open spec fn lookup(&self, id: Seq<char>) -> Option<ScriptDefinition> {
        self@.scripts.get(id)
    }

    fn get(&self, id: &str) -> (r: Option<ScriptDefinition>) {
        match self.scripts.get(id) {
            Some(d) => Some(d.clone()),
            None => None,
        }
    }
}

impl GetMod<OperatorDefinition> for Content {
    open spec fn lookup(&self, id: Seq<char>) -> Option<OperatorDefinition> {
        self@.operators.get(id)
    }

    fn get(&self, id: &str) -> (r: Option<OperatorDefinition>) {
        match self.operators.get(id) {
            Some(d) => Some(d.clone()),
            None => None,
        }
    }
}

impl GetMod<FlowDefinition> for Content {
    open spec fn lookup(&self, id: Seq<char>) -> Option<FlowDefinition> {
        self@.flows.get(id)
    }

    fn get(&self, id: &str) -> (r: Option<FlowDefinition>) {
        match self.flows.get(id) {
            Some(d) => Some(d.clone()),
            None => None,
        }
    }
}

impl GetMod<Const> for Content {
    open spec fn lookup(&self, id: Seq<char>) -> Option<Const> {
        self@.consts.get(id)
    }

    fn get(&self, id: &str) -> (r: Option<Const>) {
        match self.consts.get(id) {
            Some(d) => Some(d.clone()),
            None => None,
        }
    }
}

impl GetMod<FnDefn> for Content {
    open spec fn lookup(&self, id: Seq<char>) -> Option<FnDefn> {
        self@.functions.get(id)
    }

    fn get(&self, id: &str) -> (r: Option<FnDefn>) {
        match self.functions.get(id) {
            Some(d) => Some(d.clone()),
            None => None,
        }
    }
}

/// Inserting a name into a table fails exactly when the name is taken; when
/// it succeeds, the name gives back the inserted item and every other name
/// gives what it gave before.
pub proof fn law_named_insert<T>(m: Map<Seq<char>, T>, name: Seq<char>, v: T)
    ensures
        named_insert(m, name, v) is None <==> m.contains_key(name),
        named_insert(m, name, v) matches Some(m2) ==> {
            &&& m2.get(name) == Some(v)
            &&& forall|k: Seq<char>| k != name ==> #[trigger] m2.get(k) == m.get(k)
        },
{
    if !m.contains_key(name) {
        let m2 = m.insert(name, v);
        assert forall|k: Seq<char>| k != name implies #[trigger] m2.get(k) == m.get(k) by {
            if m.contains_key(k) {
                assert(m2.contains_key(k));
            } else {
                assert(!m2.contains_key(k));
            }
        }
    }
}

/// Adding a connector fails exactly when the module has a connector of that name, with
/// the error naming it; when it succeeds, looking the name up gives the
/// connector back, other connectors are unchanged and the other tables are untouched.
pub proof fn law_insert_connector(c: ContentView, d: ConnectorDefinition)
    ensures
        c.insert_connector(d) is Err <==> c.connectors.contains_key(d.id@),
        c.insert_connector(d) matches Err(e) ==> e == Error::AlreadyDefined(d.mid.range, ItemKind::Connector, d.id),
        c.insert_connector(d) matches Ok(c2) ==> {
            &&& c2.connectors.get(d.id@) == Some(d)
            &&& forall|k: Seq<char>| k != d.id@ ==> #[trigger] c2.connectors.get(k) == c.connectors.get(k)
            &&& c2.pipelines == c.pipelines
            &&& c2.windows == c.windows
            &&& c2.scripts == c.scripts
            &&& c2.operators == c.operators
            &&& c2.flows == c.flows
            &&& c2.consts == c.consts
            &&& c2.functions == c.functions
        },
{
    law_named_insert(c.connectors, d.id@, d);
}

/// Adding a pipeline fails exactly when the module has a pipeline of that name, with
/// the error naming it; when it succeeds, looking the name up gives the
/// pipeline back, other pipelines are unchanged and the other tables are untouched.
pub proof fn law_insert_pipeline(c: ContentView, d: PipelineDefinition)
    ensures
        c.insert_pipeline(d) is Err <==> c.pipelines.contains_key(d.id@),
        c.insert_pipeline(d) matches Err(e) ==> e == Error::AlreadyDefined(d.mid.range, ItemKind::Pipeline, d.id),
        c.insert_pipeline(d) matches Ok(c2) ==> {
            &&& c2.pipelines.get(d.id@) == Some(d)
            &&& forall|k: Seq<char>| k != d.id@ ==> #[trigger] c2.pipelines.get(k) == c.pipelines.get(k)
            &&& c2.connectors == c.connectors
            &&& c2.windows == c.windows
            &&& c2.scripts == c.scripts
            &&& c2.operators == c.operators
            &&& c2.flows == c.flows
            &&& c2.consts == c.consts
            &&& c2.functions == c.functions
        },
{
    law_named_insert(c.pipelines, d.id@, d);
}

/// Adding a window fails exactly when the module has a window of that name, with
/// the error naming it; when it succeeds, looking the name up gives the
/// window back, other windows are unchanged and the other tables are untouched.
pub proof fn law_insert_window(c: ContentView, d: WindowDefinition)
    ensures
        c.insert_window(d) is Err <==> c.windows.contains_key(d.id@),
        c.insert_window(d) matches Err(e) ==> e == Error::AlreadyDefined(d.mid.range, ItemKind::Window, d.id),
        c.insert_window(d) matches Ok(c2) ==> {
            &&& c2.windows.get(d.id@) == Some(d)
            &&& forall|k: Seq<char>| k != d.id@ ==> #[trigger] c2.windows.get(k) == c.windows.get(k)
            &&& c2.connectors == c.connectors
            &&& c2.pipelines == c.pipelines
            &&& c2.scripts == c.scripts
            &&& c2.operators == c.operators
            &&& c2.flows == c.flows
            &&& c2.consts == c.consts
            &&& c2.functions == c.functions
        },
{
    law_named_insert(c.windows, d.id@, d);
}

/// Adding a script fails exactly when the module has a script of that name, with
/// the error naming it; when it succeeds, looking the name up gives the
/// script back, other scripts are unchanged and the other tables are untouched.
pub proof fn law_insert_script(c: ContentView, d: ScriptDefinition)
    ensures
        c.insert_script(d) is Err <==> c.scripts.contains_key(d.id@),
        c.insert_script(d) matches Err(e) ==> e == Error::AlreadyDefined(d.mid.range, ItemKind::Script, d.id),
        c.insert_script(d) matches Ok(c2) ==> {
            &&& c2.scripts.get(d.id@) == Some(d)
            &&& forall|k: Seq<char>| k != d.id@ ==> #[trigger] c2.scripts.get(k) == c.scripts.get(k)
            &&& c2.connectors == c.connectors
            &&& c2.pipelines == c.pipelines
            &&& c2.windows == c.windows
            &&& c2.operators == c.operators
            &&& c2.flows == c.flows
            &&& c2.consts == c.consts
            &&& c2.functions == c.functions
        },
{
    law_named_insert(c.scripts, d.id@, d);
}

/// Adding an operator fails exactly when the module has an operator of that name, with
/// the error naming it; when it succeeds, looking the name up gives the
/// operator back, other operators are unchanged and the other tables are untouched.
pub proof fn law_insert_operator(c: ContentView, d: OperatorDefinition)
    ensures
        c.insert_operator(d) is Err <==> c.operators.contains_key(d.id@),
        c.insert_operator(d) matches Err(e) ==> e == Error::AlreadyDefined(d.mid.range, ItemKind::Operator, d.id),
        c.insert_operator(d) matches Ok(c2) ==> {
            &&& c2.operators.get(d.id@) == Some(d)
            &&& forall|k: Seq<char>| k != d.id@ ==> #[trigger] c2.operators.get(k) == c.operators.get(k)
            &&& c2.connectors == c.connectors
            &&& c2.pipelines == c.pipelines
            &&& c2.windows == c.windows
            &&& c2.scripts == c.scripts
            &&& c2.flows == c.flows
            &&& c2.consts == c.consts
            &&& c2.functions == c.functions
        },
{
    law_named_insert(c.operators, d.id@, d);
}

/// Adding a flow fails exactly when the module has a flow of that name, with
/// the error naming it; when it succeeds, looking the name up gives the
/// flow back, other flows are unchanged and the other tables are untouched.
pub proof fn law_insert_flow(c: ContentView, d: FlowDefinition)
    ensures
        c.insert_flow(d) is Err <==> c.flows.contains_key(d.id@),
        c.insert_flow(d) matches Err(e) ==> e == Error::AlreadyDefined(d.mid.range, ItemKind::Flow, d.id),
        c.insert_flow(d) matches Ok(c2) ==> {
            &&& c2.flows.get(d.id@) == Some(d)
            &&& forall|k: Seq<char>| k != d.id@ ==> #[trigger] c2.flows.get(k) == c.flows.get(k)
            &&& c2.connectors == c.connectors
            &&& c2.pipelines == c.pipelines
            &&& c2.windows == c.windows
            &&& c2.scripts == c.scripts
            &&& c2.operators == c.operators
            &&& c2.consts == c.consts
            &&& c2.functions == c.functions
        },
{
    law_named_insert(c.flows, d.id@, d);
}

/// Adding a constant fails exactly when the module has a constant of that name, with
/// the error naming it; when it succeeds, looking the name up gives the
/// const back, other consts are unchanged and the other tables are untouched.
pub proof fn law_insert_const(c: ContentView, d: Const)
    ensures
        c.insert_const(d) is Err <==> c.consts.contains_key(d.id@),
        c.insert_const(d) matches Err(e) ==> e == Error::AlreadyDefined(d.mid.range, ItemKind::Const, d.id),
        c.insert_const(d) matches Ok(c2) ==> {
            &&& c2.consts.get(d.id@) == Some(d)
            &&& forall|k: Seq<char>| k != d.id@ ==> #[trigger] c2.consts.get(k) == c.consts.get(k)
            &&& c2.connectors == c.connectors
            &&& c2.pipelines == c.pipelines
            &&& c2.windows == c.windows
            &&& c2.scripts == c.scripts
            &&& c2.operators == c.operators
            &&& c2.flows == c.flows
            &&& c2.functions == c.functions
        },
{
    law_named_insert(c.consts, d.id@, d);
}

/// Adding a function fails exactly when the module has a function of that name, with
/// the error naming it; when it succeeds, looking the name up gives the
/// function back, other functions are unchanged and the other tables are untouched.
pub proof fn law_insert_function(c: ContentView, d: FnDefn)
    ensures
        c.insert_function(d) is Err <==> c.functions.contains_key(d.name@),
        c.insert_function(d) matches Err(e) ==> e == Error::AlreadyDefined(d.mid.range, ItemKind::Function, d.name),
        c.insert_function(d) matches Ok(c2) ==> {
            &&& c2.functions.get(d.name@) == Some(d)
            &&& forall|k: Seq<char>| k != d.name@ ==> #[trigger] c2.functions.get(k) == c.functions.get(k)
            &&& c2.connectors == c.connectors
            &&& c2.pipelines == c.pipelines
            &&& c2.windows == c.windows
            &&& c2.scripts == c.scripts
            &&& c2.operators == c.operators
            &&& c2.flows == c.flows
            &&& c2.consts == c.consts
        },
{
    law_named_insert(c.functions, d.name@, d);
}

/// Getting an item of a kind by name reads that kind's own table, and no
/// other: it gives the entry under that name in the table, or nothing.
pub proof fn law_get_reads_its_own_table(c: Content, n: Seq<char>)
    ensures
        <Content as GetMod<ConnectorDefinition>>::lookup(&c, n) == c@.connectors.get(n),
        <Content as GetMod<PipelineDefinition>>::lookup(&c, n) == c@.pipelines.get(n),
        <Content as GetMod<WindowDefinition>>::lookup(&c, n) == c@.windows.get(n),
        <Content as GetMod<ScriptDefinition>>::lookup(&c, n) == c@.scripts.get(n),
        <Content as GetMod<OperatorDefinition>>::lookup(&c, n) == c@.operators.get(n),
        <Content as GetMod<FlowDefinition>>::lookup(&c, n) == c@.flows.get(n),
        <Content as GetMod<Const>>::lookup(&c, n) == c@.consts.get(n),
        <Content as GetMod<FnDefn>>::lookup(&c, n) == c@.functions.get(n),
{
}

/// After a connector is added, getting a connector by its name gives it back, and getting
/// any other connector gives what it gave before.
pub proof fn law_get_after_insert_connector(before: Content, after: Content, d: ConnectorDefinition)
    requires
        before@.insert_connector(d) == Ok::<ContentView, Error>(after@),
    ensures
        <Content as GetMod<ConnectorDefinition>>::lookup(&after, d.id@) == Some(d),
        forall|n: Seq<char>|
            n != d.id@ ==> #[trigger] <Content as GetMod<ConnectorDefinition>>::lookup(&after, n)
                == <Content as GetMod<ConnectorDefinition>>::lookup(&before, n),
{
    law_insert_connector(before@, d);
    assert forall|n: Seq<char>|
        n != d.id@ implies #[trigger] <Content as GetMod<ConnectorDefinition>>::lookup(&after, n)
            == <Content as GetMod<ConnectorDefinition>>::lookup(&before, n) by {
        assert(after@.connectors.get(n) == before@.connectors.get(n));
    }
}

/// After a pipeline is added, getting a pipeline by its name gives it back, and getting
/// any other pipeline gives what it gave before.
pub proof fn law_get_after_insert_pipeline(before: Content, after: Content, d: PipelineDefinition)
    requires
        before@.insert_pipeline(d) == Ok::<ContentView, Error>(after@),
    ensures
        <Content as GetMod<PipelineDefinition>>::lookup(&after, d.id@) == Some(d),
        forall|n: Seq<char>|
            n != d.id@ ==> #[trigger] <Content as GetMod<PipelineDefinition>>::lookup(&after, n)
                == <Content as GetMod<PipelineDefinition>>::lookup(&before, n),
{
    law_insert_pipeline(before@, d);
    assert forall|n: Seq<char>|
        n != d.id@ implies #[trigger] <Content as GetMod<PipelineDefinition>>::lookup(&after, n)
            == <Content as GetMod<PipelineDefinition>>::lookup(&before, n) by {
        assert(after@.pipelines.get(n) == before@.pipelines.get(n));
    }
}

/// After a window is added, getting a window by its name gives it back, and getting
/// any other window gives what it gave before.
pub proof fn law_get_after_insert_window(before: Content, after: Content, d: WindowDefinition)
    requires
        before@.insert_window(d) == Ok::<ContentView, Error>(after@),
    ensures
        <Content as GetMod<WindowDefinition>>::lookup(&after, d.id@) == Some(d),
        forall|n: Seq<char>|
            n != d.id@ ==> #[trigger] <Content as GetMod<WindowDefinition>>::lookup(&after, n)
                == <Content as GetMod<WindowDefinition>>::lookup(&before, n),
{
    law_insert_window(before@, d);
    assert forall|n: Seq<char>|
        n != d.id@ implies #[trigger] <Content as GetMod<WindowDefinition>>::lookup(&after, n)
            == <Content as GetMod<WindowDefinition>>::lookup(&before, n) by {
        assert(after@.windows.get(n) == before@.windows.get(n));
    }
}

/// After a script is added, getting a script by its name gives it back, and getting
/// any other script gives what it gave before.
pub proof fn law_get_after_insert_script(before: Content, after: Content, d: ScriptDefinition)
    requires
        before@.insert_script(d) == Ok::<ContentView, Error>(after@),
    ensures
        <Content as GetMod<ScriptDefinition>>::lookup(&after, d.id@) == Some(d),
        forall|n: Seq<char>|
            n != d.id@ ==> #[trigger] <Content as GetMod<ScriptDefinition>>::lookup(&after, n)
                == <Content as GetMod<ScriptDefinition>>::lookup(&before, n),
{
    law_insert_script(before@, d);
    assert forall|n: Seq<char>|
        n != d.id@ implies #[trigger] <Content as GetMod<ScriptDefinition>>::lookup(&after, n)
            == <Content as GetMod<ScriptDefinition>>::lookup(&before, n) by {
        assert(after@.scripts.get(n) == before@.scripts.get(n));
    }
}

/// After a operator is added, getting a operator by its name gives it back, and getting
/// any other operator gives what it gave before.
pub proof fn law_get_after_insert_operator(before: Content, after: Content, d: OperatorDefinition)
    requires
        before@.insert_operator(d) == Ok::<ContentView, Error>(after@),
    ensures
        <Content as GetMod<OperatorDefinition>>::lookup(&after, d.id@) == Some(d),
        forall|n: Seq<char>|
            n != d.id@ ==> #[trigger] <Content as GetMod<OperatorDefinition>>::lookup(&after, n)
                == <Content as GetMod<OperatorDefinition>>::lookup(&before, n),
{
    law_insert_operator(before@, d);
    assert forall|n: Seq<char>|
        n != d.id@ implies #[trigger] <Content as GetMod<OperatorDefinition>>::lookup(&after, n)
            == <Content as GetMod<OperatorDefinition>>::lookup(&before, n) by {
        assert(after@.operators.get(n) == before@.operators.get(n));
    }
}

/// After a flow is added, getting a flow by its name gives it back, and getting
/// any other flow gives what it gave before.
pub proof fn law_get_after_insert_flow(before: Content, after: Content, d: FlowDefinition)
    requires
        before@.insert_flow(d) == Ok::<ContentView, Error>(after@),
    ensures
        <Content as GetMod<FlowDefinition>>::lookup(&after, d.id@) == Some(d),
        forall|n: Seq<char>|
            n != d.id@ ==> #[trigger] <Content as GetMod<FlowDefinition>>::lookup(&after, n)
                == <Content as GetMod<FlowDefinition>>::lookup(&before, n),
{
    law_insert_flow(before@, d);
    assert forall|n: Seq<char>|
        n != d.id@ implies #[trigger] <Content as GetMod<FlowDefinition>>::lookup(&after, n)
            == <Content as GetMod<FlowDefinition>>::lookup(&before, n) by {
        assert(after@.flows.get(n) == before@.flows.get(n));
    }
}

/// After a const is added, getting a const by its name gives it back, and getting
/// any other const gives what it gave before.
pub proof fn law_get_after_insert_const(before: Content, after: Content, d: Const)
    requires
        before@.insert_const(d) == Ok::<ContentView, Error>(after@),
    ensures
        <Content as GetMod<Const>>::lookup(&after, d.id@) == Some(d),
        forall|n: Seq<char>|
            n != d.id@ ==> #[trigger] <Content as GetMod<Const>>::lookup(&after, n)
                == <Content as GetMod<Const>>::lookup(&before, n),
{
    law_insert_const(before@, d);
    assert forall|n: Seq<char>|
        n != d.id@ implies #[trigger] <Content as GetMod<Const>>::lookup(&after, n)
            == <Content as GetMod<Const>>::lookup(&before, n) by {
        assert(after@.consts.get(n) == before@.consts.get(n));
    }
}

/// After a function is added, getting a function by its name gives it back, and getting
/// any other function gives what it gave before.
pub proof fn law_get_after_insert_function(before: Content, after: Content, d: FnDefn)
    requires
        before@.insert_function(d) == Ok::<ContentView, Error>(after@),
    ensures
        <Content as GetMod<FnDefn>>::lookup(&after, d.name@) == Some(d),
        forall|n: Seq<char>|
            n != d.name@ ==> #[trigger] <Content as GetMod<FnDefn>>::lookup(&after, n)
                == <Content as GetMod<FnDefn>>::lookup(&before, n),
{
    law_insert_function(before@, d);
    assert forall|n: Seq<char>|
        n != d.name@ implies #[trigger] <Content as GetMod<FnDefn>>::lookup(&after, n)
            == <Content as GetMod<FnDefn>>::lookup(&before, n) by {
        assert(after@.functions.get(n) == before@.functions.get(n));
    }
}

} // verus!
