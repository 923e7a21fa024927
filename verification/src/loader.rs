//! Loading a module together with the modules it uses.
//!
//! Loading reads files and parses them, which the library leaves to its
//! caller: the loader says what it needs next (a module's file, or the
//! statements of the file just read) and is handed what was found. Everything
//! else is decided here: which modules are new, which are loaded already,
//! which `use` closes a cycle, and which index each module gets.

use vstd::prelude::*;

use crate::error::Error;
use crate::id::{sha512_digest, Id, Index};
use crate::manager::{
    first_with_id, is_cyclic_use_error, is_not_found_error, lemma_first_index, loading, modules_distinct,
    stored_at, Manager,
    Source,
};
use crate::module::{
    lemma_waiting_has_pending, load_spec, LoadStep, LoadView, Module, ModuleLoad, ModuleRaw,
    ModuleView, StepView,
};
use crate::content::Content;
use crate::meta::NodeId;

verus! {

/// What the loader waits for.
pub enum Wanted {
    /// The file of this module.
    File(NodeId),
    /// The statements of the file just read, whose module has this identity.
    Statements(Id),
    /// Nothing: loading is over.
    Nothing,
}

/// What the caller of the loader does next.
pub enum LoadAction {
    /// Find and read the file of this module, then call `Manager::file_found`,
    /// `Manager::file_missing` or `Manager::load_failed`.
    Read(NodeId),
    /// Parse the file just read, then call `Manager::file_parsed` or
    /// `Manager::load_failed`.
    Parse,
    /// Loading is over, with the index of the module asked for, or an error.
    Done(Result<Index, Error>),
}

/// Two node identifiers name the same module.
pub open spec fn same_node(a: NodeId, b: NodeId) -> bool {
    a.id == b.id && a.module@ == b.module@
}

/// The modules being loaded, as values.
pub open spec fn frame_views(frames: Seq<ModuleLoad>) -> Seq<LoadView> {
    frames.map_values(|f: ModuleLoad| f@)
}

/// `ids` without its last entry, if it has one.
pub open spec fn pop_id(ids: Seq<(Id, String)>) -> Seq<(Id, String)> {
    if ids.len() > 0 {
        ids.drop_last()
    } else {
        ids
    }
}

/// Where loading stands once no more can be done without the caller.
pub enum Next {
    /// The file of this module is needed.
    Read(NodeId),
    /// Loading is over.
    Finished(Result<Index, Error>),
}

/// The modules, identity stack and modules being loaded once loading has
/// gone as far as it can, and what it needs next.
pub struct Settled {
    pub modules: Seq<ModuleView>,
    pub ids: Seq<(Id, String)>,
    pub frames: Seq<LoadView>,
    pub next: Next,
}

/// Hands `nested` to the innermost module being loaded and goes on: a module
/// that asks for another stops the run; a module that is complete is added
/// (taking the next index; a module with its identity stored already keeps
/// the index it has) and its index handed to the module that used it;
/// an error is handed on the same way; with no module left, loading is over.
pub open spec fn settle(
    modules: Seq<ModuleView>,
    ids: Seq<(Id, String)>,
    frames: Seq<LoadView>,
    nested: Option<Result<Index, Error>>,
) -> Settled
    decreases frames.len(),
{
    if frames.len() == 0 {
        Settled { modules, ids, frames, next: Next::Finished(nested.unwrap()) }
    } else {
        match load_spec(frames.last(), nested) {
            Ok(StepView::Use(s)) => Settled {
                modules,
                ids,
                frames: frames.drop_last().push(s),
                next: Next::Read(s.pending.unwrap().module),
            },
            Ok(StepView::Loaded(m)) => match stored_at(modules, m.id) {
                Some(k) => settle(modules, pop_id(ids), frames.drop_last(), Some(Ok(Index(k)))),
                None => settle(
                    modules.push(m),
                    pop_id(ids),
                    frames.drop_last(),
                    Some(Ok(Index(modules.len() as usize))),
                ),
            },
            Err(e) => settle(modules, ids, frames.drop_last(), Some(Err(e))),
        }
    }
}

/// `after`, `ids`, `frames` and `r` are what `s` describes, and the module
/// paths are those of `before`.
pub open spec fn settled_as(
    before: Manager,
    after: Manager,
    ids: Seq<(Id, String)>,
    frames: Seq<ModuleLoad>,
    r: LoadAction,
    s: Settled,
) -> bool {
    &&& after@.modules == s.modules
    &&& after.mount_list() == before.mount_list()
    &&& ids == s.ids
    &&& frame_views(frames) == s.frames
    &&& match s.next {
        Next::Read(n) => r matches LoadAction::Read(x) && same_node(x, n),
        Next::Finished(res) => r == LoadAction::Done(res),
    }
}

impl Manager {
    /// Goes on loading from where `nested` is handed to the innermost module.
    fn settle_loads(
        &mut self,
        ids: &mut Vec<(Id, String)>,
        frames: &mut Vec<ModuleLoad>,
        nested: Option<Result<Index, Error>>,
    ) -> (r: LoadAction)
        requires
            old(frames)@.len() > 0 || nested is Some,
        ensures
            settled_as(
                *old(self),
                *final(self),
                final(ids)@,
                final(frames)@,
                r,
                settle(old(self)@.modules, old(ids)@, frame_views(old(frames)@), nested),
            ),
    {
        let ghost target = settle(self@.modules, ids@, frame_views(frames@), nested);
        let mut cur = nested;
        loop
            invariant
                settle(self@.modules, ids@, frame_views(frames@), cur) == target,
                frames@.len() > 0 || cur is Some,
                self.mount_list() == old(self).mount_list(),
                target == settle(old(self)@.modules, old(ids)@, frame_views(old(frames)@), nested),
            decreases frames@.len(),
        {
            let ghost fr = frame_views(frames@);
            match frames.pop() {
                None => {
                    match cur {
                        Some(res) => {
                            return LoadAction::Done(res);
                        },
                        None => {
                            return unreached();
                        },
                    }
                },
                Some(frame) => {
                    assert(frame_views(frames@) =~= fr.drop_last());
                    proof {
                        lemma_waiting_has_pending(frame@, cur);
                    }
                    match Module::load(frame, cur) {
                        Ok(LoadStep::Use(s)) => {
                            let n = match s.requested() {
                                Some(n) => n.copy(),
                                None => unreached(),
                            };
                            frames.push(s);
                            assert(frame_views(frames@) =~= fr.drop_last().push(s@));
                            return LoadAction::Read(n);
                        },
                        Ok(LoadStep::Loaded(m)) => {
                            let i = self.add_module(ids, m);
                            cur = Some(Ok(i));
                        },
                        Err(e) => {
                            cur = Some(Err(e));
                        },
                    }
                },
            }
        }
    }
}

/// The modules being loaded all wait for the module of a `use`, and each
/// has its identity at the same height of the identity stack.
pub open spec fn stack_waiting(ids: Seq<(Id, String)>, frames: Seq<LoadView>) -> bool {
    &&& forall|i: int| 0 <= i < frames.len() ==> (#[trigger] frames[i]).pending is Some
    &&& forall|i: int| 0 <= i < frames.len() && i < ids.len() ==> (#[trigger] ids[i]).0@ == frames[i].id
}

/// The stack is ready to be handed `nested`: every module below the
/// innermost waits, the innermost too unless it is new (`nested` is `None`),
/// the identities line up, and there is one identity per module (more after
/// an error, whose module's identity is never taken off).
pub open spec fn stack_ready(
    ids: Seq<(Id, String)>,
    frames: Seq<LoadView>,
    nested: Option<Result<Index, Error>>,
) -> bool {
    &&& forall|i: int| 0 <= i < frames.len() - 1 ==> (#[trigger] frames[i]).pending is Some
    &&& (nested is Some && frames.len() > 0) ==> frames.last().pending is Some
    &&& forall|i: int| 0 <= i < frames.len() && i < ids.len() ==> (#[trigger] ids[i]).0@ == frames[i].id
    &&& if nested matches Some(Err(_)) {
        ids.len() >= frames.len()
    } else {
        ids.len() == frames.len()
    }
    &&& frames.len() > 0 || nested is Some
}

/// Loading goes as far as it can while keeping the stack in order: when it
/// needs a file, every module being loaded waits and has its identity on the
/// identity stack; when it is over, no module is being loaded.
pub proof fn lemma_settle_keeps_stack(
    modules: Seq<ModuleView>,
    ids: Seq<(Id, String)>,
    frames: Seq<LoadView>,
    nested: Option<Result<Index, Error>>,
)
    requires
        stack_ready(ids, frames, nested),
    ensures
        match settle(modules, ids, frames, nested).next {
            Next::Read(n) => {
                let s = settle(modules, ids, frames, nested);
                &&& stack_waiting(s.ids, s.frames)
                &&& s.ids.len() == s.frames.len()
                &&& s.frames.len() > 0
                &&& n == s.frames.last().pending.unwrap().module
            },
            Next::Finished(_) => settle(modules, ids, frames, nested).frames.len() == 0,
        },
    decreases frames.len(),
{
    if frames.len() > 0 {
        let top = frames.last();
        lemma_waiting_has_pending(top, nested);
        match load_spec(top, nested) {
            Ok(StepView::Use(st)) => {
                let f2 = frames.drop_last().push(st);
                assert(f2.last() == st);
                assert forall|i: int| 0 <= i < f2.len() implies (#[trigger] f2[i]).pending is Some by {
                    if i < frames.len() - 1 {
                        assert(f2[i] == frames[i]);
                    }
                }
                assert forall|i: int| 0 <= i < f2.len() && i < ids.len() implies (#[trigger] ids[i]).0@
                    == f2[i].id by {
                    if i < frames.len() - 1 {
                        assert(f2[i] == frames[i]);
                    }
                }
            },
            Ok(StepView::Loaded(m)) => {
                let f2 = frames.drop_last();
                let ids2 = pop_id(ids);
                assert forall|i: int| 0 <= i < f2.len() && i < ids2.len() implies (#[trigger] ids2[i]).0@
                    == f2[i].id by {
                    assert(ids2[i] == ids[i]);
                    assert(f2[i] == frames[i]);
                }
                assert forall|i: int| 0 <= i < f2.len() - 1 implies (#[trigger] f2[i]).pending is Some by {
                    assert(f2[i] == frames[i]);
                }
                if f2.len() > 0 {
                    assert(f2.last() == frames[frames.len() - 2]);
                }
                match stored_at(modules, m.id) {
                    Some(k) => lemma_settle_keeps_stack(modules, ids2, f2, Some(Ok(Index(k)))),
                    None => lemma_settle_keeps_stack(
                        modules.push(m),
                        ids2,
                        f2,
                        Some(Ok(Index(modules.len() as usize))),
                    ),
                }
            },
            Err(e) => {
                let f2 = frames.drop_last();
                assert forall|i: int| 0 <= i < f2.len() && i < ids.len() implies (#[trigger] ids[i]).0@
                    == f2[i].id by {
                    assert(f2[i] == frames[i]);
                }
                assert forall|i: int| 0 <= i < f2.len() - 1 implies (#[trigger] f2[i]).pending is Some by {
                    assert(f2[i] == frames[i]);
                }
                if f2.len() > 0 {
                    assert(f2.last() == frames[frames.len() - 2]);
                }
                lemma_settle_keeps_stack(modules, ids, f2, Some(Err(e)));
            },
        }
    }
}

/// No identity is twice on the identity stack.
pub open spec fn ids_distinct(ids: Seq<(Id, String)>) -> bool {
    forall|i: int, j: int| 0 <= i < j < ids.len() ==> (#[trigger] ids[i]).0@ != (#[trigger] ids[j]).0@
}

/// No module being loaded has the identity of a module loaded already.
pub open spec fn ids_fresh(mods: Seq<ModuleView>, ids: Seq<(Id, String)>) -> bool {
    forall|i: int, j: int| 0 <= i < ids.len() && 0 <= j < mods.len() ==> (#[trigger] ids[i]).0@ != (
    #[trigger] mods[j]).id
}

/// Handing on a module's index or an error keeps the rest of the stack ready.
proof fn lemma_stack_ready_below(
    ids: Seq<(Id, String)>,
    frames: Seq<LoadView>,
    nested: Option<Result<Index, Error>>,
    ids2: Seq<(Id, String)>,
    nested2: Option<Result<Index, Error>>,
)
    requires
        stack_ready(ids, frames, nested),
        frames.len() > 0,
        nested2 is Some,
        ids2 == ids || (ids.len() > 0 && ids2 == ids.drop_last()),
        nested2 matches Some(Err(_)) || ids2.len() == frames.len() - 1,
        nested2 matches Some(Err(_)) ==> ids.len() >= frames.len() && ids2 == ids,
    ensures
        stack_ready(ids2, frames.drop_last(), nested2),
{
    let f2 = frames.drop_last();
    assert forall|i: int| 0 <= i < f2.len() && i < ids2.len() implies (#[trigger] ids2[i]).0@
        == f2[i].id by {
        assert(ids2[i] == ids[i]);
        assert(f2[i] == frames[i]);
    }
    assert forall|i: int| 0 <= i < f2.len() - 1 implies (#[trigger] f2[i]).pending is Some by {
        assert(f2[i] == frames[i]);
    }
    if f2.len() > 0 {
        assert(f2.last() == frames[frames.len() - 2]);
    }
}

/// What loading does to identities: the identity stack only shrinks from its
/// top; an error ends loading with an error; a load that ends with a module
/// ends with the outermost module being loaded; and when no two loaded
/// modules and no two modules being loaded share an identity, and none being
/// loaded is loaded already, that stays so.
pub proof fn lemma_settle_identities(
    modules: Seq<ModuleView>,
    ids: Seq<(Id, String)>,
    frames: Seq<LoadView>,
    nested: Option<Result<Index, Error>>,
)
    requires
        stack_ready(ids, frames, nested),
    ensures
        ({
            let s = settle(modules, ids, frames, nested);
            &&& s.ids.len() <= ids.len()
            &&& s.ids == ids.subrange(0, s.ids.len() as int)
            &&& (nested matches Some(Err(_)) ==> s.next matches Next::Finished(Err(_)))
            &&& (frames.len() > 0 && modules.len() + frames.len() < usize::MAX) ==> match s.next {
                Next::Finished(Ok(i)) => i.0 < s.modules.len() && s.modules[i.0 as int].id == frames[0].id,
                _ => true,
            }
            &&& modules_distinct(modules) ==> modules_distinct(s.modules)
            &&& ids_distinct(ids) ==> ids_distinct(s.ids)
            &&& (ids_distinct(ids) && ids_fresh(modules, ids)) ==> (s.next is Read ==> ids_fresh(
                s.modules,
                s.ids,
            ))
        }),
    decreases frames.len(),
{
    if frames.len() == 0 {
        assert(ids.subrange(0, ids.len() as int) =~= ids);
    } else {
        let top = frames.last();
        match load_spec(top, nested) {
            Ok(StepView::Use(_)) => {
                assert(ids.subrange(0, ids.len() as int) =~= ids);
            },
            Ok(StepView::Loaded(m)) => {
                let ids2 = pop_id(ids);
                let f2 = frames.drop_last();
                assert(ids.len() == frames.len());
                assert(m.id == top.id);
                assert(ids[ids.len() - 1].0@ == top.id);
                lemma_first_index(modules, m.id);
                if ids_distinct(ids) {
                    assert forall|i: int, j: int| 0 <= i < j < ids2.len() implies (#[trigger] ids2[i]).0@ != (
                    #[trigger] ids2[j]).0@ by {
                        assert(ids2[i] == ids[i]);
                        assert(ids2[j] == ids[j]);
                    }
                }
                match stored_at(modules, m.id) {
                    Some(k0) => {
                        let k = Index(k0);
                        lemma_stack_ready_below(ids, frames, nested, ids2, Some(Ok(k)));
                        lemma_settle_identities(modules, ids2, f2, Some(Ok(k)));
                        let s = settle(modules, ids2, f2, Some(Ok(k)));
                        assert(s.ids =~= ids.subrange(0, s.ids.len() as int));
                        if f2.len() == 0 {
                            assert(s.modules == modules);
                        } else {
                            assert(f2[0] == frames[0]);
                        }
                        if ids_fresh(modules, ids) {
                            assert forall|i: int, j: int| 0 <= i < ids2.len() && 0 <= j < modules.len() implies (
                            #[trigger] ids2[i]).0@ != (#[trigger] modules[j]).id by {
                                assert(ids2[i] == ids[i]);
                            }
                        }
                    },
                    None => {
                        let m2 = modules.push(m);
                        let k = Index(modules.len() as usize);
                        lemma_stack_ready_below(ids, frames, nested, ids2, Some(Ok(k)));
                        lemma_settle_identities(m2, ids2, f2, Some(Ok(k)));
                        let s = settle(m2, ids2, f2, Some(Ok(k)));
                        assert(s.ids =~= ids.subrange(0, s.ids.len() as int));
                        law_settle_appends(m2, ids2, f2, Some(Ok(k)));
                        if f2.len() == 0 {
                            assert(s.modules == m2);
                        } else {
                            assert(f2[0] == frames[0]);
                        }
                        assert(m2[modules.len() as int] == m);
                        if modules_distinct(modules) {
                            assert forall|i: int, j: int| 0 <= i < j < m2.len() implies (#[trigger] m2[i]).id != (
                            #[trigger] m2[j]).id by {
                                if j == modules.len() {
                                    assert(modules[i].id != m.id);
                                } else {
                                    assert(m2[i] == modules[i]);
                                    assert(m2[j] == modules[j]);
                                }
                            }
                        }
                        if ids_distinct(ids) && ids_fresh(modules, ids) {
                            assert forall|i: int, j: int| 0 <= i < ids2.len() && 0 <= j < m2.len() implies (
                            #[trigger] ids2[i]).0@ != (#[trigger] m2[j]).id by {
                                assert(ids2[i] == ids[i]);
                                if j == modules.len() {
                                    assert(ids[i].0@ != ids[ids.len() - 1].0@);
                                } else {
                                    assert(m2[j] == modules[j]);
                                }
                            }
                        }
                    },
                }
            },
            Err(e) => {
                let f2 = frames.drop_last();
                lemma_stack_ready_below(ids, frames, nested, ids, Some(Err(e)));
                lemma_settle_identities(modules, ids, f2, Some(Err(e)));
                if f2.len() > 0 {
                    assert(f2[0] == frames[0]);
                }
            },
        }
    }
}

/// The loading of a module and of the modules it uses, in progress: the
/// identities and files of the modules being loaded (outermost first), those
/// modules themselves, and what the loader waits for.
pub struct Loader {
    ids: Vec<(Id, String)>,
    frames: Vec<ModuleLoad>,
    wanted: Wanted,
}

impl Loader {
    /// The identities and files of the modules being loaded, outermost first.
    pub closed spec fn ids(&self) -> Seq<(Id, String)> {
        self.ids@
    }

    /// The modules being loaded, outermost first.
    pub closed spec fn frames(&self) -> Seq<LoadView> {
        frame_views(self.frames@)
    }

    /// What the loader waits for.
    pub closed spec fn wanted(&self) -> Wanted {
        self.wanted
    }

    #[verifier::type_invariant]
    closed spec fn wf(self) -> bool {
        &&& stack_waiting(self.ids@, frame_views(self.frames@))
        &&& !(self.wanted is Nothing) ==> ids_distinct(self.ids@)
        &&& match self.wanted {
            Wanted::File(_) => self.ids@.len() == self.frames@.len(),
            Wanted::Statements(id) => self.ids@.len() == self.frames@.len() + 1
                && self.ids@.last().0@ == id@,
            Wanted::Nothing => self.frames@.len() == 0,
        }
    }

    fn idle() -> (ld: Loader)
        ensures
            ld.ids().len() == 0,
            ld.frames().len() == 0,
            ld.wanted() is Nothing,
    {
        Loader { ids: Vec::new(), frames: Vec::new(), wanted: Wanted::Nothing }
    }

    /// Whether the loader waits for a module's file.
    pub fn wants_file(&self) -> (r: bool)
        ensures
            r == self.wanted() is File,
    {
        match self.wanted {
            Wanted::File(_) => true,
            _ => false,
        }
    }

    /// Whether the loader waits for the statements of the file just read.
    pub fn wants_statements(&self) -> (r: bool)
        ensures
            r == self.wanted() is Statements,
    {
        match self.wanted {
            Wanted::Statements(_) => true,
            _ => false,
        }
    }
}

/// No two loaded modules share an identity, and, while loading goes on, no
/// module being loaded has the identity of a loaded one.
pub open spec fn unique_ids(mods: Seq<ModuleView>, ld: Loader) -> bool {
    &&& modules_distinct(mods)
    &&& !(ld.wanted() is Nothing) ==> ids_fresh(mods, ld.ids())
}

/// `after`, `ld` and `r` are what `s` describes, and the module paths are
/// those of `before`.
pub open spec fn loaded_as(before: Manager, after: Manager, ld: Loader, r: LoadAction, s: Settled) -> bool {
    &&& after@.modules == s.modules
    &&& after.mount_list() == before.mount_list()
    &&& ld.ids() == s.ids
    &&& ld.frames() == s.frames
    &&& match s.next {
        Next::Read(n) => {
            &&& r matches LoadAction::Read(x) && same_node(x, n)
            &&& ld.wanted() matches Wanted::File(w) && same_node(w, n)
        },
        Next::Finished(res) => r == LoadAction::Done(res) && ld.wanted() is Nothing,
    }
}

impl Manager {
    /// Goes on loading and puts the loader back together.
    fn resume(
        &mut self,
        ld: &mut Loader,
        ids0: Vec<(Id, String)>,
        frames0: Vec<ModuleLoad>,
        nested: Option<Result<Index, Error>>,
    ) -> (r: LoadAction)
        requires
            stack_ready(ids0@, frame_views(frames0@), nested),
            ids_distinct(ids0@) || frames0@.len() == 0,
        ensures
            loaded_as(
                *old(self),
                *final(self),
                *final(ld),
                r,
                settle(old(self)@.modules, ids0@, frame_views(frames0@), nested),
            ),
            (modules_distinct(old(self)@.modules) && ids_distinct(ids0@) && ids_fresh(
                old(self)@.modules,
                ids0@,
            )) ==> unique_ids(final(self)@.modules, *final(ld)),
            modules_distinct(old(self)@.modules) && frames0@.len() == 0 ==> unique_ids(
                final(self)@.modules,
                *final(ld),
            ),
            nested matches Some(Err(_)) ==> r matches LoadAction::Done(Err(_)),
            modules_distinct(final(self)@.modules),
            (frames0@.len() > 0 && old(self)@.modules.len() + frames0@.len() < usize::MAX) ==> match r {
                LoadAction::Done(Ok(i)) => i.0 < final(self)@.modules.len()
                    && final(self)@.modules[i.0 as int].id == frame_views(frames0@)[0].id,
                _ => true,
            },
    {
        let mut ids = ids0;
        let mut frames = frames0;
        proof {
            lemma_settle_keeps_stack(self@.modules, ids@, frame_views(frames@), nested);
            lemma_settle_identities(self@.modules, ids@, frame_views(frames@), nested);
        }
        let r = self.settle_loads(&mut ids, &mut frames, nested);
        let wanted = match &r {
            LoadAction::Read(n) => Wanted::File(n.copy()),
            _ => Wanted::Nothing,
        };
        proof {
            if wanted is File {
                assert(frames0@.len() > 0);
                assert forall|i: int, j: int| 0 <= i < j < ids@.len() implies (#[trigger] ids@[i]).0@
                    != (#[trigger] ids@[j]).0@ by {
                    assert(ids@[i] == ids0@[i]);
                    assert(ids@[j] == ids0@[j]);
                }
            }
        }
        *ld = Loader { ids, frames, wanted };
        proof {
            use_type_invariant(&*self);
        }
        r
    }

    /// Starts loading the module `node_id`; the loader first asks for its file.
    pub fn load(node_id: &NodeId) -> (r: (Loader, LoadAction))
        ensures
            r.0.ids().len() == 0,
            r.0.frames().len() == 0,
            r.0.wanted() matches Wanted::File(w) && same_node(w, *node_id),
            r.1 matches LoadAction::Read(n) && same_node(n, *node_id),
    {
        let ld = Loader { ids: Vec::new(), frames: Vec::new(), wanted: Wanted::File(node_id.copy()) };
        (ld, LoadAction::Read(node_id.copy()))
    }

    /// Goes on loading with the file `path` and its source `src`, read for
    /// the module the loader asked for.
    ///
    /// When a module with the same source is being loaded, the `use` is
    /// cyclic and loading fails. When a module with the same source is loaded
    /// already, its index is the result of the read. Otherwise the source is
    /// new, and the loader asks for its statements.
    pub fn file_found(&mut self, ld: &mut Loader, path: String, src: &[u8]) -> (r: LoadAction)
        requires
            old(ld).wanted() is File,
        ensures
            loading(old(ld).ids(), sha512_digest(src@)) ==> exists|e: Error|
                is_cyclic_use_error(e, old(ld).ids()) && #[trigger] loaded_as(
                    *old(self),
                    *final(self),
                    *final(ld),
                    r,
                    settle(old(self)@.modules, old(ld).ids(), old(ld).frames(), Some(Err(e))),
                ),
            !loading(old(ld).ids(), sha512_digest(src@)) && !first_with_id(
                old(self)@.modules,
                sha512_digest(src@),
                None,
            ) ==> exists|k: usize|
                first_with_id(old(self)@.modules, sha512_digest(src@), Some(k)) && #[trigger] loaded_as(
                    *old(self),
                    *final(self),
                    *final(ld),
                    r,
                    settle(old(self)@.modules, old(ld).ids(), old(ld).frames(), Some(Ok(Index(k)))),
                ),
            !loading(old(ld).ids(), sha512_digest(src@)) && first_with_id(
                old(self)@.modules,
                sha512_digest(src@),
                None,
            ) ==> {
                &&& *final(self) == *old(self)
                &&& final(ld).frames() == old(ld).frames()
                &&& final(ld).ids().drop_last() == old(ld).ids()
                &&& final(ld).ids().len() == old(ld).ids().len() + 1
                &&& final(ld).ids().last().0@ == sha512_digest(src@)
                &&& final(ld).ids().last().1 == path
                &&& final(ld).wanted() matches Wanted::Statements(id) && id@ == sha512_digest(src@)
                &&& r is Parse
            },
            unique_ids(old(self)@.modules, *old(ld)) ==> unique_ids(final(self)@.modules, *final(ld)),
            modules_distinct(old(self)@.modules),
            modules_distinct(final(self)@.modules),
            // a load that ends with a module ends with the outermost module asked for
            old(self)@.modules.len() + old(ld).frames().len() < usize::MAX ==> match r {
                LoadAction::Done(Ok(i)) => i.0 < final(self)@.modules.len() && final(self)@.modules[i.0 as int].id
                    == if old(ld).ids().len() == 0 {
                    sha512_digest(src@)
                } else {
                    old(ld).ids()[0].0@
                },
                _ => true,
            },
            // a module whose source is that of a module being loaded uses itself
            (exists|i: int|
                0 <= i < old(ld).frames().len() && (#[trigger] old(ld).frames()[i]).id == sha512_digest(
                    src@,
                )) ==> loading(old(ld).ids(), sha512_digest(src@)),
    {
        proof {
            use_type_invariant(&*ld);
            use_type_invariant(&*self);
        }
        let ghost old_ids = ld.ids@;
        let ghost digest = sha512_digest(src@);
        assert forall|i: int|
            0 <= i < frame_views(ld.frames@).len() && (#[trigger] frame_views(ld.frames@)[i]).id
                == digest implies loading(old_ids, digest) by {
            assert(old_ids[i].0@ == frame_views(ld.frames@)[i].id);
        }
        let mut taken = Loader::idle();
        std::mem::swap(ld, &mut taken);
        let Loader { mut ids, frames, wanted: _ } = taken;
        match self.check_source(&mut ids, path, src) {
            Ok(Source::New(id)) => {
                assert forall|i: int|
                    0 <= i < frame_views(frames@).len() && i < ids@.len() implies (#[trigger] ids@[i]).0@
                    == frame_views(frames@)[i].id by {
                    assert(ids@[i] == old_ids[i]);
                }
                assert forall|i: int, j: int| 0 <= i < j < ids@.len() implies (#[trigger] ids@[i]).0@
                    != (#[trigger] ids@[j]).0@ by {
                    assert(ids@[i] == old_ids[i]);
                    if j < old_ids.len() {
                        assert(ids@[j] == old_ids[j]);
                    } else {
                        assert(!loading(old_ids, digest));
                        assert(old_ids[i].0@ != digest);
                    }
                }
                assert(first_with_id(self@.modules, digest, None));
                assert forall|i: int, j: int|
                    0 <= i < ids@.len() && 0 <= j < self@.modules.len() && ids_fresh(
                        self@.modules,
                        old_ids,
                    ) implies (#[trigger] ids@[i]).0@ != (#[trigger] self@.modules[j]).id by {
                    if i < old_ids.len() {
                        assert(ids@[i] == old_ids[i]);
                    }
                }
                *ld = Loader { ids, frames, wanted: Wanted::Statements(id) };
                LoadAction::Parse
            },
            Ok(Source::Known(k)) => {
                proof {
                    if frame_views(frames@).len() > 0 {
                        assert(ids@[0].0@ == frame_views(frames@)[0].id);
                    }
                }
                self.resume(ld, ids, frames, Some(Ok(k)))
            },
            Err(e) => {
                let ghost e0 = e;
                let r = self.resume(ld, ids, frames, Some(Err(e)));
                assert(is_cyclic_use_error(e0, old_ids));
                r
            },
        }
    }

    /// Goes on loading when no module path holds the module the loader asked
    /// for: loading fails with the error for a missing module.
    pub fn file_missing(&mut self, ld: &mut Loader) -> (r: LoadAction)
        requires
            old(ld).wanted() is File,
        ensures
            old(ld).wanted() matches Wanted::File(n) && exists|e: Error|
                is_not_found_error(e, n, old(self)@.mounts) && #[trigger] loaded_as(
                    *old(self),
                    *final(self),
                    *final(ld),
                    r,
                    settle(old(self)@.modules, old(ld).ids(), old(ld).frames(), Some(Err(e))),
                ),
            unique_ids(old(self)@.modules, *old(ld)) ==> unique_ids(final(self)@.modules, *final(ld)),
            modules_distinct(old(self)@.modules),
            modules_distinct(final(self)@.modules),
            r matches LoadAction::Done(Err(_)),
    {
        proof {
            use_type_invariant(&*ld);
            use_type_invariant(&*self);
        }
        let mut taken = Loader::idle();
        std::mem::swap(ld, &mut taken);
        let Loader { ids, frames, wanted } = taken;
        match wanted {
            Wanted::File(n) => {
                let e = self.not_found(&n);
                let ghost e0 = e;
                let r = self.resume(ld, ids, frames, Some(Err(e)));
                assert(is_not_found_error(e0, n, old(self)@.mounts));
                assert(loaded_as(
                    *old(self),
                    *self,
                    *ld,
                    r,
                    settle(old(self)@.modules, old(ld).ids(), old(ld).frames(), Some(Err(e0))),
                ));
                r
            },
            _ => unreached(),
        }
    }

    /// Goes on loading with the statements parsed from the file just read.
    pub fn file_parsed(&mut self, ld: &mut Loader, raw: ModuleRaw) -> (r: LoadAction)
        requires
            old(ld).wanted() is Statements,
        ensures
            old(ld).wanted() matches Wanted::Statements(id) && loaded_as(
                *old(self),
                *final(self),
                *final(ld),
                r,
                settle(
                    old(self)@.modules,
                    old(ld).ids(),
                    old(ld).frames().push(
                        LoadView {
                            id: id@,
                            remaining: raw.stmts@,
                            content: Content::new_spec(),
                            modules: Map::empty(),
                            pending: None,
                        },
                    ),
                    None,
                ),
            ),
            unique_ids(old(self)@.modules, *old(ld)) ==> unique_ids(final(self)@.modules, *final(ld)),
            modules_distinct(old(self)@.modules),
            modules_distinct(final(self)@.modules),
            // a load that ends with a module ends with the outermost module asked for
            old(self)@.modules.len() + old(ld).frames().len() + 1 < usize::MAX ==> match r {
                LoadAction::Done(Ok(i)) => i.0 < final(self)@.modules.len() && final(self)@.modules[i.0 as int].id
                    == old(ld).ids()[0].0@,
                _ => true,
            },
    {
        proof {
            use_type_invariant(&*ld);
            use_type_invariant(&*self);
        }
        let mut taken = Loader::idle();
        std::mem::swap(ld, &mut taken);
        let Loader { ids, mut frames, wanted } = taken;
        match wanted {
            Wanted::Statements(id) => {
                let ghost fr = frame_views(frames@);
                frames.push(ModuleLoad::new(id, raw));
                assert(frame_views(frames@) =~= fr.push(frames@.last()@));
                assert(ids@[0].0@ == frame_views(frames@)[0].id);
                self.resume(ld, ids, frames, None)
            },
            _ => unreached(),
        }
    }

    /// Goes on loading after the file the loader asked for could not be read
    /// or parsed: loading fails with `e`.
    pub fn load_failed(&mut self, ld: &mut Loader, e: Error) -> (r: LoadAction)
        ensures
            loaded_as(
                *old(self),
                *final(self),
                *final(ld),
                r,
                settle(old(self)@.modules, old(ld).ids(), old(ld).frames(), Some(Err(e))),
            ),
            unique_ids(old(self)@.modules, *old(ld)) ==> unique_ids(final(self)@.modules, *final(ld)),
            modules_distinct(old(self)@.modules),
            modules_distinct(final(self)@.modules),
            r matches LoadAction::Done(Err(_)),
    {
        proof {
            use_type_invariant(&*ld);
            use_type_invariant(&*self);
        }
        let mut taken = Loader::idle();
        std::mem::swap(ld, &mut taken);
        let Loader { ids, frames, wanted: _ } = taken;
        self.resume(ld, ids, frames, Some(Err(e)))
    }
}

/// Loading never takes a module away or moves one: the modules there before
/// keep their indices, and new ones are only added after them.
pub proof fn law_settle_appends(
    modules: Seq<ModuleView>,
    ids: Seq<(Id, String)>,
    frames: Seq<LoadView>,
    nested: Option<Result<Index, Error>>,
)
    ensures
        settle(modules, ids, frames, nested).modules.len() >= modules.len(),
        settle(modules, ids, frames, nested).modules.subrange(0, modules.len() as int) == modules,
    decreases frames.len(),
{
    if frames.len() > 0 {
        match load_spec(frames.last(), nested) {
            Ok(StepView::Use(_)) => {
                assert(modules.subrange(0, modules.len() as int) =~= modules);
            },
            Ok(StepView::Loaded(m)) if stored_at(modules, m.id) is Some => {
                law_settle_appends(
                    modules,
                    pop_id(ids),
                    frames.drop_last(),
                    Some(Ok(Index(stored_at(modules, m.id).unwrap()))),
                );
            },
            Ok(StepView::Loaded(m)) => {
                let m2 = modules.push(m);
                law_settle_appends(
                    m2,
                    pop_id(ids),
                    frames.drop_last(),
                    Some(Ok(Index(modules.len() as usize))),
                );
                let out = settle(m2, pop_id(ids), frames.drop_last(), Some(Ok(Index(modules.len() as usize)))).modules;
                assert(out.subrange(0, modules.len() as int) =~= m2.subrange(0, m2.len() as int).subrange(
                    0,
                    modules.len() as int,
                ));
                assert(m2.subrange(0, modules.len() as int) =~= modules);
            },
            Err(e) => {
                law_settle_appends(modules, ids, frames.drop_last(), Some(Err(e)));
            },
        }
    } else {
        assert(modules.subrange(0, modules.len() as int) =~= modules);
    }
}

/// A load starts with nothing being loaded, so as long as no two loaded
/// modules share an identity, neither does anything after it: with the
/// steps of the loader each keeping `unique_ids`, a module's source is stored
/// at most once, at a single index.
pub proof fn law_fresh_loader_unique(mods: Seq<ModuleView>, ld: Loader)
    requires
        modules_distinct(mods),
        ld.ids().len() == 0,
    ensures
        unique_ids(mods, ld),
{
}

/// When no two modules share an identity, the module with a given identity
/// is found at its one index.
pub proof fn lemma_first_with_id_unique(mods: Seq<ModuleView>, i: usize)
    requires
        modules_distinct(mods),
        i < mods.len(),
    ensures
        first_with_id(mods, mods[i as int].id, Some(i)),
        forall|k: Option<usize>| first_with_id(mods, mods[i as int].id, k) ==> k == Some(i),
{
    assert forall|k: Option<usize>| first_with_id(mods, mods[i as int].id, k) implies k == Some(i) by {
        match k {
            Some(j) => {
                if j < i {
                    assert(mods[j as int].id != mods[i as int].id);
                } else if j > i {
                    assert(mods[i as int].id != mods[j as int].id);
                }
            },
            None => {
                assert(mods[i as int].id == mods[i as int].id);
            },
        }
    }
}

/// Loading a module again, after a load of it ended with index `i` (which
/// holds the module with its source's identity); no two modules of a manager
/// share an identity (its type invariant, which every step of the loader
/// ensures): the fresh loader is not loading that source, the
/// source is found loaded at `i` and nowhere else, and loading ends there
/// with `i`, adding no module. So a second load of a loaded module returns
/// the same index and changes nothing, whatever modules it used.
pub proof fn law_reload_returns_same_index(mods: Seq<ModuleView>, i: usize, src: Seq<u8>)
    requires
        modules_distinct(mods),
        i < mods.len(),
        mods[i as int].id == sha512_digest(src),
    ensures
        !loading(Seq::<(Id, String)>::empty(), sha512_digest(src)),
        first_with_id(mods, sha512_digest(src), Some(i)),
        forall|k: usize| #[trigger] first_with_id(mods, sha512_digest(src), Some(k)) ==> k == i,
        settle(mods, Seq::empty(), Seq::empty(), Some(Ok(Index(i)))) == (Settled {
            modules: mods,
            ids: Seq::empty(),
            frames: Seq::empty(),
            next: Next::Finished(Ok(Index(i))),
        }),
{
    lemma_first_with_id_unique(mods, i);
    assert forall|k: usize| #[trigger] first_with_id(mods, sha512_digest(src), Some(k)) implies k == i by {
        assert(Some(k) == Some(i));
    }
}

} // verus!
