//! The module manager: the module paths to search and every module loaded so far.
//!
//! A module is known by the digest of its source, so a source that was loaded
//! before is not loaded again, and a module that is already being loaded
//! further up the chain of `use`s is a cyclic use.

use vstd::prelude::*;

use crate::content::{Content, GetMod};
use crate::error::Error;
use crate::id::{sha512_digest, Id, Index};
use crate::meta::{views_of, NodeId, Span};
use crate::module::{Module, ModuleView};

verus! {

/// The directories in which modules are searched, in order.
pub struct ModulePath {
    pub mounts: Vec<String>,
}

impl ModulePath {
    /// No directory to search.
    pub fn new() -> (p: ModulePath)
        ensures
            p.mounts@.len() == 0,
    {
        ModulePath { mounts: Vec::new() }
    }

    /// Removes every directory.
    pub fn clear(&mut self)
        ensures
            final(self).mounts@.len() == 0,
    {
        self.mounts.clear();
    }

    /// Adds a directory, searched after those added before.
    pub fn add(&mut self, path: &str)
        ensures
            final(self).mounts@.len() == old(self).mounts@.len() + 1,
            final(self).mounts@.drop_last() == old(self).mounts@,
            final(self).mounts@.last()@ == path@,
    {
        self.mounts.push(path.to_owned());
        assert(self.mounts@.drop_last() =~= old(self).mounts@);
    }
}

/// The files of the modules being loaded, outermost first.
pub open spec fn paths_of(ids: Seq<(Id, String)>) -> Seq<Seq<char>> {
    ids.map_values(|p: (Id, String)| p.1@)
}

/// Whether a module with identity `id` is being loaded.
pub open spec fn loading(ids: Seq<(Id, String)>, id: Seq<u8>) -> bool {
    exists|i: int| 0 <= i < ids.len() && (#[trigger] ids[i]).0@ == id
}

/// `r` is the position of the first module with identity `id`, or `None`
/// when no module has it.
pub open spec fn first_with_id(mods: Seq<ModuleView>, id: Seq<u8>, r: Option<usize>) -> bool {
    match r {
        Some(i) => i < mods.len() && mods[i as int].id == id && forall|j: int|
            0 <= j < i ==> (#[trigger] mods[j]).id != id,
        None => forall|j: int| 0 <= j < mods.len() ==> (#[trigger] mods[j]).id != id,
    }
}

/// No two modules have the same identity.
pub open spec fn modules_distinct(mods: Seq<ModuleView>) -> bool {
    forall|i: int, j: int| 0 <= i < j < mods.len() ==> (#[trigger] mods[i]).id != (#[trigger] mods[j]).id
}

/// The position of the first module with identity `id`, or -1 when no
/// module has it.
pub open spec fn first_index(mods: Seq<ModuleView>, id: Seq<u8>) -> int
    decreases mods.len(),
{
    if mods.len() == 0 {
        -1
    } else if first_index(mods.drop_last(), id) >= 0 {
        first_index(mods.drop_last(), id)
    } else if mods.last().id == id {
        mods.len() - 1
    } else {
        -1
    }
}

/// The position of the first module with identity `id`, if any.
pub open spec fn stored_at(mods: Seq<ModuleView>, id: Seq<u8>) -> Option<usize> {
    if first_index(mods, id) >= 0 {
        Some(first_index(mods, id) as usize)
    } else {
        None
    }
}

/// `first_index` is the position of the first module with the identity.
pub proof fn lemma_first_index(mods: Seq<ModuleView>, id: Seq<u8>)
    ensures
        first_index(mods, id) >= -1,
        first_index(mods, id) == -1 ==> forall|j: int| 0 <= j < mods.len() ==> (#[trigger] mods[j]).id != id,
        first_index(mods, id) >= 0 ==> {
            &&& first_index(mods, id) < mods.len()
            &&& mods[first_index(mods, id)].id == id
            &&& forall|j: int| 0 <= j < first_index(mods, id) ==> (#[trigger] mods[j]).id != id
        },
    decreases mods.len(),
{
    if mods.len() > 0 {
        let d = mods.drop_last();
        lemma_first_index(d, id);
        let p = first_index(d, id);
        if p >= 0 {
            assert(d[p] == mods[p]);
            assert forall|j: int| 0 <= j < p implies (#[trigger] mods[j]).id != id by {
                assert(d[j] == mods[j]);
            }
        } else {
            assert forall|j: int| 0 <= j < mods.len() - 1 implies (#[trigger] mods[j]).id != id by {
                assert(d[j] == mods[j]);
            }
        }
    }
}

/// The first module with an identity is the one `stored_at` gives.
pub proof fn lemma_stored_at(mods: Seq<ModuleView>, id: Seq<u8>, r: Option<usize>)
    requires
        first_with_id(mods, id, r),
    ensures
        stored_at(mods, id) == r,
{
    lemma_first_index(mods, id);
    let p = first_index(mods, id);
    match r {
        Some(k) => {
            assert(mods[k as int].id == id);
            if p < k {
                assert(mods[p].id == id);
            } else if p > k {
                assert(mods[k as int].id == id);
            }
        },
        None => {
            if p >= 0 {
                assert(mods[p].id == id);
            }
        },
    }
}

/// The module reached from `root` by following the used-module aliases in
/// `nest`, one after the other.
pub open spec fn follow(mods: Seq<ModuleView>, root: Index, nest: Seq<Seq<char>>) -> Option<Index>
    decreases nest.len(),
{
    if nest.len() == 0 {
        Some(root)
    } else if root.0 < mods.len() && mods[root.0 as int].modules.contains_key(nest[0]) {
        follow(mods, mods[root.0 as int].modules[nest[0]], nest.drop_first())
    } else {
        None
    }
}

/// `e` is the error for a cyclic use found while the files `ids` are loading.
pub open spec fn is_cyclic_use_error(e: Error, ids: Seq<(Id, String)>) -> bool {
    match e {
        Error::CyclicUse(outer, inner, uses) => outer == Span::none_spec() && inner == Span::none_spec()
            && views_of(uses@) == paths_of(ids),
        _ => false,
    }
}

/// `e` is the error for the module `node_id` that none of `mounts` holds.
pub open spec fn is_not_found_error(e: Error, node_id: NodeId, mounts: Seq<Seq<char>>) -> bool {
    match e {
        Error::ModuleNotFound(outer, inner, name, ms) => outer == Span::none_spec() && inner
            == Span::none_spec() && name@ == node_id.fqn_spec() && views_of(ms@) == mounts,
        _ => false,
    }
}

/// What a source read for a `use` turned out to be.
pub enum Source {
    /// A module with the same source is loaded already, at this index.
    Known(Index),
    /// A module not seen before, with this identity; it must be parsed and
    /// loaded, then added with `Manager::add_module`.
    New(Id),
}

/// The module manager as values: module paths and loaded modules.
pub struct ManagerView {
    pub mounts: Seq<Seq<char>>,
    pub modules: Seq<ModuleView>,
}

/// Global module manager: where modules are searched, and every module
/// loaded so far, at the index it was given when it was added.
pub struct Manager {
    path: ModulePath,
    modules: Vec<Module>,
}

impl View for Manager {
    type V = ManagerView;

    open spec fn view(&self) -> ManagerView {
        ManagerView {
            mounts: views_of(self.mount_list()),
            modules: self.stored().map_values(|m: Module| m@),
        }
    }
}

impl Manager {
    /// No two loaded modules share an identity.
    #[verifier::type_invariant]
    pub open spec fn wf(self) -> bool {
        modules_distinct(self@.modules)
    }

    /// The module paths.
    pub closed spec fn mount_list(&self) -> Seq<String> {
        self.path.mounts@
    }

    /// The loaded modules.
    pub closed spec fn stored(&self) -> Seq<Module> {
        self.modules@
    }

    /// A manager without module paths and modules.
    pub fn new() -> (m: Manager)
        ensures
            m@.mounts.len() == 0,
            m@.modules.len() == 0,
    {
        Manager { path: ModulePath::new(), modules: Vec::new() }
    }

    /// Removes all module load locations.
    pub fn clear_path(&mut self)
        ensures
            final(self)@.mounts.len() == 0,
            final(self).stored() == old(self).stored(),
    {
        proof {
            use_type_invariant(&*self);
        }
        let mut taken = Manager::new();
        std::mem::swap(self, &mut taken);
        let Manager { mut path, modules } = taken;
        path.clear();
        *self = Manager { path, modules };
        assert(views_of(self.path.mounts@) =~= Seq::<Seq<char>>::empty());
    }

    /// Adds a module path, searched after the paths added before.
    pub fn add_path(&mut self, path: &str)
        ensures
            final(self)@.mounts == old(self)@.mounts.push(path@),
            final(self).stored() == old(self).stored(),
    {
        proof {
            use_type_invariant(&*self);
        }
        let mut taken = Manager::new();
        std::mem::swap(self, &mut taken);
        let Manager { path: mut mounts, modules } = taken;
        mounts.add(path);
        *self = Manager { path: mounts, modules };
        assert(views_of(self.path.mounts@) =~= views_of(old(self).path.mounts@).push(path@));
    }

    /// The module paths, in search order.
    pub fn mounts(&self) -> (r: &Vec<String>)
        ensures
            r@ == self.mount_list(),
    {
        &self.path.mounts
    }

    /// The loaded modules, each at its index.
    pub fn modules(&self) -> (r: &[Module])
        ensures
            r@ == self.stored(),
            modules_distinct(self@.modules),
    {
        proof {
            use_type_invariant(self);
        }
        self.modules.as_slice()
    }

    /// Finds the module reached from `root` through the module aliases in
    /// `nest`; `None` when a module on the way is missing or lacks the alias.
    pub fn find_module(&self, root: Index, nest: &[String]) -> (r: Option<Index>)
        ensures
            r == follow(self@.modules, root, views_of(nest@)),
    {
        let ghost names = views_of(nest@);
        let mut cur = root;
        let mut i: usize = 0;
        assert(names.skip(0) =~= names);
        while i < nest.len()
            invariant
                names == views_of(nest@),
                i <= nest@.len(),
                follow(self@.modules, cur, names.skip(i as int)) == follow(self@.modules, root, names),
            decreases nest@.len() - i,
        {
            assert(names.skip(i as int).drop_first() =~= names.skip(i + 1));
            if cur.0 >= self.modules.len() {
                return None;
            }
            match self.modules[cur.0].modules.get(nest[i].as_str()) {
                Some(m) => {
                    cur = *m;
                },
                None => {
                    return None;
                },
            }
            i = i + 1;
        }
        assert(names.skip(i as int) =~= Seq::<Seq<char>>::empty());
        Some(cur)
    }

    /// The error for a module that no module path holds.
    pub fn not_found(&self, node_id: &NodeId) -> (e: Error)
        ensures
            is_not_found_error(e, *node_id, self@.mounts),
    {
        let mut mounts: Vec<String> = Vec::new();
        let mut i: usize = 0;
        while i < self.path.mounts.len()
            invariant
                i <= self.path.mounts@.len(),
                mounts@ == self.path.mounts@.take(i as int),
            decreases self.path.mounts@.len() - i,
        {
            mounts.push(self.path.mounts[i].clone());
            assert(mounts@ =~= self.path.mounts@.take(i + 1));
            i = i + 1;
        }
        assert(mounts@ =~= self.path.mounts@);
        Error::ModuleNotFound(Span::default(), Span::default(), node_id.fqn(), mounts)
    }

    /// Decides what the source `src`, read from the file `path` for a `use`,
    /// is: a cyclic use when a module with the same identity is being loaded
    /// (`ids`, left unchanged); the index of the first loaded module with the
    /// same identity (`ids` unchanged); or a new module, whose identity and
    /// file are pushed on `ids`.
    pub fn check_source(&self, ids: &mut Vec<(Id, String)>, path: String, src: &[u8]) -> (r: Result<
        Source,
        Error,
    >)
        ensures
            loading(old(ids)@, sha512_digest(src@)) ==> final(ids)@ == old(ids)@ && (match r {
                Err(e) => is_cyclic_use_error(e, old(ids)@),
                _ => false,
            }),
            !loading(old(ids)@, sha512_digest(src@)) ==> (match r {
                Ok(Source::Known(k)) => final(ids)@ == old(ids)@ && first_with_id(
                    self@.modules,
                    sha512_digest(src@),
                    Some(k.0),
                ),
                Ok(Source::New(id)) => {
                    &&& id@ == sha512_digest(src@)
                    &&& first_with_id(self@.modules, sha512_digest(src@), None)
                    &&& final(ids)@.len() == old(ids)@.len() + 1
                    &&& final(ids)@.drop_last() == old(ids)@
                    &&& final(ids)@.last().0@ == id@
                    &&& final(ids)@.last().1 == path
                },
                Err(_) => false,
            }),
    {
        let id = Id::from(src);
        let mut i: usize = 0;
        while i < ids.len()
            invariant
                ids@ == old(ids)@,
                id@ == sha512_digest(src@),
                i <= ids@.len(),
                forall|j: int| 0 <= j < i ==> (#[trigger] ids@[j]).0@ != id@,
            decreases ids@.len() - i,
        {
            if ids[i].0.same_as(&id) {
                let mut uses: Vec<String> = Vec::new();
                let mut k: usize = 0;
                while k < ids.len()
                    invariant
                        ids@ == old(ids)@,
                        k <= ids@.len(),
                        views_of(uses@) == paths_of(ids@).take(k as int),
                    decreases ids@.len() - k,
                {
                    let ghost before = uses@;
                    let s = ids[k].1.clone();
                    uses.push(s);
                    assert(uses@ == before.push(s));
                    assert(views_of(uses@) =~= views_of(before).push(s@));
                    assert(views_of(uses@) =~= paths_of(ids@).take(k + 1));
                    k = k + 1;
                }
                assert(paths_of(ids@).take(k as int) =~= paths_of(ids@));
                return Err(Error::CyclicUse(Span::default(), Span::default(), uses));
            }
            i = i + 1;
        }
        let mut j: usize = 0;
        while j < self.modules.len()
            invariant
                id@ == sha512_digest(src@),
                ids@ == old(ids)@,
                forall|k: int| 0 <= k < ids@.len() ==> (#[trigger] ids@[k]).0@ != id@,
                j <= self.modules@.len(),
                forall|k: int| 0 <= k < j ==> (#[trigger] self@.modules[k]).id != id@,
            decreases self.modules@.len() - j,
        {
            if self.modules[j].id.same_as(&id) {
                return Ok(Source::Known(Index(j)));
            }
            j = j + 1;
        }
        ids.push((id.clone(), path));
        assert(ids@.drop_last() =~= old(ids)@);
        Ok(Source::New(id))
    }

    /// Adds a loaded module at the next index, unless a module with the same
    /// identity is stored already, whose index is then the result; either
    /// way, takes the module's entry off the stack of modules being loaded.
    pub fn add_module(&mut self, ids: &mut Vec<(Id, String)>, m: Module) -> (r: Index)
        ensures
            match stored_at(old(self)@.modules, m@.id) {
                Some(k) => r == Index(k) && final(self).stored() == old(self).stored(),
                None => {
                    &&& r.0 == old(self)@.modules.len()
                    &&& final(self).stored() == old(self).stored().push(m)
                    &&& final(self)@.modules == old(self)@.modules.push(m@)
                },
            },
            final(self).mount_list() == old(self).mount_list(),
            modules_distinct(final(self)@.modules),
            old(ids)@.len() > 0 ==> final(ids)@ == old(ids)@.drop_last(),
            old(ids)@.len() == 0 ==> final(ids)@ == old(ids)@,
    {
        proof {
            use_type_invariant(&*self);
        }
        ids.pop();
        let mut j: usize = 0;
        #[verifier::loop_isolation(false)]
        while j < self.modules.len()
            invariant
                j <= self@.modules.len(),
                forall|k: int| 0 <= k < j ==> (#[trigger] self@.modules[k]).id != m@.id,
            decreases self@.modules.len() - j,
        {
            if self.modules[j].id.same_as(&m.id) {
                proof {
                    lemma_stored_at(self@.modules, m@.id, Some(j));
                }
                return Index(j);
            }
            j = j + 1;
        }
        proof {
            lemma_stored_at(self@.modules, m@.id, None);
        }
        let mut taken = Manager::new();
        std::mem::swap(self, &mut taken);
        let Manager { path, mut modules } = taken;
        let n = modules.len();
        let ghost before = modules@.map_values(|x: Module| x@);
        modules.push(m);
        assert(modules@.map_values(|x: Module| x@) =~= before.push(m@));
        *self = Manager { path, modules };
        Index(n)
    }
}

impl Default for Manager {
    fn default() -> (m: Manager)
        ensures
            m@.mounts.len() == 0,
            m@.modules.len() == 0,
    {
        Manager::new()
    }
}

/// Get something from a module manager.
pub trait Get<Target> {
    /// The item of this type named `id` in the module at `m`, if any.
    spec fn lookup_in(&self, m: Index, id: Seq<char>) -> Option<Target>;

    /// Gets a copy of the item of this type named `id` in the module at `m`.
    fn get(&self, m: Index, id: &str) -> (r: Option<Target>)
        ensures
            r == self.lookup_in(m, id@),
    ;
}

impl<Target> Get<Target> for Manager where Content: GetMod<Target> {
    open spec fn lookup_in(&self, m: Index, id: Seq<char>) -> Option<Target> {
        if m.0 < self.stored().len() {
            self.stored()[m.0 as int].content.lookup(id)
        } else {
            None
        }
    }

    fn get(&self, module: Index, name: &str) -> (r: Option<Target>) {
        if module.0 < self.modules.len() {
            self.modules[module.0].content.get(name)
        } else {
            None
        }
    }
}

/// Once a module is added, a source with its identity is found at the index
/// the module was given, provided no module loaded before had that identity:
/// loading the same source twice yields the same module.
pub proof fn law_added_module_is_found(mods: Seq<ModuleView>, m: ModuleView)
    requires
        first_with_id(mods, m.id, None),
        mods.len() < usize::MAX,
    ensures
        first_with_id(mods.push(m), m.id, Some(mods.len() as usize)),
        forall|r: Option<usize>| first_with_id(mods.push(m), m.id, r) ==> r == Some(mods.len() as usize),
{
    let s = mods.push(m);
    assert(s[mods.len() as int] == m);
    assert forall|r: Option<usize>| first_with_id(s, m.id, r) implies r == Some(mods.len() as usize) by {
        match r {
            Some(i) => {
                if i < mods.len() {
                    assert(s[i as int] == mods[i as int]);
                }
            },
            None => {
                assert(s[mods.len() as int].id == m.id);
            },
        }
    }
}

/// Following a path of aliases is following its first part, then the rest
/// from where the first part led.
pub proof fn law_follow_concat(mods: Seq<ModuleView>, root: Index, a: Seq<Seq<char>>, b: Seq<Seq<char>>)
    ensures
        follow(mods, root, a + b) == match follow(mods, root, a) {
            Some(mid) => follow(mods, mid, b),
            None => None,
        },
    decreases a.len(),
{
    if a.len() == 0 {
        assert(a + b =~= b);
    } else {
        assert((a + b)[0] == a[0]);
        assert((a + b).drop_first() =~= a.drop_first() + b);
        if root.0 < mods.len() && mods[root.0 as int].modules.contains_key(a[0]) {
            law_follow_concat(mods, mods[root.0 as int].modules[a[0]], a.drop_first(), b);
        }
    }
}

/// Adding a module leaves what every earlier module holds as it was, and
/// the new index holds exactly the added module's items.
pub proof fn law_get_after_add<Target>(before: Manager, after: Manager, m: Module, id: Seq<char>)
    where Content: GetMod<Target>
    requires
        after.stored() == before.stored().push(m),
        before.stored().len() < usize::MAX,
    ensures
        <Manager as Get<Target>>::lookup_in(&after, Index(before.stored().len() as usize), id)
            == <Content as GetMod<Target>>::lookup(&m.content, id),
        forall|i: usize| i < before.stored().len() ==>
            #[trigger] <Manager as Get<Target>>::lookup_in(&after, Index(i), id)
                == <Manager as Get<Target>>::lookup_in(&before, Index(i), id),
{
    assert(after.stored()[before.stored().len() as int] == m);
    assert forall|i: usize| i < before.stored().len() implies
        #[trigger] <Manager as Get<Target>>::lookup_in(&after, Index(i), id)
            == <Manager as Get<Target>>::lookup_in(&before, Index(i), id) by {
        assert(after.stored()[i as int] == before.stored()[i as int]);
    }
}

/// Clearing the module paths and adding one leaves exactly that one path,
/// and neither touches the loaded modules.
pub proof fn law_clear_then_add(m0: Manager, m1: Manager, m2: Manager, path: Seq<char>)
    requires
        m1@.mounts.len() == 0,
        m1.stored() == m0.stored(),
        m2@.mounts == m1@.mounts.push(path),
        m2.stored() == m1.stored(),
    ensures
        m2@.mounts == seq![path],
        m2@.modules == m0@.modules,
{
    assert(m2@.mounts =~= seq![path]);
}

} // verus!
