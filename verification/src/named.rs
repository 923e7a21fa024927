//! A table of named entries that also remembers its names, each once, in the
//! order they were first added.

use vstd::prelude::*;
use vstd::hash_map::StringHashMap;

use vstd::std_specs::cmp::{PartialEqSpec, PartialEqSpecImpl};

use crate::meta::views_of;

verus! {

/// Entries keyed by name.
#[verifier::reject_recursive_types(T)]
pub struct NamedEntities<T> {
    map: StringHashMap<T>,
    names: Vec<String>,
}

impl<T> View for NamedEntities<T> {
    type V = Map<Seq<char>, T>;

    closed spec fn view(&self) -> Map<Seq<char>, T> {
        self.map@
    }
}

impl<T> NamedEntities<T> {
    /// The names of the entries, each once, in the order they were first added.
    pub closed spec fn order(&self) -> Seq<Seq<char>> {
        views_of(self.names@)
    }

    #[verifier::type_invariant]
    closed spec fn wf(self) -> bool {
        &&& views_of(self.names@).no_duplicates()
        &&& forall|k: Seq<char>| #[trigger] self.map@.contains_key(k) <==> views_of(self.names@).contains(k)
    }

    /// A table without entries.
    pub fn new() -> (t: NamedEntities<T>)
        ensures
            t@ == Map::<Seq<char>, T>::empty(),
            t.order().len() == 0,
    {
        let t = NamedEntities { map: StringHashMap::new(), names: Vec::new() };
        assert(views_of(t.names@) =~= Seq::<Seq<char>>::empty());
        t
    }

    /// Whether an entry is named `k`.
    pub fn contains_key(&self, k: &str) -> (r: bool)
        ensures
            r == self@.contains_key(k@),
    {
        self.map.contains_key(k)
    }

    /// The entry named `k`, if any.
    pub fn get(&self, k: &str) -> (r: Option<&T>)
        ensures
            match r {
                Some(v) => self@.contains_key(k@) && *v == self@[k@],
                None => !self@.contains_key(k@),
            },
    {
        self.map.get(k)
    }

    /// Binds `k` to `v`, replacing the entry named `k` if there is one; a new
    /// name comes last in the order.
    pub fn insert(&mut self, k: String, v: T)
        ensures
            final(self)@ == old(self)@.insert(k@, v),
            final(self).order() == if old(self)@.contains_key(k@) {
                old(self).order()
            } else {
                old(self).order().push(k@)
            },
    {
        proof {
            use_type_invariant(&*self);
        }
        let ghost old_names = views_of(self.names@);
        let ghost kv = k@;
        let mut taken = NamedEntities::new();
        std::mem::swap(self, &mut taken);
        let NamedEntities { mut map, mut names } = taken;
        if map.contains_key(k.as_str()) {
            map.insert(k, v);
            assert forall|x: Seq<char>| #[trigger] map@.contains_key(x) <==> views_of(names@).contains(x) by {
                if x != kv {
                    assert(old(self)@.contains_key(x) == map@.contains_key(x));
                }
            }
        } else {
            let name = k.clone();
            map.insert(k, v);
            names.push(name);
            assert(views_of(names@) =~= old_names.push(kv));
            assert(!old_names.contains(kv));
            assert forall|x: Seq<char>| #[trigger] map@.contains_key(x) <==> views_of(names@).contains(x) by {
                if x == kv {
                    assert(views_of(names@)[old_names.len() as int] == kv);
                } else if views_of(names@).contains(x) {
                    let j = choose|j: int| 0 <= j < views_of(names@).len() && views_of(names@)[j] == x;
                    assert(old_names[j] == x);
                } else if old_names.contains(x) {
                    let j = choose|j: int| 0 <= j < old_names.len() && old_names[j] == x;
                    assert(views_of(names@)[j] == x);
                }
            }
        }
        *self = NamedEntities { map, names };
    }

    /// The names of the entries, each once, in the order they were first added.
    pub fn names(&self) -> (r: &Vec<String>)
        ensures
            views_of(r@) == self.order(),
            self.order().no_duplicates(),
            self.order().to_set() == self@.dom(),
    {
        proof {
            use_type_invariant(self);
            assert(self.order().to_set() =~= self@.dom());
        }
        &self.names
    }
}

impl<T: Clone> Clone for NamedEntities<T> {
    /// A copy with the same names, in the same order, each entry a clone.
    fn clone(&self) -> (r: Self)
        ensures
            r.order() == self.order(),
            r@.dom() == self@.dom(),
            forall|k: Seq<char>| #[trigger] r@.contains_key(k) ==> cloned::<T>(self@[k], r@[k]),
    {
        proof {
            use_type_invariant(self);
        }
        let mut t: NamedEntities<T> = NamedEntities::new();
        let mut i: usize = 0;
        while i < self.names.len()
            invariant
                i <= self.names@.len(),
                views_of(self.names@).no_duplicates(),
                forall|k: Seq<char>| #[trigger] self.map@.contains_key(k) <==> views_of(self.names@).contains(k),
                t.order() == views_of(self.names@).take(i as int),
                forall|k: Seq<char>| #[trigger] t@.contains_key(k) <==> views_of(self.names@).take(i as int).contains(k),
                forall|k: Seq<char>| #[trigger] t@.contains_key(k) ==> cloned::<T>(self.map@[k], t@[k]),
            decreases self.names@.len() - i,
        {
            let ghost order = views_of(self.names@);
            let name = &self.names[i];
            assert(order[i as int] == name@);
            assert(order.contains(name@));
            match self.map.get(name.as_str()) {
                Some(v) => {
                    assert(!order.take(i as int).contains(name@)) by {
                        if order.take(i as int).contains(name@) {
                            let j = choose|j: int| 0 <= j < i && #[trigger] order.take(i as int)[j] == name@;
                            assert(order[j] == order[i as int]);
                        }
                    }
                    let ghost before = t@;
                    t.insert(name.clone(), v.clone());
                    assert(order.take(i + 1) =~= order.take(i as int).push(name@));
                    assert forall|k: Seq<char>| #[trigger] t@.contains_key(k) implies cloned::<T>(self.map@[k], t@[k]) by {
                        if k != name@ {
                            assert(before.contains_key(k));
                        }
                    }
                    assert forall|k: Seq<char>| #[trigger] t@.contains_key(k) <==> order.take(i + 1).contains(k) by {
                        if k == name@ {
                            assert(order.take(i + 1)[i as int] == k);
                        } else if order.take(i + 1).contains(k) {
                            let j = choose|j: int| 0 <= j < i + 1 && #[trigger] order.take(i + 1)[j] == k;
                            assert(order.take(i as int)[j] == k);
                        } else if before.contains_key(k) {
                            let j = choose|j: int| 0 <= j < i && #[trigger] order.take(i as int)[j] == k;
                            assert(order.take(i + 1)[j] == k);
                        }
                    }
                },
                None => {
                    assert(false);
                },
            }
            i = i + 1;
        }
        assert(views_of(self.names@).take(i as int) =~= views_of(self.names@));
        assert(t@.dom() =~= self@.dom());
        t
    }
}

impl<T: PartialEq> PartialEq for NamedEntities<T> {
    /// Equal when both tables have the same names, with equal entries.
    fn eq(&self, other: &Self) -> (r: bool) {
        proof {
            use_type_invariant(self);
            use_type_invariant(other);
            views_of(self.names@).unique_seq_to_set();
            views_of(other.names@).unique_seq_to_set();
            assert(views_of(self.names@).to_set() =~= self.map@.dom());
            assert(views_of(other.names@).to_set() =~= other.map@.dom());
        }
        if self.names.len() != other.names.len() {
            return false;
        }
        let ghost order = views_of(self.names@);
        let mut i: usize = 0;
        while i < self.names.len()
            invariant
                order == views_of(self.names@),
                i <= order.len(),
                forall|k: Seq<char>| #[trigger] self.map@.contains_key(k) <==> order.contains(k),
                forall|j: int| 0 <= j < i ==> other.map@.contains_key(#[trigger] order[j]),
                forall|j: int|
                    0 <= j < i ==> (T::obeys_eq_spec() ==> self.map@[#[trigger] order[j]].eq_spec(
                        &other.map@[order[j]],
                    )),
            decreases order.len() - i,
        {
            let name = &self.names[i];
            assert(order[i as int] == name@);
            assert(order.contains(name@));
            match (self.map.get(name.as_str()), other.map.get(name.as_str())) {
                (Some(a), Some(b)) => {
                    if !a.eq(b) {
                        return false;
                    }
                },
                _ => {
                    return false;
                },
            }
            i = i + 1;
        }
        proof {
            assert forall|k: Seq<char>| self.map@.contains_key(k) implies #[trigger] other.map@.contains_key(k) by {
                let j = choose|j: int| 0 <= j < order.len() && order[j] == k;
                assert(other.map@.contains_key(order[j]));
            }
            assert(self.map@.dom().subset_of(other.map@.dom()));
            vstd::set_lib::lemma_subset_equality(self.map@.dom(), other.map@.dom());
            assert forall|k: Seq<char>| #[trigger] self.map@.contains_key(k) implies (T::obeys_eq_spec()
                ==> self.map@[k].eq_spec(&other.map@[k])) by {
                let j = choose|j: int| 0 <= j < order.len() && order[j] == k;
                assert(self.map@[order[j]] == self.map@[k]);
            }
        }
        true
    }
}

impl<T: PartialEq> PartialEqSpecImpl for NamedEntities<T> {
    open spec fn obeys_eq_spec() -> bool {
        T::obeys_eq_spec()
    }

    open spec fn eq_spec(&self, other: &Self) -> bool {
        &&& self@.dom() == other@.dom()
        &&& forall|k: Seq<char>| #[trigger] self@.contains_key(k) ==> self@[k].eq_spec(&other@[k])
    }
}

} // verus!
