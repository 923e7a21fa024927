//! Source locations and node identifiers shared by every statement of a module.

use vstd::prelude::*;
use vstd::std_specs::cmp::PartialEqSpecImpl;
use vstd::string::*;

verus! {

/// A range in a module's source text.
#[derive(Debug, Clone, Copy, PartialEq, Eq, Structural)]
pub struct Span {
    pub start: usize,
    pub end: usize,
}

impl Span {
    /// The empty range at the start of a source, used where no location is known.
    pub open spec fn none_spec() -> Span {
        Span { start: 0, end: 0 }
    }
}

impl Default for Span {
    fn default() -> (s: Span)
        ensures
            s == Span::none_spec(),
    {
        Span { start: 0, end: 0 }
    }
}

/// Metadata of a syntax node: where it stands in the source.
#[derive(Debug, Clone, Copy, PartialEq, Eq, Structural)]
pub struct NodeMeta {
    pub range: Span,
}

/// Joins `parts` with `sep` between each two of them.
pub open spec fn join_with(parts: Seq<Seq<char>>, sep: Seq<char>) -> Seq<char>
    decreases parts.len(),
{
    if parts.len() == 0 {
        Seq::empty()
    } else if parts.len() == 1 {
        parts[0]
    } else {
        join_with(parts.drop_last(), sep) + sep + parts.last()
    }
}

/// The views of a sequence of strings.
pub open spec fn views_of(v: Seq<String>) -> Seq<Seq<char>> {
    v.map_values(|s: String| s@)
}

/// A reference to a named item: its name and the path of modules it lives in.
#[derive(Debug)]
pub struct NodeId {
    pub id: String,
    pub module: Vec<String>,
}

impl NodeId {
    /// The fully qualified name: the module path and the name, joined by `::`.
    pub open spec fn fqn_spec(&self) -> Seq<char> {
        if self.module@.len() == 0 {
            self.id@
        } else {
            join_with(views_of(self.module@), "::"@) + "::"@ + self.id@
        }
    }

    /// The fully qualified name of this node, such as `std::string::format`.
    pub fn fqn(&self) -> (r: String)
        ensures
            r@ == self.fqn_spec(),
    {
        let sep: &str = "::";
        let n: usize = self.module.len();
        if n == 0 {
            return self.id.clone();
        }
        let ghost names = views_of(self.module@);
        let mut r: String = self.module[0].clone();
        assert(names.take(1) =~= seq![names[0]]);
        let mut i: usize = 1;
        while i < n
            invariant
                n == self.module@.len(),
                names == views_of(self.module@),
                1 <= i <= n,
                r@ == join_with(names.take(i as int), sep@),
            decreases n - i,
        {
            r.append(sep);
            r.append(self.module[i].as_str());
            assert(names.take(i + 1).drop_last() =~= names.take(i as int));
            i = i + 1;
        }
        assert(names.take(n as int) =~= names);
        r.append(sep);
        r.append(self.id.as_str());
        r
    }

    /// A copy of this node identifier.
    pub fn copy(&self) -> (r: NodeId)
        ensures
            r.id == self.id,
            r.module@ == self.module@,
    {
        let mut module: Vec<String> = Vec::new();
        let mut i: usize = 0;
        while i < self.module.len()
            invariant
                i <= self.module@.len(),
                module@ == self.module@.take(i as int),
            decreases self.module@.len() - i,
        {
            module.push(self.module[i].clone());
            assert(module@ =~= self.module@.take(i + 1));
            i = i + 1;
        }
        assert(self.module@.take(self.module@.len() as int) =~= self.module@);
        NodeId { id: self.id.clone(), module }
    }
}

impl Clone for NodeId {
    fn clone(&self) -> (r: NodeId)
        ensures
            r.id == self.id,
            r.module@ == self.module@,
    {
        self.copy()
    }
}

impl PartialEq for NodeId {
    fn eq(&self, other: &Self) -> (r: bool) {
        if self.id != other.id {
            return false;
        }
        if self.module.len() != other.module.len() {
            assert(views_of(self.module@).len() != views_of(other.module@).len());
            return false;
        }
        let mut i: usize = 0;
        while i < self.module.len()
            invariant
                self.module@.len() == other.module@.len(),
                i <= self.module@.len(),
                forall|j: int| 0 <= j < i ==> (#[trigger] self.module@[j])@ == other.module@[j]@,
            decreases self.module@.len() - i,
        {
            if self.module[i] != other.module[i] {
                assert(views_of(self.module@)[i as int] != views_of(other.module@)[i as int]);
                return false;
            }
            i = i + 1;
        }
        assert(views_of(self.module@) =~= views_of(other.module@));
        true
    }
}

impl PartialEqSpecImpl for NodeId {
    open spec fn obeys_eq_spec() -> bool {
        true
    }

    open spec fn eq_spec(&self, other: &Self) -> bool {
        self.id@ == other.id@ && views_of(self.module@) == views_of(other.module@)
    }
}

} // verus!
