//! The implements-index: which interfaces each object type declares.
//!
//! SDL's `implements A & B` clause belongs to the object header, so the
//! index is built in one pass over every top-level type before any
//! rendering happens.  A type with no interface list, or one whose listed
//! interfaces are all nameless, is absent from the index.

use vstd::prelude::*;

use crate::assoc::assoc_map;
use crate::assoc::keys_unique;
use crate::assoc::lemma_assoc_map_absent;
use crate::assoc::lemma_assoc_map_found;
use crate::model::Type;

verus! {

/// The names of the named entries of an interface list, in order; nameless
/// entries are skipped silently.
pub open spec fn spec_iface_names(interfaces: Seq<Type>) -> Seq<Seq<char>>
    decreases interfaces.len(),
{
    if interfaces.len() == 0 {
        Seq::empty()
    } else {
        spec_iface_names(interfaces.drop_last()) + (if interfaces.last().name is Some {
            seq![interfaces.last().name->0@]
        } else {
            Seq::<Seq<char>>::empty()
        })
    }
}

/// How one type extends the index: a named type with at least one named
/// interface appends those interface names to its entry; any other type
/// leaves the index unchanged.
pub open spec fn spec_index_add(m: Map<Seq<char>, Seq<Seq<char>>>, t: Type) -> Map<
    Seq<char>,
    Seq<Seq<char>>,
> {
    if t.name is Some && t.interfaces is Some {
        let names = spec_iface_names(t.interfaces->0@);
        if names.len() == 0 {
            m
        } else {
            let prev = if m.dom().contains(t.name->0@) {
                m[t.name->0@]
            } else {
                Seq::<Seq<char>>::empty()
            };
            m.insert(t.name->0@, prev + names)
        }
    } else {
        m
    }
}

/// The index of a whole type list, built left to right.
pub open spec fn spec_index(types: Seq<Type>) -> Map<Seq<char>, Seq<Seq<char>>>
    decreases types.len(),
{
    if types.len() == 0 {
        Map::empty()
    } else {
        spec_index_add(spec_index(types.drop_last()), types.last())
    }
}

/// A name held by no type with a usable interface list is absent from the
/// index.
pub proof fn lemma_index_absent(types: Seq<Type>, k: Seq<char>)
    requires
        forall|j: int|
            0 <= j < types.len() && types[j].name is Some ==> types[j].name->0@ != k,
    ensures
        !spec_index(types).dom().contains(k),
    decreases types.len(),
{
    if types.len() > 0 {
        lemma_index_absent(types.drop_last(), k);
    }
}

/// For a type whose name no other type shares, the index records exactly
/// its interface names, in declaration order.
pub proof fn lemma_index_of_unique_name(types: Seq<Type>, i: int)
    requires
        0 <= i < types.len(),
        types[i].name is Some,
        types[i].interfaces is Some,
        spec_iface_names(types[i].interfaces->0@).len() >= 1,
        forall|j: int|
            0 <= j < types.len() && j != i && types[j].name is Some ==> types[j].name->0@
                != types[i].name->0@,
    ensures
        spec_index(types).dom().contains(types[i].name->0@),
        spec_index(types)[types[i].name->0@] == spec_iface_names(types[i].interfaces->0@),
    decreases types.len(),
{
    let n = types[i].name->0@;
    if i == types.len() - 1 {
        lemma_index_absent(types.drop_last(), n);
    } else {
        lemma_index_of_unique_name(types.drop_last(), i);
        let t = types.last();
        if t.name is Some && t.interfaces is Some {
            assert(t.name->0@ != n);
        }
    }
}

/// The implements-index as the renderer consumes it: an association list
/// from object-type name to the interface names it declares.
pub struct ImplementsIndex {
    pub entries: Vec<(String, Vec<String>)>,
}

impl View for ImplementsIndex {
    type V = Map<Seq<char>, Seq<Seq<char>>>;

    open spec fn view(&self) -> Map<Seq<char>, Seq<Seq<char>>> {
        assoc_map(self.entries@)
    }
}

impl ImplementsIndex {
    /// No two entries carry the same name.
    pub open spec fn wf(self) -> bool {
        keys_unique(self.entries@)
    }

    /// An empty index.
    pub fn new() -> (r: ImplementsIndex)
        ensures
            r.wf(),
            r@ == Map::<Seq<char>, Seq<Seq<char>>>::empty(),
    {
        ImplementsIndex { entries: Vec::new() }
    }

    /// The interface names recorded for a type name, if any.
    #[verifier::loop_isolation(false)]
    pub fn get(&self, name: &str) -> (r: Option<&Vec<String>>)
        requires
            self.wf(),
        ensures
            match r {
                Some(v) => self@.dom().contains(name@) && v.deep_view() == self@[name@],
                None => !self@.dom().contains(name@),
            },
    {
        let mut i: usize = 0;
        while i < self.entries.len()
            invariant
                0 <= i <= self.entries@.len(),
                forall|j: int| 0 <= j < i ==> self.entries@[j].0@ != name@,
            decreases self.entries@.len() - i,
        {
            if crate::introspector::str_eq(self.entries[i].0.as_str(), name) {
                proof {
                    lemma_assoc_map_found(self.entries@, i as int);
                }
                return Some(&self.entries[i].1);
            }
            i += 1;
        }
        proof {
            lemma_assoc_map_absent(self.entries@, name@);
        }
        None
    }
}

} // verus!
