//! The registry of element kinds. A kind is known by the identity of its
//! table, so a registry holds at most one table per identity.

use crate::handle::{ContentHandle, Handle};
use crate::raw::{Element, RawContent, RawView};
use crate::value::lemma_deep_view_push;
use crate::vtable::{table_matches, ContentVtable, TableView};
use vstd::prelude::*;

verus! {

/// Whether no two of the tables carry the same identity.
pub open spec fn distinct_kinds(tables: Seq<TableView>) -> bool {
    forall|i: int, j: int|
        0 <= i < j < tables.len() ==> (#[trigger] tables[i]).elem != (#[trigger] tables[j]).elem
}

/// Whether one of the tables carries the identity `elem`.
pub open spec fn registered(tables: Seq<TableView>, elem: Element) -> bool {
    exists|i: int| 0 <= i < tables.len() && (#[trigger] tables[i]).elem == elem
}

/// The erased tables of all registered element kinds, in order of
/// registration.
pub struct Registry {
    tables: Vec<ContentVtable>,
}

impl View for Registry {
    type V = Seq<TableView>;

    closed spec fn view(&self) -> Seq<TableView> {
        self.tables.deep_view()
    }
}

/// Among registered kinds, identity tells every kind from every other: a
/// record of one kind is a record of no other.
pub proof fn lemma_one_kind(tables: Seq<TableView>, i: int, j: int, c: RawView)
    requires
        distinct_kinds(tables),
        0 <= i < tables.len(),
        0 <= j < tables.len(),
        i != j,
        table_matches(tables[i], c),
    ensures
        tables[i].elem != tables[j].elem,
        c.elem != tables[j].elem,
        !table_matches(tables[j], c),
{
    if i < j {
        assert(tables[i].elem != tables[j].elem);
    } else {
        assert(tables[j].elem != tables[i].elem);
    }
}

impl Registry {
    #[verifier::type_invariant]
    spec fn inv(self) -> bool {
        distinct_kinds(self@)
    }

    /// The registry without any kind.
    pub fn new() -> (r: Registry)
        ensures
            r@ == Seq::<TableView>::empty(),
    {
        let tables: Vec<ContentVtable> = Vec::new();
        assert(tables.deep_view() =~= Seq::<TableView>::empty());
        Registry { tables }
    }

    /// The number of registered kinds.
    pub fn len(&self) -> (r: usize)
        ensures
            r == self@.len(),
    {
        self.tables.len()
    }

    /// Retrieves the table of the kind with the identity `elem`. There is at
    /// most one.
    pub fn get(&self, elem: Element) -> (r: Option<&ContentVtable>)
        ensures
            distinct_kinds(self@),
            match r {
                Some(t) => t@.elem == elem && exists|i: int|
                    0 <= i < self@.len() && #[trigger] self@[i] == t@,
                None => !registered(self@, elem),
            },
    {
        proof {
            use_type_invariant(self);
        }
        let mut i: usize = 0;
        while i < self.tables.len()
            invariant
                i <= self.tables.len(),
                distinct_kinds(self@),
                forall|k: int| 0 <= k < i ==> (#[trigger] self@[k]).elem != elem,
            decreases self.tables.len() - i,
        {
            let table = &self.tables[i];
            assert(self@[i as int] == table@);
            if table.elem() == elem {
                return Some(table);
            }
            i += 1;
        }
        None
    }

    /// Registers a kind. A table whose identity is taken is handed back, and
    /// the registry stays as it is.
    pub fn register(&mut self, table: ContentVtable) -> (r: Result<(), ContentVtable>)
        ensures
            distinct_kinds(final(self)@),
            match r {
                Ok(_) => !registered(old(self)@, table@.elem) && final(self)@ == old(self)@.push(
                    table@,
                ),
                Err(t) => registered(old(self)@, table@.elem) && final(self)@ == old(self)@ && t
                    == table,
            },
    {
        proof {
            use_type_invariant(&*self);
        }
        if self.get(table.elem()).is_some() {
            return Err(table);
        }
        let mut taken = Registry::new();
        core::mem::swap(self, &mut taken);
        let ghost before = taken.tables;
        let mut tables = taken.tables;
        tables.push(table);
        proof {
            lemma_deep_view_push(before, tables, table);
            let all = tables.deep_view();
            assert forall|i: int, j: int| 0 <= i < j < all.len() implies (#[trigger] all[i]).elem != (
            #[trigger] all[j]).elem by {
                if j < all.len() - 1 {
                    assert(all[i] == before.deep_view()[i]);
                    assert(all[j] == before.deep_view()[j]);
                } else {
                    assert(all[i] == before.deep_view()[i]);
                }
            }
        }
        *self = Registry { tables };
        Ok(())
    }

    /// Pairs a record with the table of its kind, if that kind is registered
    /// and the record is one of it.
    pub fn handle<'a>(&'a self, content: &'a RawContent) -> (r: Option<
        ContentHandle<'a, &'a RawContent>,
    >)
        ensures
            match r {
                Some(h) => h.content() == content && h.vtable()@.elem == content@.elem
                    && table_matches(h.vtable()@, content@) && exists|i: int|
                    0 <= i < self@.len() && #[trigger] self@[i] == h.vtable()@,
                None => forall|i: int|
                    0 <= i < self@.len() ==> !table_matches(#[trigger] self@[i], content@),
            },
    {
        match self.get(content.elem()) {
            Some(table) => match Handle::checked(content, table) {
                Ok(handle) => Some(handle),
                Err(_) => {
                    proof {
                        let k = choose|k: int| 0 <= k < self@.len() && #[trigger] self@[k] == table@;
                        assert forall|i: int| 0 <= i < self@.len() implies !table_matches(
                            #[trigger] self@[i],
                            content@,
                        ) by {
                            if i < k {
                                assert(self@[i].elem != self@[k].elem);
                            } else if k < i {
                                assert(self@[k].elem != self@[i].elem);
                            }
                        }
                    }
                    None
                },
            },
            None => None,
        }
    }
}

} // verus!
