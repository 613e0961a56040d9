//! A store of values indexed by identifiers that convert to and from `usize`.

use vstd::prelude::*;
use std::marker::PhantomData;
use std::rc::Rc;
use vstd::std_specs::convert::FromSpec;
use vstd::std_specs::convert::IntoSpec;

verus! {

/// Values kept in insertion order; the identifier of a value converts to its index.
pub struct Store<Id, Value> where Id: Into<usize> + From<usize> {
    entries: Vec<Value>,
    marker: PhantomData<Id>,
}

/// The index that an identifier stands for.
pub open spec fn index_of<Id: Into<usize>>(id: Id) -> int {
    <Id as IntoSpec<usize>>::into_spec(id) as int
}

/// Identifiers convert to indices and back as their contracts say.
pub open spec fn converts<Id: Into<usize> + From<usize>>() -> bool {
    &&& <Id as IntoSpec<usize>>::obeys_into_spec()
    &&& <Id as FromSpec<usize>>::obeys_from_spec()
    &&& forall|i: usize| #[trigger] index_of(<Id as FromSpec<usize>>::from_spec(i)) == i
}

impl<Id, Value> Store<Id, Value> where Id: Into<usize> + From<usize> {
    /// The values, in insertion order.
    pub closed spec fn view_entries(&self) -> Seq<Value> {
        self.entries@
    }

    /// An empty store.
    pub fn new() -> (store: Self)
        ensures
            store.view_entries().len() == 0,
    {
        Self { entries: Vec::new(), marker: PhantomData }
    }

    /// The number of values.
    pub fn len(&self) -> (len: usize)
        ensures
            len == self.view_entries().len(),
    {
        self.entries.len()
    }

    /// Adds a value at the end; its identifier is made from its index.
    pub fn insert(&mut self, value: Value) -> (id: Id)
        requires
            converts::<Id>(),
        ensures
            final(self).view_entries() == old(self).view_entries().push(value),
            index_of(id) == old(self).view_entries().len(),
            id == <Id as FromSpec<usize>>::from_spec(old(self).view_entries().len() as usize),
    {
        self.entries.push(value);
        let index = self.entries.len() - 1;
        let id = Id::from(index);
        assert(index_of(<Id as FromSpec<usize>>::from_spec(index)) == index);
        id
    }

    /// The value whose index the identifier converts to.
    pub fn get(&self, id: Id) -> (value: &Value)
        requires
            converts::<Id>(),
            index_of(id) < self.view_entries().len(),
        ensures
            *value == self.view_entries()[index_of(id)],
    {
        let index: usize = id.into();
        &self.entries[index]
    }

    /// The value whose index the identifier converts to, for changing.
    pub fn get_mut(&mut self, id: Id) -> (value: &mut Value)
        requires
            converts::<Id>(),
            index_of(id) < old(self).view_entries().len(),
        ensures
            *value == old(self).view_entries()[index_of(id)],
            final(self).view_entries() == old(self).view_entries().update(index_of(id), *final(value)),
    {
        let index: usize = id.into();
        &mut self.entries[index]
    }
}

/// Calls `Rc::clone`, which hands out one more pointer to the same value.
#[verifier::external_body]
pub(crate) fn share<T>(value: &Rc<T>) -> (shared: Rc<T>)
    ensures
        shared == *value,
{
    Rc::clone(value)
}

} // verus!
