//! An ordered list of items: a vector behind a small, fully specified
//! interface.
use vstd::prelude::*;

verus! {

/// Items in the order they were added.
pub struct List<C> {
    items: Vec<C>,
}

impl<C> List<C> {
    /// The items, in order.
    pub closed spec fn items(&self) -> Seq<C> {
        self.items@
    }

    /// An empty list.
    pub fn new() -> (l: Self)
        ensures
            l.items() == Seq::<C>::empty(),
    {
        List { items: Vec::new() }
    }

    /// The number of items.
    pub fn len(&self) -> (n: usize)
        ensures
            n == self.items().len(),
    {
        self.items.len()
    }

    /// Adds `item` after the others.
    pub fn push(&mut self, item: C)
        ensures
            final(self).items().len() == old(self).items().len() + 1,
            forall|i: int| 0 <= i < old(self).items().len() ==> #[trigger] final(self).items()[i] == old(self).items()[i],
            final(self).items().last() == item,
            final(self).items() == old(self).items().push(item),
    {
        self.items.push(item);
    }

    /// The item at `i`.
    pub fn get(&self, i: usize) -> (r: &C)
        requires
            i < self.items().len(),
        ensures
            *r == self.items()[i as int],
    {
        &self.items[i]
    }

    /// Takes out the item at `i`.
    pub fn remove(&mut self, i: usize) -> (r: C)
        requires
            i < old(self).items().len(),
        ensures
            final(self).items() == old(self).items().remove(i as int),
            r == old(self).items()[i as int],
    {
        self.items.remove(i)
    }

    /// Removes every item.
    pub fn clear(&mut self)
        ensures
            final(self).items() == Seq::<C>::empty(),
    {
        self.items = Vec::new();
    }
}

}
