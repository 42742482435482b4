//! The table through which the dispatcher refers to live requests and
//! connections by number.
use vstd::prelude::*;

verus! {

/// Items by id. Ids are handed out in order and never reused.
pub struct Registry<T> {
    entries: Vec<Option<T>>,
}

impl<T> View for Registry<T> {
    type V = Seq<Option<T>>;

    closed spec fn view(&self) -> Seq<Option<T>> {
        self.entries@
    }
}

impl<T> Registry<T> {
    pub fn new() -> (r: Registry<T>)
        ensures
            r@ == Seq::<Option<T>>::empty(),
    {
        Registry { entries: Vec::new() }
    }

    /// How many ids were handed out.
    pub fn len(&self) -> (r: usize)
        ensures
            r == self@.len(),
    {
        self.entries.len()
    }

    /// Registers `item` under the next id, which it returns.
    pub fn add(&mut self, item: T) -> (id: u32)
        requires
            old(self)@.len() < u32::MAX,
        ensures
            id == old(self)@.len(),
            final(self)@ == old(self)@.push(Some(item)),
    {
        let id = self.entries.len() as u32;
        self.entries.push(Some(item));
        id
    }

    /// The item registered under `id`, while it is there.
    pub fn get(&self, id: u32) -> (r: Option<&T>)
        ensures
            r == (if id < self@.len() {
                match self@[id as int] {
                    Some(t) => Some(&t),
                    None => None::<&T>,
                }
            } else {
                None::<&T>
            }),
    {
        if (id as usize) < self.entries.len() {
            match &self.entries[id as usize] {
                Some(t) => Some(t),
                None => None,
            }
        } else {
            None
        }
    }

    /// Puts `item` back under `id`, which was handed out before.
    pub fn restore(&mut self, id: u32, item: T)
        requires
            id < old(self)@.len(),
        ensures
            final(self)@ == old(self)@.update(id as int, Some(item)),
    {
        self.entries.set(id as usize, Some(item));
    }

    /// Removes the item registered under `id` and hands it over.
    pub fn take(&mut self, id: u32) -> (r: Option<T>)
        ensures
            id < old(self)@.len() ==> r == old(self)@[id as int] && final(self)@ == old(self)@.update(id as int, None),
            id >= old(self)@.len() ==> r is None && final(self)@ == old(self)@,
    {
        if (id as usize) < self.entries.len() {
            let mut slot: Option<T> = None;
            std::mem::swap(&mut slot, &mut self.entries[id as usize]);
            slot
        } else {
            None
        }
    }
}

} // verus!
