//! Generational slot storage: a removed slot gets a new generation, so a
//! stale handle to it never reaches a later occupant.

use vstd::prelude::*;

verus! {

pub struct ArenaSlot<T> {
    pub generation: u32,
    pub value: Option<T>,
}

pub struct Arena<T> {
    pub slots: Vec<ArenaSlot<T>>,
    pub free: Vec<u32>,
}

/// The generation a slot gets when its value is removed (wrapping).
pub open spec fn next_generation(g: u32) -> u32 {
    if g == u32::MAX { 0 } else { (g + 1) as u32 }
}

impl<T> Arena<T> {
    /// The value stored under `(index, generation)`, if that slot is live
    /// with that generation.
    pub open spec fn spec_get(&self, index: u32, generation: u32) -> Option<T> {
        if (index as int) < self.slots@.len() && self.slots@[index as int].generation == generation {
            self.slots@[index as int].value
        } else {
            None
        }
    }

    pub fn new() -> (a: Self)
        ensures
            a.slots@.len() == 0,
            a.free@.len() == 0,
    {
        Arena { slots: Vec::new(), free: Vec::new() }
    }

    pub fn get(&self, index: u32, generation: u32) -> (r: Option<&T>)
        ensures
            match r {
                Some(v) => self.spec_get(index, generation) == Some(*v),
                None => self.spec_get(index, generation) is None,
            },
    {
        let i = index as usize;
        if i < self.slots.len() && self.slots[i].generation == generation {
            match &self.slots[i].value {
                Some(v) => Some(v),
                None => None,
            }
        } else {
            None
        }
    }

    /// Stores `value` in a free slot (reusing a freed one when possible) and
    /// returns its index and generation.
    pub fn insert(&mut self, value: T) -> (r: (u32, u32))
        requires
            old(self).slots@.len() < u32::MAX,
        ensures
            (r.0 as int) <= old(self).slots@.len(),
            old(self).slots@[r.0 as int].value is None || (r.0 as int) == old(self).slots@.len(),
            (r.0 as int) < old(self).slots@.len() ==> final(self).slots@ == old(self).slots@.update(
                r.0 as int,
                ArenaSlot { generation: r.1, value: Some(value) },
            ),
            (r.0 as int) == old(self).slots@.len() ==> final(self).slots@ == old(self).slots@.push(
                ArenaSlot { generation: r.1, value: Some(value) },
            ),
            (r.0 as int) < old(self).slots@.len() ==> r.1 == old(self).slots@[r.0 as int].generation,
            (r.0 as int) == old(self).slots@.len() ==> r.1 == 0,
    {
        if let Some(idx) = self.free.pop() {
            let i = idx as usize;
            if i < self.slots.len() && self.slots[i].value.is_none() {
                let generation = self.slots[i].generation;
                self.slots.set(i, ArenaSlot { generation, value: Some(value) });
                return (idx, generation);
            }
        }
        let index = self.slots.len() as u32;
        self.slots.push(ArenaSlot { generation: 0, value: Some(value) });
        (index, 0)
    }

    /// Takes the value out of a live slot and advances its generation.
    pub fn remove(&mut self, index: u32, generation: u32) -> (r: Option<T>)
        ensures
            r == old(self).spec_get(index, generation),
            r is None ==> *final(self) == *old(self),
            r is Some ==> final(self).slots@ == old(self).slots@.update(
                index as int,
                ArenaSlot { generation: next_generation(generation), value: None },
            ),
    {
        let i = index as usize;
        if i < self.slots.len() && self.slots[i].generation == generation && self.slots[i].value.is_some() {
            let v = self.slots[i].value.take();
            self.slots[i].generation = generation.wrapping_add(1);
            self.free.push(index);
            v
        } else {
            None
        }
    }
}

} // verus!
