//! What stands between a filesystem operation and the operating system: the
//! attributes made from what a file query gave, and the table of open
//! handles.

use vstd::prelude::*;
use crate::libc_bridge::{attr_of, file_type_of, stat_to_fuse, type_of_mode, FileAttr, Stat, EIO};

verus! {

/// The attributes to report for what a file query gave: the error where the
/// query failed, an input/output error where the mode stands for no kind of
/// file, and the attributes made from the answer otherwise.
pub open spec fn reported(lstat: Result<Stat, i32>) -> Result<FileAttr, i32> {
    match lstat {
        Ok(stat) => if file_type_of(stat.st_mode).is_some() {
            Ok(attr_of(stat))
        } else {
            Err(EIO)
        },
        Err(e) => Err(e),
    }
}

/// The attributes to report for what a file query gave.
pub fn getattr(lstat: Result<Stat, i32>) -> (r: Result<FileAttr, i32>)
    ensures
        r == reported(lstat),
{
    match lstat {
        Ok(stat) => match type_of_mode(stat.st_mode) {
            Some(_) => Ok(stat_to_fuse(stat)),
            None => Err(EIO),
        },
        Err(e) => Err(e),
    }
}

/// The open files or directories of a filesystem, each under a handle.
///
/// A handle is a number other than zero. The table owns what was put into
/// it until the handle is released, and releasing is the only way to get it
/// out again: it hands the item back once, after which the handle stands for
/// nothing.
pub struct HandleTable<T> {
    slots: Vec<Option<T>>,
}

impl<T> View for HandleTable<T> {
    type V = Map<u64, T>;

    closed spec fn view(&self) -> Map<u64, T> {
        Map::new(
            |h: u64| 1 <= h <= self.slots@.len() && self.slots@[h - 1].is_some(),
            |h: u64| self.slots@[h - 1].unwrap(),
        )
    }
}

impl<T> HandleTable<T> {
    /// Every handle that the machine can count is taken.
    pub open spec fn full(&self) -> bool {
        forall|h: u64| 1 <= h <= usize::MAX ==> #[trigger] self@.contains_key(h)
    }

    /// A table without handles.
    pub fn new() -> (r: Self)
        ensures
            r@ == Map::<u64, T>::empty(),
    {
        let r = HandleTable { slots: Vec::new() };
        assert(r@ =~= Map::<u64, T>::empty());
        r
    }

    /// Puts `item` into the table and gives the handle it is now under: one
    /// that stood for nothing before. Only a full table gives none, and then
    /// keeps nothing.
    pub fn insert(&mut self, item: T) -> (r: Option<u64>)
        ensures
            r.is_some() == !old(self).full(),
            r.is_some() ==> r.unwrap() != 0 && !old(self)@.contains_key(r.unwrap()) && final(self)@
                == old(self)@.insert(r.unwrap(), item),
            r.is_none() ==> final(self)@ == old(self)@,
    {
        let mut i: usize = 0;
        while i < self.slots.len()
            invariant
                i <= self.slots.len(),
                self.slots == old(self).slots,
                forall|j: int| 0 <= j < i ==> self.slots@[j].is_some(),
            decreases self.slots.len() - i,
        {
            if self.slots[i].is_none() {
                self.slots.set(i, Some(item));
                let handle = (i + 1) as u64;
                assert(!old(self)@.contains_key(handle));
                assert(final(self)@ =~= old(self)@.insert(handle, item));
                return Some(handle);
            }
            i += 1;
        }
        if self.slots.len() == usize::MAX {
            assert(old(self).full());
            return None;
        }
        let handle = (self.slots.len() + 1) as u64;
        self.slots.push(Some(item));
        assert(!old(self)@.contains_key(handle));
        assert(final(self)@ =~= old(self)@.insert(handle, item));
        Some(handle)
    }

    /// What the handle stands for, if it stands for anything.
    pub fn get(&self, handle: u64) -> (r: Option<&T>)
        ensures
            r.is_some() == self@.contains_key(handle),
            r.is_some() ==> *r.unwrap() == self@[handle],
    {
        if handle == 0 || handle > self.slots.len() as u64 {
            return None;
        }
        let i = (handle - 1) as usize;
        self.slots[i].as_ref()
    }

    /// Takes what the handle stands for out of the table and hands it back.
    /// A handle that stands for nothing gives nothing.
    pub fn release(&mut self, handle: u64) -> (r: Option<T>)
        ensures
            r.is_some() == old(self)@.contains_key(handle),
            r.is_some() ==> r.unwrap() == old(self)@[handle],
            final(self)@ == old(self)@.remove(handle),
    {
        if handle == 0 || handle > self.slots.len() as u64 {
            assert(final(self)@ =~= old(self)@.remove(handle));
            return None;
        }
        let i = (handle - 1) as usize;
        self.slots.push(None);
        let taken = self.slots.swap_remove(i);
        assert(self.slots@ =~= old(self).slots@.update(i as int, None));
        assert(final(self)@ =~= old(self)@.remove(handle));
        taken
    }
}

} // verus!
