//! A scoped guard that rolls an arena's fill level back unless committed.
use crate::meta::LakeMeta;
use vstd::prelude::*;

verus! {

/// Holds an arena while a scope allocates from it. Ending the scope with
/// `rollback` returns the arena's fill level to `base_offset`; `commit` and
/// `commit_and_return` keep what was allocated. Neither touches the
/// generation, and marks pushed meanwhile stay where they are.
pub struct SandboxGuard<'a, T: LakeMeta> {
    pub lake: Option<&'a mut T>,
    /// The arena's fill level when the guard was made.
    pub base_offset: usize,
    pub committed: bool,
}

impl<'a, T: LakeMeta> SandboxGuard<'a, T> {
    /// The held arena.
    pub fn view(&mut self) -> (r: &mut T)
        requires
            old(self).lake is Some,
        ensures
            *r == *old(self).lake->0,
            final(self).lake is Some,
            *final(self).lake->0 == *final(r),
            *final(final(self).lake->0) == *final(old(self).lake->0),
            final(self).base_offset == old(self).base_offset,
            final(self).committed == old(self).committed,
    {
        self.lake.as_mut().unwrap()
    }

    /// Ends the scope keeping the arena as it is now.
    pub fn commit(self)
        requires
            self.lake is Some,
        ensures
            *final(self.lake->0) == *self.lake->0,
    {
        let mut guard = self;
        guard.committed = true;
    }

    /// Ends the scope keeping the arena as it is now, and hands the arena back.
    pub fn commit_and_return(self) -> (r: &'a mut T)
        requires
            self.lake is Some,
        ensures
            *r == *self.lake->0,
            *final(r) == *final(self.lake->0),
    {
        self.lake.unwrap()
    }

    /// Ends the scope: unless the guard was marked committed, the arena's fill
    /// level returns to `base_offset`; capacity and generation stay.
    pub fn rollback(self)
        requires
            self.lake is Some ==> self.lake->0.well_formed(),
            self.lake is Some && !self.committed ==> self.base_offset
                <= self.lake->0.spec_capacity(),
        ensures
            self.lake is Some && self.committed ==> *final(self.lake->0) == *self.lake->0,
            self.lake is Some && !self.committed ==> {
                &&& final(self.lake->0).well_formed()
                &&& final(self.lake->0).spec_offset() == self.base_offset
                &&& final(self.lake->0).spec_capacity() == self.lake->0.spec_capacity()
                &&& final(self.lake->0).spec_generation() == self.lake->0.spec_generation()
            },
    {
        let SandboxGuard { lake, base_offset, committed } = self;
        match lake {
            Some(lake) => {
                if !committed {
                    lake.set_offset(base_offset);
                }
            },
            None => {},
        }
    }
}

/// Opens a sandbox over an arena.
pub trait LakeSandboxExt: LakeMeta + Sized {
    /// A guard over this arena that remembers its current fill level.
    fn sandbox(&mut self) -> (r: SandboxGuard<'_, Self>)
        requires
            old(self).well_formed(),
        ensures
            r.lake is Some,
            *r.lake->0 == *old(self),
            *final(r.lake->0) == *final(self),
            r.base_offset == old(self).spec_offset(),
            r.base_offset <= old(self).spec_capacity(),
            !r.committed,
    {
        let offset = self.offset();
        SandboxGuard { lake: Some(self), base_offset: offset, committed: false }
    }
}

impl<T: LakeMeta> LakeSandboxExt for T {

}

} // verus!
