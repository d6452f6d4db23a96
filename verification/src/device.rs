//! The names of GPU resources.

use vstd::prelude::*;

verus! {

/// The name of a buffer or a bind group. The application keeps the resource
/// itself under this name.
pub type ResourceId = u64;

/// The source of resource names: it counts the resources made so far and names
/// each one by its number, so no name is given twice.
pub struct Device {
    next: u64,
}

impl Device {
    /// How many names have been issued.
    pub closed spec fn issued(&self) -> nat {
        self.next as nat
    }

    /// A device that has made nothing yet.
    pub fn new() -> (device: Device)
        ensures
            device.issued() == 0,
    {
        Device { next: 0 }
    }

    /// How many names are left to issue.
    pub fn remaining(&self) -> (left: u64)
        ensures
            left == u64::MAX - self.issued(),
    {
        u64::MAX - self.next
    }

    /// The name that will be issued next.
    pub fn peek(&self) -> (id: ResourceId)
        ensures
            id == self.issued(),
    {
        self.next
    }

    /// Issues the next name.
    pub fn create(&mut self) -> (id: ResourceId)
        requires
            old(self).issued() < u64::MAX,
        ensures
            id == old(self).issued(),
            final(self).issued() == old(self).issued() + 1,
    {
        let id = self.next;
        self.next = self.next + 1;
        id
    }
}

} // verus!
