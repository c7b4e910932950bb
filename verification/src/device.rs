//! How an input device node is to be opened, decided from the flags that the input
//! stack asks for.

use vstd::prelude::*;

verus! {

/// The access-mode encoding of the platform's `open` flags.
#[derive(Clone, Copy, Debug, PartialEq, Eq, Structural)]
pub struct OpenFlags {
    /// Mask that selects the access mode within the flags.
    pub access_mask: i32,
    /// Access mode "read only".
    pub read_only: i32,
    /// Access mode "write only".
    pub write_only: i32,
    /// Access mode "read and write".
    pub read_write: i32,
}

/// Whether a device node is opened for reading and for writing.
#[derive(Clone, Copy, Debug, PartialEq, Eq, Structural)]
pub struct Access {
    pub read: bool,
    pub write: bool,
}

/// The access that `flags` ask for.
pub open spec fn access_of(flags: i32, encoding: OpenFlags) -> Access {
    let mode = flags & encoding.access_mask;
    Access {
        read: mode == encoding.read_only || mode == encoding.read_write,
        write: mode == encoding.write_only || mode == encoding.read_write,
    }
}

/// Decides the access that `flags` ask for.
pub fn requested_access(flags: i32, encoding: &OpenFlags) -> (access: Access)
    ensures
        access == access_of(flags, *encoding),
{
    let mode: i32 = flags & encoding.access_mask;
    Access {
        read: mode == encoding.read_only || mode == encoding.read_write,
        write: mode == encoding.write_only || mode == encoding.read_write,
    }
}

} // verus!
