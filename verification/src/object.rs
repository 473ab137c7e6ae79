//! Identities of protocol objects.

use vstd::prelude::*;

verus! {

/// Identity of a protocol object together with the client that owns it.
///
/// Two ids are equal exactly when they name the same object. Objects of one
/// client share the `client` number.
#[derive(Clone, Copy, Debug, PartialEq, Eq, Hash, Structural)]
pub struct ObjectId {
    /// The client that created the object.
    pub client: u64,
    /// The object among all objects of the seat.
    pub id: u64,
}

impl ObjectId {
    /// Whether both objects belong to one client.
    pub open spec fn same_client(self, other: ObjectId) -> bool {
        self.client == other.client
    }

    /// Tells whether both objects belong to one client.
    pub fn same_client_as(&self, other: &ObjectId) -> (same: bool)
        ensures
            same == self.same_client(*other),
    {
        self.client == other.client
    }
}

/// A surface as the seat last saw it.
#[derive(Clone, Copy, Debug, PartialEq, Eq, Hash, Structural)]
pub struct Surface {
    /// The surface object.
    pub id: ObjectId,
    /// Whether the surface still exists.
    pub alive: bool,
}

/// The surface that events may still name: the focus, unless it is gone.
pub open spec fn live_surface(focus: Option<Surface>) -> Option<Surface> {
    match focus {
        Some(surface) if surface.alive => Some(surface),
        _ => None,
    }
}

} // verus!
