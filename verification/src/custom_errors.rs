use vstd::prelude::*;

verus! {

/// The ways in which an operation on the store can be refused.
#[derive(Debug, Clone, Copy, PartialEq, Eq, Structural)]
pub enum CustomErrors {
    /// A component was attached to a slot that no `create_entity` call has made.
    CreatComponentNeverCalled,
    /// The component type was never registered.
    ComponentNotRegistered,
    /// The slot index is out of range.
    EntityDoesNotExits,
    /// The component type is registered but not attached to the entity.
    ComponentDoesNotExists,
    /// A stored value is not of the type its column was registered for.
    DowncastsToWrongType,
    /// A view of the cell is alive that the view asked for cannot stand
    /// beside: an exclusive view beside any other, or any view beside an
    /// exclusive one.
    ComponentAlreadyBorrowed,
}

} // verus!
