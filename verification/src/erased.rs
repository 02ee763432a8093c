//! The boundary to std's dynamic typing and shared cells.
//!
//! Verus sees neither a `dyn Any` nor the inside of a `RefCell`, so the values
//! that the store keeps are opaque handles here. Two handles are equal in
//! specifications exactly when they stand for the same allocation. Everything
//! in this module that is marked `external_body` is believed, not proved.
use std::any::Any;
use std::any::TypeId;
use std::cell::Ref;
use std::cell::RefCell;
use std::cell::RefMut;
use std::rc::Rc;
use vstd::prelude::*;

use crate::custom_errors::CustomErrors;

verus! {

/// `std::any::TypeId`, an opaque identifier of a type. Specifications compare
/// two of them with `==` and read nothing else from them.
#[verifier::external_type_specification]
#[verifier::external_body]
pub struct ExTypeId(TypeId);

/// `std::cell::Ref`, the guard of a shared borrow of a `RefCell`.
#[verifier::external_type_specification]
#[verifier::external_body]
#[verifier::reject_recursive_types(T)]
pub struct ExRef<'b, T: ?Sized>(Ref<'b, T>);

/// `std::cell::RefMut`, the guard of an exclusive borrow of a `RefCell`.
#[verifier::external_type_specification]
#[verifier::external_body]
#[verifier::reject_recursive_types(T)]
pub struct ExRefMut<'b, T: ?Sized + 'b>(RefMut<'b, T>);

/// A component value of any type in a shared cell: `Rc<RefCell<dyn Any>>`.
///
/// The struct is opaque to Verus, which accepts no `dyn Any` in a field. In
/// specifications a `Component` is the identity of its cell: what the cell
/// holds may change through a `RefMut` without the handle changing.
#[verifier::external_body]
pub struct Component {
    cell: Rc<RefCell<dyn Any>>,
}

/// A resource value of any type, owned: `Box<dyn Any>`. Opaque to Verus for
/// the same reason as `Component`.
#[verifier::external_body]
pub struct ResourceBox {
    value: Box<dyn Any>,
}

/// Calls `TypeId::of::<T>()`. Nothing is stated of the identifier that comes
/// back: callers hand it on to functions that are verified for every
/// identifier.
#[verifier::external_body]
pub(crate) fn type_id_of<T: Any>() -> (id: TypeId) {
    TypeId::of::<T>()
}

/// Calls `Any::type_id` on `data`: the identifier of the type `T`. Nothing is
/// stated of the identifier that comes back.
#[verifier::external_body]
pub(crate) fn type_id_of_value<T: Any>(data: &T) -> (id: TypeId) {
    data.type_id()
}

/// Calls `TypeId`'s `==`. The contract claims that it decides the equality
/// that specifications use for identifiers.
#[verifier::external_body]
pub(crate) fn same_type(a: &TypeId, b: &TypeId) -> (same: bool)
    ensures
        same == (*a == *b),
{
    a == b
}

impl Component {
    /// Calls `Rc::new(RefCell::new(data))`: a fresh cell around `data`.
    /// Nothing is stated of the handle.
    #[verifier::external_body]
    pub(crate) fn new<T: Any>(data: T) -> (component: Component) {
        Component { cell: Rc::new(RefCell::new(data)) }
    }

    /// Calls `Rc::clone`. The contract claims that the new handle stands for
    /// the same cell.
    #[verifier::external_body]
    pub(crate) fn share(&self) -> (component: Component)
        ensures
            component == *self,
    {
        Component { cell: Rc::clone(&self.cell) }
    }

    /// Calls `RefCell::try_borrow`, then `downcast_ref::<T>()` on what the
    /// cell holds, under `Ref::filter_map`. `InUse` is the error of
    /// `try_borrow`: a `RefMut` of this cell is alive. `WrongType` is the
    /// error of `filter_map`: the cell holds a value of another type. Nothing
    /// is stated of which of the three comes back.
    #[verifier::external_body]
    pub(crate) fn borrow_as<T: Any>(&self) -> (outcome: Borrowed<Ref<'_, T>>) {
        match self.cell.try_borrow() {
            Ok(guard) => match Ref::filter_map(guard, |any| any.downcast_ref::<T>()) {
                Ok(view) => Borrowed::View(view),
                Err(_) => Borrowed::WrongType,
            },
            Err(_) => Borrowed::InUse,
        }
    }

    /// Calls `RefCell::try_borrow_mut`, then `downcast_mut::<T>()` on what
    /// the cell holds, under `RefMut::filter_map`. `InUse` is the error of
    /// `try_borrow_mut`: another guard of this cell is alive. `WrongType` is
    /// the error of `filter_map`: the cell holds a value of another type.
    /// Nothing is stated of which of the three comes back.
    #[verifier::external_body]
    pub(crate) fn borrow_mut_as<T: Any>(&self) -> (outcome: Borrowed<RefMut<'_, T>>) {
        match self.cell.try_borrow_mut() {
            Ok(guard) => match RefMut::filter_map(guard, |any| any.downcast_mut::<T>()) {
                Ok(view) => Borrowed::View(view),
                Err(_) => Borrowed::WrongType,
            },
            Err(_) => Borrowed::InUse,
        }
    }

    /// A shared view of the value in this cell, read as a `T`.
    ///
    /// Fails with `DowncastsToWrongType` when the cell holds a value of
    /// another type, with `ComponentAlreadyBorrowed` while an exclusive view
    /// of the cell is alive, and with nothing else.
    pub fn get<T: Any>(&self) -> (r: Result<Ref<'_, T>, CustomErrors>)
        ensures
            r is Err ==> r == Err::<Ref<'_, T>, CustomErrors>(CustomErrors::DowncastsToWrongType)
                || r == Err::<Ref<'_, T>, CustomErrors>(CustomErrors::ComponentAlreadyBorrowed),
    {
        checked_view(self.borrow_as::<T>())
    }

    /// An exclusive view of the value in this cell, read as a `T`.
    ///
    /// Fails with `DowncastsToWrongType` when the cell holds a value of
    /// another type, with `ComponentAlreadyBorrowed` while any other view of
    /// the cell is alive, and with nothing else.
    pub fn get_mut<T: Any>(&self) -> (r: Result<RefMut<'_, T>, CustomErrors>)
        ensures
            r is Err ==> r == Err::<RefMut<'_, T>, CustomErrors>(CustomErrors::DowncastsToWrongType)
                || r == Err::<RefMut<'_, T>, CustomErrors>(CustomErrors::ComponentAlreadyBorrowed),
    {
        checked_view(self.borrow_mut_as::<T>())
    }
}

impl ResourceBox {
    /// Calls `Box::new(data)`, kept as a `Box<dyn Any>`. Nothing is stated of
    /// the handle.
    #[verifier::external_body]
    pub(crate) fn new<T: Any>(data: T) -> (boxed: ResourceBox) {
        ResourceBox { value: Box::new(data) }
    }

    /// Calls `downcast_ref::<T>()` on the boxed value. `None` means that the
    /// value is of another type. Nothing is stated of the result.
    #[verifier::external_body]
    pub(crate) fn downcast_ref<T: Any>(&self) -> (value: Option<&T>) {
        self.value.downcast_ref::<T>()
    }

    /// Calls `downcast_mut::<T>()` on the boxed value. `None` means that the
    /// value is of another type. Nothing is stated of the result, nor of the
    /// box after the borrow ends.
    #[verifier::external_body]
    pub(crate) fn downcast_mut<T: Any>(&mut self) -> (value: Option<&mut T>) {
        self.value.downcast_mut::<T>()
    }
}

/// What an attempt to view a cell as a value of some type came to.
pub enum Borrowed<V> {
    /// The view.
    View(V),
    /// The cell holds a value of another type.
    WrongType,
    /// A view of the cell is alive that the new one cannot stand beside.
    InUse,
}

/// The result that stands for an attempt: the view, `DowncastsToWrongType`
/// for a value of another type, `ComponentAlreadyBorrowed` for a cell in use.
pub open spec fn view_outcome<V>(outcome: Borrowed<V>) -> Result<V, CustomErrors> {
    match outcome {
        Borrowed::View(v) => Ok(v),
        Borrowed::WrongType => Err(CustomErrors::DowncastsToWrongType),
        Borrowed::InUse => Err(CustomErrors::ComponentAlreadyBorrowed),
    }
}

/// Turns an attempt into its result: see `view_outcome`.
pub fn checked_view<V>(outcome: Borrowed<V>) -> (r: Result<V, CustomErrors>)
    ensures
        r == view_outcome(outcome),
{
    match outcome {
        Borrowed::View(v) => Ok(v),
        Borrowed::WrongType => Err(CustomErrors::DowncastsToWrongType),
        Borrowed::InUse => Err(CustomErrors::ComponentAlreadyBorrowed),
    }
}

} // verus!
