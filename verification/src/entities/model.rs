//! The entity store as mathematical values: what each operation does to it,
//! the invariant that the operations keep, and what follows from both.
use std::any::TypeId;
use vstd::prelude::*;

use crate::bits::bit;
use crate::bits::has_bit;
use crate::bits::lemma_bits_distinct;
use crate::bits::lemma_clear_bit;
use crate::bits::lemma_empty_mask;
use crate::bits::lemma_set_bit;
use crate::bits::lemma_set_bit_twice;
use crate::bits::lemma_toggle_clears;
use crate::custom_errors::CustomErrors;
use crate::erased::Component;

verus! {

/// What a store holds, as mathematical values.
///
/// `types[i]` is the `i`-th type that was registered; it owns bit `i` of every
/// mask and the column `columns[i]`. `masks[s]` is the membership mask of slot
/// `s`, and `cursor` is the slot that `with_component` writes to.
pub struct EntitiesView {
    pub types: Seq<TypeId>,
    pub columns: Seq<Seq<Option<Component>>>,
    pub masks: Seq<u32>,
    pub cursor: int,
}

impl EntitiesView {
    /// The store before anything was registered or created.
    pub open spec fn empty() -> EntitiesView {
        EntitiesView { types: Seq::empty(), columns: Seq::empty(), masks: Seq::empty(), cursor: 0 }
    }

    /// Whether `id` was registered.
    pub open spec fn registered(self, id: TypeId) -> bool {
        self.types.contains(id)
    }

    /// The place of `id` in the order of registration, where it is registered.
    pub open spec fn position(self, id: TypeId) -> int {
        choose|i: int| 0 <= i < self.types.len() && self.types[i] == id
    }

    /// The bit that `id` owns, if it is registered.
    pub open spec fn bit_of(self, id: TypeId) -> Option<u32> {
        if self.registered(id) {
            Some(bit(self.position(id)))
        } else {
            None
        }
    }

    /// The column of `id`, where it is registered.
    pub open spec fn column(self, id: TypeId) -> Seq<Option<Component>> {
        self.columns[self.position(id)]
    }

    /// Whether slot `slot` exists.
    pub open spec fn has_slot(self, slot: int) -> bool {
        0 <= slot < self.masks.len()
    }

    /// Whether a component of type `id` is attached to slot `slot`.
    pub open spec fn attached(self, id: TypeId, slot: int) -> bool {
        &&& self.registered(id)
        &&& self.has_slot(slot)
        &&& has_bit(self.masks[slot], self.position(id))
    }

    /// The invariant of a store: the registry names no type twice and fits
    /// the mask width, every column is as long as the membership array, a
    /// mask has bits of registered types only, a slot holds a component
    /// wherever its bit is set, and the cursor is a slot once there is one.
    pub open spec fn wf(self) -> bool {
        &&& self.types.len() == self.columns.len()
        &&& self.types.len() <= 32
        &&& self.types.no_duplicates()
        &&& forall|i: int|
            0 <= i < self.columns.len() ==> (#[trigger] self.columns[i]).len() == self.masks.len()
        &&& forall|s: int, j: int|
            0 <= s < self.masks.len() && self.types.len() <= j < 32 ==> !#[trigger] has_bit(
                self.masks[s],
                j,
            )
        &&& forall|i: int, s: int|
            #![trigger self.columns[i][s]]
            #![trigger has_bit(self.masks[s], i)]
            0 <= i < self.types.len() && 0 <= s < self.masks.len() && has_bit(self.masks[s], i)
                ==> self.columns[i][s] is Some
        &&& 0 <= self.cursor
        &&& self.masks.len() == 0 ==> self.cursor == 0
        &&& self.masks.len() > 0 ==> self.cursor < self.masks.len()
    }

    /// Whether some slot is free, that is, has the empty mask.
    pub open spec fn has_free(self) -> bool {
        exists|s: int| 0 <= s < self.masks.len() && self.masks[s] == 0
    }

    /// Whether `s` is the lowest free slot.
    pub open spec fn is_first_free(self, s: int) -> bool {
        &&& 0 <= s < self.masks.len()
        &&& self.masks[s] == 0
        &&& forall|j: int| 0 <= j < s ==> self.masks[j] != 0
    }

    /// The lowest free slot, where there is one.
    pub open spec fn first_free(self) -> int {
        choose|s: int| self.is_first_free(s)
    }

    /// The store after `create_entity`: the cursor moves to the lowest free
    /// slot; where none is free, every column and the membership array grow
    /// by one empty slot, and the cursor moves to it.
    pub open spec fn create(self) -> EntitiesView {
        if self.has_free() {
            EntitiesView { cursor: self.first_free(), ..self }
        } else {
            EntitiesView {
                columns: Seq::new(self.columns.len(), |i: int| self.columns[i].push(None)),
                masks: self.masks.push(0),
                cursor: self.masks.len() as int,
                ..self
            }
        }
    }

    /// A column in which every slot is empty, as long as the membership array.
    pub open spec fn cleared_column(self) -> Seq<Option<Component>> {
        Seq::new(self.masks.len(), |s: int| None)
    }

    /// The store after `id` is registered. A new type goes to the end of the
    /// registry, and so gets the next bit, with a column of empty slots. A
    /// type that is registered already keeps its bit; its column is emptied
    /// and its bit is cleared in every mask.
    pub open spec fn register(self, id: TypeId) -> EntitiesView {
        if self.registered(id) {
            let i = self.position(id);
            EntitiesView {
                columns: self.columns.update(i, self.cleared_column()),
                masks: Seq::new(self.masks.len(), |s: int| self.masks[s] & !bit(i)),
                ..self
            }
        } else {
            EntitiesView {
                types: self.types.push(id),
                columns: self.columns.push(self.cleared_column()),
                ..self
            }
        }
    }

    /// Whether a component of type `id` can be attached to slot `slot`, and
    /// the error where it cannot.
    pub open spec fn attach_outcome(self, id: TypeId, slot: int) -> Result<(), CustomErrors> {
        if !self.registered(id) {
            Err(CustomErrors::ComponentNotRegistered)
        } else if !self.has_slot(slot) {
            Err(CustomErrors::CreatComponentNeverCalled)
        } else {
            Ok(())
        }
    }

    /// The store after `component` is attached to slot `slot` as a value of
    /// type `id`: the slot of the column holds it, and the bit of `id` is set.
    pub open spec fn attach(self, id: TypeId, slot: int, component: Component) -> EntitiesView {
        let i = self.position(id);
        EntitiesView {
            columns: self.columns.update(i, self.columns[i].update(slot, Some(component))),
            masks: self.masks.update(slot, self.masks[slot] | bit(i)),
            ..self
        }
    }

    /// `attach` where it is allowed, and no change where it is not.
    pub open spec fn try_attach(self, id: TypeId, slot: int, component: Component) -> EntitiesView {
        if self.attach_outcome(id, slot) is Ok {
            self.attach(id, slot, component)
        } else {
            self
        }
    }

    /// Whether the component of type `id` can be detached from slot `slot`,
    /// and the error where it cannot.
    pub open spec fn detach_outcome(self, id: TypeId, slot: int) -> Result<(), CustomErrors> {
        if !self.registered(id) {
            Err(CustomErrors::ComponentNotRegistered)
        } else if !self.has_slot(slot) {
            Err(CustomErrors::EntityDoesNotExits)
        } else {
            Ok(())
        }
    }

    /// The store after the component of type `id` is detached from slot
    /// `slot`: the bit of `id` is clear, and nothing else has changed.
    pub open spec fn detach(self, id: TypeId, slot: int) -> EntitiesView {
        EntitiesView {
            masks: self.masks.update(slot, self.masks[slot] & !bit(self.position(id))),
            ..self
        }
    }

    /// `detach` where it is allowed, and no change where it is not.
    pub open spec fn try_detach(self, id: TypeId, slot: int) -> EntitiesView {
        if self.detach_outcome(id, slot) is Ok {
            self.detach(id, slot)
        } else {
            self
        }
    }

    /// The store after the entity in slot `slot` is deleted: its mask is
    /// empty, which makes the slot free.
    pub open spec fn delete(self, slot: int) -> EntitiesView {
        EntitiesView { masks: self.masks.update(slot, 0), ..self }
    }

    /// The component of type `id` that is attached to slot `slot`, or the
    /// reason why there is none.
    pub open spec fn lookup(self, id: TypeId, slot: int) -> Result<Component, CustomErrors> {
        if !self.registered(id) {
            Err(CustomErrors::ComponentNotRegistered)
        } else if !self.has_slot(slot) {
            Err(CustomErrors::EntityDoesNotExits)
        } else if !has_bit(self.masks[slot], self.position(id)) || self.column(id)[slot] is None {
            Err(CustomErrors::ComponentDoesNotExists)
        } else {
            Ok(self.column(id)[slot]->Some_0)
        }
    }

    /// `create` keeps the invariant, leaves the cursor on a slot with the
    /// empty mask, and changes no other mask.
    pub proof fn lemma_create_wf(self)
        requires
            self.wf(),
        ensures
            self.create().wf(),
            self.create().has_slot(self.create().cursor),
            self.create().masks[self.create().cursor] == 0,
            self.create().types == self.types,
            forall|s: int| 0 <= s < self.masks.len() ==> self.create().masks[s] == self.masks[s],
    {
        let after = self.create();
        if self.has_free() {
            let s = choose|s: int| 0 <= s < self.masks.len() && self.masks[s] == 0;
            self.lemma_first_free_exists(s);
        } else {
            assert forall|s: int, j: int|
                0 <= s < after.masks.len() && after.types.len() <= j < 32 implies !#[trigger] has_bit(
                after.masks[s],
                j,
            ) by {
                if s == self.masks.len() {
                    lemma_empty_mask(j);
                }
            }
            assert forall|i: int, s: int|
                0 <= i < after.types.len() && 0 <= s < after.masks.len() && has_bit(
                    after.masks[s],
                    i,
                ) implies (#[trigger] after.columns[i][s]) is Some by {
                if s == self.masks.len() {
                    lemma_empty_mask(i);
                } else {
                    assert(self.columns[i][s] is Some);
                }
            }
        }
    }

    /// `register` keeps the invariant.
    pub proof fn lemma_register_wf(self, id: TypeId)
        requires
            self.wf(),
            self.registered(id) || self.types.len() < 32,
        ensures
            self.register(id).wf(),
    {
        let after = self.register(id);
        if self.registered(id) {
            let i = self.position(id);
            assert forall|s: int, j: int|
                0 <= s < after.masks.len() && after.types.len() <= j < 32 implies !#[trigger] has_bit(
                after.masks[s],
                j,
            ) by {
                lemma_clear_bit(self.masks[s], i, j);
                assert(!has_bit(self.masks[s], j));
            }
            assert forall|k: int, s: int|
                0 <= k < after.types.len() && 0 <= s < after.masks.len() && has_bit(
                    after.masks[s],
                    k,
                ) implies (#[trigger] after.columns[k][s]) is Some by {
                lemma_clear_bit(self.masks[s], i, k);
                assert(has_bit(self.masks[s], k));
                assert(self.columns[k][s] is Some);
            }
        } else {
            let n = self.types.len() as int;
            assert forall|a: int, b: int|
                0 <= a < after.types.len() && 0 <= b < after.types.len() && a != b implies after.types[a]
                != after.types[b] by {
                if a < n && b < n {
                    assert(self.types[a] != self.types[b]);
                }
            }
            assert forall|k: int, s: int|
                0 <= k < after.types.len() && 0 <= s < after.masks.len() && has_bit(
                    after.masks[s],
                    k,
                ) implies (#[trigger] after.columns[k][s]) is Some by {
                if k < n {
                    assert(self.columns[k][s] is Some);
                } else {
                    assert(!has_bit(self.masks[s], k));
                }
            }
        }
    }

    /// `attach` keeps the invariant.
    pub proof fn lemma_attach_wf(self, id: TypeId, slot: int, component: Component)
        requires
            self.wf(),
            self.attach_outcome(id, slot) is Ok,
        ensures
            self.attach(id, slot, component).wf(),
    {
        let after = self.attach(id, slot, component);
        let i = self.position(id);
        assert forall|s: int, j: int|
            0 <= s < after.masks.len() && after.types.len() <= j < 32 implies !#[trigger] has_bit(
            after.masks[s],
            j,
        ) by {
            assert(!has_bit(self.masks[s], j));
            lemma_set_bit(self.masks[slot], i, j);
        }
        assert forall|k: int, s: int|
            0 <= k < after.types.len() && 0 <= s < after.masks.len() && has_bit(
                after.masks[s],
                k,
            ) implies (#[trigger] after.columns[k][s]) is Some by {
            lemma_set_bit(self.masks[slot], i, k);
            if !(k == i && s == slot) {
                assert(has_bit(self.masks[s], k));
                assert(self.columns[k][s] is Some);
            }
        }
    }

    /// `detach` keeps the invariant.
    pub proof fn lemma_detach_wf(self, id: TypeId, slot: int)
        requires
            self.wf(),
            self.detach_outcome(id, slot) is Ok,
        ensures
            self.detach(id, slot).wf(),
    {
        let after = self.detach(id, slot);
        let i = self.position(id);
        assert forall|s: int, j: int|
            0 <= s < after.masks.len() && after.types.len() <= j < 32 implies !#[trigger] has_bit(
            after.masks[s],
            j,
        ) by {
            assert(!has_bit(self.masks[s], j));
            lemma_clear_bit(self.masks[slot], i, j);
        }
        assert forall|k: int, s: int|
            0 <= k < after.types.len() && 0 <= s < after.masks.len() && has_bit(
                after.masks[s],
                k,
            ) implies (#[trigger] after.columns[k][s]) is Some by {
            lemma_clear_bit(self.masks[slot], i, k);
            assert(has_bit(self.masks[s], k));
            assert(self.columns[k][s] is Some);
        }
    }

    /// `delete` keeps the invariant.
    pub proof fn lemma_delete_wf(self, slot: int)
        requires
            self.wf(),
            self.has_slot(slot),
        ensures
            self.delete(slot).wf(),
    {
        let after = self.delete(slot);
        assert forall|s: int, j: int|
            0 <= s < after.masks.len() && after.types.len() <= j < 32 implies !#[trigger] has_bit(
            after.masks[s],
            j,
        ) by {
            assert(!has_bit(self.masks[s], j));
            lemma_empty_mask(j);
        }
        assert forall|k: int, s: int|
            0 <= k < after.types.len() && 0 <= s < after.masks.len() && has_bit(
                after.masks[s],
                k,
            ) implies (#[trigger] after.columns[k][s]) is Some by {
            lemma_empty_mask(k);
            if s != slot {
                assert(has_bit(self.masks[s], k));
                assert(self.columns[k][s] is Some);
            }
        }
    }

    /// The store after the types `ids` are registered one after another.
    pub open spec fn register_all(self, ids: Seq<TypeId>) -> EntitiesView
        decreases ids.len(),
    {
        if ids.len() == 0 {
            self
        } else {
            self.register_all(ids.drop_last()).register(ids.last())
        }
    }

    /// In a well-formed store a registered type stands at one place only.
    pub proof fn lemma_position(self, i: int)
        requires
            self.wf(),
            0 <= i < self.types.len(),
        ensures
            self.registered(self.types[i]),
            self.position(self.types[i]) == i,
            self.bit_of(self.types[i]) == Some(bit(i)),
    {
        let p = self.position(self.types[i]);
        assert(0 <= p < self.types.len() && self.types[p] == self.types[i]);
    }

    /// The bits of a store are sequential powers of two in the order of
    /// registration, and no two types share one: the `i`-th type holds
    /// `1 << i`, and the bits of two types differ.
    pub proof fn lemma_bits_sequential_and_unique(self)
        requires
            self.wf(),
        ensures
            forall|i: int|
                0 <= i < self.types.len() ==> self.bit_of(#[trigger] self.types[i]) == Some(
                    1u32 << (i as u32),
                ),
            forall|a: TypeId, b: TypeId|
                self.registered(a) && self.registered(b) && a != b ==> #[trigger] self.bit_of(a)
                    != #[trigger] self.bit_of(b),
    {
        assert forall|i: int| 0 <= i < self.types.len() implies self.bit_of(
            #[trigger] self.types[i],
        ) == Some(1u32 << (i as u32)) by {
            self.lemma_position(i);
        }
        assert forall|a: TypeId, b: TypeId|
            self.registered(a) && self.registered(b) && a != b implies #[trigger] self.bit_of(a)
            != #[trigger] self.bit_of(b) by {
            let i = self.position(a);
            let j = self.position(b);
            assert(self.types[i] == a && self.types[j] == b);
            lemma_bits_distinct(i, j);
        }
    }

    /// Registering gives a new type the next bit, at the end of the registry,
    /// and changes the bit of no type: a type that is registered again keeps
    /// the one it has.
    pub proof fn lemma_register_assigns_next(self, id: TypeId)
        requires
            self.wf(),
            self.registered(id) || self.types.len() < 32,
        ensures
            self.register(id).registered(id),
            !self.registered(id) ==> self.register(id).types == self.types.push(id)
                && self.register(id).bit_of(id) == Some(bit(self.types.len() as int)),
            self.registered(id) ==> self.register(id).types == self.types,
            forall|other: TypeId|
                self.registered(other) ==> #[trigger] self.register(id).bit_of(other)
                    == self.bit_of(other),
    {
        let after = self.register(id);
        self.lemma_register_wf(id);
        if !self.registered(id) {
            let n = self.types.len() as int;
            assert(after.types[n] == id);
            after.lemma_position(n);
            assert forall|other: TypeId| self.registered(other) implies #[trigger] after.bit_of(
                other,
            ) == self.bit_of(other) by {
                let i = self.position(other);
                assert(after.types[i] == other);
                after.lemma_position(i);
            }
        }
    }

    /// For every sequence of registrations on an empty store whose distinct
    /// types fit the mask width, the registry holds the types in the order
    /// in which each was first registered, and the `i`-th of them holds the
    /// bit `1 << i`.
    pub proof fn lemma_register_sequence(ids: Seq<TypeId>)
        requires
            first_occurrences(ids).len() <= 32,
        ensures
            Self::empty().register_all(ids).wf(),
            Self::empty().register_all(ids).types == first_occurrences(ids),
            forall|i: int|
                0 <= i < first_occurrences(ids).len() ==> Self::empty().register_all(ids).bit_of(
                    #[trigger] first_occurrences(ids)[i],
                ) == Some(1u32 << (i as u32)),
        decreases ids.len(),
    {
        if ids.len() > 0 {
            let front = ids.drop_last();
            Self::lemma_register_sequence(front);
            let before = Self::empty().register_all(front);
            before.lemma_register_wf(ids.last());
            before.lemma_register_assigns_next(ids.last());
        }
        Self::empty().register_all(ids).lemma_bits_sequential_and_unique();
    }

    /// After `create`, every column is as long as the membership array, and
    /// the cursor is on a slot whose mask is empty.
    pub proof fn lemma_create_gives_empty_slot(self)
        requires
            self.wf(),
        ensures
            self.create().wf(),
            forall|i: int|
                0 <= i < self.create().columns.len() ==> (#[trigger] self.create().columns[i]).len()
                    == self.create().masks.len(),
            self.create().has_slot(self.create().cursor),
            self.create().masks[self.create().cursor] == 0,
            forall|id: TypeId| !self.create().attached(id, self.create().cursor),
    {
        self.lemma_create_wf();
        let after = self.create();
        assert forall|id: TypeId| !after.attached(id, after.cursor) by {
            if after.registered(id) {
                let i = after.position(id);
                lemma_empty_mask(i);
            }
        }
    }

    /// Attaching sets the bit of the type in the mask of the slot and no
    /// other bit, in no other mask, and the slot then holds the component.
    pub proof fn lemma_attach_sets_one_bit(self, id: TypeId, slot: int, component: Component)
        requires
            self.wf(),
            self.attach_outcome(id, slot) is Ok,
        ensures
            self.attach(id, slot, component).attached(id, slot),
            self.attach(id, slot, component).lookup(id, slot) == Ok::<Component, CustomErrors>(
                component,
            ),
            forall|j: int|
                0 <= j < 32 && j != self.position(id) ==> (has_bit(
                    self.attach(id, slot, component).masks[slot],
                    j,
                ) <==> has_bit(self.masks[slot], j)),
            forall|s: int|
                0 <= s < self.masks.len() && s != slot ==> self.attach(id, slot, component).masks[s]
                    == self.masks[s],
    {
        let after = self.attach(id, slot, component);
        let i = self.position(id);
        lemma_set_bit(self.masks[slot], i, i);
        assert forall|j: int| 0 <= j < 32 && j != i implies (has_bit(after.masks[slot], j)
            <==> has_bit(self.masks[slot], j)) by {
            lemma_set_bit(self.masks[slot], i, j);
        }
    }

    /// Attaching twice without a detach between leaves the store as the
    /// second attach alone would: the mask is that after the first attach,
    /// and the slot holds the second component.
    pub proof fn lemma_attach_twice(self, id: TypeId, slot: int, first: Component, second: Component)
        requires
            self.wf(),
            self.attach_outcome(id, slot) is Ok,
        ensures
            self.attach(id, slot, first).attach(id, slot, second).masks == self.attach(
                id,
                slot,
                first,
            ).masks,
            self.attach(id, slot, first).attach(id, slot, second).lookup(id, slot) == Ok::<
                Component,
                CustomErrors,
            >(second),
            self.attach(id, slot, first).attach(id, slot, second) == self.attach(id, slot, second),
    {
        let once = self.attach(id, slot, first);
        let twice = once.attach(id, slot, second);
        let i = self.position(id);
        lemma_set_bit_twice(self.masks[slot], i);
        self.lemma_attach_wf(id, slot, first);
        once.lemma_attach_sets_one_bit(id, slot, second);
        assert(twice.masks =~= once.masks);
        assert(twice.columns =~~= self.attach(id, slot, second).columns);
    }

    /// Detaching a component that is not attached changes nothing.
    pub proof fn lemma_detach_absent(self, id: TypeId, slot: int)
        requires
            self.wf(),
            self.detach_outcome(id, slot) is Ok,
            !self.attached(id, slot),
        ensures
            self.detach(id, slot) == self,
    {
        lemma_toggle_clears(self.masks[slot], self.position(id));
        assert(self.detach(id, slot).masks =~= self.masks);
    }

    /// Detaching a component clears the bit of its type in the mask of the
    /// slot and no other bit, in no other mask, and changes no column.
    pub proof fn lemma_detach_clears_one_bit(self, id: TypeId, slot: int)
        requires
            self.wf(),
            self.detach_outcome(id, slot) is Ok,
        ensures
            !self.detach(id, slot).attached(id, slot),
            forall|j: int|
                0 <= j < 32 && j != self.position(id) ==> (has_bit(
                    self.detach(id, slot).masks[slot],
                    j,
                ) <==> has_bit(self.masks[slot], j)),
            forall|s: int|
                0 <= s < self.masks.len() && s != slot ==> self.detach(id, slot).masks[s]
                    == self.masks[s],
            self.detach(id, slot).columns == self.columns,
            self.detach(id, slot).detach(id, slot) == self.detach(id, slot),
    {
        let after = self.detach(id, slot);
        let i = self.position(id);
        lemma_clear_bit(self.masks[slot], i, i);
        assert forall|j: int| 0 <= j < 32 && j != i implies (has_bit(after.masks[slot], j)
            <==> has_bit(self.masks[slot], j)) by {
            lemma_clear_bit(self.masks[slot], i, j);
        }
        self.lemma_detach_wf(id, slot);
        after.lemma_detach_absent(id, slot);
    }

    /// Deleting a slot empties its mask, and the next `create` takes a free
    /// slot at or below it, without a new slot.
    pub proof fn lemma_delete_then_create(self, slot: int)
        requires
            self.wf(),
            self.has_slot(slot),
        ensures
            self.delete(slot).masks[slot] == 0,
            forall|id: TypeId| !self.delete(slot).attached(id, slot),
            self.delete(slot).create().masks == self.delete(slot).masks,
            self.delete(slot).create().columns == self.columns,
            0 <= self.delete(slot).create().cursor <= slot,
    {
        let deleted = self.delete(slot);
        self.lemma_delete_wf(slot);
        deleted.lemma_first_free_exists(slot);
        assert forall|id: TypeId| !deleted.attached(id, slot) by {
            if deleted.registered(id) {
                lemma_empty_mask(deleted.position(id));
            }
        }
    }

    /// Where no slot below `slot` is free, the `create` that follows the
    /// deletion of `slot` takes `slot` itself.
    pub proof fn lemma_delete_then_create_reuses(self, slot: int)
        requires
            self.wf(),
            self.has_slot(slot),
            forall|j: int| 0 <= j < slot ==> self.masks[j] != 0,
        ensures
            self.delete(slot).create().cursor == slot,
    {
        let deleted = self.delete(slot);
        deleted.lemma_first_free_exists(slot);
        assert(deleted.is_first_free(slot));
    }

    /// A component that is attached to a slot which `create` has just handed
    /// out is the only one there: the mask of the slot is the bit of its
    /// type, the slot holds the new component, and what the slot held of any
    /// other type before cannot be read.
    pub proof fn lemma_attach_after_create(self, id: TypeId, component: Component)
        requires
            self.wf(),
            self.registered(id),
        ensures
            self.create().attach_outcome(id, self.create().cursor) is Ok,
            self.create().attach(id, self.create().cursor, component).masks[self.create().cursor]
                == bit(self.position(id)),
            self.create().attach(id, self.create().cursor, component).lookup(
                id,
                self.create().cursor,
            ) == Ok::<Component, CustomErrors>(component),
            forall|other: TypeId|
                self.registered(other) && other != id ==> #[trigger] self.create().attach(
                    id,
                    self.create().cursor,
                    component,
                ).lookup(other, self.create().cursor) == Err::<Component, CustomErrors>(
                    CustomErrors::ComponentDoesNotExists,
                ),
    {
        let created = self.create();
        let slot = created.cursor;
        let after = created.attach(id, slot, component);
        let i = self.position(id);
        self.lemma_create_wf();
        created.lemma_attach_sets_one_bit(id, slot, component);
        lemma_set_bit_twice(0u32, i);
        assert forall|other: TypeId| self.registered(other) && other != id implies #[trigger] after.lookup(
            other,
            slot,
        ) == Err::<Component, CustomErrors>(CustomErrors::ComponentDoesNotExists) by {
            let j = self.position(other);
            assert(self.types[j] == other && self.types[i] == id);
            lemma_bits_distinct(i, j);
        }
    }

    /// Where any slot is free, there is a lowest one, at or below it.
    pub proof fn lemma_first_free_exists(self, s: int)
        requires
            0 <= s < self.masks.len(),
            self.masks[s] == 0,
        ensures
            self.is_first_free(self.first_free()),
            self.first_free() <= s,
        decreases s,
    {
        if exists|j: int| 0 <= j < s && self.masks[j] == 0 {
            let j = choose|j: int| 0 <= j < s && self.masks[j] == 0;
            self.lemma_first_free_exists(j);
        } else {
            assert(self.is_first_free(s));
        }
    }
}

/// The types of `ids` in the order in which each occurs first.
pub open spec fn first_occurrences(ids: Seq<TypeId>) -> Seq<TypeId>
    decreases ids.len(),
{
    if ids.len() == 0 {
        Seq::empty()
    } else if first_occurrences(ids.drop_last()).contains(ids.last()) {
        first_occurrences(ids.drop_last())
    } else {
        first_occurrences(ids.drop_last()).push(ids.last())
    }
}

} // verus!
