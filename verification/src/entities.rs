//! Entities, their allocator and the table of their parts.
//!
//! All three are kept by the `entity_table` crate. This module says what the
//! calls that the world makes into that crate do, and nothing here is proved
//! of them.

use vstd::prelude::*;
use crate::components::EntityData;

verus! {

/// `entity_table::Entity`, the handle of one entity. It is carried around
/// and compared, and nothing is said of what it holds.
#[verifier::external_type_specification]
#[verifier::external_body]
pub struct ExEntity(gridbugs::entity_table::Entity);

/// `entity_table::EntityAllocator`, which hands out the entities.
#[verifier::external_type_specification]
#[verifier::external_body]
pub struct ExEntityAllocator(gridbugs::entity_table::EntityAllocator);

/// `entity_table::ComponentTable`, which keeps one entry per entity.
#[verifier::external_type_specification]
#[verifier::external_body]
#[verifier::reject_recursive_types(T)]
pub struct ExComponentTable<T>(gridbugs::entity_table::ComponentTable<T>);

/// The index of an entity: the one place in every table where its entry
/// goes. An entry put there pushes out the entry of any other entity with
/// the same index.
pub uninterp spec fn entity_slot(entity: gridbugs::entity_table::Entity) -> nat;

/// The entities that the allocator has handed out and not taken back.
pub uninterp spec fn allocator_live(allocator: gridbugs::entity_table::EntityAllocator) -> Set<
    gridbugs::entity_table::Entity,
>;

/// How many entities the allocator has handed out since it was made or last
/// cleared: the id that the next one gets.
pub uninterp spec fn allocator_issued(allocator: gridbugs::entity_table::EntityAllocator) -> nat;

/// The entries of the table: the parts of each entity that has some.
pub uninterp spec fn component_entries(
    table: gridbugs::entity_table::ComponentTable<EntityData>,
) -> Map<gridbugs::entity_table::Entity, EntityData>;

/// `EntityAllocator::default`: an allocator that has handed out nothing.
#[verifier::external_body]
pub(crate) fn new_allocator() -> (allocator: gridbugs::entity_table::EntityAllocator)
    ensures
        allocator_live(allocator) == Set::<gridbugs::entity_table::Entity>::empty(),
        allocator_issued(allocator) == 0,
{
    gridbugs::entity_table::EntityAllocator::default()
}

/// `EntityAllocator::alloc`: hands out an entity with the next id and with
/// an index that no live entity has. The id is a 32-bit counter, so the call
/// is left out once the counter stands at its last value.
#[verifier::external_body]
pub(crate) fn allocate_entity(allocator: &mut gridbugs::entity_table::EntityAllocator) -> (entity:
    gridbugs::entity_table::Entity)
    requires
        allocator_issued(*old(allocator)) < u32::MAX,
    ensures
        !allocator_live(*old(allocator)).contains(entity),
        forall|other: gridbugs::entity_table::Entity|
            allocator_live(*old(allocator)).contains(other) ==> entity_slot(other) != entity_slot(
                entity,
            ),
        allocator_live(*final(allocator)) == allocator_live(*old(allocator)).insert(entity),
        allocator_issued(*final(allocator)) == allocator_issued(*old(allocator)) + 1,
{
    allocator.alloc()
}

/// `ComponentTable::default`: a table without entries.
#[verifier::external_body]
pub(crate) fn new_components() -> (table: gridbugs::entity_table::ComponentTable<EntityData>)
    ensures
        forall|entity: gridbugs::entity_table::Entity|
            !component_entries(table).contains_key(entity),
{
    gridbugs::entity_table::ComponentTable::default()
}

/// `ComponentTable::insert`: sets the entry of `entity` and returns the one
/// it had. The call is made only where no other entity of the table shares
/// the index of `entity`; every other entry then stays.
#[verifier::external_body]
pub(crate) fn insert_component(
    table: &mut gridbugs::entity_table::ComponentTable<EntityData>,
    entity: gridbugs::entity_table::Entity,
    data: EntityData,
) -> (previous: Option<EntityData>)
    requires
        forall|other: gridbugs::entity_table::Entity|
            component_entries(*old(table)).contains_key(other) && other != entity ==> entity_slot(
                other,
            ) != entity_slot(entity),
    ensures
        component_entries(*final(table)) == component_entries(*old(table)).insert(entity, data),
        previous == if component_entries(*old(table)).contains_key(entity) {
            Some(component_entries(*old(table))[entity])
        } else {
            None
        },
{
    table.insert(entity, data)
}

/// `ComponentTable::get`: the entry of `entity`, if it has one.
#[verifier::external_body]
pub(crate) fn get_component(
    table: &gridbugs::entity_table::ComponentTable<EntityData>,
    entity: gridbugs::entity_table::Entity,
) -> (data: Option<EntityData>)
    ensures
        data == if component_entries(*table).contains_key(entity) {
            Some(component_entries(*table)[entity])
        } else {
            None
        },
{
    table.get(entity).copied()
}

/// `ComponentTable::iter`: every entry of the table once, each with its
/// entity. The order is that of the table's store and is left open here.
#[verifier::external_body]
pub(crate) fn list_components(table: &gridbugs::entity_table::ComponentTable<EntityData>) -> (all:
    Vec<(gridbugs::entity_table::Entity, EntityData)>)
    ensures
        forall|i: int|
            0 <= i < all@.len() ==> component_entries(*table).contains_key((#[trigger] all@[i]).0)
                && component_entries(*table)[all@[i].0] == all@[i].1,
        forall|i: int, j: int|
            0 <= i < j < all@.len() ==> (#[trigger] all@[i]).0 != (#[trigger] all@[j]).0,
        forall|entity: gridbugs::entity_table::Entity|
            component_entries(*table).contains_key(entity) ==> exists|i: int|
                0 <= i < all@.len() && (#[trigger] all@[i]).0 == entity,
{
    table.iter().map(|(entity, data)| (entity, *data)).collect()
}

} // verus!
