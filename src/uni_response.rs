//! The fixed-slot union: one slot per status of a closed, ordered list, each
//! holding a typed response (the empty one where nothing is declared), and
//! exactly one slot active in a value.

use vstd::prelude::*;
use crate::descriptor::{views, DescriptorView, ResponseDescriptor};
use crate::error::DeclarationError;
use crate::registry::{registered, SchemaEntry, SchemaRegistry};
use crate::response::{present_headers, rendered_status, Empty, ResponseType, ResponseValue};
use crate::status::{catalog, is_supported_status, support_status};
use crate::wire::{Body, WireResponse};

verus! {

/// A status of the union and the type declared for it.
#[derive(Debug, Clone, PartialEq, Eq)]
pub struct Slot {
    pub status: u16,
    pub variant: ResponseType,
}

/// The static side of a union: its slots, in order.
#[derive(Debug, Clone, PartialEq, Eq)]
pub struct SlotTable {
    pub slots: Vec<Slot>,
}

/// Why a slot cannot publish its descriptor.
#[derive(Debug, Clone, Copy, PartialEq, Eq)]
pub enum SlotErrorKind {
    /// The first descriptor of the type has no status.
    StatusMissing,
    /// The first descriptor of the type has another status than the slot.
    StatusMismatch,
}

/// A slot whose type does not fit it: a defect in the declaration.
#[derive(Debug, Clone, PartialEq, Eq)]
pub struct SlotError {
    pub response_name: String,
    pub expected: u16,
    pub kind: SlotErrorKind,
}

/// A value of a union: the index of its active slot and the value held there.
#[derive(Debug, Clone, PartialEq, Eq)]
pub struct UniResponse {
    pub slot: usize,
    pub value: ResponseValue,
}

/// The type fits the slot: it publishes nothing, or its first descriptor
/// carries the slot's status.
pub open spec fn slot_ok(status: u16, variant: ResponseType) -> bool {
    variant.descriptors@.len() == 0 || variant.descriptors@[0].status == Some(status)
}

/// What a union publishes: the first descriptor of each slot whose type
/// publishes any, in slot order.
pub open spec fn slot_meta(slots: Seq<Slot>) -> Seq<DescriptorView>
    decreases slots.len(),
{
    if slots.len() == 0 {
        Seq::empty()
    } else {
        let before = slot_meta(slots.drop_last());
        let ds = slots.last().variant.descriptors@;
        if ds.len() == 0 {
            before
        } else {
            before.push(ds[0]@)
        }
    }
}

/// The number of slots whose type publishes anything.
pub open spec fn non_empty_slots(slots: Seq<Slot>) -> nat
    decreases slots.len(),
{
    if slots.len() == 0 {
        0
    } else if slots.last().variant.descriptors@.len() == 0 {
        non_empty_slots(slots.drop_last())
    } else {
        non_empty_slots(slots.drop_last()) + 1
    }
}

/// The schemas of all slots, in slot order.
pub open spec fn slot_schemas(slots: Seq<Slot>) -> Seq<SchemaEntry>
    decreases slots.len(),
{
    if slots.len() == 0 {
        Seq::empty()
    } else {
        slot_schemas(slots.drop_last()) + slots.last().variant.schemas@
    }
}

/// `e` reports that `variant` does not fit a slot at `status`.
pub open spec fn reports(e: SlotError, status: u16, variant: ResponseType) -> bool {
    &&& e.response_name == variant.name
    &&& e.expected == status
    &&& e.kind == (if variant.descriptors@[0].status is None {
        SlotErrorKind::StatusMissing
    } else {
        SlotErrorKind::StatusMismatch
    })
}

impl SlotTable {
    /// Each slot's type is consistent and fits its slot.
    pub open spec fn wf(&self) -> bool {
        forall|i: int|
            0 <= i < self.slots@.len() ==> {
                &&& (#[trigger] self.slots@[i]).variant.wf()
                &&& slot_ok(self.slots@[i].status, self.slots@[i].variant)
            }
    }
}

/// Adds the contribution of a type at `outer_status` to `outer_responses`:
/// nothing where the type publishes nothing, its first descriptor where that
/// carries `outer_status`, and an error (adding nothing) otherwise.
pub fn meta_helper(
    outer_responses: &mut Vec<ResponseDescriptor>,
    outer_status: u16,
    variant: &ResponseType,
) -> (r: Result<(), SlotError>)
    ensures
        r is Ok <==> slot_ok(outer_status, *variant),
        r is Ok ==> views(final(outer_responses)@) == if variant.descriptors@.len() == 0 {
            views(old(outer_responses)@)
        } else {
            views(old(outer_responses)@).push(variant.descriptors@[0]@)
        },
        r matches Err(e) ==> reports(e, outer_status, *variant) && final(outer_responses)@ == old(
            outer_responses,
        )@,
{
    if variant.descriptors.len() == 0 {
        return Ok(());
    }
    match variant.descriptors[0].status {
        Some(inner_status) => {
            if inner_status == outer_status {
                let d = variant.descriptors[0].duplicate();
                let ghost before = outer_responses@;
                outer_responses.push(d);
                assert(views(outer_responses@) =~= views(before).push(d@));
                Ok(())
            } else {
                Err(
                    SlotError {
                        response_name: variant.name.clone(),
                        expected: outer_status,
                        kind: SlotErrorKind::StatusMismatch,
                    },
                )
            }
        },
        None => Err(
            SlotError {
                response_name: variant.name.clone(),
                expected: outer_status,
                kind: SlotErrorKind::StatusMissing,
            },
        ),
    }
}

impl UniResponse {
    /// The descriptors of a union: the first descriptor of each slot whose type
    /// publishes any, in slot order; an error for the first slot whose type
    /// does not fit it.
    pub fn meta(table: &SlotTable) -> (r: Result<Vec<ResponseDescriptor>, SlotError>)
        ensures
            r is Ok <==> (forall|i: int|
                0 <= i < table.slots@.len() ==> slot_ok(
                    table.slots@[i].status,
                    #[trigger] table.slots@[i].variant,
                )),
            r matches Ok(v) ==> views(v@) == slot_meta(table.slots@),
            r matches Err(e) ==> exists|i: int|
                0 <= i < table.slots@.len() && !slot_ok(table.slots@[i].status, table.slots@[i].variant)
                    && (forall|j: int|
                    0 <= j < i ==> slot_ok(table.slots@[j].status, #[trigger] table.slots@[j].variant))
                    && reports(e, table.slots@[i].status, table.slots@[i].variant),
    {
        let mut responses: Vec<ResponseDescriptor> = Vec::new();
        let mut i: usize = 0;
        while i < table.slots.len()
            invariant
                0 <= i <= table.slots@.len(),
                forall|j: int|
                    0 <= j < i ==> slot_ok(table.slots@[j].status, #[trigger] table.slots@[j].variant),
                views(responses@) == slot_meta(table.slots@.take(i as int)),
            decreases table.slots@.len() - i,
        {
            let slot = &table.slots[i];
            match meta_helper(&mut responses, slot.status, &slot.variant) {
                Ok(()) => {},
                Err(e) => {
                    return Err(e);
                },
            }
            assert(table.slots@.take(i + 1).drop_last() =~= table.slots@.take(i as int));
            i += 1;
        }
        assert(table.slots@.take(i as int) =~= table.slots@);
        Ok(responses)
    }

    /// Registers the schemas of every slot's type, active or not, in slot order.
    pub fn register(table: &SlotTable, registry: &mut SchemaRegistry)
        requires
            old(registry).wf(),
        ensures
            final(registry).wf(),
            final(registry)@ == registered(old(registry)@, slot_schemas(table.slots@)),
    {
        let mut i: usize = 0;
        while i < table.slots.len()
            invariant
                0 <= i <= table.slots@.len(),
                registry.wf(),
                registry@ == registered(old(registry)@, slot_schemas(table.slots@.take(i as int))),
            decreases table.slots@.len() - i,
        {
            let ghost before = registry@;
            table.slots[i].variant.register(registry);
            proof {
                let taken = table.slots@.take(i + 1);
                assert(taken.drop_last() =~= table.slots@.take(i as int));
                crate::registry::lemma_registered_append(
                    old(registry)@,
                    slot_schemas(table.slots@.take(i as int)),
                    table.slots@[i as int].variant.schemas@,
                );
            }
            i += 1;
        }
        assert(table.slots@.take(i as int) =~= table.slots@);
    }

    /// Renders a union value through the type of its active slot. In a
    /// consistent table a slot whose type publishes a descriptor renders with
    /// the slot's own status.
    pub fn render(self, table: &SlotTable) -> (r: WireResponse)
        requires
            self.slot < table.slots@.len(),
            self.value.headers@.len() == table.slots@[self.slot as int].variant.header_names@.len(),
        ensures
            r.status == rendered_status(table.slots@[self.slot as int].variant.status),
            table.wf() && table.slots@[self.slot as int].variant.descriptors@.len() > 0 ==> r.status
                == table.slots@[self.slot as int].status,
            r.headers@ == present_headers(
                table.slots@[self.slot as int].variant.header_names@,
                self.value.headers@,
            ),
            r.content_type == match table.slots@[self.slot as int].variant.content_type {
                Some(ct) => Some(ct),
                None => match self.value.payload {
                    Some(p) => Some(p.content_type),
                    None => None,
                },
            },
            r.body == match self.value.payload {
                Some(p) => p.body,
                None => Body::Empty,
            },
    {
        let variant = &table.slots[self.slot].variant;
        variant.render(self.value)
    }

    /// The value of a union whose active slot is the one at `status`; `None`
    /// where the union has no slot at `status`.
    pub fn at_status(table: &SlotTable, status: u16, value: ResponseValue) -> (r: Option<UniResponse>)
        ensures
            r matches Some(u) ==> u.slot < table.slots@.len() && table.slots@[u.slot as int].status
                == status && u.value == value && (forall|j: int|
                0 <= j < u.slot ==> table.slots@[j].status != status),
            r is None ==> forall|j: int| 0 <= j < table.slots@.len() ==> table.slots@[j].status != status,
    {
        let mut i: usize = 0;
        while i < table.slots.len()
            invariant
                0 <= i <= table.slots@.len(),
                forall|j: int| 0 <= j < i ==> table.slots@[j].status != status,
            decreases table.slots@.len() - i,
        {
            if table.slots[i].status == status {
                return Some(UniResponse { slot: i, value });
            }
            i += 1;
        }
        None
    }
}

/// The declared statuses that have no slot in the catalog, in declaration order.
pub open spec fn unsupported_of(decls: Seq<(u16, ResponseType)>) -> Seq<u16>
    decreases decls.len(),
{
    if decls.len() == 0 {
        Seq::empty()
    } else if catalog().contains(decls.last().0) {
        unsupported_of(decls.drop_last())
    } else {
        unsupported_of(decls.drop_last()).push(decls.last().0)
    }
}

/// The declaration at `j` repeats the status of an earlier one.
pub open spec fn repeats_status(decls: Seq<(u16, ResponseType)>, j: int) -> bool {
    exists|i: int| 0 <= i < j && decls[i].0 == decls[j].0
}

/// The type declared at `j` is consistent and fits the status it is declared at.
pub open spec fn fits(decls: Seq<(u16, ResponseType)>, j: int) -> bool {
    decls[j].1.wf() && slot_ok(decls[j].0, decls[j].1)
}

/// What a declaration validates to: the first of these that applies.
/// - An unsupported status: all such statuses, listed with the catalog.
/// - A status declared twice: the first repeated one.
/// - A type that does not fit its status: the first such.
/// - Otherwise a table with one slot per catalog status, in catalog order,
///   holding the type declared at that status, or the empty type.
pub open spec fn validates_to(
    decls: Seq<(u16, ResponseType)>,
    r: Result<SlotTable, DeclarationError>,
) -> bool {
    if unsupported_of(decls).len() > 0 {
        match r {
            Err(DeclarationError::UnsupportedStatus { unsupported, supported }) => {
                unsupported@ == unsupported_of(decls) && supported@ == catalog()
            },
            _ => false,
        }
    } else if exists|j: int| 0 <= j < decls.len() && repeats_status(decls, j) {
        exists|j: int|
            0 <= j < decls.len() && repeats_status(decls, j) && (forall|k: int|
                0 <= k < j ==> !repeats_status(decls, k)) && r == Err::<SlotTable, DeclarationError>(
                DeclarationError::DuplicateStatus(decls[j].0),
            )
    } else if exists|j: int| 0 <= j < decls.len() && !fits(decls, j) {
        exists|j: int|
            {
                &&& 0 <= j < decls.len()
                &&& !fits(decls, j)
                &&& forall|k: int| 0 <= k < j ==> fits(decls, k)
                &&& match r {
                    Err(DeclarationError::StatusMismatch { response_name, expected }) => {
                        response_name == decls[j].1.name && expected == decls[j].0
                    },
                    _ => false,
                }
            }
    } else {
        match r {
            Ok(table) => table.wf() && table.slots@.len() == catalog().len() && forall|i: int|
            0 <= i < catalog().len() ==> {
                &&& (#[trigger] table.slots@[i]).status == catalog()[i]
                &&& forall|j: int|
                    0 <= j < decls.len() && decls[j].0 == catalog()[i] ==> decls[j].1.same_as(
                        table.slots@[i].variant,
                    )
                &&& (forall|j: int| 0 <= j < decls.len() ==> decls[j].0 != catalog()[i])
                    ==> table.slots@[i].variant.is_empty_type()
            },
            Err(_) => false,
        }
    }
}

/// Validates a declaration of (status, type) pairs and assigns the types to
/// the slots of the union over the catalog.
pub fn response(decls: Vec<(u16, ResponseType)>) -> (r: Result<SlotTable, DeclarationError>)
    ensures
        validates_to(decls@, r),
{
    // statuses without a slot
    let mut unsupported: Vec<u16> = Vec::new();
    let mut i: usize = 0;
    while i < decls.len()
        invariant
            0 <= i <= decls@.len(),
            unsupported@ == unsupported_of(decls@.take(i as int)),
        decreases decls@.len() - i,
    {
        if !is_supported_status(decls[i].0) {
            unsupported.push(decls[i].0);
        }
        assert(decls@.take(i + 1).drop_last() =~= decls@.take(i as int));
        i += 1;
    }
    assert(decls@.take(i as int) =~= decls@);
    if unsupported.len() > 0 {
        return Err(DeclarationError::UnsupportedStatus { unsupported, supported: support_status() });
    }
    // statuses declared twice
    let mut j: usize = 0;
    while j < decls.len()
        invariant
            0 <= j <= decls@.len(),
            unsupported_of(decls@).len() == 0,
            forall|k: int| 0 <= k < j ==> !repeats_status(decls@, k),
        decreases decls@.len() - j,
    {
        let mut i: usize = 0;
        while i < j
            invariant
                0 <= i <= j < decls@.len(),
                forall|k: int| 0 <= k < i ==> decls@[k].0 != decls@[j as int].0,
                unsupported_of(decls@).len() == 0,
                forall|k: int| 0 <= k < j ==> !repeats_status(decls@, k),
            decreases j - i,
        {
            if decls[i].0 == decls[j].0 {
                let r: Result<SlotTable, DeclarationError> = Err(
                    DeclarationError::DuplicateStatus(decls[j].0),
                );
                assert(repeats_status(decls@, j as int));
                assert(unsupported_of(decls@).len() == 0);
                assert(exists|k: int|
                    0 <= k < decls@.len() && repeats_status(decls@, k) && (forall|x: int|
                        0 <= x < k ==> !repeats_status(decls@, x)) && r == Err::<
                        SlotTable,
                        DeclarationError,
                    >(DeclarationError::DuplicateStatus(decls@[k].0))) by {
                    assert(repeats_status(decls@, j as int));
                }
                return r;
            }
            i += 1;
        }
        j += 1;
    }
    // types that do not fit their status
    let mut j: usize = 0;
    while j < decls.len()
        invariant
            0 <= j <= decls@.len(),
            unsupported_of(decls@).len() == 0,
            forall|k: int| 0 <= k < decls@.len() ==> !repeats_status(decls@, k),
            forall|k: int| 0 <= k < j ==> fits(decls@, k),
        decreases decls@.len() - j,
    {
        let variant = &decls[j].1;
        let consistent = if variant.descriptors.len() == 0 {
            variant.status.is_none()
        } else {
            match (variant.descriptors[0].status, variant.status) {
                (Some(a), Some(b)) => a == b && a == decls[j].0,
                _ => false,
            }
        };
        if !consistent {
            let r: Result<SlotTable, DeclarationError> = Err(
                DeclarationError::StatusMismatch {
                    response_name: variant.name.clone(),
                    expected: decls[j].0,
                },
            );
            proof {
                assert(!fits(decls@, j as int));
                assert(!(exists|k: int| 0 <= k < decls@.len() && repeats_status(decls@, k)));
                let jj = j as int;
                assert({
                    &&& 0 <= jj < decls@.len()
                    &&& !fits(decls@, jj)
                    &&& forall|k: int| 0 <= k < jj ==> fits(decls@, k)
                    &&& match r {
                        Err(DeclarationError::StatusMismatch { response_name, expected }) => {
                            response_name == decls@[jj].1.name && expected == decls@[jj].0
                        },
                        _ => false,
                    }
                });
            }
            return r;
        }
        j += 1;
    }
    // one slot per catalog status
    let all = support_status();
    let mut slots: Vec<Slot> = Vec::new();
    let mut c: usize = 0;
    while c < all.len()
        invariant
            all@ == catalog(),
            0 <= c <= all@.len(),
            slots@.len() == c,
            forall|k: int| 0 <= k < decls@.len() ==> !repeats_status(decls@, k),
            forall|k: int| 0 <= k < decls@.len() ==> fits(decls@, k),
            forall|x: int|
                0 <= x < c ==> {
                    &&& (#[trigger] slots@[x]).status == catalog()[x]
                    &&& slots@[x].variant.wf()
                    &&& slot_ok(slots@[x].status, slots@[x].variant)
                    &&& forall|j: int|
                        0 <= j < decls@.len() && decls@[j].0 == catalog()[x] ==> decls@[j].1.same_as(
                            slots@[x].variant,
                        )
                    &&& (forall|j: int| 0 <= j < decls@.len() ==> decls@[j].0 != catalog()[x])
                        ==> slots@[x].variant.is_empty_type()
                },
        decreases all@.len() - c,
    {
        let status = all[c];
        let mut found: Option<usize> = None;
        let mut j: usize = 0;
        while j < decls.len()
            invariant
                0 <= j <= decls@.len(),
                found matches Some(f) ==> f < decls@.len() && decls@[f as int].0 == status,
                found is None ==> forall|k: int| 0 <= k < j ==> decls@[k].0 != status,
            decreases decls@.len() - j,
        {
            if found.is_none() && decls[j].0 == status {
                found = Some(j);
            }
            j += 1;
        }
        let variant = match found {
            Some(f) => decls[f].1.duplicate(),
            None => Empty::response_type(),
        };
        proof {
            if let Some(f) = found {
                let v = decls@[f as int].1;
                assert(fits(decls@, f as int));
                assert(views(variant.descriptors@) == views(v.descriptors@));
                assert(views(variant.descriptors@).len() == variant.descriptors@.len());
                assert(views(v.descriptors@).len() == v.descriptors@.len());
                assert(variant.descriptors@.len() == v.descriptors@.len());
                if v.descriptors@.len() > 0 {
                    assert(views(variant.descriptors@)[0] == variant.descriptors@[0]@);
                    assert(views(v.descriptors@)[0] == v.descriptors@[0]@);
                }
                assert forall|j: int| 0 <= j < decls@.len() && decls@[j].0 == status implies decls@[j].1.same_as(
                    variant,
                ) by {
                    if j != f {
                        if j < f {
                            assert(repeats_status(decls@, f as int));
                        } else {
                            assert(repeats_status(decls@, j));
                        }
                    }
                }
            }
        }
        slots.push(Slot { status, variant });
        c += 1;
    }
    let table = SlotTable { slots };
    proof {
        assert(forall|k: int| 0 <= k < decls@.len() ==> !repeats_status(decls@, k));
        assert(!(exists|k: int| 0 <= k < decls@.len() && repeats_status(decls@, k)));
        assert(!(exists|k: int| 0 <= k < decls@.len() && !fits(decls@, k)));
    }
    Ok(table)
}

/// A slot whose type publishes nothing never contributes to a union's
/// descriptors: removing it leaves them as they were, and there are as many
/// descriptors as slots whose type publishes something.
pub proof fn lemma_slot_skip(slots: Seq<Slot>, i: int)
    ensures
        slot_meta(slots).len() == non_empty_slots(slots),
        0 <= i < slots.len() && slots[i].variant.descriptors@.len() == 0 ==> slot_meta(
            slots.remove(i),
        ) == slot_meta(slots),
    decreases slots.len(),
{
    if slots.len() > 0 {
        lemma_slot_skip(slots.drop_last(), i);
        if 0 <= i < slots.len() && slots[i].variant.descriptors@.len() == 0 {
            if i == slots.len() - 1 {
                assert(slots.remove(i) =~= slots.drop_last());
            } else {
                let removed = slots.remove(i);
                assert(removed.drop_last() =~= slots.drop_last().remove(i));
                assert(removed.last() == slots.last());
            }
        }
    }
}

} // verus!
