//! Laws that relate the store's operations to one another, proved over the
//! model of the store.
use vstd::prelude::*;

use crate::model::ZooModel;
use crate::queries::{at_capacity, resident_count};
use crate::records::{
    Animal, CreateAnimalRequest, CreateEnclosureRequest, CreateFeedingRequest,
    CreateMedicalTreatmentRequest, CreateStaffRequest, Enclosure, Feeding, MedicalTreatment, Staff,
    UpdateAnimalRequest, UpdateEnclosureRequest, UpdateFeedingRequest,
    UpdateMedicalTreatmentRequest, UpdateStaffRequest, ZooError,
};
use crate::table::{lemma_inserted, lemma_removed, lemma_replaced};

verus! {

/// A enclosure that is created gets an id that no enclosure had before, the store stays
/// well formed (so no other enclosure shares the id), and reading the id back
/// gives the created enclosure.
pub proof fn law_create_enclosure_then_get(z: ZooModel, req: CreateEnclosureRequest)
    requires
        z.wf(),
    ensures
        ({
            let (after, r) = z.create_enclosure(req);
            r matches Ok(x) ==> !z.enclosures.has(x.id) && after.wf() && after.get_enclosure_by_id(x.id) == Ok::<Enclosure, ZooError>(x)
        }),
{
    match z.create_enclosure(req).1 {
        Ok(x) => lemma_inserted(z.enclosures, x),
        Err(_) => {},
    }
}

/// After a successful update of the enclosure `id`, reading `id` gives exactly
/// the fields of the request under that id: nothing of the old enclosure is kept.
pub proof fn law_update_enclosure_then_get(z: ZooModel, id: i64, req: UpdateEnclosureRequest)
    requires
        z.wf(),
    ensures
        ({
            let (after, r) = z.update_enclosure(id, req);
            r is Ok ==> after.get_enclosure_by_id(id) == Ok::<Enclosure, ZooError>(Enclosure { id, name: req.name, enclosure_type: req.enclosure_type, capacity: req.capacity })
        }),
{
    if z.update_enclosure(id, req).1 is Ok {
        lemma_replaced(z.enclosures, Enclosure { id, name: req.name, enclosure_type: req.enclosure_type, capacity: req.capacity });
    }
}

/// Deleting the enclosure `id` fails with `NotFound` when there is none; after a
/// successful delete, reading `id` fails with `NotFound`.
pub proof fn law_delete_enclosure_then_get(z: ZooModel, id: i64)
    requires
        z.wf(),
    ensures
        !z.enclosures.has(id) ==> z.delete_enclosure(id) == (z, Err::<(), ZooError>(ZooError::NotFound)),
        ({
            let (after, r) = z.delete_enclosure(id);
            r is Ok ==> after.get_enclosure_by_id(id) == Err::<Enclosure, ZooError>(ZooError::NotFound)
        }),
{
    if z.enclosures.has(id) {
        lemma_removed(z.enclosures, id);
    }
}

/// A staff that is created gets an id that no staff had before, the store stays
/// well formed (so no other staff shares the id), and reading the id back
/// gives the created staff.
pub proof fn law_create_staff_then_get(z: ZooModel, req: CreateStaffRequest)
    requires
        z.wf(),
    ensures
        ({
            let (after, r) = z.create_staff(req);
            r matches Ok(x) ==> !z.staff.has(x.id) && after.wf() && after.get_staff_by_id(x.id) == Ok::<Staff, ZooError>(x)
        }),
{
    match z.create_staff(req).1 {
        Ok(x) => lemma_inserted(z.staff, x),
        Err(_) => {},
    }
}

/// After a successful update of the staff `id`, reading `id` gives exactly
/// the fields of the request under that id: nothing of the old staff is kept.
pub proof fn law_update_staff_then_get(z: ZooModel, id: i64, req: UpdateStaffRequest)
    requires
        z.wf(),
    ensures
        ({
            let (after, r) = z.update_staff(id, req);
            r is Ok ==> after.get_staff_by_id(id) == Ok::<Staff, ZooError>(Staff { id, first_name: req.first_name, last_name: req.last_name, role: req.role, phone: req.phone })
        }),
{
    if z.update_staff(id, req).1 is Ok {
        lemma_replaced(z.staff, Staff { id, first_name: req.first_name, last_name: req.last_name, role: req.role, phone: req.phone });
    }
}

/// Deleting the staff `id` fails with `NotFound` when there is none; after a
/// successful delete, reading `id` fails with `NotFound`.
pub proof fn law_delete_staff_then_get(z: ZooModel, id: i64)
    requires
        z.wf(),
    ensures
        !z.staff.has(id) ==> z.delete_staff(id) == (z, Err::<(), ZooError>(ZooError::NotFound)),
        ({
            let (after, r) = z.delete_staff(id);
            r is Ok ==> after.get_staff_by_id(id) == Err::<Staff, ZooError>(ZooError::NotFound)
        }),
{
    if z.staff.has(id) {
        lemma_removed(z.staff, id);
    }
}

/// A animal that is created gets an id that no animal had before, the store stays
/// well formed (so no other animal shares the id), and reading the id back
/// gives the created animal.
pub proof fn law_create_animal_then_get(z: ZooModel, req: CreateAnimalRequest)
    requires
        z.wf(),
    ensures
        ({
            let (after, r) = z.create_animal(req);
            r matches Ok(x) ==> !z.animals.has(x.id) && after.wf() && after.get_animal_by_id(x.id) == Ok::<Animal, ZooError>(x)
        }),
{
    match z.create_animal(req).1 {
        Ok(x) => lemma_inserted(z.animals, x),
        Err(_) => {},
    }
}

/// After a successful update of the animal `id`, reading `id` gives exactly
/// the fields of the request under that id: nothing of the old animal is kept.
pub proof fn law_update_animal_then_get(z: ZooModel, id: i64, req: UpdateAnimalRequest)
    requires
        z.wf(),
    ensures
        ({
            let (after, r) = z.update_animal(id, req);
            r is Ok ==> after.get_animal_by_id(id) == Ok::<Animal, ZooError>(Animal { id, name: req.name, age: req.age, enclosure_id: req.enclosure_id, species: req.species })
        }),
{
    if z.update_animal(id, req).1 is Ok {
        lemma_replaced(z.animals, Animal { id, name: req.name, age: req.age, enclosure_id: req.enclosure_id, species: req.species });
    }
}

/// Deleting the animal `id` fails with `NotFound` when there is none; after a
/// successful delete, reading `id` fails with `NotFound`.
pub proof fn law_delete_animal_then_get(z: ZooModel, id: i64)
    requires
        z.wf(),
    ensures
        !z.animals.has(id) ==> z.delete_animal(id) == (z, Err::<(), ZooError>(ZooError::NotFound)),
        ({
            let (after, r) = z.delete_animal(id);
            r is Ok ==> after.get_animal_by_id(id) == Err::<Animal, ZooError>(ZooError::NotFound)
        }),
{
    if z.animals.has(id) {
        lemma_removed(z.animals, id);
    }
}

/// A feeding that is created gets an id that no feeding had before, the store stays
/// well formed (so no other feeding shares the id), and reading the id back
/// gives the created feeding.
pub proof fn law_create_feeding_then_get(z: ZooModel, req: CreateFeedingRequest)
    requires
        z.wf(),
    ensures
        ({
            let (after, r) = z.create_feeding(req);
            r matches Ok(x) ==> !z.feedings.has(x.id) && after.wf() && after.get_feeding_by_id(x.id) == Ok::<Feeding, ZooError>(x)
        }),
{
    match z.create_feeding(req).1 {
        Ok(x) => lemma_inserted(z.feedings, x),
        Err(_) => {},
    }
}

/// After a successful update of the feeding `id`, reading `id` gives exactly
/// the fields of the request under that id: nothing of the old feeding is kept.
pub proof fn law_update_feeding_then_get(z: ZooModel, id: i64, req: UpdateFeedingRequest)
    requires
        z.wf(),
    ensures
        ({
            let (after, r) = z.update_feeding(id, req);
            r is Ok ==> after.get_feeding_by_id(id) == Ok::<Feeding, ZooError>(Feeding { id, animal_id: req.animal_id, staff_id: req.staff_id, feeding_time: req.feeding_time })
        }),
{
    if z.update_feeding(id, req).1 is Ok {
        lemma_replaced(z.feedings, Feeding { id, animal_id: req.animal_id, staff_id: req.staff_id, feeding_time: req.feeding_time });
    }
}

/// Deleting the feeding `id` fails with `NotFound` when there is none; after a
/// successful delete, reading `id` fails with `NotFound`.
pub proof fn law_delete_feeding_then_get(z: ZooModel, id: i64)
    requires
        z.wf(),
    ensures
        !z.feedings.has(id) ==> z.delete_feeding(id) == (z, Err::<(), ZooError>(ZooError::NotFound)),
        ({
            let (after, r) = z.delete_feeding(id);
            r is Ok ==> after.get_feeding_by_id(id) == Err::<Feeding, ZooError>(ZooError::NotFound)
        }),
{
    if z.feedings.has(id) {
        lemma_removed(z.feedings, id);
    }
}

/// A medical_treatment that is created gets an id that no medical_treatment had before, the store stays
/// well formed (so no other medical_treatment shares the id), and reading the id back
/// gives the created medical_treatment.
pub proof fn law_create_medical_treatment_then_get(z: ZooModel, req: CreateMedicalTreatmentRequest)
    requires
        z.wf(),
    ensures
        ({
            let (after, r) = z.create_medical_treatment(req);
            r matches Ok(x) ==> !z.treatments.has(x.id) && after.wf() && after.get_medical_treatment_by_id(x.id) == Ok::<MedicalTreatment, ZooError>(x)
        }),
{
    match z.create_medical_treatment(req).1 {
        Ok(x) => lemma_inserted(z.treatments, x),
        Err(_) => {},
    }
}

/// After a successful update of the medical_treatment `id`, reading `id` gives exactly
/// the fields of the request under that id: nothing of the old medical_treatment is kept.
pub proof fn law_update_medical_treatment_then_get(z: ZooModel, id: i64, req: UpdateMedicalTreatmentRequest)
    requires
        z.wf(),
    ensures
        ({
            let (after, r) = z.update_medical_treatment(id, req);
            r is Ok ==> after.get_medical_treatment_by_id(id) == Ok::<MedicalTreatment, ZooError>(MedicalTreatment { id, animal_id: req.animal_id, staff_id: req.staff_id, date: req.date, description: req.description })
        }),
{
    if z.update_medical_treatment(id, req).1 is Ok {
        lemma_replaced(z.treatments, MedicalTreatment { id, animal_id: req.animal_id, staff_id: req.staff_id, date: req.date, description: req.description });
    }
}

/// Deleting the medical_treatment `id` fails with `NotFound` when there is none; after a
/// successful delete, reading `id` fails with `NotFound`.
pub proof fn law_delete_medical_treatment_then_get(z: ZooModel, id: i64)
    requires
        z.wf(),
    ensures
        !z.treatments.has(id) ==> z.delete_medical_treatment(id) == (z, Err::<(), ZooError>(ZooError::NotFound)),
        ({
            let (after, r) = z.delete_medical_treatment(id);
            r is Ok ==> after.get_medical_treatment_by_id(id) == Err::<MedicalTreatment, ZooError>(ZooError::NotFound)
        }),
{
    if z.treatments.has(id) {
        lemma_removed(z.treatments, id);
    }
}

/// Creating an animal in an enclosure that does not exist fails with
/// `ConstraintError` and leaves every table as it was.
pub proof fn law_create_animal_needs_enclosure(z: ZooModel, req: CreateAnimalRequest)
    requires
        z.wf(),
        !z.enclosures.has(req.enclosure_id),
    ensures
        z.create_animal(req) == (z, Err::<Animal, ZooError>(ZooError::ConstraintError)),
{
}

/// An enclosure of the store is among the full ones exactly when the number
/// of animals that live in it equals its capacity.
pub proof fn law_full_enclosure_membership(z: ZooModel, e: Enclosure)
    requires
        z.wf(),
        z.enclosures.rows.contains(e),
    ensures
        z.enclosures.rows.filter(at_capacity(z.animals.rows)).contains(e) <==> resident_count(
            z.animals.rows,
            e.id,
        ) == e.capacity,
{
    broadcast use vstd::seq_lib::group_filter_ensures;

    let p = at_capacity(z.animals.rows);
    let i = choose|i: int| 0 <= i < z.enclosures.rows.len() && z.enclosures.rows[i] == e;
    if p(e) {
        z.enclosures.rows.lemma_filter_contains(p, i);
    }
    if z.enclosures.rows.filter(p).contains(e) {
        let k = choose|k: int| 0 <= k < z.enclosures.rows.filter(p).len() && z.enclosures.rows.filter(p)[k] == e;
        z.enclosures.rows.lemma_filter_pred(p, k);
    }
}

} // verus!
