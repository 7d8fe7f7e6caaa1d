//! The store as a mathematical value: five tables, the integrity that binds
//! them, and what each operation does to them and returns.
use vstd::prelude::*;

use crate::records::{
    Animal, CreateAnimalRequest, CreateEnclosureRequest, CreateFeedingRequest,
    CreateMedicalTreatmentRequest, CreateStaffRequest, Dependent, Enclosure, Feeding,
    MedicalTreatment, Staff, UpdateAnimalRequest, UpdateEnclosureRequest, UpdateFeedingRequest,
    UpdateMedicalTreatmentRequest, UpdateStaffRequest, ZooError,
};
use crate::table::{lemma_index_of, TableModel};

verus! {

pub struct ZooModel {
    pub enclosures: TableModel<Enclosure>,
    pub staff: TableModel<Staff>,
    pub animals: TableModel<Animal>,
    pub feedings: TableModel<Feeding>,
    pub treatments: TableModel<MedicalTreatment>,
}

/// Every row of `rows` names an animal and a member of staff that exist.
pub open spec fn dependents_resolve<T: Dependent>(
    rows: Seq<T>,
    animals: TableModel<Animal>,
    staff: TableModel<Staff>,
) -> bool {
    forall|i: int|
        0 <= i < rows.len() ==> animals.has(#[trigger] rows[i].animal_ref()) && staff.has(
            rows[i].staff_ref(),
        )
}

pub open spec fn refers_to_animal<T: Dependent>(rows: Seq<T>, id: i64) -> bool {
    exists|i: int| 0 <= i < rows.len() && #[trigger] rows[i].animal_ref() == id
}

pub open spec fn refers_to_staff<T: Dependent>(rows: Seq<T>, id: i64) -> bool {
    exists|i: int| 0 <= i < rows.len() && #[trigger] rows[i].staff_ref() == id
}

/// A row whose references resolve may join rows whose references resolve.
pub proof fn lemma_dependents_inserted<T: Dependent>(
    t: TableModel<T>,
    row: T,
    animals: TableModel<Animal>,
    staff: TableModel<Staff>,
)
    requires
        dependents_resolve(t.rows, animals, staff),
        animals.has(row.animal_ref()),
        staff.has(row.staff_ref()),
    ensures
        dependents_resolve(t.inserted(row).rows, animals, staff),
{
    let u = t.inserted(row).rows;
    assert forall|i: int| 0 <= i < u.len() implies animals.has(#[trigger] u[i].animal_ref())
        && staff.has(u[i].staff_ref()) by {
        if i < t.rows.len() {
            assert(u[i] == t.rows[i]);
        }
    }
}

/// Replacing a row by one whose references resolve keeps every reference resolved.
pub proof fn lemma_dependents_replaced<T: Dependent>(
    t: TableModel<T>,
    row: T,
    animals: TableModel<Animal>,
    staff: TableModel<Staff>,
)
    requires
        t.wf(),
        t.has(row.key()),
        dependents_resolve(t.rows, animals, staff),
        animals.has(row.animal_ref()),
        staff.has(row.staff_ref()),
    ensures
        dependents_resolve(t.replaced(row).rows, animals, staff),
{
    lemma_index_of(t, row.key());
    let u = t.replaced(row).rows;
    assert forall|i: int| 0 <= i < u.len() implies animals.has(#[trigger] u[i].animal_ref())
        && staff.has(u[i].staff_ref()) by {
        if i != t.index_of(row.key()) {
            assert(u[i] == t.rows[i]);
        }
    }
}

/// Removing a row keeps every remaining reference resolved.
pub proof fn lemma_dependents_removed<T: Dependent>(
    t: TableModel<T>,
    id: i64,
    animals: TableModel<Animal>,
    staff: TableModel<Staff>,
)
    requires
        t.wf(),
        t.has(id),
        dependents_resolve(t.rows, animals, staff),
    ensures
        dependents_resolve(t.removed(id).rows, animals, staff),
{
    let k = t.index_of(id);
    lemma_index_of(t, id);
    t.rows.remove_ensures(k);
    let u = t.removed(id).rows;
    assert forall|i: int| 0 <= i < u.len() implies animals.has(#[trigger] u[i].animal_ref())
        && staff.has(u[i].staff_ref()) by {
        if i < k {
            assert(u[i] == t.rows[i]);
        } else {
            assert(u[i] == t.rows[i + 1]);
        }
    }
}

impl ZooModel {
    pub open spec fn empty() -> Self {
        ZooModel {
            enclosures: TableModel::empty(),
            staff: TableModel::empty(),
            animals: TableModel::empty(),
            feedings: TableModel::empty(),
            treatments: TableModel::empty(),
        }
    }

    /// Each table is well formed and every reference names an existing row.
    pub open spec fn wf(self) -> bool {
        &&& self.enclosures.wf()
        &&& self.staff.wf()
        &&& self.animals.wf()
        &&& self.feedings.wf()
        &&& self.treatments.wf()
        &&& forall|i: int|
            0 <= i < self.animals.rows.len() ==> self.enclosures.has(
                #[trigger] self.animals.rows[i].enclosure_id,
            )
        &&& dependents_resolve(self.feedings.rows, self.animals, self.staff)
        &&& dependents_resolve(self.treatments.rows, self.animals, self.staff)
    }

    pub open spec fn enclosure_in_use(self, id: i64) -> bool {
        exists|i: int|
            0 <= i < self.animals.rows.len() && #[trigger] self.animals.rows[i].enclosure_id == id
    }

    pub open spec fn animal_in_use(self, id: i64) -> bool {
        refers_to_animal(self.feedings.rows, id) || refers_to_animal(self.treatments.rows, id)
    }

    pub open spec fn staff_in_use(self, id: i64) -> bool {
        refers_to_staff(self.feedings.rows, id) || refers_to_staff(self.treatments.rows, id)
    }

    // Enclosures
    pub open spec fn create_enclosure(self, req: CreateEnclosureRequest) -> (Self, Result<Enclosure, ZooError>) {
        if req.capacity < 0 {
            (self, Err(ZooError::ValidationError))
        } else {
            match self.enclosures.next_id() {
                None => (self, Err(ZooError::StorageError)),
                Some(id) => {
                    let e = Enclosure {
                        id,
                        name: req.name,
                        enclosure_type: req.enclosure_type,
                        capacity: req.capacity,
                    };
                    (ZooModel { enclosures: self.enclosures.inserted(e), ..self }, Ok(e))
                },
            }
        }
    }

    pub open spec fn get_enclosure_by_id(self, id: i64) -> Result<Enclosure, ZooError> {
        match self.enclosures.lookup(id) {
            Some(e) => Ok(e),
            None => Err(ZooError::NotFound),
        }
    }

    pub open spec fn update_enclosure(self, id: i64, req: UpdateEnclosureRequest) -> (Self, Result<Enclosure, ZooError>) {
        if req.capacity < 0 {
            (self, Err(ZooError::ValidationError))
        } else if !self.enclosures.has(id) {
            (self, Err(ZooError::NotFound))
        } else {
            let e = Enclosure {
                id,
                name: req.name,
                enclosure_type: req.enclosure_type,
                capacity: req.capacity,
            };
            (ZooModel { enclosures: self.enclosures.replaced(e), ..self }, Ok(e))
        }
    }

    pub open spec fn delete_enclosure(self, id: i64) -> (Self, Result<(), ZooError>) {
        if !self.enclosures.has(id) {
            (self, Err(ZooError::NotFound))
        } else if self.enclosure_in_use(id) {
            (self, Err(ZooError::ConstraintError))
        } else {
            (ZooModel { enclosures: self.enclosures.removed(id), ..self }, Ok(()))
        }
    }

    // Staff
    pub open spec fn create_staff(self, req: CreateStaffRequest) -> (Self, Result<Staff, ZooError>) {
        match self.staff.next_id() {
            None => (self, Err(ZooError::StorageError)),
            Some(id) => {
                let s = Staff {
                    id,
                    first_name: req.first_name,
                    last_name: req.last_name,
                    role: req.role,
                    phone: req.phone,
                };
                (ZooModel { staff: self.staff.inserted(s), ..self }, Ok(s))
            },
        }
    }

    pub open spec fn get_staff_by_id(self, id: i64) -> Result<Staff, ZooError> {
        match self.staff.lookup(id) {
            Some(s) => Ok(s),
            None => Err(ZooError::NotFound),
        }
    }

    pub open spec fn update_staff(self, id: i64, req: UpdateStaffRequest) -> (Self, Result<Staff, ZooError>) {
        if !self.staff.has(id) {
            (self, Err(ZooError::NotFound))
        } else {
            let s = Staff {
                id,
                first_name: req.first_name,
                last_name: req.last_name,
                role: req.role,
                phone: req.phone,
            };
            (ZooModel { staff: self.staff.replaced(s), ..self }, Ok(s))
        }
    }

    pub open spec fn delete_staff(self, id: i64) -> (Self, Result<(), ZooError>) {
        if !self.staff.has(id) {
            (self, Err(ZooError::NotFound))
        } else if self.staff_in_use(id) {
            (self, Err(ZooError::ConstraintError))
        } else {
            (ZooModel { staff: self.staff.removed(id), ..self }, Ok(()))
        }
    }

    // Animals
    pub open spec fn create_animal(self, req: CreateAnimalRequest) -> (Self, Result<Animal, ZooError>) {
        if !self.enclosures.has(req.enclosure_id) {
            (self, Err(ZooError::ConstraintError))
        } else {
            match self.animals.next_id() {
                None => (self, Err(ZooError::StorageError)),
                Some(id) => {
                    let a = Animal {
                        id,
                        name: req.name,
                        age: req.age,
                        enclosure_id: req.enclosure_id,
                        species: req.species,
                    };
                    (ZooModel { animals: self.animals.inserted(a), ..self }, Ok(a))
                },
            }
        }
    }

    pub open spec fn get_animal_by_id(self, id: i64) -> Result<Animal, ZooError> {
        match self.animals.lookup(id) {
            Some(a) => Ok(a),
            None => Err(ZooError::NotFound),
        }
    }

    pub open spec fn update_animal(self, id: i64, req: UpdateAnimalRequest) -> (Self, Result<Animal, ZooError>) {
        if !self.animals.has(id) {
            (self, Err(ZooError::NotFound))
        } else if !self.enclosures.has(req.enclosure_id) {
            (self, Err(ZooError::ConstraintError))
        } else {
            let a = Animal {
                id,
                name: req.name,
                age: req.age,
                enclosure_id: req.enclosure_id,
                species: req.species,
            };
            (ZooModel { animals: self.animals.replaced(a), ..self }, Ok(a))
        }
    }

    pub open spec fn delete_animal(self, id: i64) -> (Self, Result<(), ZooError>) {
        if !self.animals.has(id) {
            (self, Err(ZooError::NotFound))
        } else if self.animal_in_use(id) {
            (self, Err(ZooError::ConstraintError))
        } else {
            (ZooModel { animals: self.animals.removed(id), ..self }, Ok(()))
        }
    }

    // Feedings
    pub open spec fn create_feeding(self, req: CreateFeedingRequest) -> (Self, Result<Feeding, ZooError>) {
        if !req.feeding_time.valid() {
            (self, Err(ZooError::ValidationError))
        } else if !self.animals.has(req.animal_id) || !self.staff.has(req.staff_id) {
            (self, Err(ZooError::ConstraintError))
        } else {
            match self.feedings.next_id() {
                None => (self, Err(ZooError::StorageError)),
                Some(id) => {
                    let f = Feeding {
                        id,
                        animal_id: req.animal_id,
                        staff_id: req.staff_id,
                        feeding_time: req.feeding_time,
                    };
                    (ZooModel { feedings: self.feedings.inserted(f), ..self }, Ok(f))
                },
            }
        }
    }

    pub open spec fn get_feeding_by_id(self, id: i64) -> Result<Feeding, ZooError> {
        match self.feedings.lookup(id) {
            Some(f) => Ok(f),
            None => Err(ZooError::NotFound),
        }
    }

    pub open spec fn update_feeding(self, id: i64, req: UpdateFeedingRequest) -> (Self, Result<Feeding, ZooError>) {
        if !req.feeding_time.valid() {
            (self, Err(ZooError::ValidationError))
        } else if !self.feedings.has(id) {
            (self, Err(ZooError::NotFound))
        } else if !self.animals.has(req.animal_id) || !self.staff.has(req.staff_id) {
            (self, Err(ZooError::ConstraintError))
        } else {
            let f = Feeding {
                id,
                animal_id: req.animal_id,
                staff_id: req.staff_id,
                feeding_time: req.feeding_time,
            };
            (ZooModel { feedings: self.feedings.replaced(f), ..self }, Ok(f))
        }
    }

    pub open spec fn delete_feeding(self, id: i64) -> (Self, Result<(), ZooError>) {
        if !self.feedings.has(id) {
            (self, Err(ZooError::NotFound))
        } else {
            (ZooModel { feedings: self.feedings.removed(id), ..self }, Ok(()))
        }
    }

    // Medical treatments
    pub open spec fn create_medical_treatment(self, req: CreateMedicalTreatmentRequest) -> (Self, Result<MedicalTreatment, ZooError>) {
        if !req.date.valid() {
            (self, Err(ZooError::ValidationError))
        } else if !self.animals.has(req.animal_id) || !self.staff.has(req.staff_id) {
            (self, Err(ZooError::ConstraintError))
        } else {
            match self.treatments.next_id() {
                None => (self, Err(ZooError::StorageError)),
                Some(id) => {
                    let m = MedicalTreatment {
                        id,
                        animal_id: req.animal_id,
                        staff_id: req.staff_id,
                        date: req.date,
                        description: req.description,
                    };
                    (ZooModel { treatments: self.treatments.inserted(m), ..self }, Ok(m))
                },
            }
        }
    }

    pub open spec fn get_medical_treatment_by_id(self, id: i64) -> Result<MedicalTreatment, ZooError> {
        match self.treatments.lookup(id) {
            Some(m) => Ok(m),
            None => Err(ZooError::NotFound),
        }
    }

    pub open spec fn update_medical_treatment(self, id: i64, req: UpdateMedicalTreatmentRequest) -> (Self, Result<MedicalTreatment, ZooError>) {
        if !req.date.valid() {
            (self, Err(ZooError::ValidationError))
        } else if !self.treatments.has(id) {
            (self, Err(ZooError::NotFound))
        } else if !self.animals.has(req.animal_id) || !self.staff.has(req.staff_id) {
            (self, Err(ZooError::ConstraintError))
        } else {
            let m = MedicalTreatment {
                id,
                animal_id: req.animal_id,
                staff_id: req.staff_id,
                date: req.date,
                description: req.description,
            };
            (ZooModel { treatments: self.treatments.replaced(m), ..self }, Ok(m))
        }
    }

    pub open spec fn delete_medical_treatment(self, id: i64) -> (Self, Result<(), ZooError>) {
        if !self.treatments.has(id) {
            (self, Err(ZooError::NotFound))
        } else {
            (ZooModel { treatments: self.treatments.removed(id), ..self }, Ok(()))
        }
    }
}

} // verus!
