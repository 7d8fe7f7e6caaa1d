//! The store itself: five tables held in memory, and the create, read,
//! update and delete operations on each, which keep every reference valid.
use vstd::prelude::*;

use crate::model::{
    lemma_dependents_inserted, lemma_dependents_removed, lemma_dependents_replaced,
    refers_to_animal, refers_to_staff, ZooModel,
};
use crate::records::{
    Animal, CreateAnimalRequest, CreateEnclosureRequest, CreateFeedingRequest,
    CreateMedicalTreatmentRequest, CreateStaffRequest, Dependent, Enclosure, Feeding,
    MedicalTreatment, Record, Staff, UpdateAnimalRequest, UpdateEnclosureRequest,
    UpdateFeedingRequest, UpdateMedicalTreatmentRequest, UpdateStaffRequest, ZooError,
};
use crate::table::{lemma_inserted, lemma_removed, lemma_replaced, Table};

verus! {

/// The five tables of the zoo.
///
/// Every reference between rows names an existing row: creates and updates
/// with a dangling reference are refused, and so is deleting an enclosure,
/// an animal or a member of staff while other rows still refer to it
/// (`ZooError::ConstraintError`); nothing is deleted in cascade. Each
/// operation either applies in full or leaves the store as it was.
pub struct ZooStore {
    pub(crate) enclosures: Table<Enclosure>,
    pub(crate) staff: Table<Staff>,
    pub(crate) animals: Table<Animal>,
    pub(crate) feedings: Table<Feeding>,
    pub(crate) treatments: Table<MedicalTreatment>,
}

impl View for ZooStore {
    type V = ZooModel;

    closed spec fn view(&self) -> ZooModel {
        ZooModel {
            enclosures: self.enclosures@,
            staff: self.staff@,
            animals: self.animals@,
            feedings: self.feedings@,
            treatments: self.treatments@,
        }
    }
}

/// The model of a store is made of the models of its tables.
pub(crate) broadcast proof fn lemma_view_parts(s: &ZooStore)
    ensures
        #[trigger] s@ == (ZooModel {
            enclosures: s.enclosures@,
            staff: s.staff@,
            animals: s.animals@,
            feedings: s.feedings@,
            treatments: s.treatments@,
        }),
{
}

/// Whether some row of `rows` refers to the animal `id`.
fn any_refers_to_animal<T: Dependent>(rows: &Vec<T>, id: i64) -> (r: bool)
    ensures
        r == refers_to_animal(rows@, id),
{
    let mut i: usize = 0;
    while i < rows.len()
        invariant
            i <= rows@.len(),
            forall|j: int| 0 <= j < i ==> #[trigger] rows@[j].animal_ref() != id,
        decreases rows@.len() - i,
    {
        if rows[i].animal_id_of() == id {
            return true;
        }
        i = i + 1;
    }
    false
}

/// Whether some row of `rows` refers to the member of staff `id`.
fn any_refers_to_staff<T: Dependent>(rows: &Vec<T>, id: i64) -> (r: bool)
    ensures
        r == refers_to_staff(rows@, id),
{
    let mut i: usize = 0;
    while i < rows.len()
        invariant
            i <= rows@.len(),
            forall|j: int| 0 <= j < i ==> #[trigger] rows@[j].staff_ref() != id,
        decreases rows@.len() - i,
    {
        if rows[i].staff_id_of() == id {
            return true;
        }
        i = i + 1;
    }
    false
}

impl ZooStore {
    /// A store with five empty tables.
    pub fn new() -> (r: Self)
        ensures
            r@ == ZooModel::empty(),
            r@.wf(),
    {
        ZooStore {
            enclosures: Table::new(),
            staff: Table::new(),
            animals: Table::new(),
            feedings: Table::new(),
            treatments: Table::new(),
        }
    }

    fn enclosure_in_use(&self, id: i64) -> (r: bool)
        ensures
            r == self@.enclosure_in_use(id),
    {
        let rows = self.animals.rows();
        let mut i: usize = 0;
        while i < rows.len()
            invariant
                i <= rows@.len(),
                rows@ == self@.animals.rows,
                forall|j: int| 0 <= j < i ==> #[trigger] rows@[j].enclosure_id != id,
            decreases rows@.len() - i,
        {
            if rows[i].enclosure_id == id {
                return true;
            }
            i = i + 1;
        }
        false
    }

    fn animal_in_use(&self, id: i64) -> (r: bool)
        ensures
            r == self@.animal_in_use(id),
    {
        any_refers_to_animal(self.feedings.rows(), id) || any_refers_to_animal(
            self.treatments.rows(),
            id,
        )
    }

    fn staff_in_use(&self, id: i64) -> (r: bool)
        ensures
            r == self@.staff_in_use(id),
    {
        any_refers_to_staff(self.feedings.rows(), id) || any_refers_to_staff(
            self.treatments.rows(),
            id,
        )
    }

    // Enclosures
    pub fn create_enclosure(&mut self, req: CreateEnclosureRequest) -> (r: Result<Enclosure, ZooError>)
        requires
            old(self)@.wf(),
        ensures
            (final(self)@, r) == old(self)@.create_enclosure(req),
            final(self)@.wf(),
    {
        if req.capacity < 0 {
            return Err(ZooError::ValidationError);
        }
        match self.enclosures.next_id() {
            None => Err(ZooError::StorageError),
            Some(id) => {
                let e = Enclosure {
                    id,
                    name: req.name,
                    enclosure_type: req.enclosure_type,
                    capacity: req.capacity,
                };
                let out = e.duplicate();
                proof {
                    lemma_inserted(self.enclosures@, e);
                }
                self.enclosures.insert(e);
                Ok(out)
            },
        }
    }

    /// Every enclosure, in ascending order of id.
    pub fn get_enclosures(&self) -> (r: Vec<Enclosure>)
        ensures
            r@ == self@.enclosures.rows,
    {
        self.enclosures.list()
    }

    pub fn get_enclosure_by_id(&self, id: i64) -> (r: Result<Enclosure, ZooError>)
        requires
            self@.wf(),
        ensures
            r == self@.get_enclosure_by_id(id),
    {
        match self.enclosures.get(id) {
            Some(e) => Ok(e),
            None => Err(ZooError::NotFound),
        }
    }

    pub fn update_enclosure(&mut self, id: i64, req: UpdateEnclosureRequest) -> (r: Result<Enclosure, ZooError>)
        requires
            old(self)@.wf(),
        ensures
            (final(self)@, r) == old(self)@.update_enclosure(id, req),
            final(self)@.wf(),
    {
        if req.capacity < 0 {
            return Err(ZooError::ValidationError);
        }
        if !self.enclosures.contains(id) {
            return Err(ZooError::NotFound);
        }
        let e = Enclosure {
            id,
            name: req.name,
            enclosure_type: req.enclosure_type,
            capacity: req.capacity,
        };
        let out = e.duplicate();
        proof {
            lemma_replaced(self.enclosures@, e);
        }
        self.enclosures.replace(e);
        Ok(out)
    }

    pub fn delete_enclosure(&mut self, id: i64) -> (r: Result<(), ZooError>)
        requires
            old(self)@.wf(),
        ensures
            (final(self)@, r) == old(self)@.delete_enclosure(id),
            final(self)@.wf(),
    {
        if !self.enclosures.contains(id) {
            return Err(ZooError::NotFound);
        }
        if self.enclosure_in_use(id) {
            return Err(ZooError::ConstraintError);
        }
        proof {
            lemma_removed(self.enclosures@, id);
            assert(forall|i: int|
                0 <= i < self@.animals.rows.len() ==> #[trigger] self@.animals.rows[i].enclosure_id != id);
        }
        self.enclosures.remove(id);
        Ok(())
    }

    // Staff
    pub fn create_staff(&mut self, req: CreateStaffRequest) -> (r: Result<Staff, ZooError>)
        requires
            old(self)@.wf(),
        ensures
            (final(self)@, r) == old(self)@.create_staff(req),
            final(self)@.wf(),
    {
        match self.staff.next_id() {
            None => Err(ZooError::StorageError),
            Some(id) => {
                let s = Staff {
                    id,
                    first_name: req.first_name,
                    last_name: req.last_name,
                    role: req.role,
                    phone: req.phone,
                };
                let out = s.duplicate();
                proof {
                    lemma_inserted(self.staff@, s);
                }
                self.staff.insert(s);
                Ok(out)
            },
        }
    }

    /// Every member of staff, in ascending order of id.
    pub fn get_staff(&self) -> (r: Vec<Staff>)
        ensures
            r@ == self@.staff.rows,
    {
        self.staff.list()
    }

    pub fn get_staff_by_id(&self, id: i64) -> (r: Result<Staff, ZooError>)
        requires
            self@.wf(),
        ensures
            r == self@.get_staff_by_id(id),
    {
        match self.staff.get(id) {
            Some(s) => Ok(s),
            None => Err(ZooError::NotFound),
        }
    }

    pub fn update_staff(&mut self, id: i64, req: UpdateStaffRequest) -> (r: Result<Staff, ZooError>)
        requires
            old(self)@.wf(),
        ensures
            (final(self)@, r) == old(self)@.update_staff(id, req),
            final(self)@.wf(),
    {
        if !self.staff.contains(id) {
            return Err(ZooError::NotFound);
        }
        let s = Staff {
            id,
            first_name: req.first_name,
            last_name: req.last_name,
            role: req.role,
            phone: req.phone,
        };
        let out = s.duplicate();
        proof {
            lemma_replaced(self.staff@, s);
        }
        self.staff.replace(s);
        Ok(out)
    }

    pub fn delete_staff(&mut self, id: i64) -> (r: Result<(), ZooError>)
        requires
            old(self)@.wf(),
        ensures
            (final(self)@, r) == old(self)@.delete_staff(id),
            final(self)@.wf(),
    {
        if !self.staff.contains(id) {
            return Err(ZooError::NotFound);
        }
        if self.staff_in_use(id) {
            return Err(ZooError::ConstraintError);
        }
        proof {
            lemma_removed(self.staff@, id);
            assert(forall|i: int|
                0 <= i < self@.feedings.rows.len() ==> #[trigger] self@.feedings.rows[i].staff_ref() != id);
            assert(forall|i: int|
                0 <= i < self@.treatments.rows.len() ==> #[trigger] self@.treatments.rows[i].staff_ref() != id);
        }
        self.staff.remove(id);
        Ok(())
    }

    // Animals
    pub fn create_animal(&mut self, req: CreateAnimalRequest) -> (r: Result<Animal, ZooError>)
        requires
            old(self)@.wf(),
        ensures
            (final(self)@, r) == old(self)@.create_animal(req),
            final(self)@.wf(),
    {
        if !self.enclosures.contains(req.enclosure_id) {
            return Err(ZooError::ConstraintError);
        }
        match self.animals.next_id() {
            None => Err(ZooError::StorageError),
            Some(id) => {
                let a = Animal {
                    id,
                    name: req.name,
                    age: req.age,
                    enclosure_id: req.enclosure_id,
                    species: req.species,
                };
                let out = a.duplicate();
                proof {
                    lemma_inserted(self.animals@, a);
                    let grown = self.animals@.inserted(a);
                    assert forall|i: int| 0 <= i < grown.rows.len() implies self@.enclosures.has(
                        #[trigger] grown.rows[i].enclosure_id,
                    ) by {
                        if i < self@.animals.rows.len() {
                            assert(grown.rows[i] == self@.animals.rows[i]);
                        }
                    }
                }
                self.animals.insert(a);
                Ok(out)
            },
        }
    }

    /// Every animal, in ascending order of id.
    pub fn get_animals(&self) -> (r: Vec<Animal>)
        ensures
            r@ == self@.animals.rows,
    {
        self.animals.list()
    }

    pub fn get_animal_by_id(&self, id: i64) -> (r: Result<Animal, ZooError>)
        requires
            self@.wf(),
        ensures
            r == self@.get_animal_by_id(id),
    {
        match self.animals.get(id) {
            Some(a) => Ok(a),
            None => Err(ZooError::NotFound),
        }
    }

    pub fn update_animal(&mut self, id: i64, req: UpdateAnimalRequest) -> (r: Result<Animal, ZooError>)
        requires
            old(self)@.wf(),
        ensures
            (final(self)@, r) == old(self)@.update_animal(id, req),
            final(self)@.wf(),
    {
        if !self.animals.contains(id) {
            return Err(ZooError::NotFound);
        }
        if !self.enclosures.contains(req.enclosure_id) {
            return Err(ZooError::ConstraintError);
        }
        let a = Animal {
            id,
            name: req.name,
            age: req.age,
            enclosure_id: req.enclosure_id,
            species: req.species,
        };
        let out = a.duplicate();
        proof {
            lemma_replaced(self.animals@, a);
            let t = self.animals@;
            let changed = t.replaced(a);
            assert forall|i: int| 0 <= i < changed.rows.len() implies self@.enclosures.has(
                #[trigger] changed.rows[i].enclosure_id,
            ) by {
                if i != t.index_of(id) {
                    assert(changed.rows[i] == t.rows[i]);
                }
            }
        }
        self.animals.replace(a);
        Ok(out)
    }

    pub fn delete_animal(&mut self, id: i64) -> (r: Result<(), ZooError>)
        requires
            old(self)@.wf(),
        ensures
            (final(self)@, r) == old(self)@.delete_animal(id),
            final(self)@.wf(),
    {
        if !self.animals.contains(id) {
            return Err(ZooError::NotFound);
        }
        if self.animal_in_use(id) {
            return Err(ZooError::ConstraintError);
        }
        proof {
            let t = self.animals@;
            lemma_removed(t, id);
            let k = t.index_of(id);
            t.rows.remove_ensures(k);
            assert(forall|i: int|
                0 <= i < self@.feedings.rows.len() ==> #[trigger] self@.feedings.rows[i].animal_ref() != id);
            assert(forall|i: int|
                0 <= i < self@.treatments.rows.len() ==> #[trigger] self@.treatments.rows[i].animal_ref() != id);
            let shrunk = t.removed(id);
            assert forall|i: int| 0 <= i < shrunk.rows.len() implies self@.enclosures.has(
                #[trigger] shrunk.rows[i].enclosure_id,
            ) by {
                if i < k {
                    assert(shrunk.rows[i] == t.rows[i]);
                } else {
                    assert(shrunk.rows[i] == t.rows[i + 1]);
                }
            }
        }
        self.animals.remove(id);
        Ok(())
    }
}

impl ZooStore {
    // Feedings
    pub fn create_feeding(&mut self, req: CreateFeedingRequest) -> (r: Result<Feeding, ZooError>)
        requires
            old(self)@.wf(),
        ensures
            (final(self)@, r) == old(self)@.create_feeding(req),
            final(self)@.wf(),
    {
        if !req.feeding_time.is_valid() {
            return Err(ZooError::ValidationError);
        }
        if !self.animals.contains(req.animal_id) || !self.staff.contains(req.staff_id) {
            return Err(ZooError::ConstraintError);
        }
        match self.feedings.next_id() {
            None => Err(ZooError::StorageError),
            Some(id) => {
                let f = Feeding {
                    id,
                    animal_id: req.animal_id,
                    staff_id: req.staff_id,
                    feeding_time: req.feeding_time,
                };
                let out = f.duplicate();
                proof {
                    lemma_inserted(self.feedings@, f);
                    lemma_dependents_inserted(self.feedings@, f, self@.animals, self@.staff);
                }
                self.feedings.insert(f);
                Ok(out)
            },
        }
    }

    /// Every feeding, in ascending order of id.
    pub fn get_feedings(&self) -> (r: Vec<Feeding>)
        ensures
            r@ == self@.feedings.rows,
    {
        self.feedings.list()
    }

    pub fn get_feeding_by_id(&self, id: i64) -> (r: Result<Feeding, ZooError>)
        requires
            self@.wf(),
        ensures
            r == self@.get_feeding_by_id(id),
    {
        match self.feedings.get(id) {
            Some(f) => Ok(f),
            None => Err(ZooError::NotFound),
        }
    }

    pub fn update_feeding(&mut self, id: i64, req: UpdateFeedingRequest) -> (r: Result<Feeding, ZooError>)
        requires
            old(self)@.wf(),
        ensures
            (final(self)@, r) == old(self)@.update_feeding(id, req),
            final(self)@.wf(),
    {
        if !req.feeding_time.is_valid() {
            return Err(ZooError::ValidationError);
        }
        if !self.feedings.contains(id) {
            return Err(ZooError::NotFound);
        }
        if !self.animals.contains(req.animal_id) || !self.staff.contains(req.staff_id) {
            return Err(ZooError::ConstraintError);
        }
        let f = Feeding {
            id,
            animal_id: req.animal_id,
            staff_id: req.staff_id,
            feeding_time: req.feeding_time,
        };
        let out = f.duplicate();
        proof {
            lemma_replaced(self.feedings@, f);
            lemma_dependents_replaced(self.feedings@, f, self@.animals, self@.staff);
        }
        self.feedings.replace(f);
        Ok(out)
    }

    pub fn delete_feeding(&mut self, id: i64) -> (r: Result<(), ZooError>)
        requires
            old(self)@.wf(),
        ensures
            (final(self)@, r) == old(self)@.delete_feeding(id),
            final(self)@.wf(),
    {
        if !self.feedings.contains(id) {
            return Err(ZooError::NotFound);
        }
        proof {
            lemma_removed(self.feedings@, id);
            lemma_dependents_removed(self.feedings@, id, self@.animals, self@.staff);
        }
        self.feedings.remove(id);
        Ok(())
    }

    // Medical treatments
    pub fn create_medical_treatment(&mut self, req: CreateMedicalTreatmentRequest) -> (r: Result<MedicalTreatment, ZooError>)
        requires
            old(self)@.wf(),
        ensures
            (final(self)@, r) == old(self)@.create_medical_treatment(req),
            final(self)@.wf(),
    {
        if !req.date.is_valid() {
            return Err(ZooError::ValidationError);
        }
        if !self.animals.contains(req.animal_id) || !self.staff.contains(req.staff_id) {
            return Err(ZooError::ConstraintError);
        }
        match self.treatments.next_id() {
            None => Err(ZooError::StorageError),
            Some(id) => {
                let m = MedicalTreatment {
                    id,
                    animal_id: req.animal_id,
                    staff_id: req.staff_id,
                    date: req.date,
                    description: req.description,
                };
                let out = m.duplicate();
                proof {
                    lemma_inserted(self.treatments@, m);
                    lemma_dependents_inserted(self.treatments@, m, self@.animals, self@.staff);
                }
                self.treatments.insert(m);
                Ok(out)
            },
        }
    }

    /// Every medical treatment, in ascending order of id.
    pub fn get_medical_treatments(&self) -> (r: Vec<MedicalTreatment>)
        ensures
            r@ == self@.treatments.rows,
    {
        self.treatments.list()
    }

    pub fn get_medical_treatment_by_id(&self, id: i64) -> (r: Result<MedicalTreatment, ZooError>)
        requires
            self@.wf(),
        ensures
            r == self@.get_medical_treatment_by_id(id),
    {
        match self.treatments.get(id) {
            Some(m) => Ok(m),
            None => Err(ZooError::NotFound),
        }
    }

    pub fn update_medical_treatment(&mut self, id: i64, req: UpdateMedicalTreatmentRequest) -> (r: Result<MedicalTreatment, ZooError>)
        requires
            old(self)@.wf(),
        ensures
            (final(self)@, r) == old(self)@.update_medical_treatment(id, req),
            final(self)@.wf(),
    {
        if !req.date.is_valid() {
            return Err(ZooError::ValidationError);
        }
        if !self.treatments.contains(id) {
            return Err(ZooError::NotFound);
        }
        if !self.animals.contains(req.animal_id) || !self.staff.contains(req.staff_id) {
            return Err(ZooError::ConstraintError);
        }
        let m = MedicalTreatment {
            id,
            animal_id: req.animal_id,
            staff_id: req.staff_id,
            date: req.date,
            description: req.description,
        };
        let out = m.duplicate();
        proof {
            lemma_replaced(self.treatments@, m);
            lemma_dependents_replaced(self.treatments@, m, self@.animals, self@.staff);
        }
        self.treatments.replace(m);
        Ok(out)
    }

    pub fn delete_medical_treatment(&mut self, id: i64) -> (r: Result<(), ZooError>)
        requires
            old(self)@.wf(),
        ensures
            (final(self)@, r) == old(self)@.delete_medical_treatment(id),
            final(self)@.wf(),
    {
        if !self.treatments.contains(id) {
            return Err(ZooError::NotFound);
        }
        proof {
            lemma_removed(self.treatments@, id);
            lemma_dependents_removed(self.treatments@, id, self@.animals, self@.staff);
        }
        self.treatments.remove(id);
        Ok(())
    }
}

} // verus!
