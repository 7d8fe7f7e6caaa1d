//! The five kinds of rows kept by the store, the requests that create and
//! replace them, and the error kinds that store operations report.
use vstd::prelude::*;

use crate::timestamp::Timestamp;

verus! {

/// What went wrong with a store operation.
#[derive(Clone, Copy, Debug, PartialEq, Eq, Structural)]
pub enum ZooError {
    /// Malformed input: an unparsable number or timestamp, a negative
    /// capacity, or a timestamp whose fields are out of range.
    ValidationError,
    /// The operation targets an id that is not in the table.
    NotFound,
    /// A reference to a row that does not exist, or a delete of a row that
    /// other rows still reference.
    ConstraintError,
    /// The storage engine cannot carry out the operation (its ids are spent).
    StorageError,
}

/// A row that a table keys by a system-assigned id.
pub trait Record: Sized {
    /// The id of the row.
    spec fn key(&self) -> i64;

    fn id(&self) -> (r: i64)
        ensures
            r == self.key(),
    ;

    /// A field-for-field copy of the row.
    fn duplicate(&self) -> (r: Self)
        ensures
            r == *self,
    ;
}

/// A row that refers to an animal and to a member of staff.
pub trait Dependent: Record {
    spec fn animal_ref(&self) -> i64;

    spec fn staff_ref(&self) -> i64;

    fn animal_id_of(&self) -> (r: i64)
        ensures
            r == self.animal_ref(),
    ;

    fn staff_id_of(&self) -> (r: i64)
        ensures
            r == self.staff_ref(),
    ;
}

/// A housing unit with a type and a maximum number of animals.
#[derive(Clone, Debug, PartialEq, Eq)]
pub struct Enclosure {
    pub id: i64,
    pub name: String,
    pub enclosure_type: String,
    pub capacity: i32,
}

#[derive(Clone, Debug, PartialEq, Eq)]
pub struct CreateEnclosureRequest {
    pub name: String,
    pub enclosure_type: String,
    pub capacity: i32,
}

#[derive(Clone, Debug, PartialEq, Eq)]
pub struct UpdateEnclosureRequest {
    pub name: String,
    pub enclosure_type: String,
    pub capacity: i32,
}

/// A member of staff.
#[derive(Clone, Debug, PartialEq, Eq)]
pub struct Staff {
    pub id: i64,
    pub first_name: String,
    pub last_name: String,
    pub role: String,
    pub phone: String,
}

#[derive(Clone, Debug, PartialEq, Eq)]
pub struct CreateStaffRequest {
    pub first_name: String,
    pub last_name: String,
    pub role: String,
    pub phone: String,
}

#[derive(Clone, Debug, PartialEq, Eq)]
pub struct UpdateStaffRequest {
    pub first_name: String,
    pub last_name: String,
    pub role: String,
    pub phone: String,
}

/// An animal, housed in an enclosure.
#[derive(Clone, Debug, PartialEq, Eq)]
pub struct Animal {
    pub id: i64,
    pub name: String,
    pub age: i32,
    pub enclosure_id: i64,
    pub species: String,
}

#[derive(Clone, Debug, PartialEq, Eq)]
pub struct CreateAnimalRequest {
    pub name: String,
    pub age: i32,
    pub enclosure_id: i64,
    pub species: String,
}

#[derive(Clone, Debug, PartialEq, Eq)]
pub struct UpdateAnimalRequest {
    pub name: String,
    pub age: i32,
    pub enclosure_id: i64,
    pub species: String,
}

/// One feeding of an animal by a member of staff.
#[derive(Clone, Debug, PartialEq, Eq)]
pub struct Feeding {
    pub id: i64,
    pub animal_id: i64,
    pub staff_id: i64,
    pub feeding_time: Timestamp,
}

#[derive(Clone, Debug, PartialEq, Eq)]
pub struct CreateFeedingRequest {
    pub animal_id: i64,
    pub staff_id: i64,
    pub feeding_time: Timestamp,
}

#[derive(Clone, Debug, PartialEq, Eq)]
pub struct UpdateFeedingRequest {
    pub animal_id: i64,
    pub staff_id: i64,
    pub feeding_time: Timestamp,
}

/// A medical treatment given to an animal by a member of staff.
#[derive(Clone, Debug, PartialEq, Eq)]
pub struct MedicalTreatment {
    pub id: i64,
    pub animal_id: i64,
    pub staff_id: i64,
    pub date: Timestamp,
    pub description: String,
}

#[derive(Clone, Debug, PartialEq, Eq)]
pub struct CreateMedicalTreatmentRequest {
    pub animal_id: i64,
    pub staff_id: i64,
    pub date: Timestamp,
    pub description: String,
}

#[derive(Clone, Debug, PartialEq, Eq)]
pub struct UpdateMedicalTreatmentRequest {
    pub animal_id: i64,
    pub staff_id: i64,
    pub date: Timestamp,
    pub description: String,
}

impl Record for Enclosure {
    open spec fn key(&self) -> i64 {
        self.id
    }

    fn id(&self) -> (r: i64) {
        self.id
    }

    fn duplicate(&self) -> (r: Self) {
        Enclosure {
            id: self.id,
            name: self.name.clone(),
            enclosure_type: self.enclosure_type.clone(),
            capacity: self.capacity,
        }
    }
}

impl Record for Staff {
    open spec fn key(&self) -> i64 {
        self.id
    }

    fn id(&self) -> (r: i64) {
        self.id
    }

    fn duplicate(&self) -> (r: Self) {
        Staff {
            id: self.id,
            first_name: self.first_name.clone(),
            last_name: self.last_name.clone(),
            role: self.role.clone(),
            phone: self.phone.clone(),
        }
    }
}

impl Record for Animal {
    open spec fn key(&self) -> i64 {
        self.id
    }

    fn id(&self) -> (r: i64) {
        self.id
    }

    fn duplicate(&self) -> (r: Self) {
        Animal {
            id: self.id,
            name: self.name.clone(),
            age: self.age,
            enclosure_id: self.enclosure_id,
            species: self.species.clone(),
        }
    }
}

impl Record for Feeding {
    open spec fn key(&self) -> i64 {
        self.id
    }

    fn id(&self) -> (r: i64) {
        self.id
    }

    fn duplicate(&self) -> (r: Self) {
        Feeding {
            id: self.id,
            animal_id: self.animal_id,
            staff_id: self.staff_id,
            feeding_time: self.feeding_time,
        }
    }
}

impl Dependent for Feeding {
    open spec fn animal_ref(&self) -> i64 {
        self.animal_id
    }

    open spec fn staff_ref(&self) -> i64 {
        self.staff_id
    }

    fn animal_id_of(&self) -> (r: i64) {
        self.animal_id
    }

    fn staff_id_of(&self) -> (r: i64) {
        self.staff_id
    }
}

impl Record for MedicalTreatment {
    open spec fn key(&self) -> i64 {
        self.id
    }

    fn id(&self) -> (r: i64) {
        self.id
    }

    fn duplicate(&self) -> (r: Self) {
        MedicalTreatment {
            id: self.id,
            animal_id: self.animal_id,
            staff_id: self.staff_id,
            date: self.date,
            description: self.description.clone(),
        }
    }
}

impl Dependent for MedicalTreatment {
    open spec fn animal_ref(&self) -> i64 {
        self.animal_id
    }

    open spec fn staff_ref(&self) -> i64 {
        self.staff_id
    }

    fn animal_id_of(&self) -> (r: i64) {
        self.animal_id
    }

    fn staff_id_of(&self) -> (r: i64) {
        self.staff_id
    }
}

} // verus!
