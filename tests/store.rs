use zoo::records::{
    Animal, CreateAnimalRequest, CreateEnclosureRequest, CreateFeedingRequest,
    CreateMedicalTreatmentRequest, CreateStaffRequest, Enclosure, UpdateAnimalRequest,
    UpdateEnclosureRequest, UpdateFeedingRequest, UpdateMedicalTreatmentRequest,
    UpdateStaffRequest, ZooError,
};
use zoo::store::ZooStore;
use zoo::timestamp::{parse_timestamp, Timestamp};

fn ts(year: i32, month: u32, day: u32, hour: u32, minute: u32, second: u32) -> Timestamp {
    Timestamp { year, month, day, hour, minute, second }
}

fn enclosure_req(name: &str, kind: &str, capacity: i32) -> CreateEnclosureRequest {
    CreateEnclosureRequest {
        name: name.to_string(),
        enclosure_type: kind.to_string(),
        capacity,
    }
}

fn animal_req(name: &str, age: i32, enclosure_id: i64) -> CreateAnimalRequest {
    CreateAnimalRequest {
        name: name.to_string(),
        age,
        enclosure_id,
        species: "lion".to_string(),
    }
}

fn staff_req(first: &str, last: &str, role: &str) -> CreateStaffRequest {
    CreateStaffRequest {
        first_name: first.to_string(),
        last_name: last.to_string(),
        role: role.to_string(),
        phone: "555-0100".to_string(),
    }
}

/// A store with one enclosure, one animal and one keeper.
fn small_zoo() -> (ZooStore, i64, i64, i64) {
    let mut z = ZooStore::new();
    let e = z.create_enclosure(enclosure_req("Savanna", "outdoor", 5)).unwrap();
    let a = z.create_animal(animal_req("Leo", 4, e.id)).unwrap();
    let s = z.create_staff(staff_req("Dana", "Cohen", "keeper")).unwrap();
    (z, e.id, a.id, s.id)
}

#[test]
fn create_assigns_fresh_ids_and_get_returns_the_record() {
    let mut z = ZooStore::new();
    let e1 = z.create_enclosure(enclosure_req("Savanna", "outdoor", 2)).unwrap();
    let e2 = z.create_enclosure(enclosure_req("Aviary", "indoor", 10)).unwrap();
    assert_eq!(e1.id, 1);
    assert_eq!(e2.id, 2);
    assert_eq!(z.get_enclosure_by_id(1), Ok(e1.clone()));
    assert_eq!(z.get_enclosure_by_id(2), Ok(e2.clone()));
    assert_eq!(e2.name, "Aviary");
    assert_eq!(e2.capacity, 10);
    // ids are never reused, even after a delete
    assert_eq!(z.delete_enclosure(2), Ok(()));
    let e3 = z.create_enclosure(enclosure_req("Pond", "water", 1)).unwrap();
    assert_eq!(e3.id, 3);
    assert_eq!(z.get_enclosures(), vec![e1, e3]);
}

#[test]
fn update_replaces_every_field() {
    let (mut z, e, a, s) = small_zoo();
    let e2 = z.create_enclosure(enclosure_req("Jungle", "indoor", 3)).unwrap();
    let updated = z
        .update_animal(
            a,
            UpdateAnimalRequest {
                name: "Simba".to_string(),
                age: 7,
                enclosure_id: e2.id,
                species: "tiger".to_string(),
            },
        )
        .unwrap();
    let expected = Animal {
        id: a,
        name: "Simba".to_string(),
        age: 7,
        enclosure_id: e2.id,
        species: "tiger".to_string(),
    };
    assert_eq!(updated, expected);
    assert_eq!(z.get_animal_by_id(a), Ok(expected));
    let staff = z
        .update_staff(
            s,
            UpdateStaffRequest {
                first_name: "Noa".to_string(),
                last_name: "Levi".to_string(),
                role: "vet".to_string(),
                phone: "555-0199".to_string(),
            },
        )
        .unwrap();
    assert_eq!(z.get_staff_by_id(s), Ok(staff));
    let enc = z
        .update_enclosure(
            e,
            UpdateEnclosureRequest {
                name: "Plains".to_string(),
                enclosure_type: "outdoor".to_string(),
                capacity: 0,
            },
        )
        .unwrap();
    assert_eq!(
        enc,
        Enclosure { id: e, name: "Plains".to_string(), enclosure_type: "outdoor".to_string(), capacity: 0 }
    );
}

#[test]
fn update_of_absent_id_is_not_found() {
    let (mut z, _e, _a, _s) = small_zoo();
    let r = z.update_staff(
        99,
        UpdateStaffRequest {
            first_name: "X".to_string(),
            last_name: "Y".to_string(),
            role: "vet".to_string(),
            phone: "1".to_string(),
        },
    );
    assert_eq!(r, Err(ZooError::NotFound));
    assert_eq!(z.get_staff().len(), 1);
}

#[test]
fn update_with_bad_reference_is_constraint_error() {
    let (mut z, e, a, _s) = small_zoo();
    let r = z.update_animal(
        a,
        UpdateAnimalRequest { name: "Leo".to_string(), age: 5, enclosure_id: 42, species: "lion".to_string() },
    );
    assert_eq!(r, Err(ZooError::ConstraintError));
    assert_eq!(z.get_animal_by_id(a).unwrap().enclosure_id, e);
    assert_eq!(z.get_animal_by_id(a).unwrap().age, 4);
}

#[test]
fn delete_then_get_is_not_found() {
    let (mut z, _e, _a, s) = small_zoo();
    assert_eq!(z.delete_staff(s), Ok(()));
    assert_eq!(z.get_staff_by_id(s), Err(ZooError::NotFound));
    assert_eq!(z.delete_staff(s), Err(ZooError::NotFound));
    assert_eq!(z.delete_animal(1234), Err(ZooError::NotFound));
    assert_eq!(z.delete_feeding(1), Err(ZooError::NotFound));
    assert_eq!(z.delete_medical_treatment(1), Err(ZooError::NotFound));
}

#[test]
fn delete_of_referenced_row_is_constraint_error() {
    let (mut z, e, a, s) = small_zoo();
    assert_eq!(z.delete_enclosure(e), Err(ZooError::ConstraintError));
    let f = z
        .create_feeding(CreateFeedingRequest { animal_id: a, staff_id: s, feeding_time: ts(2024, 5, 1, 8, 0, 0) })
        .unwrap();
    assert_eq!(z.delete_animal(a), Err(ZooError::ConstraintError));
    assert_eq!(z.delete_staff(s), Err(ZooError::ConstraintError));
    assert_eq!(z.delete_feeding(f.id), Ok(()));
    assert_eq!(z.delete_animal(a), Ok(()));
    assert_eq!(z.delete_enclosure(e), Ok(()));
    assert_eq!(z.delete_staff(s), Ok(()));
    assert!(z.get_animals().is_empty());
    assert!(z.get_enclosures().is_empty());
}

#[test]
fn full_enclosure_needs_exact_count() {
    let mut z = ZooStore::new();
    let e = z.create_enclosure(enclosure_req("Savanna", "outdoor", 2)).unwrap();
    z.create_animal(animal_req("A", 1, e.id)).unwrap();
    assert!(z.get_full_enclosure().is_empty());
    z.create_animal(animal_req("B", 2, e.id)).unwrap();
    assert_eq!(z.get_full_enclosure(), vec![e.clone()]);
    z.create_animal(animal_req("C", 3, e.id)).unwrap();
    assert!(z.get_full_enclosure().is_empty());
}

#[test]
fn empty_enclosure_of_capacity_zero_is_full() {
    let mut z = ZooStore::new();
    let empty = z.create_enclosure(enclosure_req("Quarantine", "indoor", 0)).unwrap();
    let roomy = z.create_enclosure(enclosure_req("Field", "outdoor", 4)).unwrap();
    assert_eq!(z.get_full_enclosure(), vec![empty.clone()]);
    z.create_animal(animal_req("A", 1, empty.id)).unwrap();
    assert!(z.get_full_enclosure().is_empty());
    assert_eq!(roomy.capacity, 4);
}

#[test]
fn feedings_after_is_strict_and_sorted() {
    let (mut z, _e, a, s) = small_zoo();
    let t = ts(2024, 3, 10, 12, 0, 0);
    let later2 = z
        .create_feeding(CreateFeedingRequest { animal_id: a, staff_id: s, feeding_time: ts(2024, 3, 11, 9, 0, 0) })
        .unwrap();
    let before = ts(2024, 3, 10, 11, 59, 59);
    z.create_feeding(CreateFeedingRequest { animal_id: a, staff_id: s, feeding_time: before }).unwrap();
    z.create_feeding(CreateFeedingRequest { animal_id: a, staff_id: s, feeding_time: t }).unwrap();
    let later1 = z
        .create_feeding(CreateFeedingRequest { animal_id: a, staff_id: s, feeding_time: ts(2024, 3, 10, 12, 0, 1) })
        .unwrap();
    assert_eq!(z.feedings_after(t), vec![later1.clone(), later2.clone()]);
    assert_eq!(z.get_feedings_after("2024-03-10T12:00:00"), Ok(vec![later1, later2]));
}

#[test]
fn feedings_after_t_minus_t_plus() {
    let (mut z, _e, a, s) = small_zoo();
    let t = ts(2023, 12, 31, 23, 59, 59);
    for time in [ts(2023, 12, 31, 23, 59, 58), t, ts(2024, 1, 1, 0, 0, 0)] {
        z.create_feeding(CreateFeedingRequest { animal_id: a, staff_id: s, feeding_time: time }).unwrap();
    }
    let after = z.get_feedings_after("2023-12-31T23:59:59").unwrap();
    assert_eq!(after.len(), 1);
    assert_eq!(after[0].feeding_time, ts(2024, 1, 1, 0, 0, 0));
    assert_eq!(after[0].id, 3);
}

#[test]
fn feedings_after_equal_times_come_in_id_order() {
    let (mut z, _e, a, s) = small_zoo();
    let noon = ts(2024, 6, 1, 12, 0, 0);
    let f1 = z.create_feeding(CreateFeedingRequest { animal_id: a, staff_id: s, feeding_time: noon }).unwrap();
    let f0 = z
        .create_feeding(CreateFeedingRequest { animal_id: a, staff_id: s, feeding_time: ts(2024, 6, 1, 8, 0, 0) })
        .unwrap();
    let f2 = z.create_feeding(CreateFeedingRequest { animal_id: a, staff_id: s, feeding_time: noon }).unwrap();
    assert_eq!(z.feedings_after(ts(2024, 1, 1, 0, 0, 0)), vec![f0, f1, f2]);
}

#[test]
fn malformed_timestamp_is_validation_error() {
    let (z, _e, _a, _s) = small_zoo();
    assert_eq!(z.get_feedings_after("2024-03-10 12:00:00"), Err(ZooError::ValidationError));
    assert_eq!(z.get_feedings_after("yesterday"), Err(ZooError::ValidationError));
    assert_eq!(z.get_feedings_after("2024-13-01T00:00:00"), Err(ZooError::ValidationError));
}

#[test]
fn parse_timestamp_reads_every_field() {
    assert_eq!(parse_timestamp("2024-01-02T03:04:05"), Some(ts(2024, 1, 2, 3, 4, 5)));
    assert_eq!(parse_timestamp("1999-12-31T23:59:59"), Some(ts(1999, 12, 31, 23, 59, 59)));
    assert_eq!(parse_timestamp("2024-02-30T00:00:00"), None);
    assert_eq!(parse_timestamp(""), None);
}

#[test]
fn timestamp_order_is_field_by_field() {
    assert!(ts(2023, 12, 31, 23, 59, 59).is_before(&ts(2024, 1, 1, 0, 0, 0)));
    assert!(ts(2024, 1, 1, 0, 0, 0).is_before(&ts(2024, 1, 1, 0, 0, 1)));
    assert!(!ts(2024, 1, 1, 0, 0, 1).is_before(&ts(2024, 1, 1, 0, 0, 1)));
    assert!(!ts(2024, 2, 1, 0, 0, 0).is_before(&ts(2024, 1, 31, 23, 59, 59)));
    assert!(ts(2024, 1, 1, 0, 0, 0).is_valid());
    assert!(!ts(2024, 0, 1, 0, 0, 0).is_valid());
    assert!(!ts(2024, 1, 1, 24, 0, 0).is_valid());
}

#[test]
fn invalid_timestamp_in_request_is_validation_error() {
    let (mut z, _e, a, s) = small_zoo();
    let r = z.create_feeding(CreateFeedingRequest { animal_id: a, staff_id: s, feeding_time: ts(2024, 1, 1, 0, 60, 0) });
    assert_eq!(r, Err(ZooError::ValidationError));
    let r = z.create_medical_treatment(CreateMedicalTreatmentRequest {
        animal_id: a,
        staff_id: s,
        date: ts(2024, 13, 1, 0, 0, 0),
        description: "checkup".to_string(),
    });
    assert_eq!(r, Err(ZooError::ValidationError));
    assert!(z.get_feedings().is_empty());
    assert!(z.get_medical_treatments().is_empty());
}

#[test]
fn negative_capacity_is_validation_error() {
    let mut z = ZooStore::new();
    assert_eq!(z.create_enclosure(enclosure_req("Bad", "none", -1)), Err(ZooError::ValidationError));
    assert!(z.get_enclosures().is_empty());
}

#[test]
fn create_animal_in_missing_enclosure_is_constraint_error() {
    let (mut z, _e, _a, _s) = small_zoo();
    let before = z.get_animals();
    assert_eq!(z.create_animal(animal_req("Ghost", 3, 77)), Err(ZooError::ConstraintError));
    assert_eq!(z.get_animals(), before);
    assert_eq!(z.get_animals().len(), 1);
}

#[test]
fn dependents_need_existing_animal_and_staff() {
    let (mut z, _e, a, s) = small_zoo();
    let r = z.create_feeding(CreateFeedingRequest { animal_id: 9, staff_id: s, feeding_time: ts(2024, 1, 1, 0, 0, 0) });
    assert_eq!(r, Err(ZooError::ConstraintError));
    let r = z.create_medical_treatment(CreateMedicalTreatmentRequest {
        animal_id: a,
        staff_id: 9,
        date: ts(2024, 1, 1, 0, 0, 0),
        description: "x".to_string(),
    });
    assert_eq!(r, Err(ZooError::ConstraintError));
    let f = z
        .create_feeding(CreateFeedingRequest { animal_id: a, staff_id: s, feeding_time: ts(2024, 1, 1, 0, 0, 0) })
        .unwrap();
    let r = z.update_feeding(
        f.id,
        UpdateFeedingRequest { animal_id: a, staff_id: 9, feeding_time: ts(2024, 1, 2, 0, 0, 0) },
    );
    assert_eq!(r, Err(ZooError::ConstraintError));
    let g = z
        .update_feeding(f.id, UpdateFeedingRequest { animal_id: a, staff_id: s, feeding_time: ts(2024, 1, 2, 0, 0, 0) })
        .unwrap();
    assert_eq!(z.get_feeding_by_id(f.id), Ok(g));
}

#[test]
fn scenario_savanna_fills_then_overflows() {
    let mut z = ZooStore::new();
    let e = z.create_enclosure(enclosure_req("Savanna", "outdoor", 2)).unwrap();
    assert_eq!(e.id, 1);
    z.create_animal(animal_req("Zara", 3, 1)).unwrap();
    z.create_animal(animal_req("Zed", 5, 1)).unwrap();
    let full = z.get_full_enclosure();
    assert_eq!(full.len(), 1);
    assert_eq!(full[0].id, 1);
    assert_eq!(full[0].name, "Savanna");
    z.create_animal(animal_req("Zoe", 1, 1)).unwrap();
    assert_eq!(z.get_full_enclosure(), Vec::<Enclosure>::new());
}

#[test]
fn older_than_is_strict() {
    let mut z = ZooStore::new();
    let e = z.create_enclosure(enclosure_req("Savanna", "outdoor", 9)).unwrap();
    let a = z.create_animal(animal_req("A", 2, e.id)).unwrap();
    let b = z.create_animal(animal_req("B", 5, e.id)).unwrap();
    let c = z.create_animal(animal_req("C", 9, e.id)).unwrap();
    assert_eq!(z.animals_older_than(5), vec![c.clone()]);
    assert_eq!(z.get_animals_older_than("4"), Ok(vec![b.clone(), c.clone()]));
    assert_eq!(z.get_animals_older_than("+1"), Ok(vec![a.clone(), b.clone(), c.clone()]));
    assert_eq!(z.get_animals_older_than("-3"), Ok(vec![a, b, c]));
    assert_eq!(z.get_animals_older_than("9"), Ok(vec![]));
}

#[test]
fn unparsable_age_is_validation_error() {
    let (z, _e, _a, _s) = small_zoo();
    assert_eq!(z.get_animals_older_than("abc"), Err(ZooError::ValidationError));
    assert_eq!(z.get_animals_older_than(""), Err(ZooError::ValidationError));
    assert_eq!(z.get_animals_older_than(" 4"), Err(ZooError::ValidationError));
    assert_eq!(z.get_animals_older_than("99999999999"), Err(ZooError::ValidationError));
}

#[test]
fn treatments_by_staff_match_full_name_exactly() {
    let (mut z, _e, a, s) = small_zoo();
    let other = z.create_staff(staff_req("Dana", "Katz", "vet")).unwrap();
    let m1 = z
        .create_medical_treatment(CreateMedicalTreatmentRequest {
            animal_id: a,
            staff_id: s,
            date: ts(2024, 4, 1, 10, 0, 0),
            description: "vaccination".to_string(),
        })
        .unwrap();
    z.create_medical_treatment(CreateMedicalTreatmentRequest {
        animal_id: a,
        staff_id: other.id,
        date: ts(2024, 4, 2, 10, 0, 0),
        description: "dental".to_string(),
    })
    .unwrap();
    let dana_cohen = z.get_medical_treatment_by_staff(&"Dana".to_string(), &"Cohen".to_string());
    assert_eq!(dana_cohen, vec![m1.clone()]);
    assert!(z.get_medical_treatment_by_staff(&"dana".to_string(), &"cohen".to_string()).is_empty());
    assert!(z.get_medical_treatment_by_staff(&"Dan".to_string(), &"Cohen".to_string()).is_empty());
    let m1b = z
        .update_medical_treatment(
            m1.id,
            UpdateMedicalTreatmentRequest {
                animal_id: a,
                staff_id: other.id,
                date: ts(2024, 4, 1, 11, 0, 0),
                description: "follow-up".to_string(),
            },
        )
        .unwrap();
    assert_eq!(z.get_medical_treatment_by_id(m1.id), Ok(m1b));
    assert!(z.get_medical_treatment_by_staff(&"Dana".to_string(), &"Cohen".to_string()).is_empty());
    assert_eq!(z.get_medical_treatments().len(), 2);
}

#[test]
fn staff_by_role_matches_exactly() {
    let (mut z, _e, _a, s) = small_zoo();
    let vet = z.create_staff(staff_req("Noa", "Levi", "vet")).unwrap();
    assert_eq!(z.get_staff_by_role(&"vet".to_string()), vec![vet]);
    assert_eq!(z.get_staff_by_role(&"keeper".to_string())[0].id, s);
    assert!(z.get_staff_by_role(&"Vet".to_string()).is_empty());
}

#[test]
fn empty_store_lists_nothing() {
    let z = ZooStore::new();
    assert!(z.get_enclosures().is_empty());
    assert!(z.get_staff().is_empty());
    assert!(z.get_animals().is_empty());
    assert!(z.get_feedings().is_empty());
    assert!(z.get_medical_treatments().is_empty());
    assert!(z.get_full_enclosure().is_empty());
    assert_eq!(z.get_animal_by_id(1), Err(ZooError::NotFound));
    assert_eq!(z.get_feeding_by_id(1), Err(ZooError::NotFound));
    assert_eq!(z.get_medical_treatment_by_id(1), Err(ZooError::NotFound));
}
