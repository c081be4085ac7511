use patient_registry::patient::{Error, Patient, PatientPayload};
use patient_registry::service::Hospital;

fn payload(name: &str, age: u32, gender: &str) -> PatientPayload {
    PatientPayload { name: name.to_string(), age, gender: gender.to_string() }
}

fn not_found_msg(e: &Error) -> &str {
    match e {
        Error::NotFound { msg } => msg.as_str(),
    }
}

#[test]
fn add_patient_returns_first_record() {
    let mut h = Hospital::new();
    let p = h.add_patient(payload("Alice", 30, "F"), 1_700_000_000);
    assert_eq!(p.id, 1);
    assert_eq!(p.name, "Alice");
    assert_eq!(p.age, 30);
    assert_eq!(p.gender, "F");
    assert_eq!(p.room_number, None);
    assert_eq!(p.admitted_at, 1_700_000_000);
}

#[test]
fn get_after_add_returns_equal_record() {
    let mut h = Hospital::new();
    let p = h.add_patient(payload("Alice", 30, "F"), 42);
    let q = h.get_patient(p.id).expect("the added record must be found");
    assert_eq!(q, p);
}

#[test]
fn assign_room_sets_room_number() {
    let mut h = Hospital::new();
    let p = h.add_patient(payload("Alice", 30, "F"), 42);
    let q = h.assign_room(1, 204).expect("the record exists");
    assert_eq!(q.id, 1);
    assert_eq!(q.room_number, Some(204));
    assert_eq!(q.name, p.name);
    assert_eq!(q.age, p.age);
    assert_eq!(q.gender, p.gender);
    assert_eq!(q.admitted_at, p.admitted_at);
}

#[test]
fn discharge_clears_room_number() {
    let mut h = Hospital::new();
    h.add_patient(payload("Alice", 30, "F"), 42);
    h.assign_room(1, 204).expect("the record exists");
    let q = h.discharge_patient(1).expect("the record exists");
    assert_eq!(q.id, 1);
    assert_eq!(q.room_number, None);
    let r = h.get_patient(1).expect("the record exists");
    assert_eq!(r.room_number, None);
}

#[test]
fn update_changes_exactly_the_demographic_fields() {
    let mut h = Hospital::new();
    let p = h.add_patient(payload("Alice", 30, "F"), 1_700_000_000);
    h.assign_room(1, 9).expect("the record exists");
    let q = h.update_patient(1, payload("Alice B", 31, "F")).expect("the record exists");
    assert_eq!(q.id, 1);
    assert_eq!(q.name, "Alice B");
    assert_eq!(q.age, 31);
    assert_eq!(q.gender, "F");
    assert_eq!(q.room_number, Some(9));
    assert_eq!(q.admitted_at, p.admitted_at);
}

#[test]
fn update_without_room_keeps_it_unassigned() {
    let mut h = Hospital::new();
    let p = h.add_patient(payload("Alice", 30, "F"), 7);
    let q = h.update_patient(1, payload("Alice B", 31, "F")).expect("the record exists");
    assert_eq!(q.room_number, None);
    assert_eq!(q.admitted_at, p.admitted_at);
}

#[test]
fn get_of_unknown_id_reports_not_found() {
    let h = Hospital::new();
    let e = h.get_patient(999).expect_err("nothing was stored");
    assert_eq!(not_found_msg(&e), "a patient with id=999 not found");
}

#[test]
fn all_id_taking_operations_fail_on_unknown_id() {
    let mut h = Hospital::new();
    h.add_patient(payload("Alice", 30, "F"), 7);
    let e = h.get_patient(55).expect_err("never issued");
    assert_eq!(not_found_msg(&e), "a patient with id=55 not found");
    let e = h.update_patient(55, payload("B", 1, "M")).expect_err("never issued");
    assert_eq!(
        not_found_msg(&e),
        "couldn't update a patient with id=55. patient not found"
    );
    let e = h.assign_room(55, 1).expect_err("never issued");
    assert_eq!(
        not_found_msg(&e),
        "couldn't assign a room to a patient with id=55. patient not found"
    );
    let e = h.discharge_patient(55).expect_err("never issued");
    assert_eq!(
        not_found_msg(&e),
        "couldn't discharge a patient with id=55. patient not found"
    );
    // the existing record is untouched by the failed operations
    let p = h.get_patient(1).expect("still there");
    assert_eq!(p.name, "Alice");
}

#[test]
fn zero_is_never_an_issued_identifier() {
    let mut h = Hospital::new();
    h.add_patient(payload("Alice", 30, "F"), 7);
    let e = h.get_patient(0).expect_err("zero is never issued");
    assert_eq!(not_found_msg(&e), "a patient with id=0 not found");
}

#[test]
fn last_issued_id_follows_admissions() {
    let mut h = Hospital::new();
    assert_eq!(h.last_issued_id(), 0);
    h.add_patient(payload("A", 1, "F"), 1);
    assert_eq!(h.last_issued_id(), 1);
    h.add_patient(payload("B", 2, "M"), 2);
    assert_eq!(h.last_issued_id(), 2);
}

#[test]
fn identifiers_strictly_increase() {
    let mut h = Hospital::new();
    let a = h.add_patient(payload("A", 1, "F"), 10);
    let b = h.add_patient(payload("B", 2, "M"), 20);
    let c = h.add_patient(payload("C", 3, "F"), 30);
    assert_eq!(a.id, 1);
    assert_eq!(b.id, 2);
    assert_eq!(c.id, 3);
    assert!(b.id > a.id && c.id > b.id);
    // all three remain retrievable under their own identifiers
    assert_eq!(h.get_patient(1).unwrap().name, "A");
    assert_eq!(h.get_patient(2).unwrap().name, "B");
    assert_eq!(h.get_patient(3).unwrap().name, "C");
}

#[test]
fn internal_lookup_matches_public_get() {
    let mut h = Hospital::new();
    let p = h.add_patient(payload("Alice", 30, "F"), 7);
    assert_eq!(h._get_patient(&1), Some(p));
    assert_eq!(h._get_patient(&2), None);
}

#[test]
fn do_insert_overwrites_an_existing_record() {
    let mut h = Hospital::new();
    let mut p = h.add_patient(payload("Alice", 30, "F"), 7);
    p.age = 44;
    h.do_insert(&p);
    let q = h.get_patient(1).expect("still there");
    assert_eq!(q.age, 44);
    assert_eq!(q.name, "Alice");
}

#[test]
fn empty_text_fields_round_trip_through_the_store() {
    let mut h = Hospital::new();
    let p = h.add_patient(payload("", 0, ""), 0);
    let q = h.get_patient(p.id).expect("the added record must be found");
    assert_eq!(q, p);
}

#[test]
fn unicode_names_round_trip_through_the_store() {
    let mut h = Hospital::new();
    let p = h.add_patient(payload("Åsa Ω 👩‍⚕️", 28, "kvinna"), 5);
    let q = h.get_patient(p.id).expect("the added record must be found");
    assert_eq!(q, p);
}
