//! The record types: a patient, the payload a caller supplies when creating
//! or updating one, and the error a lookup by an unknown identifier yields.

use vstd::prelude::*;

verus! {

/// A single patient record. `id` and `admitted_at` are set once at creation
/// and never change afterwards; `room_number` is `None` while the patient is
/// not assigned to a room.
#[derive(Clone, Debug, PartialEq, Eq)]
pub struct Patient {
    pub id: u64,
    pub name: String,
    pub age: u32,
    pub gender: String,
    pub room_number: Option<u32>,
    pub admitted_at: u64,
}

/// The mathematical model of a patient record: the same fields, with the
/// text fields as character sequences.
pub struct PatientModel {
    pub id: u64,
    pub name: Seq<char>,
    pub age: u32,
    pub gender: Seq<char>,
    pub room_number: Option<u32>,
    pub admitted_at: u64,
}

impl View for Patient {
    type V = PatientModel;

    open spec fn view(&self) -> PatientModel {
        PatientModel {
            id: self.id,
            name: self.name@,
            age: self.age,
            gender: self.gender@,
            room_number: self.room_number,
            admitted_at: self.admitted_at,
        }
    }
}

/// The caller-supplied fields for creating or updating a record.
#[derive(Clone, Debug, PartialEq, Eq)]
pub struct PatientPayload {
    pub name: String,
    pub age: u32,
    pub gender: String,
}

/// The mathematical model of a payload.
pub struct PayloadModel {
    pub name: Seq<char>,
    pub age: u32,
    pub gender: Seq<char>,
}

impl View for PatientPayload {
    type V = PayloadModel;

    open spec fn view(&self) -> PayloadModel {
        PayloadModel { name: self.name@, age: self.age, gender: self.gender@ }
    }
}

/// The single error of the operation surface: an operation that needs an
/// existing record found none under the given identifier. The message names
/// the operation and the identifier.
#[derive(Clone, Debug, PartialEq, Eq)]
pub enum Error {
    NotFound { msg: String },
}

} // verus!
