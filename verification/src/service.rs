//! The patient service: an identifier allocator and a durable record map,
//! with the five operations of the interface. Every operation is specified
//! against the store's model, a map from identifier to record model.

use vstd::prelude::*;
use vstd::string::StringExecFns;
use crate::patient::{Patient, PatientModel, PatientPayload, PayloadModel, Error};
use crate::codec::{
    spec_decode, spec_encodable, spec_payload_fits, encode_patient, decode_patient,
    lemma_encode_decode_roundtrip, lemma_decode_encodable,
};
use crate::decimal::{spec_decimal, push_decimal};
use crate::store::{IdCounter, RecordStore, id_counter_value, record_store_contents};

verus! {

/// The message carried by a failed lookup.
pub open spec fn spec_get_not_found_msg(id: u64) -> Seq<char> {
    "a patient with id="@ + spec_decimal(id) + " not found"@
}

/// The message carried by an update of a missing record.
pub open spec fn spec_update_not_found_msg(id: u64) -> Seq<char> {
    "couldn't update a patient with id="@ + spec_decimal(id) + ". patient not found"@
}

/// The message carried by a room assignment to a missing record.
pub open spec fn spec_assign_not_found_msg(id: u64) -> Seq<char> {
    "couldn't assign a room to a patient with id="@ + spec_decimal(id) + ". patient not found"@
}

/// The message carried by a discharge of a missing record.
pub open spec fn spec_discharge_not_found_msg(id: u64) -> Seq<char> {
    "couldn't discharge a patient with id="@ + spec_decimal(id) + ". patient not found"@
}

/// The record a fresh admission creates: room unassigned, admission instant
/// stamped, demographic fields from the payload.
pub open spec fn spec_new_patient(id: u64, pl: PayloadModel, now: u64) -> PatientModel {
    PatientModel {
        id,
        name: pl.name,
        age: pl.age,
        gender: pl.gender,
        room_number: Option::None,
        admitted_at: now,
    }
}

/// The record with its demographic fields replaced and everything else as
/// it was.
pub open spec fn spec_with_payload(p: PatientModel, pl: PayloadModel) -> PatientModel {
    PatientModel {
        id: p.id,
        name: pl.name,
        age: pl.age,
        gender: pl.gender,
        room_number: p.room_number,
        admitted_at: p.admitted_at,
    }
}

/// The record with its room assignment replaced and everything else as it
/// was.
pub open spec fn spec_with_room(p: PatientModel, room: Option<u32>) -> PatientModel {
    PatientModel {
        id: p.id,
        name: p.name,
        age: p.age,
        gender: p.gender,
        room_number: room,
        admitted_at: p.admitted_at,
    }
}

fn not_found_msg(prefix: &str, id: u64, suffix: &str) -> (s: String)
    ensures
        s@ == prefix@ + spec_decimal(id) + suffix@,
{
    let mut s = String::from_str(prefix);
    push_decimal(&mut s, id);
    s.append(suffix);
    s
}

/// The service state: the counter of issued identifiers and the record map.
pub struct Hospital {
    ids: IdCounter,
    records: RecordStore,
}

impl Hospital {
    /// The identifier issued last; zero before any admission.
    pub closed spec fn counter(self) -> u64 {
        id_counter_value(&self.ids)
    }

    /// The raw serialized records, by identifier.
    pub closed spec fn records(self) -> Map<u64, Seq<u8>> {
        record_store_contents(&self.records)
    }

    /// The record store as a map from identifier to record model.
    pub open spec fn patients(self) -> Map<u64, PatientModel> {
        self.records().map_values(|b: Seq<u8>| spec_decode(b).unwrap())
    }

    /// Every stored byte string is a well-formed record whose identifier
    /// matches its key, and every key was issued by the allocator.
    pub closed spec fn wf(self) -> bool {
        forall|k: u64| #[trigger]
            self.records().contains_key(k) ==> spec_decode(self.records()[k]) is Some
                && spec_decode(self.records()[k]).unwrap().id == k && 1 <= k <= self.counter()
    }

    /// The model map has exactly the stored identifiers as keys.
    pub proof fn lemma_patients_dom(self)
        ensures
            self.patients().dom() == self.records().dom(),
    {
        assert(self.patients().dom() =~= self.records().dom());
    }

    /// A stored record's model carries its own key as identifier, within
    /// the range the allocator has issued.
    pub proof fn lemma_stored_record(self, id: u64)
        requires
            self.wf(),
            self.patients().contains_key(id),
        ensures
            self.records().contains_key(id),
            self.patients()[id].id == id,
            1 <= id <= self.counter(),
            spec_encodable(self.patients()[id]),
    {
        self.lemma_patients_dom();
        lemma_decode_encodable(self.records()[id]);
    }

    /// A fresh service: nothing stored, no identifier issued yet.
    pub fn new() -> (h: Hospital)
        ensures
            h.wf(),
            h.counter() == 0,
            h.patients() == Map::<u64, PatientModel>::empty(),
    {
        let h = Hospital { ids: IdCounter::new(), records: RecordStore::new() };
        proof {
            assert(h.patients() =~= Map::<u64, PatientModel>::empty());
        }
        h
    }

    /// The identifier issued last; the next admission gets the one above.
    pub fn last_issued_id(&self) -> (v: u64)
        ensures
            v == self.counter(),
    {
        self.ids.get()
    }

    /// Looks a record up by identifier; `None` when the identifier is not
    /// in the store.
    pub fn _get_patient(&self, id: &u64) -> (r: Option<Patient>)
        requires
            self.wf(),
        ensures
            match r {
                Some(p) => self.patients().contains_key(*id) && p@ == self.patients()[*id],
                None => !self.patients().contains_key(*id),
            },
    {
        proof {
            self.lemma_patients_dom();
        }
        match self.records.get(*id) {
            Option::Some(bytes) => {
                match decode_patient(&bytes) {
                    Option::Some(p) => Some(p),
                    Option::None => {
                        proof {
                            assert(false);
                        }
                        None
                    },
                }
            },
            Option::None => None,
        }
    }

    /// Serializes the record and stores it under its own identifier,
    /// replacing whatever was there.
    pub fn do_insert(&mut self, patient: &Patient)
        requires
            old(self).wf(),
            spec_encodable(patient@),
            1 <= patient.id <= old(self).counter(),
        ensures
            final(self).wf(),
            final(self).counter() == old(self).counter(),
            final(self).patients() == old(self).patients().insert(patient.id, patient@),
    {
        let bytes = encode_patient(patient);
        self.records.insert(patient.id, bytes);
        proof {
            lemma_encode_decode_roundtrip(patient@);
            assert(final(self).patients() =~= old(self).patients().insert(patient.id, patient@));
        }
    }

    /// Looks a record up; the error message names the identifier.
    pub fn get_patient(&self, id: u64) -> (r: Result<Patient, Error>)
        requires
            self.wf(),
        ensures
            match r {
                Ok(p) => self.patients().contains_key(id) && p@ == self.patients()[id],
                Err(e) => !self.patients().contains_key(id) && (e matches Error::NotFound { msg }
                    && msg@ == spec_get_not_found_msg(id)),
            },
    {
        match self._get_patient(&id) {
            Option::Some(p) => Ok(p),
            Option::None => Err(
                Error::NotFound { msg: not_found_msg("a patient with id=", id, " not found") },
            ),
        }
    }

    /// Admits a new patient: issues the next identifier, stamps the given
    /// admission instant, stores the record with no room assigned, and
    /// returns it. The identifier is fresh: it was never stored before.
    pub fn add_patient(&mut self, payload: PatientPayload, now: u64) -> (r: Patient)
        requires
            old(self).wf(),
            old(self).counter() < u64::MAX,
            spec_payload_fits(payload@),
        ensures
            final(self).wf(),
            r@ == spec_new_patient((old(self).counter() + 1) as u64, payload@, now),
            r.id == old(self).counter() + 1,
            !old(self).patients().contains_key(r.id),
            final(self).counter() == old(self).counter() + 1,
            final(self).patients() == old(self).patients().insert(r.id, r@),
    {
        let id = self.ids.get() + 1;
        self.ids.set(id);
        let p = Patient {
            id,
            name: payload.name,
            age: payload.age,
            gender: payload.gender,
            room_number: None,
            admitted_at: now,
        };
        proof {
            if old(self).patients().contains_key(id) {
                old(self).lemma_stored_record(id);
                assert(false);
            }
        }
        self.do_insert(&p);
        p
    }

    /// Replaces the demographic fields of an existing record, leaving its
    /// identifier, room assignment and admission instant untouched.
    pub fn update_patient(&mut self, id: u64, payload: PatientPayload) -> (r: Result<
        Patient,
        Error,
    >)
        requires
            old(self).wf(),
            spec_payload_fits(payload@),
        ensures
            final(self).wf(),
            final(self).counter() == old(self).counter(),
            match r {
                Ok(p) => old(self).patients().contains_key(id) && p@ == spec_with_payload(
                    old(self).patients()[id],
                    payload@,
                ) && final(self).patients() == old(self).patients().insert(id, p@),
                Err(e) => !old(self).patients().contains_key(id) && *final(self) == *old(self) && (
                e matches Error::NotFound { msg } && msg@ == spec_update_not_found_msg(id)),
            },
    {
        match self._get_patient(&id) {
            Option::Some(mut patient) => {
                proof {
                    old(self).lemma_stored_record(id);
                }
                patient.name = payload.name;
                patient.age = payload.age;
                patient.gender = payload.gender;
                self.do_insert(&patient);
                Ok(patient)
            },
            Option::None => Err(
                Error::NotFound {
                    msg: not_found_msg(
                        "couldn't update a patient with id=",
                        id,
                        ". patient not found",
                    ),
                },
            ),
        }
    }

    /// Assigns the given room to an existing record, leaving every other
    /// field untouched.
    pub fn assign_room(&mut self, id: u64, room_number: u32) -> (r: Result<Patient, Error>)
        requires
            old(self).wf(),
        ensures
            final(self).wf(),
            final(self).counter() == old(self).counter(),
            match r {
                Ok(p) => old(self).patients().contains_key(id) && p@ == spec_with_room(
                    old(self).patients()[id],
                    Option::Some(room_number),
                ) && final(self).patients() == old(self).patients().insert(id, p@),
                Err(e) => !old(self).patients().contains_key(id) && *final(self) == *old(self) && (
                e matches Error::NotFound { msg } && msg@ == spec_assign_not_found_msg(id)),
            },
    {
        match self._get_patient(&id) {
            Option::Some(mut patient) => {
                proof {
                    old(self).lemma_stored_record(id);
                }
                patient.room_number = Some(room_number);
                self.do_insert(&patient);
                Ok(patient)
            },
            Option::None => Err(
                Error::NotFound {
                    msg: not_found_msg(
                        "couldn't assign a room to a patient with id=",
                        id,
                        ". patient not found",
                    ),
                },
            ),
        }
    }

    /// Clears the room assignment of an existing record, leaving every
    /// other field untouched.
    pub fn discharge_patient(&mut self, id: u64) -> (r: Result<Patient, Error>)
        requires
            old(self).wf(),
        ensures
            final(self).wf(),
            final(self).counter() == old(self).counter(),
            match r {
                Ok(p) => old(self).patients().contains_key(id) && p@ == spec_with_room(
                    old(self).patients()[id],
                    Option::None,
                ) && final(self).patients() == old(self).patients().insert(id, p@),
                Err(e) => !old(self).patients().contains_key(id) && *final(self) == *old(self) && (
                e matches Error::NotFound { msg } && msg@ == spec_discharge_not_found_msg(id)),
            },
    {
        match self._get_patient(&id) {
            Option::Some(mut patient) => {
                proof {
                    old(self).lemma_stored_record(id);
                }
                patient.room_number = None;
                self.do_insert(&patient);
                Ok(patient)
            },
            Option::None => Err(
                Error::NotFound {
                    msg: not_found_msg(
                        "couldn't discharge a patient with id=",
                        id,
                        ". patient not found",
                    ),
                },
            ),
        }
    }
}

/// Law: a record just admitted is found under its new identifier,
/// unchanged. The map named here is what `add_patient` leaves behind, and
/// what `get_patient` reads.
pub proof fn lemma_get_after_add(pre: Hospital, post: Hospital, r: PatientModel)
    requires
        post.patients() == pre.patients().insert(r.id, r),
    ensures
        post.patients().contains_key(r.id),
        post.patients()[r.id] == r,
{
}

/// Law: assigning a room yields that room, and a discharge right after
/// leaves the record unassigned, with every other field as before.
pub proof fn lemma_assign_then_discharge(p: PatientModel, n: u32)
    ensures
        spec_with_room(p, Option::Some(n)).room_number == Option::Some(n),
        spec_with_room(spec_with_room(p, Option::Some(n)), Option::None).room_number
            == Option::<u32>::None,
        spec_with_room(spec_with_room(p, Option::Some(n)), Option::None) == spec_with_room(
            p,
            Option::None,
        ),
{
}

/// Law: an identifier the allocator never issued — zero, or anything above
/// its counter — has no record stored under it, so every operation that
/// looks it up fails.
pub proof fn lemma_unissued_id_absent(h: Hospital, id: u64)
    requires
        h.wf(),
        id == 0 || id > h.counter(),
    ensures
        !h.patients().contains_key(id),
{
    if h.patients().contains_key(id) {
        h.lemma_stored_record(id);
    }
}

/// Law: identifiers of successive admissions strictly increase; none is
/// ever issued twice.
pub proof fn lemma_ids_strictly_increase(
    h0: Hospital,
    h1: Hospital,
    h2: Hospital,
    id1: u64,
    id2: u64,
)
    requires
        id1 == h0.counter() + 1,
        h1.counter() == h0.counter() + 1,
        id2 == h1.counter() + 1,
        h2.counter() == h1.counter() + 1,
    ensures
        id2 > id1,
{
}

} // verus!
