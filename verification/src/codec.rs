//! The serialized form of a patient record: a fixed header followed by the
//! two text fields, each character as four little-endian bytes. Encoding
//! then decoding reproduces every field, and no encoded record exceeds
//! `MAX_RECORD_BYTES`.
//!
//! Layout: id (8 bytes) | age (4) | admitted_at (8) | room tag (1) |
//! room number (4) | name length (4) | gender length (4) | name characters |
//! gender characters. Lengths count characters; the room tag is 0 for no
//! room (the four room bytes then hold 0) and 1 for an assigned room.

use vstd::prelude::*;
use vstd::bytes::*;
use vstd::slice::slice_subrange;
use vstd::string::StrSliceExecFns;
use crate::patient::{Patient, PatientModel};

verus! {

/// Maximum serialized size of one record, in bytes.
pub const MAX_RECORD_BYTES: usize = 1024;

/// Size of the fixed-width header that precedes the text fields.
pub const HEADER_BYTES: usize = 33;

/// Whether `u` is a Unicode scalar value, i.e. the code point of a `char`.
pub open spec fn is_scalar_value(u: u32) -> bool {
    u < 0xD800 || (0xE000 <= u && u <= 0x10FFFF)
}

/// The bytes of a character sequence: each character as its code point in
/// four little-endian bytes.
pub open spec fn spec_chars_to_bytes(s: Seq<char>) -> Seq<u8>
    decreases s.len(),
{
    if s.len() == 0 {
        Seq::<u8>::empty()
    } else {
        spec_u32_to_le_bytes(s[0] as u32) + spec_chars_to_bytes(s.skip(1))
    }
}

/// Reads `cnt` characters back from `b`, four bytes each; `None` if some
/// four-byte group is not a Unicode scalar value.
pub open spec fn spec_bytes_to_chars(b: Seq<u8>, cnt: nat) -> Option<Seq<char>>
    recommends
        b.len() == 4 * cnt,
    decreases cnt,
{
    if cnt == 0 {
        Some(Seq::<char>::empty())
    } else {
        let u = spec_u32_from_le_bytes(b.take(4));
        if is_scalar_value(u) {
            match spec_bytes_to_chars(b.skip(4), (cnt - 1) as nat) {
                Some(rest) => Some(seq![u as char] + rest),
                None => None,
            }
        } else {
            None
        }
    }
}

/// The five bytes that record the room assignment.
pub open spec fn spec_room_bytes(room: Option<u32>) -> Seq<u8> {
    match room {
        Option::None => seq![0u8] + spec_u32_to_le_bytes(0),
        Option::Some(n) => seq![1u8] + spec_u32_to_le_bytes(n),
    }
}

/// Whether a record fits the declared maximum serialized size.
pub open spec fn spec_encodable(p: PatientModel) -> bool {
    HEADER_BYTES + 4 * (p.name.len() + p.gender.len()) <= MAX_RECORD_BYTES
}

/// Whether a payload's text fields keep any record holding them within the
/// maximum serialized size.
pub open spec fn spec_payload_fits(pl: crate::patient::PayloadModel) -> bool {
    HEADER_BYTES + 4 * (pl.name.len() + pl.gender.len()) <= MAX_RECORD_BYTES
}

/// The serialized form of a record.
pub open spec fn spec_encode(p: PatientModel) -> Seq<u8> {
    spec_u64_to_le_bytes(p.id) + spec_u32_to_le_bytes(p.age) + spec_u64_to_le_bytes(p.admitted_at)
        + spec_room_bytes(p.room_number) + spec_u32_to_le_bytes(p.name.len() as u32)
        + spec_u32_to_le_bytes(p.gender.len() as u32) + spec_chars_to_bytes(p.name)
        + spec_chars_to_bytes(p.gender)
}

/// The record a byte string deserializes to, if it is a well-formed
/// serialized record of at most `MAX_RECORD_BYTES` bytes.
pub open spec fn spec_decode(b: Seq<u8>) -> Option<PatientModel> {
    if b.len() < HEADER_BYTES || b.len() > MAX_RECORD_BYTES {
        None
    } else {
        let id = spec_u64_from_le_bytes(b.subrange(0, 8));
        let age = spec_u32_from_le_bytes(b.subrange(8, 12));
        let admitted_at = spec_u64_from_le_bytes(b.subrange(12, 20));
        let tag = b[20];
        let room_raw = spec_u32_from_le_bytes(b.subrange(21, 25));
        let nlen = spec_u32_from_le_bytes(b.subrange(25, 29)) as int;
        let glen = spec_u32_from_le_bytes(b.subrange(29, 33)) as int;
        if tag != 0 && tag != 1 {
            None
        } else if b.len() != HEADER_BYTES + 4 * nlen + 4 * glen {
            None
        } else {
            let name = spec_bytes_to_chars(b.subrange(33, 33 + 4 * nlen), nlen as nat);
            let gender = spec_bytes_to_chars(
                b.subrange(33 + 4 * nlen, 33 + 4 * nlen + 4 * glen),
                glen as nat,
            );
            match (name, gender) {
                (Some(name), Some(gender)) => Some(
                    PatientModel {
                        id,
                        name,
                        age,
                        gender,
                        room_number: if tag == 1 {
                            Option::Some(room_raw)
                        } else {
                            Option::None
                        },
                        admitted_at,
                    },
                ),
                _ => None,
            }
        }
    }
}

/// The byte form of a character sequence is four bytes per character.
pub proof fn lemma_chars_to_bytes_len(s: Seq<char>)
    ensures
        spec_chars_to_bytes(s).len() == 4 * s.len(),
    decreases s.len(),
{
    lemma_auto_spec_u32_to_from_le_bytes();
    if s.len() > 0 {
        lemma_chars_to_bytes_len(s.skip(1));
    }
}

/// Appending one character appends its four bytes.
proof fn lemma_chars_to_bytes_push(s: Seq<char>, c: char)
    ensures
        spec_chars_to_bytes(s.push(c)) == spec_chars_to_bytes(s) + spec_u32_to_le_bytes(c as u32),
    decreases s.len(),
{
    if s.len() == 0 {
        assert(s.push(c)[0] == c);
        assert(s.push(c).skip(1) =~= Seq::<char>::empty());
        assert(spec_chars_to_bytes(Seq::<char>::empty()) == Seq::<u8>::empty());
        assert(spec_chars_to_bytes(s.push(c)) == spec_u32_to_le_bytes(c as u32)
            + spec_chars_to_bytes(s.push(c).skip(1)));
        assert(spec_chars_to_bytes(s.push(c)) =~= spec_chars_to_bytes(s) + spec_u32_to_le_bytes(
            c as u32,
        ));
    } else {
        lemma_chars_to_bytes_push(s.skip(1), c);
        assert(s.push(c).skip(1) =~= s.skip(1).push(c));
        assert(s.push(c)[0] == s[0]);
        assert(spec_chars_to_bytes(s.push(c)) =~= spec_chars_to_bytes(s) + spec_u32_to_le_bytes(
            c as u32,
        ));
    }
}

/// Reading back the bytes of a character sequence yields that sequence.
proof fn lemma_chars_roundtrip(s: Seq<char>)
    ensures
        spec_bytes_to_chars(spec_chars_to_bytes(s), s.len()) == Some(s),
    decreases s.len(),
{
    lemma_auto_spec_u32_to_from_le_bytes();
    if s.len() == 0 {
        assert(spec_bytes_to_chars(spec_chars_to_bytes(s), s.len()) =~= Some(Seq::<char>::empty()));
        assert(Seq::<char>::empty() =~= s);
    } else {
        lemma_chars_roundtrip(s.skip(1));
        lemma_chars_to_bytes_len(s.skip(1));
        let b = spec_chars_to_bytes(s);
        assert(b.take(4) =~= spec_u32_to_le_bytes(s[0] as u32));
        assert(b.skip(4) =~= spec_chars_to_bytes(s.skip(1)));
        vstd::utf8::char_is_scalar(s[0]);
        assert(is_scalar_value(s[0] as u32));
        vstd::utf8::char_u32_cast(s[0], s[0] as u32);
        assert(((s[0] as u32) as char) == s[0]);
        assert(seq![s[0]] + s.skip(1) =~= s);
    }
}

/// A successful read of `cnt` characters yields exactly `cnt` characters.
pub proof fn lemma_bytes_to_chars_len(b: Seq<u8>, cnt: nat)
    requires
        spec_bytes_to_chars(b, cnt) is Some,
    ensures
        spec_bytes_to_chars(b, cnt).unwrap().len() == cnt,
    decreases cnt,
{
    if cnt > 0 {
        lemma_bytes_to_chars_len(b.skip(4), (cnt - 1) as nat);
    }
}

/// Appends the four-bytes-per-character form of `s` to `out`.
fn push_chars(out: &mut Vec<u8>, s: &String)
    ensures
        final(out)@ == old(out)@ + spec_chars_to_bytes(s@),
{
    let n = s.as_str().unicode_len();
    let mut i: usize = 0;
    proof {
        assert(s@.take(0) =~= Seq::<char>::empty());
    }
    while i < n
        invariant
            i <= n,
            n == s@.len(),
            out@ == old(out)@ + spec_chars_to_bytes(s@.take(i as int)),
        decreases n - i,
    {
        let c = s.as_str().get_char(i);
        let mut cb = u32_to_le_bytes(c as u32);
        out.append(&mut cb);
        proof {
            lemma_chars_to_bytes_push(s@.take(i as int), c);
            assert(s@.take(i + 1) =~= s@.take(i as int).push(s@[i as int]));
        }
        i += 1;
    }
    proof {
        assert(s@.take(n as int) =~= s@);
    }
}

/// Serializes a record. The result is exactly `spec_encode` of the record's
/// model and stays within the declared maximum size.
pub fn encode_patient(p: &Patient) -> (r: Vec<u8>)
    requires
        spec_encodable(p@),
    ensures
        r@ == spec_encode(p@),
        r@.len() <= MAX_RECORD_BYTES,
{
    proof {
        lemma_auto_spec_u32_to_from_le_bytes();
        lemma_auto_spec_u64_to_from_le_bytes();
        lemma_chars_to_bytes_len(p.name@);
        lemma_chars_to_bytes_len(p.gender@);
    }
    let mut out: Vec<u8> = Vec::new();
    let mut idb = u64_to_le_bytes(p.id);
    out.append(&mut idb);
    let mut ageb = u32_to_le_bytes(p.age);
    out.append(&mut ageb);
    let mut adb = u64_to_le_bytes(p.admitted_at);
    out.append(&mut adb);
    match p.room_number {
        Option::Some(n) => {
            out.push(1u8);
            let mut rb = u32_to_le_bytes(n);
            out.append(&mut rb);
        },
        Option::None => {
            out.push(0u8);
            let mut rb = u32_to_le_bytes(0u32);
            out.append(&mut rb);
        },
    }
    let nlen = p.name.as_str().unicode_len();
    let mut nl = u32_to_le_bytes(nlen as u32);
    out.append(&mut nl);
    let glen = p.gender.as_str().unicode_len();
    let mut gl = u32_to_le_bytes(glen as u32);
    out.append(&mut gl);
    push_chars(&mut out, &p.name);
    push_chars(&mut out, &p.gender);
    proof {
        assert(out@ =~= spec_encode(p@));
    }
    out
}

/// Relies on `char::from_u32`: it returns the character with the given code
/// point, and `None` exactly on surrogates and values above the maximum
/// code point.
pub assume_specification[ char::from_u32 ](u: u32) -> (r: Option<char>)
    ensures
        r matches Some(c) ==> c as u32 == u,
        r is Some <==> is_scalar_value(u),
;

/// Relies on `String::push`: it appends the given character at the end.
#[verifier::external_body]
fn push_char(s: &mut String, c: char)
    ensures
        final(s)@ == old(s)@.push(c),
{
    s.push(c);
}

/// Reads `cnt` characters out of `b` starting at byte `start`.
fn decode_chars(b: &Vec<u8>, start: usize, cnt: usize) -> (r: Option<String>)
    requires
        start + 4 * cnt <= b@.len(),
    ensures
        match r {
            Some(s) => spec_bytes_to_chars(
                b@.subrange(start as int, start + 4 * cnt),
                cnt as nat,
            ) == Some(s@),
            None => spec_bytes_to_chars(b@.subrange(start as int, start + 4 * cnt), cnt as nat)
                is None,
        },
{
    let ghost full = b@.subrange(start as int, start + 4 * cnt);
    let blen = b.len();
    let mut s = String::new();
    let mut i: usize = 0;
    while i < cnt
        invariant
            i <= cnt,
            blen == b@.len(),
            start + 4 * cnt <= b@.len(),
            full == b@.subrange(start as int, start + 4 * cnt),
            spec_bytes_to_chars(full, cnt as nat) == (match spec_bytes_to_chars(
                b@.subrange(start + 4 * i, start + 4 * cnt),
                (cnt - i) as nat,
            ) {
                Some(rest) => Some(s@ + rest),
                None => None,
            }),
        decreases cnt - i,
    {
        let off = start + 4 * i;
        let u = u32_from_le_bytes(slice_subrange(b.as_slice(), off, off + 4));
        let ghost remaining = b@.subrange(start + 4 * i, start + 4 * cnt);
        proof {
            assert(remaining.take(4) =~= b@.subrange(off as int, off + 4));
            assert(remaining.skip(4) =~= b@.subrange(start + 4 * (i + 1), start + 4 * cnt));
        }
        match char::from_u32(u) {
            Option::Some(c) => {
                let ghost s_before = s@;
                push_char(&mut s, c);
                proof {
                    vstd::utf8::char_u32_cast(c, u);
                    assert((u as char) == c);
                    let tail = b@.subrange(start + 4 * (i + 1), start + 4 * cnt);
                    match spec_bytes_to_chars(tail, (cnt - i - 1) as nat) {
                        Some(rest) => {
                            assert(s_before + (seq![c] + rest) =~= s@ + rest);
                        },
                        None => {},
                    }
                }
            },
            Option::None => {
                return None;
            },
        }
        i += 1;
    }
    proof {
        assert(b@.subrange(start + 4 * i, start + 4 * cnt) =~= Seq::<u8>::empty());
        assert(spec_bytes_to_chars(full, cnt as nat) == Some(s@ + Seq::<char>::empty()));
        assert(s@ + Seq::<char>::empty() =~= s@);
    }
    Some(s)
}

/// Deserializes a record: the result is exactly what `spec_decode` yields
/// on the given bytes.
pub fn decode_patient(b: &Vec<u8>) -> (r: Option<Patient>)
    ensures
        match r {
            Some(p) => spec_decode(b@) == Some(p@),
            None => spec_decode(b@) is None,
        },
{
    if b.len() < HEADER_BYTES || b.len() > MAX_RECORD_BYTES {
        return None;
    }
    let id = u64_from_le_bytes(slice_subrange(b.as_slice(), 0, 8));
    let age = u32_from_le_bytes(slice_subrange(b.as_slice(), 8, 12));
    let admitted_at = u64_from_le_bytes(slice_subrange(b.as_slice(), 12, 20));
    let tag = b[20];
    let room_raw = u32_from_le_bytes(slice_subrange(b.as_slice(), 21, 25));
    let nlen32 = u32_from_le_bytes(slice_subrange(b.as_slice(), 25, 29));
    let glen32 = u32_from_le_bytes(slice_subrange(b.as_slice(), 29, 33));
    if tag != 0 && tag != 1 {
        return None;
    }
    let need: u64 = 33 + 4 * (nlen32 as u64) + 4 * (glen32 as u64);
    if (b.len() as u64) != need {
        return None;
    }
    let nlen = nlen32 as usize;
    let glen = glen32 as usize;
    let name = match decode_chars(b, 33, nlen) {
        Option::Some(s) => s,
        Option::None => {
            return None;
        },
    };
    let gender = match decode_chars(b, 33 + 4 * nlen, glen) {
        Option::Some(s) => s,
        Option::None => {
            return None;
        },
    };
    Some(
        Patient {
            id,
            name,
            age,
            gender,
            room_number: if tag == 1 {
                Option::Some(room_raw)
            } else {
                Option::None
            },
            admitted_at,
        },
    )
}

/// Serializing any record that fits the maximum size and then deserializing
/// it yields that record back, field for field.
pub proof fn lemma_encode_decode_roundtrip(p: PatientModel)
    requires
        spec_encodable(p),
    ensures
        spec_decode(spec_encode(p)) == Some(p),
{
    lemma_auto_spec_u32_to_from_le_bytes();
    lemma_auto_spec_u64_to_from_le_bytes();
    lemma_chars_to_bytes_len(p.name);
    lemma_chars_to_bytes_len(p.gender);
    lemma_chars_roundtrip(p.name);
    lemma_chars_roundtrip(p.gender);
    let b = spec_encode(p);
    let nlen = p.name.len() as int;
    let glen = p.gender.len() as int;
    assert(b.len() == 33 + 4 * nlen + 4 * glen);
    assert(b.subrange(0, 8) =~= spec_u64_to_le_bytes(p.id));
    assert(b.subrange(8, 12) =~= spec_u32_to_le_bytes(p.age));
    assert(b.subrange(12, 20) =~= spec_u64_to_le_bytes(p.admitted_at));
    assert(b.subrange(20, 25) =~= spec_room_bytes(p.room_number));
    assert(b.subrange(25, 29) =~= spec_u32_to_le_bytes(p.name.len() as u32));
    assert(b.subrange(29, 33) =~= spec_u32_to_le_bytes(p.gender.len() as u32));
    assert(b.subrange(33, 33 + 4 * nlen) =~= spec_chars_to_bytes(p.name));
    assert(b.subrange(33 + 4 * nlen, 33 + 4 * nlen + 4 * glen) =~= spec_chars_to_bytes(p.gender));
    match p.room_number {
        Option::Some(n) => {
            assert(b[20] == 1u8);
            assert(b.subrange(21, 25) =~= spec_u32_to_le_bytes(n));
        },
        Option::None => {
            assert(b[20] == 0u8);
        },
    }
}

/// Any byte string that deserializes successfully came within the maximum
/// size, so the record it yields fits that size again.
pub proof fn lemma_decode_encodable(b: Seq<u8>)
    requires
        spec_decode(b) is Some,
    ensures
        spec_encodable(spec_decode(b).unwrap()),
{
    let nlen = spec_u32_from_le_bytes(b.subrange(25, 29)) as int;
    let glen = spec_u32_from_le_bytes(b.subrange(29, 33)) as int;
    lemma_bytes_to_chars_len(b.subrange(33, 33 + 4 * nlen), nlen as nat);
    lemma_bytes_to_chars_len(b.subrange(33 + 4 * nlen, 33 + 4 * nlen + 4 * glen), glen as nat);
}

} // verus!
