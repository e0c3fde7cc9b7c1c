//! Record identifiers: twelve raw bytes, written as 24 hexadecimal digits.

use mongodb::bson::oid::ObjectId;
use vstd::prelude::*;

verus! {

/// The identifier of a stored record (the twelve bytes of a database object id).
#[derive(Clone, Copy, Debug, PartialEq, Eq)]
pub struct RecordId {
    pub bytes: [u8; 12],
}

/// The value of one hexadecimal digit, either case.
pub open spec fn hex_digit_value(c: char) -> Option<u8> {
    if '0' <= c && c <= '9' {
        Some((c as u8 - '0' as u8) as u8)
    } else if 'a' <= c && c <= 'f' {
        Some((c as u8 - 'a' as u8 + 10) as u8)
    } else if 'A' <= c && c <= 'F' {
        Some((c as u8 - 'A' as u8 + 10) as u8)
    } else {
        None
    }
}

/// `s` is exactly 24 hexadecimal digits.
pub open spec fn is_id_text(s: Seq<char>) -> bool {
    &&& s.len() == 24
    &&& forall|i: int| 0 <= i < 24 ==> (#[trigger] hex_digit_value(s[i])) is Some
}

/// The twelve bytes that 24 hexadecimal digits stand for, high digit first.
pub open spec fn decode_id_text(s: Seq<char>) -> Seq<u8> {
    Seq::new(
        12,
        |i: int|
            (hex_digit_value(s[2 * i])->0 * 16 + hex_digit_value(s[2 * i + 1])->0) as u8,
    )
}

/// The lower-case digit for a value below 16.
pub open spec fn lower_hex_digit(v: int) -> char {
    if v < 10 {
        (('0' as u8) + v) as char
    } else {
        (('a' as u8) + (v - 10)) as char
    }
}

/// The lower-case hexadecimal text of a byte sequence, two digits per byte.
pub open spec fn encode_id_text(b: Seq<u8>) -> Seq<char> {
    Seq::new(
        2 * b.len(),
        |i: int|
            if i % 2 == 0 {
                lower_hex_digit((b[i / 2] / 16) as int)
            } else {
                lower_hex_digit((b[i / 2] % 16) as int)
            },
    )
}

/// Reads an identifier from its text (`ObjectId::parse_str`): it succeeds exactly
/// on 24 hexadecimal digits of either case, and gives the bytes they spell.
#[verifier::external_body]
pub(crate) fn parse_record_id(s: &str) -> (res: Option<RecordId>)
    ensures
        res is Some <==> is_id_text(s@),
        res matches Some(id) ==> id.bytes@ == decode_id_text(s@),
{
    match ObjectId::parse_str(s) {
        Ok(oid) => Some(RecordId { bytes: oid.bytes() }),
        Err(_) => None,
    }
}

/// Writes an identifier as text (`ObjectId::to_hex`): 24 lower-case hexadecimal digits.
#[verifier::external_body]
pub(crate) fn record_id_text(id: &RecordId) -> (res: String)
    ensures
        res@ == encode_id_text(id.bytes@),
{
    ObjectId::from_bytes(id.bytes).to_hex()
}

/// A newly generated identifier (`ObjectId::new`). It depends on the clock, the
/// process and a counter, so nothing is stated of its bytes.
#[verifier::external_body]
pub(crate) fn fresh_record_id() -> (res: RecordId) {
    RecordId { bytes: ObjectId::new().bytes() }
}

impl RecordId {
    /// Whether two identifiers hold the same bytes.
    pub fn same(&self, other: &RecordId) -> (res: bool)
        ensures
            res == (*self == *other),
    {
        let mut i: usize = 0;
        while i < 12
            invariant
                0 <= i <= 12,
                forall|j: int| 0 <= j < i ==> self.bytes@[j] == other.bytes@[j],
            decreases 12 - i,
        {
            if self.bytes[i] != other.bytes[i] {
                return false;
            }
            i = i + 1;
        }
        proof {
            assert(self.bytes@ =~= other.bytes@);
            vstd::array::axiom_array_ext_equal(self.bytes, other.bytes);
        }
        true
    }
}

/// Writing an identifier as text and reading it back gives the same identifier.
pub proof fn lemma_id_text_round_trip(id: RecordId)
    ensures
        is_id_text(encode_id_text(id.bytes@)),
        decode_id_text(encode_id_text(id.bytes@)) == id.bytes@,
{
    let b = id.bytes@;
    let t = encode_id_text(b);
    assert forall|i: int| 0 <= i < 24 implies (#[trigger] hex_digit_value(t[i])) is Some by {
        assert(b[i / 2] / 16 < 16);
    }
    assert forall|k: int| 0 <= k < 12 implies
        (hex_digit_value(t[2 * k])->0 * 16 + hex_digit_value(t[2 * k + 1])->0) as u8 == b[k] by {
        assert((2 * k) / 2 == k);
        assert((2 * k + 1) / 2 == k);
        assert((2 * k) % 2 == 0);
        assert((2 * k + 1) % 2 == 1);
    }
    assert(decode_id_text(t) =~= b);
}

} // verus!
