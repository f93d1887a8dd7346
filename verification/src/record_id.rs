//! Record identifiers: twelve opaque bytes, shown to clients as 24 hexadecimal digits.
//!
//! Identifiers are minted, parsed and rendered by the `bson` crate; this module states
//! what those operations return and proves that rendering and parsing are inverse.

use vstd::prelude::*;

verus! {

/// Number of bytes in an identifier.
pub const ID_BYTES: usize = 12;

/// The lower-case hexadecimal digit for a value below sixteen.
pub open spec fn hex_digit(n: int) -> char
    recommends
        0 <= n < 16,
{
    if n < 10 {
        (n + 48) as u8 as char
    } else {
        (n + 87) as u8 as char
    }
}

/// The value of a hexadecimal digit of either case, if `c` is one.
pub open spec fn hex_value(c: char) -> Option<int> {
    let n = c as int;
    if 48 <= n <= 57 {
        Some(n - 48)
    } else if 97 <= n <= 102 {
        Some(n - 87)
    } else if 65 <= n <= 70 {
        Some(n - 55)
    } else {
        None
    }
}

/// The display form of a byte string: two lower-case digits per byte, high digit first.
pub open spec fn hex_of(bytes: Seq<u8>) -> Seq<char> {
    Seq::new(
        2 * bytes.len(),
        |i: int|
            if i % 2 == 0 {
                hex_digit(bytes[i / 2] as int / 16)
            } else {
                hex_digit(bytes[i / 2] as int % 16)
            },
    )
}

/// Whether `s` is the display form of some identifier: exactly 24 hexadecimal digits.
pub open spec fn is_hex_id(s: Seq<char>) -> bool {
    &&& s.len() == 2 * ID_BYTES
    &&& forall|i: int| 0 <= i < s.len() ==> (#[trigger] hex_value(s[i])) is Some
}

/// The bytes that a display form denotes.
pub open spec fn bytes_of_hex(s: Seq<char>) -> Seq<u8>
    recommends
        is_hex_id(s),
{
    Seq::new(
        ID_BYTES as nat,
        |i: int| (16 * hex_value(s[2 * i]).unwrap() + hex_value(s[2 * i + 1]).unwrap()) as u8,
    )
}

/// Identifier of a stored record.
#[derive(Clone, Copy, Debug, PartialEq, Eq, Hash)]
pub struct RecordId {
    pub bytes: [u8; 12],
}

impl View for RecordId {
    type V = Seq<u8>;

    open spec fn view(&self) -> Seq<u8> {
        self.bytes@
    }
}

/// Calls `bson::oid::ObjectId::new` and hands out the bytes of the identifier it made.
/// The bytes come from the clock, a per-process random value and a counter, so nothing
/// is claimed about them. The outside function panics when the system clock reads a time
/// before 1970 or after 2106.
#[verifier::external_body]
fn oid_generate() -> (bytes: [u8; 12]) {
    bson::oid::ObjectId::new().bytes()
}

/// Calls `bson::oid::ObjectId::parse_str`. It decodes with `hex::decode`, which accepts
/// digits of either case and rejects every other byte, and then insists on twelve bytes:
/// so it succeeds exactly on 24 hexadecimal digits, each pair giving one byte, high digit
/// first.
#[verifier::external_body]
fn oid_parse(s: &str) -> (parsed: Option<[u8; 12]>)
    ensures
        parsed is Some <==> is_hex_id(s@),
        parsed is Some ==> parsed.unwrap()@ == bytes_of_hex(s@),
{
    match bson::oid::ObjectId::parse_str(s) {
        Ok(id) => Some(id.bytes()),
        Err(_) => None,
    }
}

/// Calls `bson::oid::ObjectId::to_hex`, which is `hex::encode` of the twelve bytes:
/// two lower-case digits per byte, high digit first.
#[verifier::external_body]
fn oid_to_hex(bytes: [u8; 12]) -> (hex: String)
    ensures
        hex@ == hex_of(bytes@),
{
    bson::oid::ObjectId::from_bytes(bytes).to_hex()
}

impl RecordId {
    /// Mints an identifier for a record that is about to be stored.
    ///
    /// The identifier is made by `bson` from the system clock, a value drawn once per
    /// process and a counter. Panics if the system clock reads a time before 1970 or after
    /// 2106.
    pub fn generate() -> (id: RecordId)
        ensures
            id@.len() == ID_BYTES,
    {
        RecordId { bytes: oid_generate() }
    }

    /// Reads an identifier from its display form. Succeeds exactly on 24 hexadecimal
    /// digits (either case).
    pub fn parse_str(s: &str) -> (parsed: Option<RecordId>)
        ensures
            parsed is Some <==> is_hex_id(s@),
            parsed is Some ==> parsed.unwrap()@ == bytes_of_hex(s@),
    {
        match oid_parse(s) {
            Some(bytes) => Some(RecordId { bytes }),
            None => None,
        }
    }

    /// The display form of this identifier.
    pub fn to_hex(&self) -> (hex: String)
        ensures
            hex@ == hex_of(self@),
    {
        oid_to_hex(self.bytes)
    }
}

/// A digit below sixteen is read back as itself.
pub proof fn lemma_hex_digit_value(n: int)
    requires
        0 <= n < 16,
    ensures
        hex_value(hex_digit(n)) == Some(n),
{
}

/// The display form of an identifier is never empty: it has 24 characters, all of them
/// hexadecimal digits, and parsing it gives the identifier back.
pub proof fn lemma_hex_round_trip(bytes: Seq<u8>)
    requires
        bytes.len() == ID_BYTES,
    ensures
        hex_of(bytes).len() == 24,
        is_hex_id(hex_of(bytes)),
        bytes_of_hex(hex_of(bytes)) == bytes,
{
    let s = hex_of(bytes);
    assert forall|i: int| 0 <= i < s.len() implies (#[trigger] hex_value(s[i])) is Some by {
        let b = bytes[i / 2] as int;
        lemma_hex_digit_value(b / 16);
        lemma_hex_digit_value(b % 16);
    }
    assert forall|i: int| 0 <= i < 12 implies bytes_of_hex(s)[i] == bytes[i] by {
        let b = bytes[i] as int;
        lemma_hex_digit_value(b / 16);
        lemma_hex_digit_value(b % 16);
        assert(s[2 * i] == hex_digit(b / 16));
        assert(s[2 * i + 1] == hex_digit(b % 16));
    }
    assert(bytes_of_hex(s) =~= bytes);
}

} // verus!
