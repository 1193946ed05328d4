//! The record identifier: a 12-byte token, rendered as a 24-digit
//! hexadecimal string at the API boundary and parsed back from one.
//! Encoding and decoding go through the `bson` crate's `ObjectId`.

use vstd::prelude::*;

verus! {

/// Whether `c` is a hexadecimal digit, either case.
pub open spec fn is_hex_digit(c: char) -> bool {
    ('0' as int <= c as int && c as int <= '9' as int) || ('a' as int <= c as int && c as int
        <= 'f' as int) || ('A' as int <= c as int && c as int <= 'F' as int)
}

/// The numeric value of a hexadecimal digit.
pub open spec fn hex_digit_val(c: char) -> int {
    let x = c as int;
    if '0' as int <= x && x <= '9' as int {
        x - '0' as int
    } else if 'a' as int <= x && x <= 'f' as int {
        x - 'a' as int + 10
    } else if 'A' as int <= x && x <= 'F' as int {
        x - 'A' as int + 10
    } else {
        0
    }
}

/// Whether `s` is a well-formed identifier string: exactly 24
/// hexadecimal digits.
pub open spec fn is_oid_hex(s: Seq<char>) -> bool {
    s.len() == 24 && forall|i: int| 0 <= i < s.len() ==> is_hex_digit(#[trigger] s[i])
}

/// The lower-case hexadecimal digit of a value below 16.
pub open spec fn hex_char_of(v: int) -> char {
    if v < 10 {
        ((v + '0' as int) as u8) as char
    } else {
        ((v - 10 + 'a' as int) as u8) as char
    }
}

/// The lower-case hexadecimal rendering of a byte sequence: two digits
/// per byte, high nibble first.
pub open spec fn hex_of(bytes: Seq<u8>) -> Seq<char> {
    Seq::new(bytes.len() * 2, |i: int| if i % 2 == 0 {
        hex_char_of(bytes[i / 2] as int / 16)
    } else {
        hex_char_of(bytes[i / 2] as int % 16)
    })
}

/// The bytes denoted by a hexadecimal string: one byte per digit pair.
pub open spec fn bytes_of_hex(s: Seq<char>) -> Seq<u8> {
    Seq::new(s.len() / 2, |i: int| (hex_digit_val(s[2 * i]) * 16 + hex_digit_val(s[2 * i + 1])) as u8)
}

/// Relies on `bson::oid::ObjectId::parse_str` (with `ObjectId::bytes`):
/// it accepts exactly a 24-digit hexadecimal string, upper or lower
/// case, and returns the 12 bytes it denotes.
#[verifier::external_body]
fn bson_parse_oid(s: &str) -> (r: Option<Vec<u8>>)
    ensures
        match r {
            Some(bytes) => is_oid_hex(s@) && bytes@ == bytes_of_hex(s@),
            None => !is_oid_hex(s@),
        },
{
    bson::oid::ObjectId::parse_str(s).ok().map(|oid| oid.bytes().to_vec())
}

/// Relies on `bson::oid::ObjectId::to_hex` (with `ObjectId::from_bytes`):
/// it renders the 12 bytes as 24 lower-case hexadecimal digits, high
/// nibble of each byte first.
#[verifier::external_body]
fn bson_oid_to_hex(bytes: &Vec<u8>) -> (r: String)
    requires
        bytes@.len() == 12,
    ensures
        r@ == hex_of(bytes@),
{
    let mut raw = [0u8; 12];
    raw.copy_from_slice(bytes.as_slice());
    bson::oid::ObjectId::from_bytes(raw).to_hex()
}

/// A stored record's unique identifier: 12 raw bytes.
#[derive(Debug)]
pub struct ObjectId {
    bytes: Vec<u8>,
}

impl View for ObjectId {
    type V = Seq<u8>;

    closed spec fn view(&self) -> Seq<u8> {
        self.bytes@
    }
}

impl Clone for ObjectId {
    fn clone(&self) -> (r: Self)
        ensures
            r@ == self@,
    {
        proof {
            use_type_invariant(self);
        }
        let bytes = self.bytes.clone();
        assert(bytes@ =~= self.bytes@);
        ObjectId { bytes }
    }
}

impl ObjectId {
    /// An identifier always holds exactly 12 bytes.
    #[verifier::type_invariant]
    pub open spec fn wf(&self) -> bool {
        self@.len() == 12
    }

    /// Parses an identifier from its 24-digit hexadecimal rendering.
    /// Any other string is rejected.
    pub fn with_string(s: &str) -> (r: Option<ObjectId>)
        ensures
            match r {
                Some(oid) => is_oid_hex(s@) && oid@ == bytes_of_hex(s@) && oid.wf(),
                None => !is_oid_hex(s@),
            },
    {
        match bson_parse_oid(s) {
            Some(bytes) => Some(ObjectId { bytes }),
            None => None,
        }
    }

    /// Renders the identifier as 24 lower-case hexadecimal digits.
    pub fn to_hex(&self) -> (r: String)
        ensures
            r@ == hex_of(self@),
    {
        proof {
            use_type_invariant(self);
        }
        bson_oid_to_hex(&self.bytes)
    }

    /// Whether two identifiers denote the same bytes.
    pub fn equals(&self, other: &ObjectId) -> (r: bool)
        ensures
            r == (self@ == other@),
    {
        let r = self.bytes == other.bytes;
        proof {
            if self.bytes@ =~= other.bytes@ {
                assert(self@ == other@);
            }
        }
        r
    }
}

/// A well-formed identifier string decodes to 12 bytes, and rendering
/// them gives back the lower-case form of the same string; rendering
/// any 12 bytes gives a well-formed identifier string that decodes to
/// the same bytes.
pub proof fn lemma_hex_roundtrip(bytes: Seq<u8>)
    requires
        bytes.len() == 12,
    ensures
        is_oid_hex(hex_of(bytes)),
        bytes_of_hex(hex_of(bytes)) == bytes,
{
    assert forall|i: int| 0 <= i < hex_of(bytes).len() implies is_hex_digit(
        #[trigger] hex_of(bytes)[i],
    ) by {
        let v = if i % 2 == 0 {
            bytes[i / 2] as int / 16
        } else {
            bytes[i / 2] as int % 16
        };
        assert(0 <= v < 16);
    }
    assert(bytes_of_hex(hex_of(bytes)) =~= bytes) by {
        assert forall|i: int| 0 <= i < 12 implies bytes_of_hex(hex_of(bytes))[i] == bytes[i] by {
            let hi = bytes[i] as int / 16;
            let lo = bytes[i] as int % 16;
            assert(hex_of(bytes)[2 * i] == hex_char_of(hi));
            assert(hex_of(bytes)[2 * i + 1] == hex_char_of(lo));
            assert(hex_digit_val(hex_char_of(hi)) == hi);
            assert(hex_digit_val(hex_char_of(lo)) == lo);
            assert(hi * 16 + lo == bytes[i] as int);
        }
    }
}

} // verus!
