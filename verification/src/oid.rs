//! Identifiers of repository objects and their hexadecimal form.

use vstd::prelude::*;
use vstd::string::*;
use vstd::utf8::*;

verus! {

/// The identifier of a repository object: a digest of twenty bytes.
#[derive(Clone, Copy, Debug)]
pub struct ObjectId {
    pub bytes: [u8; 20],
}

impl DeepView for ObjectId {
    type V = ObjectId;

    open spec fn deep_view(&self) -> ObjectId {
        *self
    }
}

/// Why a text is not the hexadecimal form of an identifier.
#[derive(Clone, Copy, Debug, PartialEq, Eq)]
pub enum HexError {
    /// The text has this many bytes, and not two for each byte of a digest.
    Length(usize),
    /// Some character is not a hexadecimal digit.
    Character,
}

impl DeepView for HexError {
    type V = HexError;

    open spec fn deep_view(&self) -> HexError {
        *self
    }
}

/// The lower-case hexadecimal digit for `d`.
pub open spec fn hex_digit(d: int) -> char {
    if d < 10 {
        ('0' as u32 + d) as char
    } else {
        ('a' as u32 + (d - 10)) as char
    }
}

/// The value of a hexadecimal digit of either case.
pub open spec fn hex_value(b: u8) -> Option<int> {
    if 0x30 <= b <= 0x39 {
        Some(b - 0x30)
    } else if 0x61 <= b <= 0x66 {
        Some(b - 0x61 + 10)
    } else if 0x41 <= b <= 0x46 {
        Some(b - 0x41 + 10)
    } else {
        None
    }
}

/// `bytes` in lower-case hexadecimal, the high half of each byte first.
pub open spec fn hex_text(bytes: Seq<u8>) -> Seq<char> {
    Seq::new(
        2 * bytes.len(),
        |i: int|
            if i % 2 == 0 {
                hex_digit(bytes[i / 2] as int / 16)
            } else {
                hex_digit(bytes[i / 2] as int % 16)
            },
    )
}

/// Whether `bytes` is what `text`, read as hexadecimal digits in pairs, stands for.
pub open spec fn hex_stands_for(text: Seq<u8>, bytes: Seq<u8>) -> bool {
    &&& text.len() == 2 * bytes.len()
    &&& forall|i: int|
        0 <= i < bytes.len() ==> hex_value(text[2 * i]) is Some && hex_value(text[2 * i + 1])
            is Some && #[trigger] bytes[i] == 16 * hex_value(text[2 * i])->0 + hex_value(
            text[2 * i + 1],
        )->0
}

/// Whether every byte of `text` is a hexadecimal digit.
pub open spec fn all_hex(text: Seq<u8>) -> bool {
    forall|i: int| 0 <= i < text.len() ==> hex_value(#[trigger] text[i]) is Some
}

/// What reading `text` as an identifier gives: a digest where there are forty hexadecimal digits,
/// and otherwise the reason why not.
pub open spec fn reads_as(text: Seq<char>, r: Result<ObjectId, HexError>) -> bool {
    let raw = encode_utf8(text);
    match r {
        Ok(id) => hex_stands_for(raw, id.bytes@),
        Err(HexError::Length(n)) => raw.len() != 40 && n == raw.len(),
        Err(HexError::Character) => raw.len() == 40 && !all_hex(raw),
    }
}

/// The reading of `text` as an identifier.
pub open spec fn hex_reading(text: Seq<char>) -> Result<ObjectId, HexError> {
    choose|r: Result<ObjectId, HexError>| reads_as(text, r)
}

/// Calls `gix_hash::ObjectId::null` for SHA-1. Claimed of it: every byte of the digest is zero.
#[verifier::external_body]
fn null_digest() -> (r: [u8; 20])
    ensures
        forall|i: int| 0 <= i < 20 ==> #[trigger] r@[i] == 0,
{
    let mut bytes: [u8; 20] = [1; 20];
    bytes.copy_from_slice(gix_hash::ObjectId::null(gix_hash::Kind::Sha1).as_slice());
    bytes
}

/// Calls the `Display` of `gix_hash::ObjectId` on a SHA-1 digest. Claimed of it: it writes two
/// lower-case hexadecimal digits for each byte, the high half first.
#[verifier::external_body]
fn digest_text(bytes: &[u8; 20]) -> (r: String)
    ensures
        r@ == hex_text(bytes@),
{
    gix_hash::ObjectId::from(*bytes).to_string()
}

/// Calls the `FromStr` of `gix_hash::ObjectId`. Claimed of it: forty hexadecimal digits of either
/// case give the digest that they stand for; a text whose length is not forty bytes is refused by
/// its length or, where it is not all digits, as invalid; forty bytes that are not all digits are
/// refused as invalid.
#[verifier::external_body]
fn parse_digest(text: &str) -> (r: Result<[u8; 20], HexError>)
    ensures
        match r {
            Ok(bytes) => hex_stands_for(text.spec_bytes(), bytes@),
            Err(HexError::Length(n)) => text.spec_bytes().len() != 40 && n
                == text.spec_bytes().len(),
            Err(HexError::Character) => !all_hex(text.spec_bytes()),
        },
{
    match text.parse::<gix_hash::ObjectId>() {
        Ok(gix_hash::ObjectId::Sha1(bytes)) => Ok(bytes),
        Ok(_) => Err(HexError::Length(text.len())),
        Err(gix_hash::decode::Error::InvalidHexEncodingLength(n)) => Err(HexError::Length(n)),
        Err(gix_hash::decode::Error::Invalid) => Err(HexError::Character),
    }
}

impl ObjectId {
    /// Whether every byte is zero. Such an identifier stands for "no object".
    pub open spec fn is_zero(self) -> bool {
        forall|i: int| 0 <= i < 20 ==> #[trigger] self.bytes@[i] == 0
    }

    /// The lower-case hexadecimal form.
    pub open spec fn hex(self) -> Seq<char> {
        hex_text(self.bytes@)
    }

    /// The identifier that stands for "no object".
    pub fn null() -> (r: ObjectId)
        ensures
            r.is_zero(),
    {
        ObjectId { bytes: null_digest() }
    }

    /// Whether two identifiers are the same.
    pub fn same(&self, other: &ObjectId) -> (r: bool)
        ensures
            r == (*self == *other),
    {
        let mut i: usize = 0;
        while i < 20
            invariant
                i <= 20,
                forall|j: int| 0 <= j < i ==> self.bytes@[j] == other.bytes@[j],
            decreases 20 - i,
        {
            if self.bytes[i] != other.bytes[i] {
                return false;
            }
            i = i + 1;
        }
        assert(self.bytes =~= other.bytes);
        true
    }

    /// Whether this identifier stands for "no object".
    pub fn is_null(&self) -> (r: bool)
        ensures
            r == self.is_zero(),
    {
        let zero = ObjectId::null();
        let r = self.same(&zero);
        proof {
            if self.is_zero() {
                assert(self.bytes =~= zero.bytes);
            }
        }
        r
    }

    /// The lower-case hexadecimal form.
    pub fn to_hex(&self) -> (r: String)
        ensures
            r@ == self.hex(),
    {
        digest_text(&self.bytes)
    }

    /// Reads the hexadecimal form.
    pub fn from_hex(text: &str) -> (r: Result<ObjectId, HexError>)
        ensures
            reads_as(text@, r),
            r == hex_reading(text@),
    {
        let r = match parse_digest(text) {
            Ok(bytes) => Ok(ObjectId { bytes }),
            Err(HexError::Length(n)) => Err(HexError::Length(n)),
            Err(HexError::Character) => {
                let len: usize = text.as_bytes().len();
                if len == 40 {
                    Err(HexError::Character)
                } else {
                    Err(HexError::Length(len))
                }
            },
        };
        proof {
            reading_is_found(text@, r);
        }
        r
    }
}

impl PartialEq for ObjectId {
    fn eq(&self, other: &Self) -> (r: bool) {
        self.same(other)
    }
}

impl vstd::std_specs::cmp::PartialEqSpecImpl for ObjectId {
    open spec fn obeys_eq_spec() -> bool {
        true
    }

    open spec fn eq_spec(&self, other: &Self) -> bool {
        *self == *other
    }
}

impl Eq for ObjectId {

}

/// A text reads in one way only.
pub proof fn reads_as_is_unique(
    text: Seq<char>,
    a: Result<ObjectId, HexError>,
    b: Result<ObjectId, HexError>,
)
    requires
        reads_as(text, a),
        reads_as(text, b),
    ensures
        a == b,
{
    let raw = encode_utf8(text);
    if a is Ok && b is Err {
        hex_pairs_are_hex(raw, a->Ok_0.bytes@);
    }
    if b is Ok && a is Err {
        hex_pairs_are_hex(raw, b->Ok_0.bytes@);
    }
    if a is Ok && b is Ok {
        let x = a->Ok_0;
        let y = b->Ok_0;
        assert forall|i: int| 0 <= i < 20 implies x.bytes@[i] == y.bytes@[i] by {}
        assert(x.bytes =~= y.bytes);
    }
}

/// How a text reads is what [`hex_reading`] says.
pub proof fn reading_is_found(text: Seq<char>, r: Result<ObjectId, HexError>)
    requires
        reads_as(text, r),
    ensures
        hex_reading(text) == r,
{
    reads_as_is_unique(text, r, hex_reading(text));
}

proof fn hex_pairs_are_hex(text: Seq<u8>, bytes: Seq<u8>)
    requires
        hex_stands_for(text, bytes),
    ensures
        all_hex(text),
{
    assert forall|i: int| 0 <= i < text.len() implies hex_value(#[trigger] text[i]) is Some by {
        let k = bytes[i / 2];
        if i % 2 == 0 {
            assert(i == 2 * (i / 2));
        } else {
            assert(i == 2 * (i / 2) + 1);
        }
    }
}

/// The hexadecimal form of an identifier reads back as that identifier.
pub proof fn hex_reads_back(id: ObjectId)
    ensures
        reads_as(id.hex(), Ok(id)),
        hex_reading(id.hex()) == Ok::<ObjectId, HexError>(id),
{
    let text = id.hex();
    assert(is_ascii_chars(text)) by {
        assert forall|i: int| 0 <= i < text.len() implies 0 <= #[trigger] text[i] as nat && (
        text[i] as nat) < 128 by {
            let b = id.bytes@[i / 2];
        }
    }
    is_ascii_chars_encode_utf8(text);
    let raw = encode_utf8(text);
    assert forall|i: int| 0 <= i < 20 implies hex_value(raw[2 * i]) is Some && hex_value(
        raw[2 * i + 1],
    ) is Some && #[trigger] id.bytes@[i] == 16 * hex_value(raw[2 * i])->0 + hex_value(
        raw[2 * i + 1],
    )->0 by {
        let b = id.bytes@[i];
        assert((2 * i) / 2 == i && (2 * i) % 2 == 0);
        assert((2 * i + 1) / 2 == i && (2 * i + 1) % 2 == 1);
        assert(text[2 * i] == hex_digit(b as int / 16));
        assert(text[2 * i + 1] == hex_digit(b as int % 16));
        assert(raw[2 * i] == text[2 * i] as u8);
        assert(raw[2 * i + 1] == text[2 * i + 1] as u8);
    }
    reading_is_found(text, Ok(id));
}

/// Different identifiers have different hexadecimal forms.
pub proof fn hex_is_injective(a: ObjectId, b: ObjectId)
    requires
        a.hex() == b.hex(),
    ensures
        a == b,
{
    hex_reads_back(a);
    hex_reads_back(b);
    reads_as_is_unique(a.hex(), Ok(a), Ok(b));
}

} // verus!
