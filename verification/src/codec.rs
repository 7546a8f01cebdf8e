use vstd::prelude::*;
use vstd::utf8::{decode_utf8, encode_utf8, valid_utf8};
use vstd::utf8::{encode_utf8_decode_utf8, encode_utf8_valid_utf8};
use vstd::string::StringSliceAdditionalSpecFns;
use vstd::slice::slice_to_vec;
use crate::order::bytes_lt;

verus! {

/// Why a value could not be turned into bytes, or bytes into a value.
#[derive(Debug, Clone)]
pub enum SchemaError {
    /// The input has the wrong number of bytes, or is too long to encode.
    InvalidLength,
    /// A discriminating byte holds a value that the type does not know.
    InvalidTag,
    /// The bytes are not valid UTF-8.
    InvalidUtf8,
    /// Any other failure, described in words.
    Custom(String),
}

/// What a `SchemaError` says, with the message of `Custom` as a sequence of characters.
pub enum SchemaFault {
    InvalidLength,
    InvalidTag,
    InvalidUtf8,
    Custom(Seq<char>),
}

impl View for SchemaError {
    type V = SchemaFault;

    open spec fn view(&self) -> SchemaFault {
        match self {
            SchemaError::InvalidLength => SchemaFault::InvalidLength,
            SchemaError::InvalidTag => SchemaFault::InvalidTag,
            SchemaError::InvalidUtf8 => SchemaFault::InvalidUtf8,
            SchemaError::Custom(message) => SchemaFault::Custom(message@),
        }
    }
}

impl SchemaFault {
    /// The fault in words.
    pub open spec fn message(self) -> Seq<char> {
        match self {
            SchemaFault::InvalidLength => "invalid length"@,
            SchemaFault::InvalidTag => "invalid tag"@,
            SchemaFault::InvalidUtf8 => "invalid UTF-8"@,
            SchemaFault::Custom(message) => message,
        }
    }
}

impl SchemaError {
    /// The error in words, on one line unless a custom message has more.
    pub fn message(&self) -> (text: String)
        ensures
            text@ == self@.message(),
    {
        match self {
            SchemaError::InvalidLength => "invalid length".to_owned(),
            SchemaError::InvalidTag => "invalid tag".to_owned(),
            SchemaError::InvalidUtf8 => "invalid UTF-8".to_owned(),
            SchemaError::Custom(message) => message.clone(),
        }
    }
}

/// Whether `r` is what encoding gave where the outcome owed is `owed`.
pub open spec fn encoding_is(r: Result<Vec<u8>, SchemaError>, owed: Result<Seq<u8>, SchemaFault>) -> bool {
    match r {
        Ok(bytes) => owed == Ok::<Seq<u8>, SchemaFault>(bytes@),
        Err(e) => owed == Err::<Seq<u8>, SchemaFault>(e@),
    }
}

/// Whether `r` is what decoding gave where the outcome owed is `owed`.
pub open spec fn decoding_is<T: View>(r: Result<T, SchemaError>, owed: Result<T::V, SchemaFault>) -> bool {
    match r {
        Ok(v) => owed == Ok::<T::V, SchemaFault>(v@),
        Err(e) => owed == Err::<T::V, SchemaFault>(e@),
    }
}

/// A type whose values can be written as a finite byte sequence.
///
/// The order of the encodings, compared byte by byte, is the order in which a store
/// keeps and scans the keys.
pub trait Encoder: View {
    /// The bytes that stand for a value, or the reason why it has none.
    spec fn encoded(v: Self::V) -> Result<Seq<u8>, SchemaFault>;

    /// Encodes `self`: the outcome is `Self::encoded(self@)`.
    fn encode(&self) -> (r: Result<Vec<u8>, SchemaError>)
        ensures
            encoding_is(r, Self::encoded(self@)),
    ;
}

/// A type whose values can be read back from a byte sequence.
pub trait Decoder: View + Sized {
    /// The value that the bytes stand for, or the reason why they stand for none.
    spec fn decoded(bytes: Seq<u8>) -> Result<Self::V, SchemaFault>;

    /// Decodes `bytes`: the outcome is `Self::decoded(bytes@)`. Nothing is decoded in part.
    fn decode(bytes: &[u8]) -> (r: Result<Self, SchemaError>)
        ensures
            decoding_is(r, Self::decoded(bytes@)),
    ;
}

/// A type that can be both written and read back, and for which reading undoes writing.
pub trait Codec: Encoder + Decoder {
    /// Every value that has an encoding is what its encoding decodes to.
    proof fn lemma_round_trip(v: Self::V)
        ensures
            Self::encoded(v) is Ok ==> Self::decoded(Self::encoded(v)->Ok_0) == Ok::<
                Self::V,
                SchemaFault,
            >(v),
    ;
}

/// The four bytes of a `u32`, most significant first.
pub open spec fn u32_be_bytes(x: u32) -> Seq<u8> {
    seq![
        (x / 0x100_0000) as u8,
        (x / 0x1_0000 % 0x100) as u8,
        (x / 0x100 % 0x100) as u8,
        (x % 0x100) as u8,
    ]
}

/// The number that four bytes spell, most significant first.
pub open spec fn u32_from_be_bytes(bytes: Seq<u8>) -> u32
    recommends
        bytes.len() == 4,
{
    (bytes[0] * 0x100_0000 + bytes[1] * 0x1_0000 + bytes[2] * 0x100 + bytes[3]) as u32
}

impl Encoder for u32 {
    open spec fn encoded(v: u32) -> Result<Seq<u8>, SchemaFault> {
        Ok(u32_be_bytes(v))
    }

    /// Writes the number as four bytes, most significant first, so that the order of
    /// the encodings is the order of the numbers.
    fn encode(&self) -> (r: Result<Vec<u8>, SchemaError>) {
        let x: u32 = *self;
        let mut out: Vec<u8> = Vec::with_capacity(4);
        out.push((x / 0x100_0000) as u8);
        out.push((x / 0x1_0000 % 0x100) as u8);
        out.push((x / 0x100 % 0x100) as u8);
        out.push((x % 0x100) as u8);
        assert(out@ =~= u32_be_bytes(x));
        Ok(out)
    }
}

impl Decoder for u32 {
    open spec fn decoded(bytes: Seq<u8>) -> Result<u32, SchemaFault> {
        if bytes.len() == 4 {
            Ok(u32_from_be_bytes(bytes))
        } else {
            Err(SchemaFault::InvalidLength)
        }
    }

    /// Reads four bytes, most significant first; any other length is `InvalidLength`.
    fn decode(bytes: &[u8]) -> (r: Result<u32, SchemaError>) {
        if bytes.len() != 4 {
            return Err(SchemaError::InvalidLength);
        }
        let b0: u32 = bytes[0] as u32;
        let b1: u32 = bytes[1] as u32;
        let b2: u32 = bytes[2] as u32;
        let b3: u32 = bytes[3] as u32;
        Ok(b0 * 0x100_0000 + b1 * 0x1_0000 + b2 * 0x100 + b3)
    }
}

impl Codec for u32 {
    proof fn lemma_round_trip(v: u32) {
        let b = u32_be_bytes(v);
        assert(b.len() == 4);
        assert(b[0] * 0x100_0000 + b[1] * 0x1_0000 + b[2] * 0x100 + b[3] == v);
    }
}

/// The encoding of `u32` keeps the order: one number is less than another exactly
/// where its bytes come first in the byte order by which a store keeps its keys.
pub proof fn lemma_u32_order(a: u32, b: u32)
    ensures
        bytes_lt(u32_be_bytes(a), u32_be_bytes(b)) <==> a < b,
{
    let x = u32_be_bytes(a);
    let y = u32_be_bytes(b);
    let x1 = x.drop_first();
    let y1 = y.drop_first();
    let x2 = x1.drop_first();
    let y2 = y1.drop_first();
    let x3 = x2.drop_first();
    let y3 = y2.drop_first();
    assert(x1.len() == 3 && x1[0] == x[1]);
    assert(y1.len() == 3 && y1[0] == y[1]);
    assert(x2.len() == 2 && x2[0] == x[2]);
    assert(y2.len() == 2 && y2[0] == y[2]);
    assert(x3.len() == 1 && x3[0] == x[3]);
    assert(y3.len() == 1 && y3[0] == y[3]);
    assert(x3.drop_first().len() == 0 && y3.drop_first().len() == 0);
    reveal_with_fuel(bytes_lt, 5);
    assert(a == x[0] * 0x100_0000 + x[1] * 0x1_0000 + x[2] * 0x100 + x[3]);
    assert(b == y[0] * 0x100_0000 + y[1] * 0x1_0000 + y[2] * 0x100 + y[3]);
}

/// `core::str::from_utf8`: the text whose UTF-8 bytes are `bytes`, or `None` where
/// `bytes` is not valid UTF-8.
#[verifier::external_body]
fn str_from_utf8(bytes: &[u8]) -> (r: Option<&str>)
    ensures
        match r {
            Some(s) => valid_utf8(bytes@) && s.spec_bytes() == bytes@,
            None => !valid_utf8(bytes@),
        },
{
    match core::str::from_utf8(bytes) {
        Ok(s) => Some(s),
        Err(_) => None,
    }
}

impl Encoder for String {
    open spec fn encoded(v: Seq<char>) -> Result<Seq<u8>, SchemaFault> {
        Ok(encode_utf8(v))
    }

    /// Writes the text as its UTF-8 bytes.
    fn encode(&self) -> (r: Result<Vec<u8>, SchemaError>) {
        Ok(slice_to_vec(self.as_str().as_bytes()))
    }
}

impl Decoder for String {
    open spec fn decoded(bytes: Seq<u8>) -> Result<Seq<char>, SchemaFault> {
        if valid_utf8(bytes) {
            Ok(decode_utf8(bytes))
        } else {
            Err(SchemaFault::InvalidUtf8)
        }
    }

    /// Reads the bytes as UTF-8; bytes that are not valid UTF-8 are `InvalidUtf8`.
    fn decode(bytes: &[u8]) -> (r: Result<String, SchemaError>) {
        match str_from_utf8(bytes) {
            Some(s) => {
                proof {
                    encode_utf8_decode_utf8(s@);
                }
                Ok(s.to_owned())
            },
            None => Err(SchemaError::InvalidUtf8),
        }
    }
}

impl Codec for String {
    proof fn lemma_round_trip(v: Seq<char>) {
        encode_utf8_valid_utf8(v);
        encode_utf8_decode_utf8(v);
    }
}

} // verus!
