//! The binary encoding of the parts that messages are made of.
//!
//! A message is written field by field, in declaration order and without
//! padding. Integers are written by the `bincode` crate in its standard
//! configuration; everything else is built from integers and raw bytes.
use vstd::prelude::*;
use vstd::string::*;

verus! {

/// The kinds of integers that a fault can speak of.
#[derive(Debug, Clone, Copy, PartialEq, Eq, Structural)]
pub enum IntegerType {
    U16,
    U32,
    U64,
    U128,
    I32,
    I64,
    I128,
    /// A marker that no integer has.
    Reserved,
}

/// Why bytes could not be read as a value.
#[derive(Debug, Clone, Copy, PartialEq, Eq)]
pub enum DecodeFault {
    /// The data ends inside a value; so many bytes of it are missing.
    UnexpectedEnd { additional: u64 },
    /// An integer is too wide for its field.
    InvalidIntegerType { expected: IntegerType, found: IntegerType },
    /// No variant of an enumeration has this number.
    UnexpectedVariant { of: &'static str, max: u32, number: u32 },
    /// A flag is neither 0 nor 1.
    InvalidBooleanValue(u8),
    /// Text is not UTF-8: up to where it is, and how many bytes are wrong
    /// there, unless the text ends too early.
    Utf8 { valid_up_to: usize, error_len: Option<usize> },
}

/// A single-precision floating-point value, carried by its IEEE 754 bits.
#[derive(Debug, Clone, Copy)]
pub struct F32 {
    pub bits: u32,
}

/// A double-precision floating-point value, carried by its IEEE 754 bits.
#[derive(Debug, Clone, Copy)]
pub struct F64 {
    pub bits: u64,
}

/// The bits of a single without its sign.
pub open spec fn single_magnitude(bits: u32) -> int {
    bits as int % 0x8000_0000
}

/// Whether two singles compare as equal: neither is a NaN (its magnitude
/// lies above that of infinity), and they have the same bits or are both
/// zeros.
pub open spec fn equal_singles(a: u32, b: u32) -> bool {
    &&& single_magnitude(a) <= 0x7F80_0000
    &&& single_magnitude(b) <= 0x7F80_0000
    &&& a == b || (single_magnitude(a) == 0 && single_magnitude(b) == 0)
}

/// The bits of a double without its sign.
pub open spec fn magnitude(bits: u64) -> int {
    bits as int % 0x8000_0000_0000_0000
}

/// Whether two doubles compare as equal: neither is a NaN (its magnitude
/// lies above that of infinity), and they have the same bits or are both
/// zeros.
pub open spec fn equal_doubles(a: u64, b: u64) -> bool {
    &&& magnitude(a) <= 0x7FF0_0000_0000_0000
    &&& magnitude(b) <= 0x7FF0_0000_0000_0000
    &&& a == b || (magnitude(a) == 0 && magnitude(b) == 0)
}

impl PartialEq for F32 {
    /// Compares as floating-point numbers do: a NaN equals nothing, and the
    /// two zeros are equal.
    fn eq(&self, other: &F32) -> (r: bool) {
        let a: u32 = self.bits % 0x8000_0000;
        let b: u32 = other.bits % 0x8000_0000;
        a <= 0x7F80_0000 && b <= 0x7F80_0000 && (self.bits == other.bits || (a == 0 && b == 0))
    }
}

impl vstd::std_specs::cmp::PartialEqSpecImpl for F32 {
    open spec fn obeys_eq_spec() -> bool {
        true
    }

    open spec fn eq_spec(&self, other: &F32) -> bool {
        equal_singles(self.bits, other.bits)
    }
}

impl PartialEq for F64 {
    /// Compares as floating-point numbers do: a NaN equals nothing, and the
    /// two zeros are equal.
    fn eq(&self, other: &F64) -> (r: bool) {
        let a: u64 = self.bits % 0x8000_0000_0000_0000;
        let b: u64 = other.bits % 0x8000_0000_0000_0000;
        a <= 0x7FF0_0000_0000_0000 && b <= 0x7FF0_0000_0000_0000 && (self.bits == other.bits || (a
            == 0 && b == 0))
    }
}

impl vstd::std_specs::cmp::PartialEqSpecImpl for F64 {
    open spec fn obeys_eq_spec() -> bool {
        true
    }

    open spec fn eq_spec(&self, other: &F64) -> bool {
        equal_doubles(self.bits, other.bits)
    }
}

// ---------------------------------------------------------------------------
// Integers
// ---------------------------------------------------------------------------

/// `bincode`'s decoding error, as an opaque value.
#[verifier::external_type_specification]
#[verifier::external_body]
pub struct ExDecodeError(bincode::error::DecodeError);

/// The `n` lowest bytes of `v`, the lowest one first.
pub open spec fn le_bytes(v: nat, n: nat) -> Seq<u8>
    decreases n,
{
    if n == 0 {
        Seq::empty()
    } else {
        seq![(v % 256) as u8] + le_bytes(v / 256, (n - 1) as nat)
    }
}

/// The number that bytes write, the lowest byte first.
pub open spec fn le_value(bytes: Seq<u8>) -> nat
    decreases bytes.len(),
{
    if bytes.len() == 0 {
        0
    } else {
        bytes[0] as nat + 256 * le_value(bytes.skip(1))
    }
}

/// An unsigned integer of up to 64 bits: below 251 it is its own byte;
/// otherwise a marker byte tells how many bytes of the number follow.
pub open spec fn varint(v: nat) -> Seq<u8> {
    if v < 251 {
        seq![v as u8]
    } else if v < 0x1_0000 {
        seq![251u8] + le_bytes(v, 2)
    } else if v < 0x1_0000_0000 {
        seq![252u8] + le_bytes(v, 4)
    } else {
        seq![253u8] + le_bytes(v, 8)
    }
}

/// How many bytes follow the first byte of an integer; `None` for a marker
/// that no integer of up to 64 bits has.
pub open spec fn marker_width(first: u8) -> Option<nat> {
    if first < 251 {
        Some(0)
    } else if first == 251 {
        Some(2)
    } else if first == 252 {
        Some(4)
    } else if first == 253 {
        Some(8)
    } else {
        None
    }
}

/// The integer at the start of `data` and how many bytes it takes, if there
/// is one of at most `width` bytes.
pub open spec fn read_varint(data: Seq<u8>, width: nat) -> Option<(nat, nat)> {
    if data.len() == 0 {
        None
    } else if data[0] < 251 {
        Some((data[0] as nat, 1))
    } else {
        match marker_width(data[0]) {
            Some(n) => if n <= width && data.len() >= 1 + n {
                Some((le_value(data.subrange(1, 1 + n as int)), 1 + n))
            } else {
                None
            },
            None => None,
        }
    }
}

/// What is wrong where [`read_varint`] finds no integer of at most `width`
/// bytes: the data ends, or the marker is one of a wider integer. The latter
/// is told with the type that `bincode` names for the field.
pub open spec fn integer_fault(data: Seq<u8>, width: nat, expected: IntegerType) -> DecodeFault {
    if data.len() == 0 {
        DecodeFault::UnexpectedEnd { additional: 1 }
    } else {
        match marker_width(data[0]) {
            Some(n) if n <= width => DecodeFault::UnexpectedEnd {
                additional: (1 + n - data.len()) as u64,
            },
            _ => DecodeFault::InvalidIntegerType { expected, found: marker_type(data[0]) },
        }
    }
}

/// The type of integer that a marker announces.
pub open spec fn marker_type(first: u8) -> IntegerType {
    if first == 252 {
        IntegerType::U32
    } else if first == 253 {
        IntegerType::U64
    } else if first == 254 {
        IntegerType::U128
    } else {
        IntegerType::Reserved
    }
}

/// The type that `bincode` names for a field of 64 bits: with nine bytes or
/// more to read from it names the narrower one.
pub open spec fn wide_field(data: Seq<u8>) -> IntegerType {
    if data.len() >= 9 {
        IntegerType::U32
    } else {
        IntegerType::U64
    }
}

/// A fault in a signed integer speaks of signed types.
pub open spec fn signed_fault(fault: DecodeFault) -> DecodeFault {
    match fault {
        DecodeFault::InvalidIntegerType { expected, found } => DecodeFault::InvalidIntegerType {
            expected: signed_type(expected),
            found: signed_type(found),
        },
        other => other,
    }
}

/// The signed type of the same width.
pub open spec fn signed_type(t: IntegerType) -> IntegerType {
    match t {
        IntegerType::U32 => IntegerType::I32,
        IntegerType::U64 => IntegerType::I64,
        IntegerType::U128 => IntegerType::I128,
        other => other,
    }
}

/// Works out what is wrong with an integer that could not be read.
fn fault_in_integer(data: &[u8], width: u64, expected: IntegerType) -> (r: DecodeFault)
    requires
        read_varint(data@, width as nat) is None,
    ensures
        r == integer_fault(data@, width as nat, expected),
{
    if data.len() == 0 {
        return DecodeFault::UnexpectedEnd { additional: 1 };
    }
    let first: u8 = data[0];
    let n: u64 = if first == 251 {
        2
    } else if first == 252 {
        4
    } else if first == 253 {
        8
    } else {
        16
    };
    if n <= width && first <= 253 {
        return DecodeFault::UnexpectedEnd { additional: 1 + n - data.len() as u64 };
    }
    let found: IntegerType = if first == 252 {
        IntegerType::U32
    } else if first == 253 {
        IntegerType::U64
    } else if first == 254 {
        IntegerType::U128
    } else {
        IntegerType::Reserved
    };
    DecodeFault::InvalidIntegerType { expected, found }
}

/// A signed integer as an unsigned one, small magnitudes first.
pub open spec fn zigzag(v: int) -> nat {
    if v < 0 {
        (-2 * v - 1) as nat
    } else {
        (2 * v) as nat
    }
}

/// The signed integer that [`zigzag`] maps to `n`.
pub open spec fn unzigzag(n: nat) -> int {
    if n % 2 == 0 {
        (n / 2) as int
    } else {
        -(n / 2) - 1
    }
}

/// `bincode::encode_to_vec` on an unsigned integer, in the standard
/// configuration (little endian, variable length): the bytes are those of
/// [`varint`], whatever the integer's own width. Writing to a vector does
/// not fail.
#[verifier::external_body]
fn encode_unsigned(v: u64) -> (r: Vec<u8>)
    ensures
        r@ == varint(v as nat),
{
    bincode::encode_to_vec(v, bincode::config::standard()).expect("writing to a vector")
}

/// `bincode::encode_to_vec` on a signed integer, in the standard
/// configuration: the bytes of [`varint`] on its [`zigzag`] image.
#[verifier::external_body]
fn encode_signed(v: i32) -> (r: Vec<u8>)
    ensures
        r@ == varint(zigzag(v as int)),
{
    bincode::encode_to_vec(v, bincode::config::standard()).expect("writing to a vector")
}

/// `bincode::decode_from_slice` for a `u16`, in the standard configuration:
/// the integer at the start of the data and its length, or an error where
/// [`read_varint`] finds none of at most two bytes.
#[verifier::external_body]
fn decode_u16(data: &[u8]) -> (r: Result<(u16, usize), bincode::error::DecodeError>)
    ensures
        match r {
            Ok((v, n)) => read_varint(data@, 2) == Some((v as nat, n as nat)),
            Err(_) => read_varint(data@, 2) is None,
        },
{
    bincode::decode_from_slice(data, bincode::config::standard())
}

/// `bincode::decode_from_slice` for a `u32`, in the standard configuration:
/// the integer at the start of the data and its length, or an error where
/// [`read_varint`] finds none of at most four bytes.
#[verifier::external_body]
fn decode_u32(data: &[u8]) -> (r: Result<(u32, usize), bincode::error::DecodeError>)
    ensures
        match r {
            Ok((v, n)) => read_varint(data@, 4) == Some((v as nat, n as nat)),
            Err(_) => read_varint(data@, 4) is None,
        },
{
    bincode::decode_from_slice(data, bincode::config::standard())
}

/// `bincode::decode_from_slice` for a `u64`, in the standard configuration:
/// the integer at the start of the data and its length, or an error where
/// [`read_varint`] finds none of at most eight bytes.
#[verifier::external_body]
fn decode_u64(data: &[u8]) -> (r: Result<(u64, usize), bincode::error::DecodeError>)
    ensures
        match r {
            Ok((v, n)) => read_varint(data@, 8) == Some((v as nat, n as nat)),
            Err(_) => read_varint(data@, 8) is None,
        },
{
    bincode::decode_from_slice(data, bincode::config::standard())
}

/// `bincode::decode_from_slice` for an `i32`, in the standard configuration:
/// the unsigned integer of at most four bytes at the start of the data, taken
/// back through [`unzigzag`], and its length; an error where there is none.
#[verifier::external_body]
fn decode_i32(data: &[u8]) -> (r: Result<(i32, usize), bincode::error::DecodeError>)
    ensures
        match r {
            Ok((v, n)) => match read_varint(data@, 4) {
                Some((u, k)) => v == unzigzag(u) && n == k,
                None => false,
            },
            Err(_) => read_varint(data@, 4) is None,
        },
{
    bincode::decode_from_slice(data, bincode::config::standard())
}

/// How many of the first `n` bytes are UTF-8: the most that are.
pub open spec fn valid_len(bytes: Seq<u8>, n: nat) -> nat
    decreases n,
{
    if n == 0 || vstd::utf8::valid_utf8(bytes.take(n as int)) {
        n
    } else {
        valid_len(bytes, (n - 1) as nat)
    }
}

/// How many bytes are wrong where bytes cease to be UTF-8, as
/// `std::str::Utf8Error::error_len` tells it.
pub uninterp spec fn utf8_error_len(bytes: Seq<u8>) -> Option<usize>;

/// `String::from_utf8`: the string that the bytes encode, and an error
/// exactly where they are not UTF-8. The error tells the length of the longest
/// front part that is UTF-8, and how many bytes are wrong behind it; of that
/// number nothing is claimed but that it depends on the bytes alone.
#[verifier::external_body]
pub(crate) fn text_from_utf8(bytes: Vec<u8>) -> (r: Result<String, (usize, Option<usize>)>)
    ensures
        match r {
            Ok(s) => vstd::utf8::valid_utf8(bytes@) && s@ == vstd::utf8::decode_utf8(bytes@),
            Err((valid_up_to, error_len)) => {
                &&& !vstd::utf8::valid_utf8(bytes@)
                &&& valid_up_to == valid_len(bytes@, bytes@.len())
                &&& error_len == utf8_error_len(bytes@)
            },
        },
{
    String::from_utf8(bytes).map_err(|e| (e.utf8_error().valid_up_to(), e.utf8_error().error_len()))
}

proof fn lemma_le(v: nat, n: nat)
    ensures
        le_bytes(v, n).len() == n,
        v < vstd::arithmetic::power::pow(256, n) ==> le_value(le_bytes(v, n)) == v,
    decreases n,
{
    reveal(vstd::arithmetic::power::pow);
    if n > 0 {
        lemma_le(v / 256, (n - 1) as nat);
        let s = le_bytes(v, n);
        assert(s.skip(1) =~= le_bytes(v / 256, (n - 1) as nat));
        if v < vstd::arithmetic::power::pow(256, n) {
            assert(v / 256 < vstd::arithmetic::power::pow(256, (n - 1) as nat)) by {
                assert(vstd::arithmetic::power::pow(256, n) == 256
                    * vstd::arithmetic::power::pow(256, (n - 1) as nat));
            }
        }
    }
}

proof fn lemma_le_bound(bytes: Seq<u8>)
    ensures
        le_value(bytes) < vstd::arithmetic::power::pow(256, bytes.len()),
    decreases bytes.len(),
{
    reveal(vstd::arithmetic::power::pow);
    if bytes.len() > 0 {
        lemma_le_bound(bytes.skip(1));
    }
}

proof fn lemma_pow256()
    ensures
        vstd::arithmetic::power::pow(256, 2) == 0x1_0000,
        vstd::arithmetic::power::pow(256, 4) == 0x1_0000_0000,
        vstd::arithmetic::power::pow(256, 8) == 0x1_0000_0000_0000_0000,
{
    reveal(vstd::arithmetic::power::pow);
    reveal_with_fuel(vstd::arithmetic::power::pow, 9);
}

/// An integer that fits `width` bytes is read back from its own encoding,
/// whatever follows it.
proof fn lemma_varint(v: nat, width: nat, rest: Seq<u8>)
    requires
        width == 2 && v < 0x1_0000 || width == 4 && v < 0x1_0000_0000 || width == 8 && v
            < 0x1_0000_0000_0000_0000,
    ensures
        read_varint(varint(v) + rest, width) == Some((v, varint(v).len())),
{
    lemma_pow256();
    let data = varint(v) + rest;
    if v >= 251 {
        let n: nat = if v < 0x1_0000 {
            2
        } else if v < 0x1_0000_0000 {
            4
        } else {
            8
        };
        lemma_le(v, n);
        assert(data.subrange(1, 1 + n as int) =~= le_bytes(v, n));
    }
}

// ---------------------------------------------------------------------------
// Values
// ---------------------------------------------------------------------------

/// A value that can be written to and read from a message.
pub trait Wire: Sized {
    /// The value as mathematics: text and lists become sequences.
    type Model;

    spec fn model(&self) -> Self::Model;

    /// No list or text in the value is longer than its length field can say.
    spec fn fits(m: Self::Model) -> bool;

    /// The bytes that stand for a value.
    spec fn encoded(m: Self::Model) -> Seq<u8>;

    /// The value at the start of `data` and how many bytes it takes.
    spec fn decoded(data: Seq<u8>) -> Result<(Self::Model, nat), DecodeFault>;

    /// Appends the bytes that stand for the value.
    fn put(&self, out: &mut Vec<u8>)
        ensures
            final(out)@ == old(out)@ + Self::encoded(self.model()),
            Self::fits(self.model()),
    ;

    /// Reads the value that starts at `from`, and says where it ends.
    fn read_from(data: &[u8], from: usize) -> (r: Result<(Self, usize), DecodeFault>)
        requires
            from <= data@.len(),
        ensures
            match r {
                Ok((v, to)) => from <= to <= data@.len() && Self::decoded(data@.skip(from as int))
                    == Ok::<(Self::Model, nat), DecodeFault>((v.model(), (to - from) as nat)),
                Err(fault) => Self::decoded(data@.skip(from as int)) == Err::<
                    (Self::Model, nat),
                    DecodeFault,
                >(fault),
            },
    ;

    /// What was written is read back, whatever follows it.
    proof fn round_trip(m: Self::Model, rest: Seq<u8>)
        requires
            Self::fits(m),
        ensures
            Self::decoded(Self::encoded(m) + rest) == Ok::<(Self::Model, nat), DecodeFault>(
                (m, Self::encoded(m).len()),
            ),
    ;
}

/// Appends bytes.
fn put_bytes(out: &mut Vec<u8>, bytes: &[u8])
    ensures
        final(out)@ == old(out)@ + bytes@,
{
    let ghost before = out@;
    let mut i: usize = 0;
    while i < bytes.len()
        invariant
            i <= bytes@.len(),
            out@ == before + bytes@.take(i as int),
        decreases bytes@.len() - i,
    {
        assert((before + bytes@.take(i as int)).push(bytes@[i as int]) =~= before + bytes@.take(
            i + 1,
        ));
        out.push(bytes[i]);
        i = i + 1;
    }
}

impl Wire for u8 {
    type Model = u8;

    open spec fn model(&self) -> u8 {
        *self
    }

    open spec fn fits(m: u8) -> bool {
        true
    }

    open spec fn encoded(m: u8) -> Seq<u8> {
        seq![m]
    }

    open spec fn decoded(data: Seq<u8>) -> Result<(u8, nat), DecodeFault> {
        if data.len() == 0 {
            Err(DecodeFault::UnexpectedEnd { additional: 1 })
        } else {
            Ok((data[0], 1))
        }
    }

    fn put(&self, out: &mut Vec<u8>) {
        out.push(*self);
    }

    fn read_from(data: &[u8], from: usize) -> (r: Result<(u8, usize), DecodeFault>) {
        if from == data.len() {
            Err(DecodeFault::UnexpectedEnd { additional: 1 })
        } else {
            Ok((data[from], from + 1))
        }
    }

    proof fn round_trip(m: u8, rest: Seq<u8>) {
    }
}

impl Wire for bool {
    type Model = bool;

    open spec fn model(&self) -> bool {
        *self
    }

    open spec fn fits(m: bool) -> bool {
        true
    }

    open spec fn encoded(m: bool) -> Seq<u8> {
        seq![if m { 1u8 } else { 0u8 }]
    }

    open spec fn decoded(data: Seq<u8>) -> Result<(bool, nat), DecodeFault> {
        if data.len() == 0 {
            Err(DecodeFault::UnexpectedEnd { additional: 1 })
        } else if data[0] == 0 {
            Ok((false, 1))
        } else if data[0] == 1 {
            Ok((true, 1))
        } else {
            Err(DecodeFault::InvalidBooleanValue(data[0]))
        }
    }

    fn put(&self, out: &mut Vec<u8>) {
        let b: u8 = if *self {
            1
        } else {
            0
        };
        out.push(b);
    }

    fn read_from(data: &[u8], from: usize) -> (r: Result<(bool, usize), DecodeFault>) {
        if from == data.len() {
            Err(DecodeFault::UnexpectedEnd { additional: 1 })
        } else if data[from] == 0 {
            Ok((false, from + 1))
        } else if data[from] == 1 {
            Ok((true, from + 1))
        } else {
            Err(DecodeFault::InvalidBooleanValue(data[from]))
        }
    }

    proof fn round_trip(m: bool, rest: Seq<u8>) {
    }
}

impl Wire for u16 {
    type Model = u16;

    open spec fn model(&self) -> u16 {
        *self
    }

    open spec fn fits(m: u16) -> bool {
        true
    }

    open spec fn encoded(m: u16) -> Seq<u8> {
        varint(m as nat)
    }

    open spec fn decoded(data: Seq<u8>) -> Result<(u16, nat), DecodeFault> {
        match read_varint(data, 2) {
            Some((v, n)) => Ok((v as u16, n)),
            None => Err(integer_fault(data, 2, IntegerType::U16)),
        }
    }

    fn put(&self, out: &mut Vec<u8>) {
        let bytes: Vec<u8> = encode_unsigned(*self as u64);
        put_bytes(out, bytes.as_slice());
    }

    fn read_from(data: &[u8], from: usize) -> (r: Result<(u16, usize), DecodeFault>) {
        let rest = vstd::slice::slice_subrange(data, from, data.len());
        match decode_u16(rest) {
            Ok((v, n)) => Ok((v, from + n)),
            Err(_) => Err(fault_in_integer(rest, 2, IntegerType::U16)),
        }
    }

    proof fn round_trip(m: u16, rest: Seq<u8>) {
        lemma_varint(m as nat, 2, rest);
    }
}

impl Wire for u32 {
    type Model = u32;

    open spec fn model(&self) -> u32 {
        *self
    }

    open spec fn fits(m: u32) -> bool {
        true
    }

    open spec fn encoded(m: u32) -> Seq<u8> {
        varint(m as nat)
    }

    open spec fn decoded(data: Seq<u8>) -> Result<(u32, nat), DecodeFault> {
        match read_varint(data, 4) {
            Some((v, n)) => Ok((v as u32, n)),
            None => Err(integer_fault(data, 4, IntegerType::U32)),
        }
    }

    fn put(&self, out: &mut Vec<u8>) {
        let bytes: Vec<u8> = encode_unsigned(*self as u64);
        put_bytes(out, bytes.as_slice());
    }

    fn read_from(data: &[u8], from: usize) -> (r: Result<(u32, usize), DecodeFault>) {
        let rest = vstd::slice::slice_subrange(data, from, data.len());
        match decode_u32(rest) {
            Ok((v, n)) => Ok((v, from + n)),
            Err(_) => Err(fault_in_integer(rest, 4, IntegerType::U32)),
        }
    }

    proof fn round_trip(m: u32, rest: Seq<u8>) {
        lemma_varint(m as nat, 4, rest);
    }
}

impl Wire for u64 {
    type Model = u64;

    open spec fn model(&self) -> u64 {
        *self
    }

    open spec fn fits(m: u64) -> bool {
        true
    }

    open spec fn encoded(m: u64) -> Seq<u8> {
        varint(m as nat)
    }

    open spec fn decoded(data: Seq<u8>) -> Result<(u64, nat), DecodeFault> {
        match read_varint(data, 8) {
            Some((v, n)) => Ok((v as u64, n)),
            None => Err(integer_fault(data, 8, wide_field(data))),
        }
    }

    fn put(&self, out: &mut Vec<u8>) {
        let bytes: Vec<u8> = encode_unsigned(*self);
        put_bytes(out, bytes.as_slice());
    }

    fn read_from(data: &[u8], from: usize) -> (r: Result<(u64, usize), DecodeFault>) {
        let rest = vstd::slice::slice_subrange(data, from, data.len());
        match decode_u64(rest) {
            Ok((v, n)) => Ok((v, from + n)),
            Err(_) => {
                let expected: IntegerType = if rest.len() >= 9 {
                    IntegerType::U32
                } else {
                    IntegerType::U64
                };
                Err(fault_in_integer(rest, 8, expected))
            },
        }
    }

    proof fn round_trip(m: u64, rest: Seq<u8>) {
        lemma_varint(m as nat, 8, rest);
    }
}

impl Wire for i32 {
    type Model = i32;

    open spec fn model(&self) -> i32 {
        *self
    }

    open spec fn fits(m: i32) -> bool {
        true
    }

    open spec fn encoded(m: i32) -> Seq<u8> {
        varint(zigzag(m as int))
    }

    open spec fn decoded(data: Seq<u8>) -> Result<(i32, nat), DecodeFault> {
        match read_varint(data, 4) {
            Some((v, n)) => Ok((unzigzag(v) as i32, n)),
            None => Err(signed_fault(integer_fault(data, 4, IntegerType::U32))),
        }
    }

    fn put(&self, out: &mut Vec<u8>) {
        let bytes: Vec<u8> = encode_signed(*self);
        put_bytes(out, bytes.as_slice());
    }

    fn read_from(data: &[u8], from: usize) -> (r: Result<(i32, usize), DecodeFault>) {
        let rest = vstd::slice::slice_subrange(data, from, data.len());
        match decode_i32(rest) {
            Ok((v, n)) => Ok((v, from + n)),
            Err(_) => Err(
                match fault_in_integer(rest, 4, IntegerType::U32) {
                    DecodeFault::InvalidIntegerType { found, .. } => {
                        let wide: IntegerType = match found {
                            IntegerType::U32 => IntegerType::I32,
                            IntegerType::U64 => IntegerType::I64,
                            IntegerType::U128 => IntegerType::I128,
                            other => other,
                        };
                        DecodeFault::InvalidIntegerType { expected: IntegerType::I32, found: wide }
                    },
                    other => other,
                },
            ),
        }
    }

    proof fn round_trip(m: i32, rest: Seq<u8>) {
        lemma_varint(zigzag(m as int), 4, rest);
    }
}

/// Appends the `n` lowest bytes of `v`, the lowest one first.
fn put_le(out: &mut Vec<u8>, v: u64, n: usize)
    ensures
        final(out)@ == old(out)@ + le_bytes(v as nat, n as nat),
    decreases n,
{
    if n > 0 {
        out.push((v % 256) as u8);
        put_le(out, v / 256, n - 1);
    }
}

/// The number that the `n` bytes from `from` on write, the lowest one first.
fn read_le(data: &[u8], from: usize, n: usize) -> (r: u64)
    requires
        n <= 8,
        from + n <= data@.len(),
    ensures
        r == le_value(data@.subrange(from as int, from + n)),
        r < vstd::arithmetic::power::pow(256, n as nat),
    decreases n,
{
    let ghost field = data@.subrange(from as int, from + n);
    proof {
        lemma_le_bound(field);
    }
    if n == 0 {
        0
    } else {
        let low: u64 = data[from] as u64;
        let high: u64 = read_le(data, from + 1, n - 1);
        proof {
            assert(field.skip(1) =~= data@.subrange(from + 1, from + n));
            lemma_le_bound(field.skip(1));
            lemma_pow256_mono(n as nat);
        }
        low + 256 * high
    }
}

proof fn lemma_pow256_mono(n: nat)
    requires
        n <= 8,
    ensures
        vstd::arithmetic::power::pow(256, n) <= 0x1_0000_0000_0000_0000,
{
    reveal(vstd::arithmetic::power::pow);
    reveal_with_fuel(vstd::arithmetic::power::pow, 9);
}

impl Wire for F32 {
    type Model = F32;

    open spec fn model(&self) -> F32 {
        *self
    }

    open spec fn fits(m: F32) -> bool {
        true
    }

    open spec fn encoded(m: F32) -> Seq<u8> {
        le_bytes(m.bits as nat, 4)
    }

    open spec fn decoded(data: Seq<u8>) -> Result<(F32, nat), DecodeFault> {
        if data.len() < 4 {
            Err(DecodeFault::UnexpectedEnd { additional: (4 - data.len()) as u64 })
        } else {
            Ok((F32 { bits: le_value(data.take(4)) as u32 }, 4))
        }
    }

    fn put(&self, out: &mut Vec<u8>) {
        put_le(out, self.bits as u64, 4);
    }

    fn read_from(data: &[u8], from: usize) -> (r: Result<(F32, usize), DecodeFault>) {
        if data.len() - from < 4 {
            Err(DecodeFault::UnexpectedEnd { additional: 4 - (data.len() - from) as u64 })
        } else {
            let v: u64 = read_le(data, from, 4);
            proof {
                lemma_pow256();
                assert(data@.subrange(from as int, from + 4) =~= data@.skip(from as int).take(4));
            }
            Ok((F32 { bits: v as u32 }, from + 4))
        }
    }

    proof fn round_trip(m: F32, rest: Seq<u8>) {
        lemma_pow256();
        lemma_le(m.bits as nat, 4);
        assert((le_bytes(m.bits as nat, 4) + rest).take(4) =~= le_bytes(m.bits as nat, 4));
    }
}

impl Wire for F64 {
    type Model = F64;

    open spec fn model(&self) -> F64 {
        *self
    }

    open spec fn fits(m: F64) -> bool {
        true
    }

    open spec fn encoded(m: F64) -> Seq<u8> {
        le_bytes(m.bits as nat, 8)
    }

    open spec fn decoded(data: Seq<u8>) -> Result<(F64, nat), DecodeFault> {
        if data.len() < 8 {
            Err(DecodeFault::UnexpectedEnd { additional: (8 - data.len()) as u64 })
        } else {
            Ok((F64 { bits: le_value(data.take(8)) as u64 }, 8))
        }
    }

    fn put(&self, out: &mut Vec<u8>) {
        put_le(out, self.bits, 8);
    }

    fn read_from(data: &[u8], from: usize) -> (r: Result<(F64, usize), DecodeFault>) {
        if data.len() - from < 8 {
            Err(DecodeFault::UnexpectedEnd { additional: 8 - (data.len() - from) as u64 })
        } else {
            let v: u64 = read_le(data, from, 8);
            assert(data@.subrange(from as int, from + 8) =~= data@.skip(from as int).take(8));
            Ok((F64 { bits: v }, from + 8))
        }
    }

    proof fn round_trip(m: F64, rest: Seq<u8>) {
        lemma_pow256();
        lemma_le(m.bits as nat, 8);
        assert((le_bytes(m.bits as nat, 8) + rest).take(8) =~= le_bytes(m.bits as nat, 8));
    }
}

/// Appends raw bytes with their number in front.
fn put_raw(out: &mut Vec<u8>, bytes: &[u8])
    ensures
        final(out)@ == old(out)@ + Vec::<u8>::encoded(bytes@),
        Vec::<u8>::fits(bytes@),
{
    let len: u64 = bytes.len() as u64;
    len.put(out);
    put_bytes(out, bytes);
}

/// Raw bytes: their number, then the bytes.
impl Wire for Vec<u8> {
    type Model = Seq<u8>;

    open spec fn model(&self) -> Seq<u8> {
        self@
    }

    open spec fn fits(m: Seq<u8>) -> bool {
        m.len() <= u64::MAX
    }

    open spec fn encoded(m: Seq<u8>) -> Seq<u8> {
        varint(m.len()) + m
    }

    open spec fn decoded(data: Seq<u8>) -> Result<(Seq<u8>, nat), DecodeFault> {
        match u64::decoded(data) {
            Ok((len, n)) => if data.len() < n + len {
                Err(DecodeFault::UnexpectedEnd { additional: (n + len - data.len()) as u64 })
            } else {
                Ok((data.subrange(n as int, n + len), n + len as nat))
            },
            Err(fault) => Err(fault),
        }
    }

    fn put(&self, out: &mut Vec<u8>) {
        put_raw(out, self.as_slice());
    }

    fn read_from(data: &[u8], from: usize) -> (r: Result<(Vec<u8>, usize), DecodeFault>) {
        let (len, at) = match u64::read_from(data, from) {
            Ok(p) => p,
            Err(fault) => {
                return Err(fault);
            },
        };
        let left: u64 = (data.len() - at) as u64;
        if left < len {
            return Err(DecodeFault::UnexpectedEnd { additional: len - left });
        }
        let to: usize = at + len as usize;
        let bytes: &[u8] = vstd::slice::slice_subrange(data, at, to);
        assert(bytes@ =~= data@.skip(from as int).subrange(at - from, to - from));
        Ok((vstd::slice::slice_to_vec(bytes), to))
    }

    proof fn round_trip(m: Seq<u8>, rest: Seq<u8>) {
        let len = m.len() as u64;
        u64::round_trip(len, m + rest);
        let data = Self::encoded(m) + rest;
        assert(data =~= u64::encoded(len) + (m + rest));
        assert(data.subrange(varint(len as nat).len() as int, varint(len as nat).len() + len)
            =~= m);
    }
}

impl Wire for String {
    type Model = Seq<char>;

    open spec fn model(&self) -> Seq<char> {
        self@
    }

    open spec fn fits(m: Seq<char>) -> bool {
        Vec::<u8>::fits(vstd::utf8::encode_utf8(m))
    }

    open spec fn encoded(m: Seq<char>) -> Seq<u8> {
        Vec::<u8>::encoded(vstd::utf8::encode_utf8(m))
    }

    open spec fn decoded(data: Seq<u8>) -> Result<(Seq<char>, nat), DecodeFault> {
        match Vec::<u8>::decoded(data) {
            Ok((bytes, n)) => if vstd::utf8::valid_utf8(bytes) {
                Ok((vstd::utf8::decode_utf8(bytes), n))
            } else {
                Err(
                    DecodeFault::Utf8 {
                        valid_up_to: valid_len(bytes, bytes.len()) as usize,
                        error_len: utf8_error_len(bytes),
                    },
                )
            },
            Err(fault) => Err(fault),
        }
    }

    fn put(&self, out: &mut Vec<u8>) {
        put_raw(out, self.as_str().as_bytes());
    }

    fn read_from(data: &[u8], from: usize) -> (r: Result<(String, usize), DecodeFault>) {
        match Vec::<u8>::read_from(data, from) {
            Ok((bytes, to)) => match text_from_utf8(bytes) {
                Ok(s) => Ok((s, to)),
                Err((valid_up_to, error_len)) => Err(DecodeFault::Utf8 { valid_up_to, error_len }),
            },
            Err(fault) => Err(fault),
        }
    }

    proof fn round_trip(m: Seq<char>, rest: Seq<u8>) {
        Vec::<u8>::round_trip(vstd::utf8::encode_utf8(m), rest);
        vstd::utf8::encode_utf8_valid_utf8(m);
        vstd::utf8::encode_utf8_decode_utf8(m);
    }
}

/// A value that may be missing: behind a byte that says whether it is there.
pub trait Optional: Wire {
    /// The fault where that byte is neither 0 nor 1. It names the option by the
    /// path of its type.
    spec fn presence_fault(found: u8) -> DecodeFault;

    fn fault_in_presence(found: u8) -> (r: DecodeFault)
        ensures
            r == Self::presence_fault(found),
    ;
}

impl Optional for u8 {
    open spec fn presence_fault(found: u8) -> DecodeFault {
        DecodeFault::UnexpectedVariant {
            of: "core::option::Option<u8>",
            max: 1,
            number: found as u32,
        }
    }

    fn fault_in_presence(found: u8) -> (r: DecodeFault) {
        DecodeFault::UnexpectedVariant {
            of: "core::option::Option<u8>",
            max: 1,
            number: found as u32,
        }
    }
}

impl Optional for u32 {
    open spec fn presence_fault(found: u8) -> DecodeFault {
        DecodeFault::UnexpectedVariant {
            of: "core::option::Option<u32>",
            max: 1,
            number: found as u32,
        }
    }

    fn fault_in_presence(found: u8) -> (r: DecodeFault) {
        DecodeFault::UnexpectedVariant {
            of: "core::option::Option<u32>",
            max: 1,
            number: found as u32,
        }
    }
}

impl Optional for F32 {
    open spec fn presence_fault(found: u8) -> DecodeFault {
        DecodeFault::UnexpectedVariant {
            of: "core::option::Option<f32>",
            max: 1,
            number: found as u32,
        }
    }

    fn fault_in_presence(found: u8) -> (r: DecodeFault) {
        DecodeFault::UnexpectedVariant {
            of: "core::option::Option<f32>",
            max: 1,
            number: found as u32,
        }
    }
}

impl Optional for F64 {
    open spec fn presence_fault(found: u8) -> DecodeFault {
        DecodeFault::UnexpectedVariant {
            of: "core::option::Option<f64>",
            max: 1,
            number: found as u32,
        }
    }

    fn fault_in_presence(found: u8) -> (r: DecodeFault) {
        DecodeFault::UnexpectedVariant {
            of: "core::option::Option<f64>",
            max: 1,
            number: found as u32,
        }
    }
}

impl Optional for String {
    open spec fn presence_fault(found: u8) -> DecodeFault {
        DecodeFault::UnexpectedVariant {
            of: "core::option::Option<alloc::string::String>",
            max: 1,
            number: found as u32,
        }
    }

    fn fault_in_presence(found: u8) -> (r: DecodeFault) {
        DecodeFault::UnexpectedVariant {
            of: "core::option::Option<alloc::string::String>",
            max: 1,
            number: found as u32,
        }
    }
}

impl<T: Optional> Wire for Option<T> {
    type Model = Option<T::Model>;

    open spec fn model(&self) -> Option<T::Model> {
        match self {
            Some(v) => Some(v.model()),
            None => None,
        }
    }

    open spec fn fits(m: Option<T::Model>) -> bool {
        match m {
            Some(v) => T::fits(v),
            None => true,
        }
    }

    open spec fn encoded(m: Option<T::Model>) -> Seq<u8> {
        match m {
            Some(v) => seq![1u8] + T::encoded(v),
            None => seq![0u8],
        }
    }

    open spec fn decoded(data: Seq<u8>) -> Result<(Option<T::Model>, nat), DecodeFault> {
        if data.len() == 0 {
            Err(DecodeFault::UnexpectedEnd { additional: 1 })
        } else if data[0] == 0 {
            Ok((None, 1))
        } else if data[0] == 1 {
            match T::decoded(data.skip(1)) {
                Ok((v, n)) => Ok((Some(v), 1 + n)),
                Err(fault) => Err(fault),
            }
        } else {
            Err(T::presence_fault(data[0]))
        }
    }

    fn put(&self, out: &mut Vec<u8>) {
        match self {
            Some(v) => {
                out.push(1);
                v.put(out);
            },
            None => {
                out.push(0);
            },
        }
    }

    fn read_from(data: &[u8], from: usize) -> (r: Result<(Option<T>, usize), DecodeFault>) {
        if from == data.len() {
            return Err(DecodeFault::UnexpectedEnd { additional: 1 });
        }
        if data[from] == 0 {
            Ok((None, from + 1))
        } else if data[from] == 1 {
            assert(data@.skip(from as int).skip(1) =~= data@.skip(from + 1));
            match T::read_from(data, from + 1) {
                Ok((v, to)) => Ok((Some(v), to)),
                Err(fault) => Err(fault),
            }
        } else {
            Err(T::fault_in_presence(data[from]))
        }
    }

    proof fn round_trip(m: Option<T::Model>, rest: Seq<u8>) {
        match m {
            Some(v) => {
                T::round_trip(v, rest);
                assert((Self::encoded(m) + rest).skip(1) =~= T::encoded(v) + rest);
            },
            None => {},
        }
    }
}

impl<A: Wire, B: Wire> Wire for (A, B) {
    type Model = (A::Model, B::Model);

    open spec fn model(&self) -> (A::Model, B::Model) {
        (self.0.model(), self.1.model())
    }

    open spec fn fits(m: (A::Model, B::Model)) -> bool {
        A::fits(m.0) && B::fits(m.1)
    }

    open spec fn encoded(m: (A::Model, B::Model)) -> Seq<u8> {
        A::encoded(m.0) + B::encoded(m.1)
    }

    open spec fn decoded(data: Seq<u8>) -> Result<((A::Model, B::Model), nat), DecodeFault> {
        match A::decoded(data) {
            Ok((a, i)) => match B::decoded(data.skip(i as int)) {
                Ok((b, j)) => Ok(((a, b), i + j)),
                Err(fault) => Err(fault),
            },
            Err(fault) => Err(fault),
        }
    }

    fn put(&self, out: &mut Vec<u8>) {
        self.0.put(out);
        self.1.put(out);
    }

    fn read_from(data: &[u8], from: usize) -> (r: Result<((A, B), usize), DecodeFault>) {
        match A::read_from(data, from) {
            Ok((a, at)) => {
                assert(data@.skip(from as int).skip(at - from) =~= data@.skip(at as int));
                match B::read_from(data, at) {
                    Ok((b, to)) => Ok(((a, b), to)),
                    Err(fault) => Err(fault),
                }
            },
            Err(fault) => Err(fault),
        }
    }

    proof fn round_trip(m: (A::Model, B::Model), rest: Seq<u8>) {
        let a = A::encoded(m.0);
        let b = B::encoded(m.1);
        A::round_trip(m.0, b + rest);
        B::round_trip(m.1, rest);
        assert((a + b) + rest =~= a + (b + rest));
        assert((a + (b + rest)).skip(a.len() as int) =~= b + rest);
    }
}

/// Values one after the other.
pub open spec fn encoded_all<T: Wire>(list: Seq<T::Model>) -> Seq<u8>
    decreases list.len(),
{
    if list.len() == 0 {
        Seq::empty()
    } else {
        T::encoded(list[0]) + encoded_all::<T>(list.skip(1))
    }
}

/// `count` values, read one after the other.
pub open spec fn decoded_all<T: Wire>(data: Seq<u8>, count: nat) -> Result<
    (Seq<T::Model>, nat),
    DecodeFault,
>
    decreases count,
{
    if count == 0 {
        Ok((Seq::empty(), 0))
    } else {
        match T::decoded(data) {
            Ok((v, i)) => match decoded_all::<T>(data.skip(i as int), (count - 1) as nat) {
                Ok((list, j)) => Ok((seq![v] + list, i + j)),
                Err(fault) => Err(fault),
            },
            Err(fault) => Err(fault),
        }
    }
}

proof fn lemma_all_round_trip<T: Wire>(list: Seq<T::Model>, rest: Seq<u8>)
    requires
        forall|k: int| 0 <= k < list.len() ==> T::fits(#[trigger] list[k]),
    ensures
        decoded_all::<T>(encoded_all::<T>(list) + rest, list.len()) == Ok::<
            (Seq<T::Model>, nat),
            DecodeFault,
        >((list, encoded_all::<T>(list).len())),
    decreases list.len(),
{
    if list.len() > 0 {
        let head = T::encoded(list[0]);
        let tail = encoded_all::<T>(list.skip(1));
        T::round_trip(list[0], tail + rest);
        lemma_all_round_trip::<T>(list.skip(1), rest);
        assert((head + tail) + rest =~= head + (tail + rest));
        assert((head + (tail + rest)).skip(head.len() as int) =~= tail + rest);
        assert(seq![list[0]] + list.skip(1) =~= list);
    } else {
        assert(list =~= Seq::<T::Model>::empty());
    }
}

proof fn lemma_encoded_all_push<T: Wire>(list: Seq<T::Model>, v: T::Model)
    ensures
        encoded_all::<T>(list.push(v)) == encoded_all::<T>(list) + T::encoded(v),
    decreases list.len(),
{
    if list.len() == 0 {
        assert(encoded_all::<T>(list.push(v).skip(1)) =~= Seq::<u8>::empty());
    } else {
        assert(list.push(v).skip(1) =~= list.skip(1).push(v));
        lemma_encoded_all_push::<T>(list.skip(1), v);
    }
}

/// The models of the values in a list.
pub open spec fn models<T: Wire>(list: Seq<T>) -> Seq<T::Model> {
    Seq::new(list.len(), |k: int| list[k].model())
}

/// A value that stands in lists and is read one by one. A byte does not:
/// bytes are read all at once.
pub trait Listed: Wire {

}

impl Listed for F32 {

}

impl<T: Listed> Wire for Vec<T> {
    type Model = Seq<T::Model>;

    open spec fn model(&self) -> Seq<T::Model> {
        models(self@)
    }

    open spec fn fits(m: Seq<T::Model>) -> bool {
        m.len() <= u64::MAX && forall|k: int| 0 <= k < m.len() ==> T::fits(#[trigger] m[k])
    }

    open spec fn encoded(m: Seq<T::Model>) -> Seq<u8> {
        varint(m.len()) + encoded_all::<T>(m)
    }

    open spec fn decoded(data: Seq<u8>) -> Result<(Seq<T::Model>, nat), DecodeFault> {
        match u64::decoded(data) {
            Ok((len, n)) => match decoded_all::<T>(data.skip(n as int), len as nat) {
                Ok((list, k)) => Ok((list, n + k)),
                Err(fault) => Err(fault),
            },
            Err(fault) => Err(fault),
        }
    }

    fn put(&self, out: &mut Vec<u8>) {
        let len: u64 = self.len() as u64;
        len.put(out);
        let ghost head = out@;
        let mut i: usize = 0;
        while i < self.len()
            invariant
                i <= self@.len(),
                out@ == head + encoded_all::<T>(models(self@).take(i as int)),
                forall|k: int| 0 <= k < i ==> T::fits(#[trigger] models(self@)[k]),
            decreases self@.len() - i,
        {
            self[i].put(out);
            proof {
                let done = models(self@).take(i as int);
                lemma_encoded_all_push::<T>(done, self@[i as int].model());
                assert(models(self@).take(i + 1) =~= done.push(self@[i as int].model()));
            }
            i = i + 1;
        }
        assert(models(self@).take(self@.len() as int) =~= models(self@));
    }

    fn read_from(data: &[u8], from: usize) -> (r: Result<(Vec<T>, usize), DecodeFault>) {
        let (len, start) = match u64::read_from(data, from) {
            Ok(p) => p,
            Err(fault) => {
                return Err(fault);
            },
        };
        let ghost body = data@.skip(start as int);
        assert(data@.skip(from as int).skip(start - from) =~= body);
        let mut list: Vec<T> = Vec::new();
        let mut at: usize = start;
        let mut left: u64 = len;
        while left > 0
            invariant
                from <= start <= at <= data@.len(),
                left <= len,
                body == data@.skip(start as int),
                list@.len() + left == len,
                decoded_all::<T>(body, len as nat) == (match decoded_all::<T>(
                    data@.skip(at as int),
                    left as nat,
                ) {
                    Ok((tail, n)) => Ok::<(Seq<T::Model>, nat), DecodeFault>(
                        (models(list@) + tail, (at - start + n) as nat),
                    ),
                    Err(fault) => Err::<(Seq<T::Model>, nat), DecodeFault>(fault),
                }),
                Self::decoded(data@.skip(from as int)) == (match decoded_all::<T>(
                    body,
                    len as nat,
                ) {
                    Ok((whole, n)) => Ok::<(Seq<T::Model>, nat), DecodeFault>(
                        (whole, (start - from + n) as nat),
                    ),
                    Err(fault) => Err::<(Seq<T::Model>, nat), DecodeFault>(fault),
                }),
            decreases left,
        {
            match T::read_from(data, at) {
                Ok((v, next)) => {
                    let ghost before = models(list@);
                    let ghost m = v.model();
                    list.push(v);
                    proof {
                        assert(data@.skip(at as int).skip(next - at) =~= data@.skip(next as int));
                        match decoded_all::<T>(data@.skip(next as int), (left - 1) as nat) {
                            Ok((tail, n)) => {
                                assert(before + (seq![m] + tail) =~= models(list@) + tail);
                            },
                            Err(_) => {},
                        }
                    }
                    at = next;
                    left = left - 1;
                },
                Err(fault) => {
                    return Err(fault);
                },
            }
        }
        Ok((list, at))
    }

    proof fn round_trip(m: Seq<T::Model>, rest: Seq<u8>) {
        let len = m.len() as u64;
        let body = encoded_all::<T>(m);
        u64::round_trip(len, body + rest);
        lemma_all_round_trip::<T>(m, rest);
        assert(Self::encoded(m) + rest =~= u64::encoded(len) + (body + rest));
        assert((u64::encoded(len) + (body + rest)).skip(u64::encoded(len).len() as int) =~= body
            + rest);
    }
}

/// Numbers with a point are written as their bits, the lowest byte first.
pub proof fn law_floats_are_written_by_their_bits(a: F32, b: F64)
    ensures
        ({
            let s = F32::encoded(a);
            let d = F64::encoded(b);
            &&& s.len() == 4
            &&& s[0] + 0x100 * s[1] + 0x1_0000 * s[2] + 0x100_0000 * s[3] == a.bits
            &&& d.len() == 8
            &&& d[0] + 0x100 * d[1] + 0x1_0000 * d[2] + 0x100_0000 * d[3] + 0x1_0000_0000 * (d[4]
                + 0x100 * d[5] + 0x1_0000 * d[6] + 0x100_0000 * d[7]) == b.bits
        }),
{
    lemma_pow256();
    lemma_le(a.bits as nat, 4);
    lemma_le(b.bits as nat, 8);
    lemma_le_sum4(F32::encoded(a));
    let d = F64::encoded(b);
    lemma_le_sum8(d);
}

proof fn lemma_le_sum4(s: Seq<u8>)
    requires
        s.len() == 4,
    ensures
        le_value(s) == s[0] + 0x100 * s[1] + 0x1_0000 * s[2] + 0x100_0000 * s[3],
{
    reveal_with_fuel(le_value, 5);
    let a = s.skip(1);
    let b = a.skip(1);
    let c = b.skip(1);
    assert(c.skip(1).len() == 0);
}

proof fn lemma_le_sum8(d: Seq<u8>)
    requires
        d.len() == 8,
    ensures
        le_value(d) == d[0] + 0x100 * d[1] + 0x1_0000 * d[2] + 0x100_0000 * d[3] + 0x1_0000_0000 * (
        d[4] + 0x100 * d[5] + 0x1_0000 * d[6] + 0x100_0000 * d[7]),
{
    let a = d.skip(1);
    let b = a.skip(1);
    let c = b.skip(1);
    let e = c.skip(1);
    lemma_le_sum4(e);
    assert(le_value(d) == d[0] as nat + 256 * le_value(a));
    assert(le_value(a) == d[1] as nat + 256 * le_value(b));
    assert(le_value(b) == d[2] as nat + 256 * le_value(c));
    assert(le_value(c) == d[3] as nat + 256 * le_value(e));
}

/// Two numbers are equal as numbers: the zeros are, a NaN never is, and all
/// others are if they have the same bits.
pub proof fn law_floats_compare_as_numbers(a: F64, b: F64, x: F32, y: F32)
    ensures
        equal_doubles(0, 0x8000_0000_0000_0000),
        equal_singles(0, 0x8000_0000),
        !equal_doubles(0x7FF8_0000_0000_0000, a.bits),
        !equal_singles(0x7FC0_0000, x.bits),
        equal_doubles(a.bits, b.bits) <==> equal_doubles(b.bits, a.bits),
        equal_singles(x.bits, y.bits) <==> equal_singles(y.bits, x.bits),
        equal_doubles(a.bits, b.bits) && a.bits != b.bits ==> a.bits as int % 0x8000_0000_0000_0000
            == 0 && b.bits as int % 0x8000_0000_0000_0000 == 0,
        equal_singles(x.bits, y.bits) && x.bits != y.bits ==> x.bits as int % 0x8000_0000 == 0
            && y.bits as int % 0x8000_0000 == 0,
        a.bits < 0x7FF0_0000_0000_0000 ==> equal_doubles(a.bits, a.bits),
        x.bits < 0x7F80_0000 ==> equal_singles(x.bits, x.bits),
{
}

/// Something that may be missing is written behind a byte that says whether
/// it is there, text and bytes behind their length.
pub proof fn law_parts_say_what_follows(text: Seq<char>, bytes: Seq<u8>, v: u32)
    ensures
        Option::<u32>::encoded(None) == seq![0u8],
        Option::<u32>::encoded(Some(v)) == seq![1u8] + u32::encoded(v),
        String::encoded(text) == varint(vstd::utf8::encode_utf8(text).len())
            + vstd::utf8::encode_utf8(text),
        Vec::<u8>::encoded(bytes) == varint(bytes.len()) + bytes,
        bool::encoded(false) == seq![0u8] && bool::encoded(true) == seq![1u8],
{
}

} // verus!
