//! Messages on the wire: one version byte, then the encoded message.
use crate::proto::codec::{DecodeFault, IntegerType, Wire};
use crate::text::{decimal, push_decimal};
use vstd::prelude::*;
use vstd::string::*;

verus! {

/// Version of the wire format. Any change to the messages that moves bytes
/// changes it, so that peers of different versions part cleanly instead of
/// misreading each other.
pub const PROTO_VERSION: u8 = 3;

/// Why a frame could not be read.
#[derive(Debug, Clone, Copy, PartialEq, Eq)]
pub enum WireError {
    /// The frame has no version byte.
    Empty,
    /// The peer speaks another version.
    VersionMismatch { got: u8, want: u8 },
    /// The version is right, and what follows is no message.
    Decode(DecodeFault),
}

/// The name of a type of integers.
pub open spec fn type_text(t: IntegerType) -> Seq<char> {
    match t {
        IntegerType::U16 => "U16"@,
        IntegerType::U32 => "U32"@,
        IntegerType::U64 => "U64"@,
        IntegerType::U128 => "U128"@,
        IntegerType::I32 => "I32"@,
        IntegerType::I64 => "I64"@,
        IntegerType::I128 => "I128"@,
        IntegerType::Reserved => "Reserved"@,
    }
}

fn integer_name(t: IntegerType) -> (r: &'static str)
    ensures
        r@ == type_text(t),
{
    match t {
        IntegerType::U16 => "U16",
        IntegerType::U32 => "U32",
        IntegerType::U64 => "U64",
        IntegerType::U128 => "U128",
        IntegerType::I32 => "I32",
        IntegerType::I64 => "I64",
        IntegerType::I128 => "I128",
        IntegerType::Reserved => "Reserved",
    }
}

/// A fault in the bytes of a message, as `bincode` words it: the debug form
/// of its decoding error.
pub open spec fn fault_text(fault: DecodeFault) -> Seq<char> {
    match fault {
        DecodeFault::UnexpectedEnd { additional } => "UnexpectedEnd { additional: "@ + decimal(
            additional as nat,
        ) + " }"@,
        DecodeFault::InvalidIntegerType { expected, found } =>
            "InvalidIntegerType { expected: "@ + type_text(expected) + ", found: "@ + type_text(
            found,
        ) + " }"@,
        DecodeFault::UnexpectedVariant { of, max, number } =>
            "UnexpectedVariant { type_name: \""@ + of@
            + "\", allowed: Range { min: 0, max: "@ + decimal(max as nat) + " }, found: "@
            + decimal(number as nat) + " }"@,
        DecodeFault::InvalidBooleanValue(v) => "InvalidBooleanValue("@ + decimal(v as nat) + ")"@,
        DecodeFault::Utf8 { valid_up_to, error_len } =>
            "Utf8 { inner: Utf8Error { valid_up_to: "@ + decimal(valid_up_to as nat)
            + ", error_len: "@ + (match error_len {
            Some(n) => "Some("@ + decimal(n as nat) + ")"@,
            None => "None"@,
        }) + " } }"@,
    }
}

fn fault_words(fault: DecodeFault) -> (r: String)
    ensures
        r@ == fault_text(fault),
{
    match fault {
        DecodeFault::UnexpectedEnd { additional } => {
            let mut s: String = "UnexpectedEnd { additional: ".to_owned();
            push_decimal(&mut s, additional);
            s.append(" }");
            s
        },
        DecodeFault::InvalidIntegerType { expected, found } => {
            let mut s: String = "InvalidIntegerType { expected: ".to_owned();
            s.append(integer_name(expected));
            s.append(", found: ");
            s.append(integer_name(found));
            s.append(" }");
            s
        },
        DecodeFault::UnexpectedVariant { of, max, number } => {
            let mut s: String = "UnexpectedVariant { type_name: \"".to_owned();
            s.append(of);
            s.append("\", allowed: Range { min: 0, max: ");
            push_decimal(&mut s, max as u64);
            s.append(" }, found: ");
            push_decimal(&mut s, number as u64);
            s.append(" }");
            s
        },
        DecodeFault::InvalidBooleanValue(v) => {
            let mut s: String = "InvalidBooleanValue(".to_owned();
            push_decimal(&mut s, v as u64);
            s.append(")");
            s
        },
        DecodeFault::Utf8 { valid_up_to, error_len } => {
            let mut s: String = "Utf8 { inner: Utf8Error { valid_up_to: ".to_owned();
            push_decimal(&mut s, valid_up_to as u64);
            s.append(", error_len: ");
            let mut len: String = String::new();
            match error_len {
                Some(n) => {
                    len.append("Some(");
                    push_decimal(&mut len, n as u64);
                    len.append(")");
                },
                None => {
                    len.append("None");
                },
            }
            s.append(len.as_str());
            s.append(" } }");
            s
        },
    }
}

/// The text that describes why a frame could not be read.
pub open spec fn error_text(e: WireError) -> Seq<char> {
    match e {
        WireError::Empty => "empty wire frame (no version byte)"@,
        WireError::VersionMismatch { got, want } => "wire-format version mismatch: got "@ + decimal(
            got as nat,
        ) + ", want "@ + decimal(want as nat),
        WireError::Decode(fault) => "bincode decode: "@ + fault_text(fault),
    }
}

impl WireError {
    /// The text that describes why the frame could not be read.
    pub fn message(&self) -> (r: String)
        ensures
            r@ == error_text(*self),
    {
        match self {
            WireError::Empty => "empty wire frame (no version byte)".to_owned(),
            WireError::VersionMismatch { got, want } => {
                let mut s: String = "wire-format version mismatch: got ".to_owned();
                push_decimal(&mut s, *got as u64);
                s.append(", want ");
                push_decimal(&mut s, *want as u64);
                s
            },
            WireError::Decode(fault) => "bincode decode: ".to_owned().concat(
                fault_words(*fault).as_str(),
            ),
        }
    }
}

/// The frame that carries a message.
pub open spec fn frame_of<M: Wire>(m: M::Model) -> Seq<u8> {
    seq![PROTO_VERSION] + M::encoded(m)
}

/// What a frame carries. Bytes behind the message are not looked at.
pub open spec fn message_in<M: Wire>(data: Seq<u8>) -> Result<M::Model, WireError> {
    if data.len() == 0 {
        Err(WireError::Empty)
    } else if data[0] != PROTO_VERSION {
        Err(WireError::VersionMismatch { got: data[0], want: PROTO_VERSION })
    } else {
        match M::decoded(data.skip(1)) {
            Ok((m, _)) => Ok(m),
            Err(fault) => Err(WireError::Decode(fault)),
        }
    }
}

/// Puts a message into a frame.
pub fn encode_msg<M: Wire>(msg: &M) -> (r: Vec<u8>)
    ensures
        r@ == frame_of::<M>(msg.model()),
        M::fits(msg.model()),
{
    let mut out: Vec<u8> = Vec::new();
    out.push(PROTO_VERSION);
    msg.put(&mut out);
    out
}

/// Takes the message out of a frame.
pub fn decode_msg<M: Wire>(data: &[u8]) -> (r: Result<M, WireError>)
    ensures
        match r {
            Ok(msg) => message_in::<M>(data@) == Ok::<M::Model, WireError>(msg.model()),
            Err(e) => message_in::<M>(data@) == Err::<M::Model, WireError>(e),
        },
{
    if data.len() == 0 {
        return Err(WireError::Empty);
    }
    let first: u8 = data[0];
    if first != PROTO_VERSION {
        return Err(WireError::VersionMismatch { got: first, want: PROTO_VERSION });
    }
    match M::read_from(data, 1) {
        Ok((msg, _)) => Ok(msg),
        Err(fault) => Err(WireError::Decode(fault)),
    }
}

/// A frame gives back the message that was put into it, whatever bytes
/// follow.
pub proof fn law_frame_round_trip<M: Wire>(m: M::Model, extra: Seq<u8>)
    requires
        M::fits(m),
    ensures
        message_in::<M>(frame_of::<M>(m)) == Ok::<M::Model, WireError>(m),
        message_in::<M>(frame_of::<M>(m) + extra) == Ok::<M::Model, WireError>(m),
{
    M::round_trip(m, Seq::empty());
    M::round_trip(m, extra);
    assert(frame_of::<M>(m).skip(1) =~= M::encoded(m) + Seq::<u8>::empty());
    assert((frame_of::<M>(m) + extra).skip(1) =~= M::encoded(m) + extra);
}

/// Two messages with the same frame are the same message.
pub proof fn law_frames_differ<M: Wire>(a: M::Model, b: M::Model)
    requires
        M::fits(a),
        M::fits(b),
        frame_of::<M>(a) == frame_of::<M>(b),
    ensures
        a == b,
{
    law_frame_round_trip::<M>(a, Seq::empty());
    law_frame_round_trip::<M>(b, Seq::empty());
}

/// A frame of another version is refused, whatever it carries.
pub proof fn law_version_is_checked<M: Wire>(data: Seq<u8>)
    requires
        data.len() > 0,
        data[0] != PROTO_VERSION,
    ensures
        message_in::<M>(data) == Err::<M::Model, WireError>(
            WireError::VersionMismatch { got: data[0], want: PROTO_VERSION },
        ),
{
}

/// A frame is the version, 3, and the message.
pub proof fn law_frames_start_with_the_version<M: Wire>(msg: &M, r: Vec<u8>)
    requires
        call_ensures(encode_msg::<M>, (msg,), r),
    ensures
        r@.len() >= 1,
        r@[0] == 3,
        r@.skip(1) == M::encoded(msg.model()),
{
    assert(r@.skip(1) =~= M::encoded(msg.model()));
}

/// What was put into a frame is what comes out of it, and what comes out of a
/// frame without a version, or with another one, is that error.
pub proof fn law_frames_give_back_their_message<M: Wire>(
    msg: &M,
    sent: Vec<u8>,
    data: &[u8],
    extra: Seq<u8>,
    r: Result<M, WireError>,
)
    requires
        call_ensures(encode_msg::<M>, (msg,), sent),
        call_ensures(decode_msg::<M>, (data,), r),
    ensures
        data@ == sent@ + extra ==> (r matches Ok(back) && back.model() == msg.model()),
        data@.len() == 0 <==> r == Err::<M, WireError>(WireError::Empty),
        data@.len() > 0 && data@[0] != 3 ==> r == Err::<M, WireError>(
            WireError::VersionMismatch { got: data@[0], want: 3 },
        ),
{
    if data@ == sent@ + extra {
        law_frame_round_trip::<M>(msg.model(), extra);
    }
}

/// Why a frame could not be read is told with its numbers: the two versions,
/// or what the decoder found at fault.
pub proof fn law_faults_are_described(e: &WireError, r: String)
    requires
        call_ensures(WireError::message, (e,), r),
    ensures
        match *e {
            WireError::Empty => r@ == "empty wire frame (no version byte)"@,
            WireError::VersionMismatch { got, want } => r@ == "wire-format version mismatch: got "@
                + decimal(got as nat) + ", want "@ + decimal(want as nat),
            WireError::Decode(DecodeFault::UnexpectedEnd { additional }) => r@
                == "bincode decode: "@ + ("UnexpectedEnd { additional: "@ + decimal(
                additional as nat,
            ) + " }"@),
            WireError::Decode(DecodeFault::InvalidIntegerType { expected, found }) => r@
                == "bincode decode: "@ + ("InvalidIntegerType { expected: "@ + type_text(expected)
                + ", found: "@ + type_text(found) + " }"@),
            WireError::Decode(DecodeFault::UnexpectedVariant { of, max, number }) => r@
                == "bincode decode: "@ + ("UnexpectedVariant { type_name: \""@ + of@
                + "\", allowed: Range { min: 0, max: "@ + decimal(max as nat) + " }, found: "@
                + decimal(number as nat) + " }"@),
            WireError::Decode(DecodeFault::InvalidBooleanValue(v)) => r@ == "bincode decode: "@ + (
            "InvalidBooleanValue("@ + decimal(v as nat) + ")"@),
            WireError::Decode(DecodeFault::Utf8 { valid_up_to, error_len }) => r@
                == "bincode decode: "@ + ("Utf8 { inner: Utf8Error { valid_up_to: "@ + decimal(
                valid_up_to as nat,
            ) + ", error_len: "@ + (match error_len {
                Some(n) => "Some("@ + decimal(n as nat) + ")"@,
                None => "None"@,
            }) + " } }"@),
        },
{
}

/// Every type of integers has its own name.
pub proof fn law_integer_types_are_told_apart(t: IntegerType)
    ensures
        match t {
            IntegerType::U16 => type_text(t) == "U16"@,
            IntegerType::U32 => type_text(t) == "U32"@,
            IntegerType::U64 => type_text(t) == "U64"@,
            IntegerType::U128 => type_text(t) == "U128"@,
            IntegerType::I32 => type_text(t) == "I32"@,
            IntegerType::I64 => type_text(t) == "I64"@,
            IntegerType::I128 => type_text(t) == "I128"@,
            IntegerType::Reserved => type_text(t) == "Reserved"@,
        },
{
}

} // verus!
