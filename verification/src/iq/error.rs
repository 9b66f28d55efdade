//! What can go wrong with IQ sources.
use crate::proto::radio::SourceKind;
use vstd::prelude::*;
use vstd::string::*;

verus! {

/// What the capture must tell apart about a USB failure.
#[derive(Debug, Clone, Copy, PartialEq, Eq, Structural)]
pub enum UsbFaultKind {
    Timeout,
    NoDevice,
    Other,
}

/// A USB failure, with the words of whatever reported it.
#[derive(Debug)]
pub struct UsbFault {
    pub kind: UsbFaultKind,
    pub text: String,
}

/// A failure of an IQ source.
#[derive(Debug)]
pub enum IqError {
    Usb(UsbFault),
    DeviceNotFound { vid: u16, pid: u16 },
    FifoControl(String),
    Cancelled,
    ChannelClosed,
    BackendNotImplemented(SourceKind),
    SourceHasNoIq(SourceKind),
}

/// An [`IqError`] as mathematics.
pub enum IqErrorView {
    Usb(UsbFaultKind, Seq<char>),
    DeviceNotFound { vid: u16, pid: u16 },
    FifoControl(Seq<char>),
    Cancelled,
    ChannelClosed,
    BackendNotImplemented(SourceKind),
    SourceHasNoIq(SourceKind),
}

impl View for IqError {
    type V = IqErrorView;

    open spec fn view(&self) -> IqErrorView {
        match self {
            IqError::Usb(f) => IqErrorView::Usb(f.kind, f.text@),
            IqError::DeviceNotFound { vid, pid } => IqErrorView::DeviceNotFound {
                vid: *vid,
                pid: *pid,
            },
            IqError::FifoControl(s) => IqErrorView::FifoControl(s@),
            IqError::Cancelled => IqErrorView::Cancelled,
            IqError::ChannelClosed => IqErrorView::ChannelClosed,
            IqError::BackendNotImplemented(k) => IqErrorView::BackendNotImplemented(*k),
            IqError::SourceHasNoIq(k) => IqErrorView::SourceHasNoIq(*k),
        }
    }
}

/// The character of a hexadecimal digit.
pub open spec fn hex_char(d: int) -> char {
    if d < 10 {
        (48 + d) as char
    } else {
        (55 + d) as char
    }
}

/// A byte in two hexadecimal digits.
pub open spec fn hex2(b: int) -> Seq<char> {
    seq![hex_char(b / 16), hex_char(b % 16)]
}

/// A number of 16 bits in four hexadecimal digits.
pub open spec fn hex4(v: int) -> Seq<char> {
    hex2(v / 256) + hex2(v % 256)
}

fn push_hex_digit(out: &mut String, d: u8)
    requires
        d < 16,
    ensures
        final(out)@ == old(out)@.push(hex_char(d as int)),
{
    if d < 10 {
        out.push((48u8 + d) as char);
    } else {
        out.push((55u8 + d) as char);
    }
}

/// Appends a byte in two hexadecimal digits.
pub fn push_hex2(out: &mut String, b: u8)
    ensures
        final(out)@ == old(out)@ + hex2(b as int),
{
    push_hex_digit(out, b / 16);
    push_hex_digit(out, b % 16);
}

fn push_hex4(out: &mut String, v: u16)
    ensures
        final(out)@ == old(out)@ + hex4(v as int),
{
    push_hex2(out, (v / 256) as u8);
    push_hex2(out, (v % 256) as u8);
}

/// The name of a device family.
pub open spec fn kind_text(kind: SourceKind) -> Seq<char> {
    match kind {
        SourceKind::FdmDuo => "FdmDuo"@,
        SourceKind::HackRf => "HackRf"@,
        SourceKind::RspDx => "RspDx"@,
        SourceKind::RtlSdr => "RtlSdr"@,
        SourceKind::PortableRadio => "PortableRadio"@,
        SourceKind::AudioFile => "AudioFile"@,
        SourceKind::IqFile => "IqFile"@,
    }
}

/// The name of a device family.
pub fn kind_name(kind: SourceKind) -> (r: &'static str)
    ensures
        r@ == kind_text(kind),
{
    match kind {
        SourceKind::FdmDuo => "FdmDuo",
        SourceKind::HackRf => "HackRf",
        SourceKind::RspDx => "RspDx",
        SourceKind::RtlSdr => "RtlSdr",
        SourceKind::PortableRadio => "PortableRadio",
        SourceKind::AudioFile => "AudioFile",
        SourceKind::IqFile => "IqFile",
    }
}

/// The text that describes a failure.
pub open spec fn error_text(e: IqErrorView) -> Seq<char> {
    match e {
        IqErrorView::Usb(_, s) => "USB error: "@ + s,
        IqErrorView::DeviceNotFound { vid, pid } => "device not found (VID=0x"@ + hex4(vid as int)
            + ", PID=0x"@ + hex4(pid as int) + ")"@,
        IqErrorView::FifoControl(s) => "FIFO control failed: "@ + s,
        IqErrorView::Cancelled => "streaming cancelled"@,
        IqErrorView::ChannelClosed => "broadcast channel closed"@,
        IqErrorView::BackendNotImplemented(k) => "backend not implemented: "@ + kind_text(k),
        IqErrorView::SourceHasNoIq(k) => "source "@ + kind_text(k) + " does not provide IQ"@,
    }
}

impl IqError {
    /// The text that describes the failure.
    pub fn message(&self) -> (r: String)
        ensures
            r@ == error_text(self@),
    {
        match self {
            IqError::Usb(f) => "USB error: ".to_owned().concat(f.text.as_str()),
            IqError::DeviceNotFound { vid, pid } => {
                let mut s: String = "device not found (VID=0x".to_owned();
                push_hex4(&mut s, *vid);
                s.append(", PID=0x");
                push_hex4(&mut s, *pid);
                s.append(")");
                s
            },
            IqError::FifoControl(s) => "FIFO control failed: ".to_owned().concat(s.as_str()),
            IqError::Cancelled => "streaming cancelled".to_owned(),
            IqError::ChannelClosed => "broadcast channel closed".to_owned(),
            IqError::BackendNotImplemented(k) => "backend not implemented: ".to_owned().concat(
                kind_name(*k),
            ),
            IqError::SourceHasNoIq(k) => "source ".to_owned().concat(kind_name(*k)).concat(
                " does not provide IQ",
            ),
        }
    }
}

/// The number that a hexadecimal digit stands for.
pub open spec fn hex_value(c: char) -> int {
    if '0' <= c <= '9' {
        c as int - 48
    } else {
        c as int - 55
    }
}

/// Four hexadecimal digits read back as the number they were written for.
pub proof fn law_hexadecimal_reads_back(v: u16)
    ensures
        ({
            let h = hex4(v as int);
            &&& h.len() == 4
            &&& 4096 * hex_value(h[0]) + 256 * hex_value(h[1]) + 16 * hex_value(h[2]) + hex_value(
                h[3],
            ) == v
            &&& forall|k: int|
                0 <= k < 4 ==> '0' <= #[trigger] h[k] <= '9' || 'A' <= h[k] <= 'F'
        }),
{
    let h = hex4(v as int);
    let a = v as int / 256;
    let b = v as int % 256;
    assert(h =~= seq![hex_char(a / 16), hex_char(a % 16), hex_char(b / 16), hex_char(b % 16)]);
}

/// Each failure is described by its own words, and with the words of whatever
/// reported it.
pub proof fn law_failures_are_described(e: &IqError, r: String)
    requires
        call_ensures(IqError::message, (e,), r),
    ensures
        match *e {
            IqError::Usb(f) => r@ == "USB error: "@ + f.text@,
            IqError::DeviceNotFound { vid, pid } => r@ == "device not found (VID=0x"@ + hex4(
                vid as int,
            ) + ", PID=0x"@ + hex4(pid as int) + ")"@,
            IqError::FifoControl(s) => r@ == "FIFO control failed: "@ + s@,
            IqError::Cancelled => r@ == "streaming cancelled"@,
            IqError::ChannelClosed => r@ == "broadcast channel closed"@,
            IqError::BackendNotImplemented(k) => r@ == "backend not implemented: "@ + kind_text(k),
            IqError::SourceHasNoIq(k) => r@ == "source "@ + kind_text(k)
                + " does not provide IQ"@,
        },
{
}

/// Every device family has its own name.
pub proof fn law_families_are_told_apart(kind: SourceKind, r: &'static str)
    requires
        call_ensures(kind_name, (kind,), r),
    ensures
        match kind {
            SourceKind::FdmDuo => r@ == "FdmDuo"@,
            SourceKind::HackRf => r@ == "HackRf"@,
            SourceKind::RspDx => r@ == "RspDx"@,
            SourceKind::RtlSdr => r@ == "RtlSdr"@,
            SourceKind::PortableRadio => r@ == "PortableRadio"@,
            SourceKind::AudioFile => r@ == "AudioFile"@,
            SourceKind::IqFile => r@ == "IqFile"@,
        },
{
}

} // verus!
