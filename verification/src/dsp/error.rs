//! What can go wrong in signal processing.
use crate::text::push_decimal;
use vstd::prelude::*;
use vstd::string::*;

verus! {

/// A failure in signal processing.
#[derive(Debug)]
pub enum DspError {
    /// This many blocks were lost because processing was too slow.
    Lagged(u64),
    ChannelClosed,
    Cancelled,
    /// The DRM decoder process failed.
    Drm(String),
}

/// A [`DspError`] as mathematics.
pub enum DspErrorView {
    Lagged(u64),
    ChannelClosed,
    Cancelled,
    Drm(Seq<char>),
}

impl View for DspError {
    type V = DspErrorView;

    open spec fn view(&self) -> DspErrorView {
        match self {
            DspError::Lagged(n) => DspErrorView::Lagged(*n),
            DspError::ChannelClosed => DspErrorView::ChannelClosed,
            DspError::Cancelled => DspErrorView::Cancelled,
            DspError::Drm(s) => DspErrorView::Drm(s@),
        }
    }
}

/// The text that describes a failure.
pub open spec fn error_text(e: DspErrorView) -> Seq<char> {
    match e {
        DspErrorView::Lagged(n) => "IQ broadcast channel lagged by "@ + crate::text::decimal(
            n as nat,
        ) + " messages"@,
        DspErrorView::ChannelClosed => "IQ broadcast channel closed"@,
        DspErrorView::Cancelled => "FFT cancelled"@,
        DspErrorView::Drm(s) => "DRM: "@ + s,
    }
}

impl DspError {
    /// The text that describes the failure.
    pub fn message(&self) -> (r: String)
        ensures
            r@ == error_text(self@),
    {
        match self {
            DspError::Lagged(n) => {
                let mut s: String = "IQ broadcast channel lagged by ".to_owned();
                push_decimal(&mut s, *n);
                s.append(" messages");
                s
            },
            DspError::ChannelClosed => "IQ broadcast channel closed".to_owned(),
            DspError::Cancelled => "FFT cancelled".to_owned(),
            DspError::Drm(s) => "DRM: ".to_owned().concat(s.as_str()),
        }
    }
}

/// Each failure is described by its own words, and with the words of whatever
/// reported it.
pub proof fn law_failures_are_described(e: &DspError, r: String)
    requires
        call_ensures(DspError::message, (e,), r),
    ensures
        match *e {
            DspError::Lagged(n) => r@ == "IQ broadcast channel lagged by "@ + crate::text::decimal(
                n as nat,
            ) + " messages"@,
            DspError::ChannelClosed => r@ == "IQ broadcast channel closed"@,
            DspError::Cancelled => r@ == "FFT cancelled"@,
            DspError::Drm(s) => r@ == "DRM: "@ + s@,
        },
{
}

} // verus!
