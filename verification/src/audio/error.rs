//! What can go wrong with sound devices and recordings.
use vstd::prelude::*;
use vstd::string::*;

verus! {

/// A failure around sound. Where a device, a codec or the system reports it,
/// its own words are kept.
#[derive(Debug)]
pub enum AudioError {
    Alsa(String),
    Opus(String),
    ChannelClosed,
    Cancelled,
    FileIo(String),
    Decode(String),
    FileConfig(String),
}

/// An [`AudioError`] as mathematics.
pub enum AudioErrorView {
    Alsa(Seq<char>),
    Opus(Seq<char>),
    ChannelClosed,
    Cancelled,
    FileIo(Seq<char>),
    Decode(Seq<char>),
    FileConfig(Seq<char>),
}

impl View for AudioError {
    type V = AudioErrorView;

    open spec fn view(&self) -> AudioErrorView {
        match self {
            AudioError::Alsa(s) => AudioErrorView::Alsa(s@),
            AudioError::Opus(s) => AudioErrorView::Opus(s@),
            AudioError::ChannelClosed => AudioErrorView::ChannelClosed,
            AudioError::Cancelled => AudioErrorView::Cancelled,
            AudioError::FileIo(s) => AudioErrorView::FileIo(s@),
            AudioError::Decode(s) => AudioErrorView::Decode(s@),
            AudioError::FileConfig(s) => AudioErrorView::FileConfig(s@),
        }
    }
}

/// The text that describes a failure.
pub open spec fn error_text(e: AudioErrorView) -> Seq<char> {
    match e {
        AudioErrorView::Alsa(s) => "ALSA error: "@ + s,
        AudioErrorView::Opus(s) => "Opus error: "@ + s,
        AudioErrorView::ChannelClosed => "audio channel closed"@,
        AudioErrorView::Cancelled => "audio task cancelled"@,
        AudioErrorView::FileIo(s) => "file source I/O: "@ + s,
        AudioErrorView::Decode(s) => "file source decode: "@ + s,
        AudioErrorView::FileConfig(s) => "file source config: "@ + s,
    }
}

impl AudioError {
    /// The text that describes the failure.
    pub fn message(&self) -> (r: String)
        ensures
            r@ == error_text(self@),
    {
        match self {
            AudioError::Alsa(s) => "ALSA error: ".to_owned().concat(s.as_str()),
            AudioError::Opus(s) => "Opus error: ".to_owned().concat(s.as_str()),
            AudioError::ChannelClosed => "audio channel closed".to_owned(),
            AudioError::Cancelled => "audio task cancelled".to_owned(),
            AudioError::FileIo(s) => "file source I/O: ".to_owned().concat(s.as_str()),
            AudioError::Decode(s) => "file source decode: ".to_owned().concat(s.as_str()),
            AudioError::FileConfig(s) => "file source config: ".to_owned().concat(s.as_str()),
        }
    }
}

/// Each failure is described by its own words, and with the words of whatever
/// reported it.
pub proof fn law_failures_are_described(e: &AudioError, r: String)
    requires
        call_ensures(AudioError::message, (e,), r),
    ensures
        match *e {
            AudioError::Alsa(s) => r@ == "ALSA error: "@ + s@,
            AudioError::Opus(s) => r@ == "Opus error: "@ + s@,
            AudioError::ChannelClosed => r@ == "audio channel closed"@,
            AudioError::Cancelled => r@ == "audio task cancelled"@,
            AudioError::FileIo(s) => r@ == "file source I/O: "@ + s@,
            AudioError::Decode(s) => r@ == "file source decode: "@ + s@,
            AudioError::FileConfig(s) => r@ == "file source config: "@ + s@,
        },
{
}

} // verus!
