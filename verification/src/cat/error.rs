//! What can go wrong on the command channel.
use vstd::prelude::*;
use vstd::string::*;

verus! {

/// A failure on the command channel.
#[derive(Debug)]
pub enum CatError {
    /// The system refused an operation; the text says which and why.
    Io(String),
    /// The radio is gone.
    Disconnected,
    /// The radio answered something that makes no sense.
    BadResponse(String),
    /// The task was asked to stop.
    Cancelled,
}

/// A [`CatError`] as mathematics.
pub enum CatErrorView {
    Io(Seq<char>),
    Disconnected,
    BadResponse(Seq<char>),
    Cancelled,
}

impl View for CatError {
    type V = CatErrorView;

    open spec fn view(&self) -> CatErrorView {
        match self {
            CatError::Io(s) => CatErrorView::Io(s@),
            CatError::Disconnected => CatErrorView::Disconnected,
            CatError::BadResponse(s) => CatErrorView::BadResponse(s@),
            CatError::Cancelled => CatErrorView::Cancelled,
        }
    }
}

/// The text that describes a failure.
pub open spec fn error_text(e: CatErrorView) -> Seq<char> {
    match e {
        CatErrorView::Io(s) => "I/O error: "@ + s,
        CatErrorView::Disconnected => "CAT connection lost"@,
        CatErrorView::BadResponse(s) => "invalid CAT response: "@ + s,
        CatErrorView::Cancelled => "CAT task cancelled"@,
    }
}

impl CatError {
    /// The text that describes the failure.
    pub fn message(&self) -> (r: String)
        ensures
            r@ == error_text(self@),
    {
        match self {
            CatError::Io(s) => "I/O error: ".to_owned().concat(s.as_str()),
            CatError::Disconnected => "CAT connection lost".to_owned(),
            CatError::BadResponse(s) => "invalid CAT response: ".to_owned().concat(s.as_str()),
            CatError::Cancelled => "CAT task cancelled".to_owned(),
        }
    }
}

/// Each failure is described by its own words, and with the words of whatever
/// reported it.
pub proof fn law_failures_are_described(e: &CatError, r: String)
    requires
        call_ensures(CatError::message, (e,), r),
    ensures
        match *e {
            CatError::Io(s) => r@ == "I/O error: "@ + s@,
            CatError::Disconnected => r@ == "CAT connection lost"@,
            CatError::BadResponse(s) => r@ == "invalid CAT response: "@ + s@,
            CatError::Cancelled => r@ == "CAT task cancelled"@,
        },
{
}

} // verus!
