//! Operating parameters that outlive the program.
use crate::proto::radio::Mode;
use crate::text::{chars_of, is_text};
use vstd::prelude::*;
use vstd::string::*;

verus! {

/// What was last tuned to.
#[derive(Debug, Clone)]
pub struct SdrParams {
    pub freq_hz: u64,
    pub mode: String,
    pub agc_threshold: u8,
}

impl Default for SdrParams {
    /// 7.1 MHz, upper sideband, threshold five.
    fn default() -> (r: Self)
        ensures
            r.freq_hz == 7_100_000,
            r.mode@ == "USB"@,
            r.agc_threshold == 5,
    {
        SdrParams { freq_hz: 7_100_000, mode: "USB".to_owned(), agc_threshold: 5 }
    }
}

/// The name under which a mode is kept. The modes that the radio has no word
/// for are kept as the one it would be set to.
pub open spec fn mode_name(mode: Mode) -> Seq<char> {
    match mode {
        Mode::LSB => "LSB"@,
        Mode::USB | Mode::Unknown => "USB"@,
        Mode::CW => "CW"@,
        Mode::CWR => "CWR"@,
        Mode::AM | Mode::SAM | Mode::SAMU | Mode::SAML | Mode::DSB => "AM"@,
        Mode::FM => "FM"@,
        Mode::DRM => "DRM"@,
    }
}

/// The mode that a name stands for; upper sideband where it stands for none.
pub open spec fn mode_named(name: Seq<char>) -> Mode {
    if name == "LSB"@ {
        Mode::LSB
    } else if name == "CW"@ {
        Mode::CW
    } else if name == "CWR"@ {
        Mode::CWR
    } else if name == "AM"@ {
        Mode::AM
    } else if name == "FM"@ {
        Mode::FM
    } else if name == "DRM"@ {
        Mode::DRM
    } else {
        Mode::USB
    }
}

impl SdrParams {
    /// The mode that is kept.
    pub fn mode(&self) -> (r: Mode)
        ensures
            r == mode_named(self.mode@),
    {
        let name: Vec<char> = chars_of(self.mode.as_str());
        let n: &[char] = name.as_slice();
        if is_text(n, "LSB") {
            Mode::LSB
        } else if is_text(n, "CW") {
            Mode::CW
        } else if is_text(n, "CWR") {
            Mode::CWR
        } else if is_text(n, "AM") {
            Mode::AM
        } else if is_text(n, "FM") {
            Mode::FM
        } else if is_text(n, "DRM") {
            Mode::DRM
        } else {
            Mode::USB
        }
    }

    /// Keeps a mode.
    pub fn set_mode(&mut self, mode: Mode)
        ensures
            final(self).freq_hz == old(self).freq_hz,
            final(self).agc_threshold == old(self).agc_threshold,
            final(self).mode@ == mode_name(mode),
    {
        self.mode = mode_str(mode).to_owned();
    }

    /// Keeps what the radio was tuned to.
    pub fn keep(&mut self, freq_hz: u64, mode: Mode)
        ensures
            final(self).freq_hz == freq_hz,
            final(self).agc_threshold == old(self).agc_threshold,
            final(self).mode@ == mode_name(mode),
    {
        self.freq_hz = freq_hz;
        self.set_mode(mode);
    }
}

/// The name under which a mode is kept.
pub fn mode_str(mode: Mode) -> (r: &'static str)
    ensures
        r@ == mode_name(mode),
{
    match mode {
        Mode::LSB => "LSB",
        Mode::USB | Mode::Unknown => "USB",
        Mode::CW => "CW",
        Mode::CWR => "CWR",
        Mode::AM | Mode::SAM | Mode::SAMU | Mode::SAML | Mode::DSB => "AM",
        Mode::FM => "FM",
        Mode::DRM => "DRM",
    }
}

/// A mode that is kept comes back: the radio's own modes as themselves, the
/// software modes as AM.
pub proof fn law_kept_modes_come_back(mode: Mode)
    ensures
        mode_named(mode_name(mode)) == (match mode {
            Mode::SAM | Mode::SAMU | Mode::SAML | Mode::DSB => Mode::AM,
            Mode::Unknown => Mode::USB,
            other => other,
        }),
{
    reveal_strlit("LSB");
    reveal_strlit("USB");
    reveal_strlit("CW");
    reveal_strlit("CWR");
    reveal_strlit("AM");
    reveal_strlit("FM");
    reveal_strlit("DRM");
    assert("LSB"@[0] == 'L' && "USB"@[0] == 'U' && "CW"@.len() == 2 && "CWR"@.len() == 3);
    assert("AM"@[0] == 'A' && "FM"@[0] == 'F' && "DRM"@[0] == 'D' && "CWR"@[0] == 'C');
}

/// Modes are kept under the names that other programs know them by; only DRM
/// has one of its own.
pub proof fn law_modes_are_kept_under_known_names(mode: Mode, r: &'static str)
    requires
        call_ensures(mode_str, (mode,), r),
    ensures
        mode != Mode::DRM ==> r@ == crate::cat::responder::mode_name(mode),
        mode == Mode::DRM ==> r@ == seq!['D', 'R', 'M'],
{
    reveal_strlit("DRM");
    assert("DRM"@ =~= seq!['D', 'R', 'M']);
}

/// What is kept is what was last tuned to, and keeping it does not touch the
/// threshold.
pub proof fn law_the_last_tuning_is_kept(
    p: &mut SdrParams,
    hz: u64,
    mode: Mode,
)
    ensures
        call_ensures(SdrParams::keep, (p, hz, mode), ()) ==> {
            &&& final(p).freq_hz == hz
            &&& final(p).agc_threshold == old(p).agc_threshold
            &&& mode_named(final(p).mode@) == (match mode {
                Mode::SAM | Mode::SAMU | Mode::SAML | Mode::DSB => Mode::AM,
                Mode::Unknown => Mode::USB,
                other => other,
            })
        },
{
    law_kept_modes_come_back(mode);
}

/// A name that stands for no mode is read as the upper sideband.
pub proof fn law_unknown_names_are_upper_sideband(p: &SdrParams, r: Mode)
    requires
        call_ensures(SdrParams::mode, (p,), r),
    ensures
        r != Mode::USB ==> p.mode@ == mode_name(r),
        p.mode@.len() == 0 || p.mode@.len() > 3 ==> r == Mode::USB,
{
    reveal_strlit("LSB");
    reveal_strlit("CW");
    reveal_strlit("CWR");
    reveal_strlit("AM");
    reveal_strlit("FM");
    reveal_strlit("DRM");
}

} // verus!
