//! Running hamlib's `rigctld` beside the station.
use crate::cat::discover::{follow, followed, found_view, is_radio_name, names_radio, Link};
use crate::cat::error::{CatError, CatErrorView};
use crate::cat::serial::missing_device;
use crate::text::{decimal, push_decimal, same_text};
use vstd::prelude::*;
use vstd::string::*;

verus! {

/// How `rigctld` is run.
#[derive(Debug, Clone)]
pub struct RigctldConfig {
    /// A device path, `auto`, or `none`.
    pub serial_device: String,
    /// Hamlib's model number.
    pub model: u32,
    pub baud_rate: u32,
    pub listen_host: String,
    pub listen_port: u16,
}

impl Default for RigctldConfig {
    fn default() -> (r: Self)
        ensures
            r.serial_device@ == "auto"@,
            r.model == 3077,
            r.baud_rate == 38400,
            r.listen_host@ == "127.0.0.1"@,
            r.listen_port == 4532,
    {
        RigctldConfig {
            serial_device: "auto".to_owned(),
            model: 3077,
            baud_rate: 38400,
            listen_host: "127.0.0.1".to_owned(),
            listen_port: 4532,
        }
    }
}

/// How the serial device is chosen.
#[derive(Debug, Clone, Copy, PartialEq, Eq, Structural)]
pub enum DeviceChoice {
    /// `rigctld` is not this program's business.
    Unmanaged,
    /// Look for the radio.
    Search,
    /// Use the configured path, which has to exist.
    Configured,
}

/// The choice that a configured device stands for.
pub open spec fn choice_of(serial_device: Seq<char>) -> DeviceChoice {
    if serial_device == "none"@ {
        DeviceChoice::Unmanaged
    } else if serial_device == "auto"@ {
        DeviceChoice::Search
    } else {
        DeviceChoice::Configured
    }
}

/// The arguments that `rigctld` is started with.
pub open spec fn arguments(config: RigctldConfig, device: Seq<char>) -> Seq<Seq<char>> {
    seq![
        "-m"@,
        decimal(config.model as nat),
        "-r"@,
        device,
        "-s"@,
        decimal(config.baud_rate as nat),
        "-T"@,
        config.listen_host@,
        "-t"@,
        decimal(config.listen_port as nat),
    ]
}

/// The device that `rigctld` is started with.
pub open spec fn device_to_start(
    serial_device: Seq<char>,
    found: Result<Option<Seq<char>>, CatErrorView>,
    present: bool,
) -> Result<Option<Seq<char>>, CatErrorView> {
    match choice_of(serial_device) {
        DeviceChoice::Unmanaged => Ok(None),
        DeviceChoice::Search => match found {
            Ok(None) => Err(
                CatErrorView::Io("no Elad FDM-DUO serial device found in /dev/serial/by-id/"@),
            ),
            other => other,
        },
        DeviceChoice::Configured => if present {
            Ok(Some(serial_device))
        } else {
            Err(CatErrorView::Io("serial device not found: "@ + serial_device))
        },
    }
}

fn number_text(n: u64) -> (r: String)
    ensures
        r@ == decimal(n as nat),
{
    let mut s: String = String::new();
    push_decimal(&mut s, n);
    s
}

impl RigctldConfig {
    /// How the serial device is chosen.
    pub fn device_choice(&self) -> (r: DeviceChoice)
        ensures
            r == choice_of(self.serial_device@),
    {
        if same_text(self.serial_device.as_str(), "none") {
            DeviceChoice::Unmanaged
        } else if same_text(self.serial_device.as_str(), "auto") {
            DeviceChoice::Search
        } else {
            DeviceChoice::Configured
        }
    }

    /// The device to start `rigctld` with; `None` where it is not this
    /// program's business. `found` is what a search brought, and `present`
    /// says whether the configured path exists.
    pub fn start_device(
        &self,
        found: Result<Option<String>, CatError>,
        present: bool,
    ) -> (r: Result<Option<String>, CatError>)
        ensures
            found_view(r) == device_to_start(self.serial_device@, found_view(found), present),
    {
        match self.device_choice() {
            DeviceChoice::Unmanaged => Ok(None),
            DeviceChoice::Search => match found {
                Ok(Some(d)) => Ok(Some(d)),
                Ok(None) => Err(
                    CatError::Io(
                        "no Elad FDM-DUO serial device found in /dev/serial/by-id/".to_owned(),
                    ),
                ),
                Err(e) => Err(e),
            },
            DeviceChoice::Configured => if present {
                Ok(Some(self.serial_device.clone()))
            } else {
                Err(missing_device(self.serial_device.as_str()))
            },
        }
    }

    /// The arguments that `rigctld` is started with.
    pub fn args(&self, device: &str) -> (r: Vec<String>)
        ensures
            r@.len() == arguments(*self, device@).len(),
            forall|k: int|
                0 <= k < r@.len() ==> (#[trigger] r@[k])@ == arguments(*self, device@)[k],
    {
        let mut out: Vec<String> = Vec::new();
        out.push("-m".to_owned());
        out.push(number_text(self.model as u64));
        out.push("-r".to_owned());
        out.push(device.to_owned());
        out.push("-s".to_owned());
        out.push(number_text(self.baud_rate as u64));
        out.push("-T".to_owned());
        out.push(self.listen_host.clone());
        out.push("-t".to_owned());
        out.push(number_text(self.listen_port as u64));
        out
    }
}

/// The port behind the first name that the radio is part of, from `at` on. An
/// entry that cannot be read, or a link of the radio's that leads nowhere,
/// ends the search with the system's error.
pub open spec fn port_among(
    entries: Seq<Result<Link, String>>,
    at: int,
) -> Result<Option<Seq<char>>, CatErrorView>
    decreases entries.len() - at,
{
    if at < 0 || at >= entries.len() {
        Ok(None)
    } else {
        match entries[at] {
            Err(e) => Err(CatErrorView::Io(e@)),
            Ok(link) => if names_radio(link.name@) {
                followed(link)
            } else {
                port_among(entries, at + 1)
            },
        }
    }
}

/// Looks for the radio among the ports by name, in the order in which the
/// system lists them; there are no entries where it has no such list.
pub fn discover_serial_device(entries: &Vec<Result<Link, String>>) -> (r: Result<
    Option<String>,
    CatError,
>)
    ensures
        found_view(r) == port_among(entries@, 0),
{
    let mut at: usize = 0;
    while at < entries.len()
        invariant
            at <= entries@.len(),
            port_among(entries@, 0) == port_among(entries@, at as int),
        decreases entries@.len() - at,
    {
        match &entries[at] {
            Err(e) => {
                return Err(CatError::Io(e.clone()));
            },
            Ok(link) => {
                if is_radio_name(link.name.as_str()) {
                    return follow(link);
                }
            },
        }
        at = at + 1;
    }
    Ok(None)
}

// ---------------------------------------------------------------------------
// Laws
// ---------------------------------------------------------------------------

/// Each switch is followed by its own value: the model, the device, the rate,
/// the host and the port.
pub proof fn law_switches_have_their_values(config: &RigctldConfig, device: &str, r: Vec<String>)
    requires
        call_ensures(RigctldConfig::args, (config, device), r),
    ensures
        r@.len() == 10,
        r@[0]@ == "-m"@ && r@[1]@ == decimal(config.model as nat),
        r@[2]@ == "-r"@ && r@[3]@ == device@,
        r@[4]@ == "-s"@ && r@[5]@ == decimal(config.baud_rate as nat),
        r@[6]@ == "-T"@ && r@[7]@ == config.listen_host@,
        r@[8]@ == "-t"@ && r@[9]@ == decimal(config.listen_port as nat),
{
}

/// `none` leaves `rigctld` to others, `auto` takes what was found, and any
/// other text is the device itself, if it is there.
pub proof fn law_device_is_the_configured_or_the_found(
    config: &RigctldConfig,
    found: Result<Option<String>, CatError>,
    present: bool,
    choice: DeviceChoice,
    r: Result<Option<String>, CatError>,
)
    requires
        call_ensures(RigctldConfig::device_choice, (config,), choice),
        call_ensures(RigctldConfig::start_device, (config, found, present), r),
    ensures
        choice == DeviceChoice::Unmanaged <==> config.serial_device@ == "none"@,
        choice == DeviceChoice::Search <==> config.serial_device@ == "auto"@,
        config.serial_device@ == "none"@ ==> r == Ok::<Option<String>, CatError>(None),
        config.serial_device@ == "auto"@ ==> match found {
            Ok(Some(f)) => r matches Ok(Some(d)) && d@ == f@,
            Ok(None) => r matches Err(e) && e@ == CatErrorView::Io(
                "no Elad FDM-DUO serial device found in /dev/serial/by-id/"@,
            ),
            Err(e) => r matches Err(why) && why@ == e@,
        },
        config.serial_device@ != "none"@ && config.serial_device@ != "auto"@ ==> {
            &&& present ==> (r matches Ok(Some(d)) && d@ == config.serial_device@)
            &&& !present ==> (r matches Err(e) && e@ == CatErrorView::Io(
                "serial device not found: "@ + config.serial_device@,
            ))
        },
{
    reveal_strlit("none");
    reveal_strlit("auto");
    assert("none"@[0] == 'n' && "auto"@[0] == 'a');
}

proof fn lemma_port_among(entries: Seq<Result<Link, String>>, at: int, k: int)
    requires
        0 <= at <= k <= entries.len(),
        forall|i: int|
            at <= i < k ==> (#[trigger] entries[i] matches Ok(link) && !names_radio(link.name@)),
    ensures
        port_among(entries, at) == port_among(entries, k),
    decreases k - at,
{
    if at < k {
        lemma_port_among(entries, at + 1, k);
    }
}

/// The first entry that is the radio's, or that cannot be read, decides;
/// those before it do not matter.
pub proof fn law_the_first_entry_decides(
    entries: &Vec<Result<Link, String>>,
    k: int,
    r: Result<Option<String>, CatError>,
)
    requires
        call_ensures(discover_serial_device, (entries,), r),
        0 <= k <= entries@.len(),
        forall|i: int|
            0 <= i < k ==> (#[trigger] entries@[i] matches Ok(link) && !names_radio(link.name@)),
    ensures
        k == entries@.len() ==> r == Ok::<Option<String>, CatError>(None),
        k < entries@.len() ==> match entries@[k] {
            Err(why) => r matches Err(e) && e@ == CatErrorView::Io(why@),
            Ok(link) => names_radio(link.name@) ==> match link.target {
                Ok(t) => r matches Ok(Some(port)) && port@ == t@,
                Err(why) => r matches Err(e) && e@ == CatErrorView::Io(why@),
            },
        },
{
    lemma_port_among(entries@, 0, k);
}

/// `rigctld` is started for the FDM-DUO, at its rate and on the usual port of
/// this machine.
pub proof fn law_default_rigctld(c: RigctldConfig)
    requires
        call_ensures(<RigctldConfig as Default>::default, (), c),
    ensures
        c.serial_device@ == "auto"@ && c.model == 3077 && c.baud_rate == 38_400,
        c.listen_host@ == "127.0.0.1"@ && c.listen_port == 4532,
{
}

} // verus!
