//! Finding the radio's serial port among what the system lists.
//!
//! The radio shows up as several devices on one USB hub. Its serial port is
//! found by a link made for it, by the name of a port, or as a neighbour of
//! the device that delivers IQ.
use crate::cat::error::{CatError, CatErrorView};
use crate::text::{chars_of, has_prefix, starts_with, string_of};
use vstd::prelude::*;
use vstd::string::*;

verus! {

/// A directory entry, with what is below it where it is a directory.
#[derive(Debug)]
pub struct Entry {
    pub name: String,
    pub is_dir: bool,
    pub children: Vec<Entry>,
}

/// A named link and where it leads, or why the system cannot tell.
#[derive(Debug)]
pub struct Link {
    pub name: String,
    pub target: Result<String, String>,
}

/// A USB device: its port, its vendor and product numbers where it has them,
/// and what is below it.
#[derive(Debug)]
pub struct UsbDevice {
    pub name: String,
    pub vendor: Option<String>,
    pub product: Option<String>,
    pub below: Vec<Entry>,
}

/// What the system lists. A list that does not exist is empty; one that
/// cannot be read comes with the reason.
#[derive(Debug)]
pub struct Listing {
    /// The link made for the radio's port, if it exists.
    pub udev: Option<Link>,
    /// The ports by name.
    pub by_id: Result<Vec<Link>, String>,
    /// The USB devices.
    pub usb: Result<Vec<UsbDevice>, String>,
    /// The names of the devices that exist.
    pub devices: Vec<String>,
}

// ---------------------------------------------------------------------------
// Names
// ---------------------------------------------------------------------------

/// `p` occurs in `s` at `at` or behind it.
pub open spec fn occurs_from(s: Seq<char>, p: Seq<char>, at: int) -> bool
    decreases s.len() + 1 - at,
{
    if at < 0 || at > s.len() {
        false
    } else {
        has_prefix(s.skip(at), p) || occurs_from(s, p, at + 1)
    }
}

/// `p` occurs in `s`.
pub open spec fn occurs(s: Seq<char>, p: Seq<char>) -> bool {
    occurs_from(s, p, 0)
}

/// Whether `p` occurs in `s`.
pub fn contains(s: &str, p: &str) -> (r: bool)
    ensures
        r == occurs(s@, p@),
{
    let v: Vec<char> = chars_of(s);
    let w: Vec<char> = chars_of(p);
    let mut at: usize = 0;
    while at < v.len()
        invariant
            at <= v@.len(),
            v@ == s@,
            w@ == p@,
            occurs(s@, p@) == occurs_from(s@, p@, at as int),
        decreases v@.len() - at,
    {
        let tail: &[char] = vstd::slice::slice_subrange(v.as_slice(), at, v.len());
        if starts_with(tail, w.as_slice()) {
            return true;
        }
        at = at + 1;
    }
    assert(s@.skip(at as int) =~= Seq::<char>::empty());
    assert(!occurs_from(s@, p@, at + 1));
    let nothing: Vec<char> = Vec::new();
    starts_with(nothing.as_slice(), w.as_slice())
}

/// A port name that the radio's maker or model is part of.
pub open spec fn names_radio(name: Seq<char>) -> bool {
    occurs(name, "ELAD"@) || occurs(name, "FDM-DUO"@) || occurs(name, "FDM_DUO"@)
}

/// Whether the radio's maker or model is part of a port name.
pub fn is_radio_name(name: &str) -> (r: bool)
    ensures
        r == names_radio(name@),
{
    contains(name, "ELAD") || contains(name, "FDM-DUO") || contains(name, "FDM_DUO")
}

/// The name of an interface rather than a device: it has a colon.
pub open spec fn is_interface(name: Seq<char>) -> bool {
    name.contains(':')
}

pub(crate) fn has_colon(name: &str) -> (r: bool)
    ensures
        r == is_interface(name@),
{
    let v: Vec<char> = chars_of(name);
    let mut i: usize = 0;
    while i < v.len()
        invariant
            i <= v@.len(),
            v@ == name@,
            forall|k: int| 0 <= k < i ==> v@[k] != ':',
        decreases v@.len() - i,
    {
        if v[i] == ':' {
            return true;
        }
        i = i + 1;
    }
    false
}

/// The part of a port name that all devices on its hub share: up to and with
/// its last dot. A device that is on no hub has none.
pub open spec fn hub_of(name: Seq<char>) -> Option<Seq<char>>
    decreases name.len(),
{
    if name.len() == 0 {
        None
    } else if name.last() == '.' {
        Some(name)
    } else {
        hub_of(name.drop_last())
    }
}

/// The part of a port name that all devices on its hub share.
pub fn hub_prefix(name: &str) -> (r: Option<String>)
    ensures
        match r {
            Some(p) => hub_of(name@) == Some(p@),
            None => hub_of(name@) is None,
        },
{
    let v: Vec<char> = chars_of(name);
    let mut n: usize = v.len();
    assert(v@.take(n as int) =~= name@);
    while n > 0
        invariant
            n <= v@.len(),
            v@ == name@,
            hub_of(name@) == hub_of(v@.take(n as int)),
        decreases n,
    {
        if v[n - 1] == '.' {
            let p: String = string_of(vstd::slice::slice_subrange(v.as_slice(), 0, n));
            return Some(p);
        }
        assert(v@.take(n as int).drop_last() =~= v@.take(n - 1));
        n = n - 1;
    }
    None
}

/// The name of a serial port.
pub open spec fn is_tty(name: Seq<char>) -> bool {
    has_prefix(name, "ttyUSB"@) || has_prefix(name, "ttyACM"@)
}

fn tty(name: &str) -> (r: bool)
    ensures
        r == is_tty(name@),
{
    let v: Vec<char> = chars_of(name);
    let usb: Vec<char> = chars_of("ttyUSB");
    let acm: Vec<char> = chars_of("ttyACM");
    starts_with(v.as_slice(), usb.as_slice()) || starts_with(v.as_slice(), acm.as_slice())
}

// ---------------------------------------------------------------------------
// Searches
// ---------------------------------------------------------------------------

/// The first serial port among entries and what is below them, at most
/// `depth` levels down. An entry's own name comes before what is below it.
pub open spec fn tty_among(entries: Seq<Entry>, depth: nat) -> Option<Seq<char>>
    decreases depth, entries.len(),
{
    if depth == 0 || entries.len() == 0 {
        None
    } else if is_tty(entries[0].name@) {
        Some(entries[0].name@)
    } else {
        let below = if entries[0].is_dir {
            tty_among(entries[0].children@, (depth - 1) as nat)
        } else {
            None
        };
        match below {
            Some(name) => Some(name),
            None => tty_among(entries.skip(1), depth),
        }
    }
}

fn walk(entries: &Vec<Entry>, depth: usize) -> (r: Option<String>)
    ensures
        match r {
            Some(name) => tty_among(entries@, depth as nat) == Some(name@),
            None => tty_among(entries@, depth as nat) is None,
        },
    decreases depth,
{
    if depth == 0 {
        return None;
    }
    let mut i: usize = 0;
    assert(entries@.skip(0) =~= entries@);
    while i < entries.len()
        invariant
            i <= entries@.len(),
            depth > 0,
            tty_among(entries@, depth as nat) == tty_among(entries@.skip(i as int), depth as nat),
        decreases entries@.len() - i,
    {
        let ghost rest = entries@.skip(i as int);
        assert(rest.skip(1) =~= entries@.skip(i + 1));
        let entry: &Entry = &entries[i];
        if tty(entry.name.as_str()) {
            return Some(entry.name.clone());
        }
        if entry.is_dir {
            match walk(&entry.children, depth - 1) {
                Some(name) => {
                    return Some(name);
                },
                None => {},
            }
        }
        i = i + 1;
    }
    None
}

/// The first serial port below a USB device, at most four levels down.
pub fn find_tty_under(below: &Vec<Entry>) -> (r: Option<String>)
    ensures
        match r {
            Some(name) => tty_among(below@, 4) == Some(name@),
            None => tty_among(below@, 4) is None,
        },
{
    walk(below, 4)
}

/// The first link of the radio, from `at` on.
pub open spec fn radio_link(links: Seq<Link>, at: int) -> Option<Link>
    decreases links.len() - at,
{
    if at < 0 || at >= links.len() {
        None
    } else if names_radio(links[at].name@) {
        Some(links[at])
    } else {
        radio_link(links, at + 1)
    }
}

/// Where a link leads, or the system's error.
pub open spec fn followed(link: Link) -> Result<Option<Seq<char>>, CatErrorView> {
    match link.target {
        Ok(t) => Ok(Some(t@)),
        Err(e) => Err(CatErrorView::Io(e@)),
    }
}

pub(crate) fn follow(link: &Link) -> (r: Result<Option<String>, CatError>)
    ensures
        found_view(r) == followed(*link),
{
    match &link.target {
        Ok(t) => Ok(Some(t.clone())),
        Err(e) => Err(CatError::Io(e.clone())),
    }
}

/// What a search found, as mathematics.
pub open spec fn found_view(r: Result<Option<String>, CatError>) -> Result<
    Option<Seq<char>>,
    CatErrorView,
> {
    match r {
        Ok(Some(s)) => Ok(Some(s@)),
        Ok(None) => Ok(None),
        Err(e) => Err(e@),
    }
}

/// The port behind the first name that the radio is part of; an error if that
/// link leads nowhere.
pub open spec fn port_by_id(links: Seq<Link>) -> Result<Option<Seq<char>>, CatErrorView> {
    match radio_link(links, 0) {
        Some(link) => followed(link),
        None => Ok(None),
    }
}

/// Looks for the radio among the ports by name.
pub fn discover_by_id(links: &Vec<Link>) -> (r: Result<Option<String>, CatError>)
    ensures
        found_view(r) == port_by_id(links@),
{
    let mut at: usize = 0;
    while at < links.len()
        invariant
            at <= links@.len(),
            radio_link(links@, 0) == radio_link(links@, at as int),
        decreases links@.len() - at,
    {
        if is_radio_name(links[at].name.as_str()) {
            return follow(&links[at]);
        }
        at = at + 1;
    }
    Ok(None)
}

/// A device with the radio's vendor and product numbers.
pub open spec fn is_radio_device(d: UsbDevice) -> bool {
    match (d.vendor, d.product) {
        (Some(v), Some(p)) => v@ == "1721"@ && p@ == "061a"@,
        _ => false,
    }
}

pub(crate) fn radio_device(d: &UsbDevice) -> (r: bool)
    ensures
        r == is_radio_device(*d),
{
    match (&d.vendor, &d.product) {
        (Some(v), Some(p)) => crate::text::same_text(v.as_str(), "1721") && crate::text::same_text(
            p.as_str(),
            "061a",
        ),
        _ => false,
    }
}

/// The hub of the first radio that is on one, from `at` on.
pub open spec fn radio_hub(usb: Seq<UsbDevice>, at: int) -> Option<Seq<char>>
    decreases usb.len() - at,
{
    if at < 0 || at >= usb.len() {
        None
    } else if !is_interface(usb[at].name@) && is_radio_device(usb[at]) && hub_of(usb[at].name@)
        is Some {
        hub_of(usb[at].name@)
    } else {
        radio_hub(usb, at + 1)
    }
}

/// The hub of the first radio that is on one.
pub fn find_elad_hub_prefix(usb: &Vec<UsbDevice>) -> (r: Option<String>)
    ensures
        match r {
            Some(p) => radio_hub(usb@, 0) == Some(p@),
            None => radio_hub(usb@, 0) is None,
        },
{
    let mut at: usize = 0;
    while at < usb.len()
        invariant
            at <= usb@.len(),
            radio_hub(usb@, 0) == radio_hub(usb@, at as int),
        decreases usb@.len() - at,
    {
        let d: &UsbDevice = &usb[at];
        if !has_colon(d.name.as_str()) && radio_device(d) {
            match hub_prefix(d.name.as_str()) {
                Some(p) => {
                    return Some(p);
                },
                None => {},
            }
        }
        at = at + 1;
    }
    None
}

/// A name is among those of the devices that exist.
pub open spec fn exists_device(devices: Seq<String>, name: Seq<char>) -> bool {
    exists|k: int| 0 <= k < devices.len() && (#[trigger] devices[k])@ == name
}

fn device_exists(devices: &Vec<String>, name: &str) -> (r: bool)
    ensures
        r == exists_device(devices@, name@),
{
    let mut i: usize = 0;
    while i < devices.len()
        invariant
            i <= devices@.len(),
            forall|k: int| 0 <= k < i ==> (#[trigger] devices@[k])@ != name@,
        decreases devices@.len() - i,
    {
        if crate::text::same_text(devices[i].as_str(), name) {
            return true;
        }
        i = i + 1;
    }
    false
}

/// The first serial port that exists on a hub, from device `at` on.
pub open spec fn port_on_hub(
    usb: Seq<UsbDevice>,
    devices: Seq<String>,
    hub: Seq<char>,
    at: int,
) -> Option<Seq<char>>
    decreases usb.len() - at,
{
    if at < 0 || at >= usb.len() {
        None
    } else {
        let d = usb[at];
        let port = tty_among(d.below@, 4);
        if has_prefix(d.name@, hub) && !is_interface(d.name@) && port is Some && exists_device(
            devices,
            port->0,
        ) {
            Some("/dev/"@ + port->0)
        } else {
            port_on_hub(usb, devices, hub, at + 1)
        }
    }
}

/// The port that is a neighbour of the radio's IQ device.
pub open spec fn port_by_hub(usb: Seq<UsbDevice>, devices: Seq<String>) -> Option<Seq<char>> {
    match radio_hub(usb, 0) {
        Some(hub) => port_on_hub(usb, devices, hub, 0),
        None => None,
    }
}

/// Looks for a serial port on the radio's hub.
pub fn discover_by_hub_sibling(usb: &Vec<UsbDevice>, devices: &Vec<String>) -> (r: Option<String>)
    ensures
        match r {
            Some(p) => port_by_hub(usb@, devices@) == Some(p@),
            None => port_by_hub(usb@, devices@) is None,
        },
{
    let hub: String = match find_elad_hub_prefix(usb) {
        Some(p) => p,
        None => {
            return None;
        },
    };
    let prefix: Vec<char> = chars_of(hub.as_str());
    let mut at: usize = 0;
    while at < usb.len()
        invariant
            at <= usb@.len(),
            prefix@ == hub@,
            radio_hub(usb@, 0) == Some(hub@),
            port_on_hub(usb@, devices@, hub@, 0) == port_on_hub(
                usb@,
                devices@,
                hub@,
                at as int,
            ),
        decreases usb@.len() - at,
    {
        let d: &UsbDevice = &usb[at];
        let name: Vec<char> = chars_of(d.name.as_str());
        if starts_with(name.as_slice(), prefix.as_slice()) && !has_colon(d.name.as_str()) {
            match find_tty_under(&d.below) {
                Some(port) => {
                    if device_exists(devices, port.as_str()) {
                        return Some("/dev/".to_owned().concat(port.as_str()));
                    }
                },
                None => {},
            }
        }
        at = at + 1;
    }
    None
}

/// The radio's serial port: the link made for it; else the port by name; else
/// the neighbour on its hub. A list that cannot be read is an error once it
/// is needed.
pub open spec fn serial_port(l: Listing) -> Result<Option<Seq<char>>, CatErrorView> {
    match l.udev {
        Some(link) => followed(link),
        None => match l.by_id {
            Err(e) => Err(CatErrorView::Io(e@)),
            Ok(links) => match port_by_id(links@) {
                Ok(None) => match l.usb {
                    Err(e) => Err(CatErrorView::Io(e@)),
                    Ok(usb) => Ok(port_by_hub(usb@, l.devices@)),
                },
                other => other,
            },
        },
    }
}

/// Finds the radio's serial port; `None` if nothing looks like it.
pub fn discover_serial_device(listing: &Listing) -> (r: Result<Option<String>, CatError>)
    ensures
        found_view(r) == serial_port(*listing),
{
    match &listing.udev {
        Some(link) => {
            return follow(link);
        },
        None => {},
    }
    match &listing.by_id {
        Err(e) => Err(CatError::Io(e.clone())),
        Ok(links) => match discover_by_id(links) {
            Ok(None) => match &listing.usb {
                Err(e) => Err(CatError::Io(e.clone())),
                Ok(usb) => Ok(discover_by_hub_sibling(usb, &listing.devices)),
            },
            other => other,
        },
    }
}

/// Where nothing is listed, nothing is found, and that is no error.
pub proof fn law_nothing_listed_nothing_found(l: Listing)
    requires
        l.udev is None,
        l.by_id matches Ok(links) && links@.len() == 0,
        l.usb matches Ok(usb) && usb@.len() == 0,
    ensures
        serial_port(l) == Ok::<Option<Seq<char>>, CatErrorView>(None),
{
}

/// The link made for the radio decides alone, whatever else is listed or
/// cannot be read.
pub proof fn law_the_radios_link_decides(a: Listing, b: Listing)
    requires
        a.udev is Some,
        a.udev == b.udev,
    ensures
        serial_port(a) == serial_port(b),
{
}

// ---------------------------------------------------------------------------
// Laws
// ---------------------------------------------------------------------------

proof fn lemma_occurs(s: Seq<char>, p: Seq<char>, at: int)
    requires
        0 <= at <= s.len() + 1,
    ensures
        occurs_from(s, p, at) <==> exists|k: int|
            at <= k && k + p.len() <= s.len() && #[trigger] s.subrange(k, k + p.len()) == p,
    decreases s.len() + 1 - at,
{
    if at <= s.len() {
        lemma_occurs(s, p, at + 1);
        let t = s.skip(at);
        if at + p.len() <= s.len() {
            assert(t.take(p.len() as int) =~= s.subrange(at, at + p.len()));
        }
        if has_prefix(t, p) {
            assert(s.subrange(at, at + p.len()) == p);
        }
    }
}

/// A text occurs in another if it stands somewhere in it.
pub proof fn law_occurring_is_standing_somewhere(s: &str, p: &str, r: bool)
    requires
        call_ensures(contains, (s, p), r),
    ensures
        r <==> exists|k: int|
            0 <= k && k + p@.len() <= s@.len() && #[trigger] s@.subrange(k, k + p@.len()) == p@,
{
    lemma_occurs(s@, p@, 0);
}

/// A port is the radio's if the maker or the model stands in its name,
/// wherever that is.
pub proof fn law_the_radios_names(before: Seq<char>, after: Seq<char>, name: &str, r: bool)
    requires
        call_ensures(is_radio_name, (name,), r),
    ensures
        name@ == before + "ELAD"@ + after ==> r,
        name@ == before + "FDM-DUO"@ + after ==> r,
        name@ == before + "FDM_DUO"@ + after ==> r,
        r ==> exists|k: int| 0 <= k < name@.len() && (#[trigger] name@[k] == 'E' || name@[k]
            == 'F'),
{
    reveal_strlit("ELAD");
    reveal_strlit("FDM-DUO");
    reveal_strlit("FDM_DUO");
    let n = name@;
    lemma_occurs(n, "ELAD"@, 0);
    lemma_occurs(n, "FDM-DUO"@, 0);
    lemma_occurs(n, "FDM_DUO"@, 0);
    let b = before.len() as int;
    if n == before + "ELAD"@ + after {
        assert(n.subrange(b, b + 4) =~= "ELAD"@);
    }
    if n == before + "FDM-DUO"@ + after {
        assert(n.subrange(b, b + 7) =~= "FDM-DUO"@);
    }
    if n == before + "FDM_DUO"@ + after {
        assert(n.subrange(b, b + 7) =~= "FDM_DUO"@);
    }
    if occurs(n, "ELAD"@) {
        let k = choose|k: int|
            0 <= k && k + 4 <= n.len() && #[trigger] n.subrange(k, k + 4) == "ELAD"@;
        assert(n.subrange(k, k + 4)[0] == n[k]);
    } else if occurs(n, "FDM-DUO"@) {
        let k = choose|k: int|
            0 <= k && k + 7 <= n.len() && #[trigger] n.subrange(k, k + 7) == "FDM-DUO"@;
        assert(n.subrange(k, k + 7)[0] == n[k]);
    } else if occurs(n, "FDM_DUO"@) {
        let k = choose|k: int|
            0 <= k && k + 7 <= n.len() && #[trigger] n.subrange(k, k + 7) == "FDM_DUO"@;
        assert(n.subrange(k, k + 7)[0] == n[k]);
    }
}

proof fn lemma_hub(hub: Seq<char>, port: Seq<char>)
    requires
        forall|k: int| 0 <= k < port.len() ==> #[trigger] port[k] != '.',
    ensures
        hub_of(hub + seq!['.'] + port) == Some(hub + seq!['.']),
        hub_of(port) is None,
    decreases port.len(),
{
    let name = hub + seq!['.'] + port;
    if port.len() > 0 {
        let shorter = port.drop_last();
        assert(name.drop_last() =~= hub + seq!['.'] + shorter);
        assert(name.last() == port.last());
        lemma_hub(hub, shorter);
    } else {
        assert(name =~= hub + seq!['.']);
    }
}

/// The hub of a port is what stands before its own number, up to the last
/// dot; a port without a dot is on none.
pub proof fn law_hubs_end_at_the_last_dot(
    name: &str,
    hub: Seq<char>,
    port: Seq<char>,
    r: Option<String>,
)
    requires
        forall|k: int| 0 <= k < port.len() ==> #[trigger] port[k] != '.',
        call_ensures(hub_prefix, (name,), r),
    ensures
        name@ == hub + seq!['.'] + port ==> (r matches Some(p) && p@ == hub + seq!['.']),
        name@ == port ==> r is None,
{
    lemma_hub(hub, port);
}

/// A name stands among entries or below them, at most so many levels down.
pub open spec fn stands_below(entries: Seq<Entry>, name: Seq<char>, depth: nat) -> bool
    decreases depth,
{
    depth > 0 && exists|i: int|
        0 <= i < entries.len() && ((#[trigger] entries[i]).name@ == name || entries[i].is_dir
            && stands_below(entries[i].children@, name, (depth - 1) as nat))
}

proof fn lemma_tty_found(entries: Seq<Entry>, depth: nat)
    ensures
        match tty_among(entries, depth) {
            Some(name) => is_tty(name) && stands_below(entries, name, depth),
            None => forall|name: Seq<char>| #[trigger]
                stands_below(entries, name, depth) ==> !is_tty(name),
        },
    decreases depth, entries.len(),
{
    if depth > 0 && entries.len() > 0 {
        let first = entries[0];
        let rest = entries.skip(1);
        if first.is_dir {
            lemma_tty_found(first.children@, (depth - 1) as nat);
        }
        lemma_tty_found(rest, depth);
        match tty_among(entries, depth) {
            Some(name) => {
                if !is_tty(first.name@) && !(first.is_dir && tty_among(
                    first.children@,
                    (depth - 1) as nat,
                ) is Some) {
                    let i = choose|i: int|
                        0 <= i < rest.len() && ((#[trigger] rest[i]).name@ == name || rest[i].is_dir
                            && stands_below(rest[i].children@, name, (depth - 1) as nat));
                    assert(entries[i + 1] == rest[i]);
                } else {
                    assert(entries[0] == first);
                }
            },
            None => {
                assert forall|name: Seq<char>| #[trigger]
                    stands_below(entries, name, depth) implies !is_tty(name) by {
                    let i = choose|i: int|
                        0 <= i < entries.len() && ((#[trigger] entries[i]).name@ == name
                            || entries[i].is_dir && stands_below(
                            entries[i].children@,
                            name,
                            (depth - 1) as nat,
                        ));
                    if i > 0 {
                        assert(rest[i - 1] == entries[i]);
                        assert(stands_below(rest, name, depth));
                    }
                }
            },
        }
    }
}

/// The port that is found below a device is a serial port, and stands there
/// within four levels; where none is found, none stands there.
pub proof fn law_ports_below_are_found(below: &Vec<Entry>, r: Option<String>)
    requires
        call_ensures(find_tty_under, (below,), r),
    ensures
        match r {
            Some(name) => {
                &&& stands_below(below@, name@, 4)
                &&& has_prefix(name@, "ttyUSB"@) || has_prefix(name@, "ttyACM"@)
            },
            None => forall|name: Seq<char>| #[trigger]
                stands_below(below@, name, 4) ==> !has_prefix(name, "ttyUSB"@) && !has_prefix(
                    name,
                    "ttyACM"@,
                ),
        },
{
    lemma_tty_found(below@, 4);
}

/// A USB device is the radio's: by its numbers, and as a device rather than
/// an interface of one.
pub open spec fn is_the_radio(d: UsbDevice) -> bool {
    &&& d.vendor matches Some(v) && v@ == "1721"@
    &&& d.product matches Some(p) && p@ == "061a"@
    &&& !d.name@.contains(':')
}

proof fn lemma_hub_found(usb: Seq<UsbDevice>, at: int)
    requires
        0 <= at,
    ensures
        match radio_hub(usb, at) {
            Some(hub) => exists|k: int|
                at <= k < usb.len() && is_the_radio(#[trigger] usb[k]) && hub_of(usb[k].name@)
                    == Some(hub),
            None => forall|k: int|
                at <= k < usb.len() && is_the_radio(#[trigger] usb[k]) ==> hub_of(usb[k].name@) is None,
        },
    decreases usb.len() - at,
{
    if at < usb.len() {
        lemma_hub_found(usb, at + 1);
    }
}

/// The hub is that of a radio, and one is found if a radio is on any.
pub proof fn law_the_hub_is_a_radios(usb: &Vec<UsbDevice>, r: Option<String>)
    requires
        call_ensures(find_elad_hub_prefix, (usb,), r),
    ensures
        match r {
            Some(hub) => exists|k: int|
                0 <= k < usb@.len() && is_the_radio(#[trigger] usb@[k]) && hub_of(usb@[k].name@)
                    == Some(hub@),
            None => forall|k: int|
                0 <= k < usb@.len() && is_the_radio(#[trigger] usb@[k]) ==> hub_of(usb@[k].name@)
                    is None,
        },
{
    lemma_hub_found(usb@, 0);
}

proof fn lemma_port_on_hub(
    usb: Seq<UsbDevice>,
    devices: Seq<String>,
    hub: Seq<char>,
    at: int,
)
    requires
        0 <= at,
    ensures
        port_on_hub(usb, devices, hub, at) matches Some(port) ==> exists|j: int, name: Seq<char>|
            {
                &&& at <= j < usb.len()
                &&& has_prefix((#[trigger] usb[j]).name@, hub)
                &&& !usb[j].name@.contains(':')
                &&& #[trigger] stands_below(usb[j].below@, name, 4)
                &&& is_tty(name)
                &&& exists_device(devices, name)
                &&& port == "/dev/"@ + name
            },
    decreases usb.len() - at,
{
    if at < usb.len() {
        lemma_tty_found(usb[at].below@, 4);
        lemma_port_on_hub(usb, devices, hub, at + 1);
        let found = tty_among(usb[at].below@, 4);
        if port_on_hub(usb, devices, hub, at) is Some && port_on_hub(usb, devices, hub, at)
            != port_on_hub(usb, devices, hub, at + 1) {
            assert(stands_below(usb[at].below@, found->0, 4));
        } else if found is Some {
            assert(stands_below(usb[at].below@, found->0, 4));
        }
    }
}

/// A port that is found on a hub is an existing serial port of a device that
/// shares the hub with a radio.
pub proof fn law_the_neighbour_shares_the_radios_hub(
    usb: &Vec<UsbDevice>,
    devices: &Vec<String>,
    r: Option<String>,
)
    requires
        call_ensures(discover_by_hub_sibling, (usb, devices), r),
        r is Some,
    ensures
        exists|k: int, j: int, name: Seq<char>|
            {
                &&& 0 <= k < usb@.len() && 0 <= j < usb@.len()
                &&& is_the_radio(#[trigger] usb@[k])
                &&& hub_of(usb@[k].name@) is Some
                &&& has_prefix((#[trigger] usb@[j]).name@, hub_of(usb@[k].name@)->0)
                &&& #[trigger] stands_below(usb@[j].below@, name, 4)
                &&& is_tty(name)
                &&& exists_device(devices@, name)
                &&& r->0@ == "/dev/"@ + name
            },
{
    lemma_hub_found(usb@, 0);
    let hub = radio_hub(usb@, 0)->0;
    lemma_port_on_hub(usb@, devices@, hub, 0);
    let k = choose|k: int|
        0 <= k < usb@.len() && is_the_radio(#[trigger] usb@[k]) && hub_of(usb@[k].name@) == Some(
            hub,
        );
    let (j, name) = choose|j: int, name: Seq<char>|
        {
            &&& 0 <= j < usb@.len()
            &&& has_prefix((#[trigger] usb@[j]).name@, hub)
            &&& !usb@[j].name@.contains(':')
            &&& #[trigger] stands_below(usb@[j].below@, name, 4)
            &&& is_tty(name)
            &&& exists_device(devices@, name)
            &&& r->0@ == "/dev/"@ + name
        };
    assert(is_the_radio(usb@[k]) && has_prefix(usb@[j].name@, hub_of(usb@[k].name@)->0)
        && stands_below(usb@[j].below@, name, 4));
}

proof fn lemma_radio_link(links: Seq<Link>, at: int)
    requires
        0 <= at,
    ensures
        match radio_link(links, at) {
            Some(link) => exists|k: int|
                at <= k < links.len() && #[trigger] links[k] == link && names_radio(links[k].name@)
                    && forall|i: int| at <= i < k ==> !names_radio(#[trigger] links[i].name@),
            None => forall|i: int| at <= i < links.len() ==> !names_radio(#[trigger] links[i].name@),
        },
    decreases links.len() - at,
{
    if at < links.len() && !names_radio(links[at].name@) {
        lemma_radio_link(links, at + 1);
        if radio_link(links, at) is Some {
            let k = choose|k: int|
                at + 1 <= k < links.len() && #[trigger] links[k] == radio_link(links, at)->0
                    && names_radio(links[k].name@) && forall|i: int|
                    at + 1 <= i < k ==> !names_radio(#[trigger] links[i].name@);
            assert(links[k] == radio_link(links, at)->0);
        }
    }
}

/// Among the ports by name it is the first of the radio's that decides: where
/// it leads is the port, and where it leads nowhere that is the error.
pub proof fn law_the_first_named_port_decides(
    links: &Vec<Link>,
    k: int,
    r: Result<Option<String>, CatError>,
)
    requires
        call_ensures(discover_by_id, (links,), r),
        0 <= k <= links@.len(),
        forall|i: int| 0 <= i < k ==> !names_radio(#[trigger] links@[i].name@),
        k < links@.len() ==> names_radio(links@[k].name@),
    ensures
        k == links@.len() ==> r == Ok::<Option<String>, CatError>(None),
        k < links@.len() ==> match links@[k].target {
            Ok(t) => r matches Ok(Some(port)) && port@ == t@,
            Err(why) => r matches Err(e) && e@ == CatErrorView::Io(why@),
        },
{
    lemma_radio_link(links@, 0);
}

/// The link made for the radio comes first, the ports by name second, and the
/// neighbours on the hub last; each is looked at only where the one before
/// has brought nothing.
pub proof fn law_places_are_searched_in_order(
    l: &Listing,
    links: &Vec<Link>,
    usb: &Vec<UsbDevice>,
    named: Result<Option<String>, CatError>,
    neighbour: Option<String>,
    r: Result<Option<String>, CatError>,
)
    requires
        l.by_id == Ok::<Vec<Link>, String>(*links),
        l.usb == Ok::<Vec<UsbDevice>, String>(*usb),
        call_ensures(discover_serial_device, (l,), r),
        call_ensures(discover_by_id, (links,), named),
        call_ensures(discover_by_hub_sibling, (usb, &l.devices), neighbour),
    ensures
        l.udev matches Some(link) ==> match link.target {
            Ok(t) => r matches Ok(Some(port)) && port@ == t@,
            Err(why) => r matches Err(e) && e@ == CatErrorView::Io(why@),
        },
        l.udev is None ==> match named {
            Err(e) => r matches Err(f) && f@ == e@,
            Ok(Some(a)) => r matches Ok(Some(b)) && a@ == b@,
            Ok(None) => match neighbour {
                Some(a) => r matches Ok(Some(b)) && a@ == b@,
                None => r == Ok::<Option<String>, CatError>(None),
            },
        },
{
}

proof fn lemma_neighbour_found(
    usb: Seq<UsbDevice>,
    devices: Seq<String>,
    hub: Seq<char>,
    at: int,
    j: int,
)
    requires
        0 <= at <= j < usb.len(),
        has_prefix(usb[j].name@, hub),
        !usb[j].name@.contains(':'),
        tty_among(usb[j].below@, 4) is Some,
        exists_device(devices, tty_among(usb[j].below@, 4)->0),
    ensures
        port_on_hub(usb, devices, hub, at) is Some,
    decreases j - at,
{
    if at < j {
        lemma_neighbour_found(usb, devices, hub, at + 1, j);
    }
}

/// Where a device on the radio's hub has a serial port that exists, a port is
/// found.
pub proof fn law_a_neighbour_is_found(
    usb: &Vec<UsbDevice>,
    devices: &Vec<String>,
    hub: String,
    j: int,
    port: String,
    r: Option<String>,
)
    requires
        call_ensures(discover_by_hub_sibling, (usb, devices), r),
        call_ensures(find_elad_hub_prefix, (usb,), Some(hub)),
        0 <= j < usb@.len(),
        has_prefix(usb@[j].name@, hub@),
        !usb@[j].name@.contains(':'),
        call_ensures(find_tty_under, (&usb@[j].below,), Some(port)),
        exists|k: int| 0 <= k < devices@.len() && (#[trigger] devices@[k])@ == port@,
    ensures
        r is Some,
{
    lemma_neighbour_found(usb@, devices@, hub@, 0, j);
}

} // verus!
