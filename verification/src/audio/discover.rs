//! Finding the radio's sound card among what the system lists.
//!
//! The radio's audio is a sound card on the same USB hub as the device that
//! delivers IQ, or on that device itself. The card's numbers are then looked
//! up among the sound devices.
use crate::cat::discover::{
    find_elad_hub_prefix, has_colon, is_interface, is_radio_device, radio_device, radio_hub, Entry,
    UsbDevice,
};
use crate::text::{
    chars_of, decimal, has_prefix, is_text, parse_unsigned, push_decimal, same_text, starts_with,
    unsigned_text,
};
use vstd::prelude::*;
use vstd::string::*;

verus! {

/// The radio's sound devices, such as `hw:2,0`.
#[derive(Debug, Clone)]
pub struct FdmDuoAlsa {
    /// Where received audio comes from.
    pub capture: Option<String>,
    /// Where audio to transmit goes.
    pub playback: Option<String>,
}

/// A [`FdmDuoAlsa`] as mathematics.
pub struct AlsaView {
    pub capture: Option<Seq<char>>,
    pub playback: Option<Seq<char>>,
}

/// A name that may be missing.
pub open spec fn opt_view(s: Option<String>) -> Option<Seq<char>> {
    match s {
        Some(t) => Some(t@),
        None => None,
    }
}

impl View for FdmDuoAlsa {
    type V = AlsaView;

    open spec fn view(&self) -> AlsaView {
        AlsaView { capture: opt_view(self.capture), playback: opt_view(self.playback) }
    }
}

/// What the system lists of USB devices and sound devices.
#[derive(Debug)]
pub struct SoundListing {
    pub usb: Vec<UsbDevice>,
    /// The names of the sound devices.
    pub sound: Vec<String>,
}

// ---------------------------------------------------------------------------
// The card
// ---------------------------------------------------------------------------

/// How deep below a USB device its card is looked for.
pub const CARD_DEPTH: usize = 5;

/// The number in a card's name.
pub open spec fn card_number(name: Seq<char>) -> Option<nat> {
    if has_prefix(name, "card"@) {
        unsigned_text(name.skip("card"@.len() as int), u32::MAX as nat)
    } else {
        None
    }
}

fn parse_card(name: &str) -> (r: Option<u32>)
    ensures
        match r {
            Some(n) => card_number(name@) == Some(n as nat),
            None => card_number(name@) is None,
        },
{
    let v: Vec<char> = chars_of(name);
    let p: Vec<char> = chars_of("card");
    if starts_with(v.as_slice(), p.as_slice()) {
        let digits: &[char] = vstd::slice::slice_subrange(v.as_slice(), p.len(), v.len());
        match parse_unsigned(digits, 0xFFFF_FFFF) {
            Some(n) => Some(n as u32),
            None => None,
        }
    } else {
        None
    }
}

/// The first card among the entries of a directory with this name, and what
/// is below them, at most `depth` levels down. A card is a directory within
/// one named `sound`.
pub open spec fn card_among(entries: Seq<Entry>, parent: Seq<char>, depth: nat) -> Option<nat>
    decreases depth, entries.len(),
{
    if depth == 0 || entries.len() == 0 {
        None
    } else if parent == "sound"@ && entries[0].is_dir && card_number(entries[0].name@) is Some {
        card_number(entries[0].name@)
    } else {
        let below = if entries[0].is_dir {
            card_among(entries[0].children@, entries[0].name@, (depth - 1) as nat)
        } else {
            None
        };
        match below {
            Some(n) => Some(n),
            None => card_among(entries.skip(1), parent, depth),
        }
    }
}

fn walk_for_card(entries: &Vec<Entry>, parent: &str, depth: usize) -> (r: Option<u32>)
    ensures
        match r {
            Some(n) => card_among(entries@, parent@, depth as nat) == Some(n as nat),
            None => card_among(entries@, parent@, depth as nat) is None,
        },
    decreases depth,
{
    if depth == 0 {
        return None;
    }
    let in_sound: bool = same_text(parent, "sound");
    let mut i: usize = 0;
    assert(entries@.skip(0) =~= entries@);
    while i < entries.len()
        invariant
            i <= entries@.len(),
            depth > 0,
            in_sound == (parent@ == "sound"@),
            card_among(entries@, parent@, depth as nat) == card_among(
                entries@.skip(i as int),
                parent@,
                depth as nat,
            ),
        decreases entries@.len() - i,
    {
        let ghost rest = entries@.skip(i as int);
        assert(rest.skip(1) =~= entries@.skip(i + 1));
        let entry: &Entry = &entries[i];
        if in_sound && entry.is_dir {
            match parse_card(entry.name.as_str()) {
                Some(n) => {
                    return Some(n);
                },
                None => {},
            }
        }
        if entry.is_dir {
            match walk_for_card(&entry.children, entry.name.as_str(), depth - 1) {
                Some(n) => {
                    return Some(n);
                },
                None => {},
            }
        }
        i = i + 1;
    }
    None
}

/// The card of a USB device.
pub open spec fn card_of(d: UsbDevice) -> Option<nat> {
    card_among(d.below@, d.name@, CARD_DEPTH as nat)
}

/// The number of the sound card below a USB device.
pub fn find_sound_card_under(d: &UsbDevice) -> (r: Option<u32>)
    ensures
        match r {
            Some(n) => card_of(*d) == Some(n as nat),
            None => card_of(*d) is None,
        },
{
    walk_for_card(&d.below, d.name.as_str(), CARD_DEPTH)
}

/// The first card on a hub, from device `at` on.
pub open spec fn card_on_hub(usb: Seq<UsbDevice>, hub: Seq<char>, at: int) -> Option<nat>
    decreases usb.len() - at,
{
    if at < 0 || at >= usb.len() {
        None
    } else if has_prefix(usb[at].name@, hub) && !is_interface(usb[at].name@) && card_of(
        usb[at],
    ) is Some {
        card_of(usb[at])
    } else {
        card_on_hub(usb, hub, at + 1)
    }
}

/// The first card on the radio's IQ device itself, from device `at` on.
pub open spec fn card_on_radio(usb: Seq<UsbDevice>, at: int) -> Option<nat>
    decreases usb.len() - at,
{
    if at < 0 || at >= usb.len() {
        None
    } else if !is_interface(usb[at].name@) && is_radio_device(usb[at]) && card_of(
        usb[at],
    ) is Some {
        card_of(usb[at])
    } else {
        card_on_radio(usb, at + 1)
    }
}

/// The radio's card: on its hub, or on the radio itself. A radio that is on no
/// hub has none.
pub open spec fn radio_card(usb: Seq<UsbDevice>) -> Option<nat> {
    match radio_hub(usb, 0) {
        Some(hub) => match card_on_hub(usb, hub, 0) {
            Some(n) => Some(n),
            None => card_on_radio(usb, 0),
        },
        None => None,
    }
}

/// The number of the radio's sound card.
pub fn find_card(usb: &Vec<UsbDevice>) -> (r: Option<u32>)
    ensures
        match r {
            Some(n) => radio_card(usb@) == Some(n as nat),
            None => radio_card(usb@) is None,
        },
{
    let hub: String = match find_elad_hub_prefix(usb) {
        Some(p) => p,
        None => {
            return None;
        },
    };
    let prefix: Vec<char> = chars_of(hub.as_str());
    let mut at: usize = 0;
    while at < usb.len()
        invariant
            at <= usb@.len(),
            prefix@ == hub@,
            radio_hub(usb@, 0) == Some(hub@),
            card_on_hub(usb@, hub@, 0) == card_on_hub(usb@, hub@, at as int),
        decreases usb@.len() - at,
    {
        let d: &UsbDevice = &usb[at];
        let name: Vec<char> = chars_of(d.name.as_str());
        if starts_with(name.as_slice(), prefix.as_slice()) && !has_colon(d.name.as_str()) {
            match find_sound_card_under(d) {
                Some(n) => {
                    return Some(n);
                },
                None => {},
            }
        }
        at = at + 1;
    }
    at = 0;
    while at < usb.len()
        invariant
            at <= usb@.len(),
            card_on_radio(usb@, 0) == card_on_radio(usb@, at as int),
            radio_card(usb@) == card_on_radio(usb@, 0),
        decreases usb@.len() - at,
    {
        let d: &UsbDevice = &usb[at];
        if !has_colon(d.name.as_str()) && radio_device(d) {
            match find_sound_card_under(d) {
                Some(n) => {
                    return Some(n);
                },
                None => {},
            }
        }
        at = at + 1;
    }
    None
}

// ---------------------------------------------------------------------------
// Its devices
// ---------------------------------------------------------------------------

/// What the names of a card's devices start with.
pub open spec fn pcm_prefix(card: nat) -> Seq<char> {
    "pcmC"@ + decimal(card) + "D"@
}

fn pcm_prefix_of(card: u32) -> (r: Vec<char>)
    ensures
        r@ == pcm_prefix(card as nat),
{
    let mut s: String = "pcmC".to_owned();
    push_decimal(&mut s, card as u64);
    s.append("D");
    chars_of(s.as_str())
}

/// A name of a card's device can be cut apart: something stands behind the
/// prefix, and its last character is a single byte.
pub open spec fn cuttable(card: nat, name: Seq<char>) -> bool {
    has_prefix(name, pcm_prefix(card)) ==> name.len() > pcm_prefix(card).len() && (
    name.last() as u32) < 128
}

/// The number of a card's device whose name ends in this mark.
pub open spec fn pcm_number(card: nat, name: Seq<char>, mark: char) -> Option<nat> {
    if has_prefix(name, pcm_prefix(card)) && name.last() == mark {
        unsigned_text(
            name.subrange(pcm_prefix(card).len() as int, name.len() - 1),
            u32::MAX as nat,
        )
    } else {
        None
    }
}

/// The first such device among the names from `at` on.
pub open spec fn first_pcm(names: Seq<String>, card: nat, mark: char, at: int) -> Option<nat>
    decreases names.len() - at,
{
    if at < 0 || at >= names.len() {
        None
    } else if pcm_number(card, names[at]@, mark) is Some {
        pcm_number(card, names[at]@, mark)
    } else {
        first_pcm(names, card, mark, at + 1)
    }
}

/// The name by which a device is opened.
pub open spec fn hw_name(card: nat, device: Option<nat>) -> Option<Seq<char>> {
    match device {
        Some(d) => Some("hw:"@ + decimal(card) + ","@ + decimal(d)),
        None => None,
    }
}

/// The first capture and the first playback device of a card.
pub open spec fn pcm_devices(card: nat, names: Seq<String>) -> AlsaView {
    AlsaView {
        capture: hw_name(card, first_pcm(names, card, 'c', 0)),
        playback: hw_name(card, first_pcm(names, card, 'p', 0)),
    }
}

fn hw_text(card: u32, device: u32) -> (r: String)
    ensures
        hw_name(card as nat, Some(device as nat)) == Some(r@),
{
    let mut s: String = "hw:".to_owned();
    push_decimal(&mut s, card as u64);
    s.append(",");
    push_decimal(&mut s, device as u64);
    s
}

/// Every name of a card's device can be cut apart.
pub open spec fn all_cuttable(card: nat, names: Seq<String>) -> bool {
    forall|k: int| 0 <= k < names.len() ==> cuttable(card, (#[trigger] names[k])@)
}

/// Whether every name of a card's device can be cut apart.
pub fn can_cut_names(card: u32, names: &Vec<String>) -> (r: bool)
    ensures
        r == all_cuttable(card as nat, names@),
{
    let prefix: Vec<char> = pcm_prefix_of(card);
    let mut i: usize = 0;
    while i < names.len()
        invariant
            i <= names@.len(),
            prefix@ == pcm_prefix(card as nat),
            forall|k: int| 0 <= k < i ==> cuttable(card as nat, (#[trigger] names@[k])@),
        decreases names@.len() - i,
    {
        let v: Vec<char> = chars_of(names[i].as_str());
        if starts_with(v.as_slice(), prefix.as_slice()) {
            if v.len() <= prefix.len() || v[v.len() - 1] as u32 >= 128 {
                return false;
            }
        }
        i = i + 1;
    }
    true
}

/// The capture and playback devices of a card, by the names of the sound
/// devices.
pub fn resolve_pcm_devices(card: u32, names: &Vec<String>) -> (r: FdmDuoAlsa)
    requires
        all_cuttable(card as nat, names@),
    ensures
        r@ == pcm_devices(card as nat, names@),
{
    let prefix: Vec<char> = pcm_prefix_of(card);
    let mut capture: Option<u32> = None;
    let mut playback: Option<u32> = None;
    let mut i: usize = 0;
    while i < names.len()
        invariant
            i <= names@.len(),
            prefix@ == pcm_prefix(card as nat),
            all_cuttable(card as nat, names@),
            match capture {
                Some(d) => first_pcm(names@, card as nat, 'c', 0) == Some(d as nat),
                None => first_pcm(names@, card as nat, 'c', 0) == first_pcm(
                    names@,
                    card as nat,
                    'c',
                    i as int,
                ),
            },
            match playback {
                Some(d) => first_pcm(names@, card as nat, 'p', 0) == Some(d as nat),
                None => first_pcm(names@, card as nat, 'p', 0) == first_pcm(
                    names@,
                    card as nat,
                    'p',
                    i as int,
                ),
            },
        decreases names@.len() - i,
    {
        let v: Vec<char> = chars_of(names[i].as_str());
        if starts_with(v.as_slice(), prefix.as_slice()) {
            let last: usize = v.len() - 1;
            let digits: &[char] = vstd::slice::slice_subrange(v.as_slice(), prefix.len(), last);
            match parse_unsigned(digits, 0xFFFF_FFFF) {
                Some(n) => {
                    if v[last] == 'c' && capture.is_none() {
                        capture = Some(n as u32);
                    } else if v[last] == 'p' && playback.is_none() {
                        playback = Some(n as u32);
                    }
                },
                None => {},
            }
        }
        i = i + 1;
    }
    FdmDuoAlsa {
        capture: match capture {
            Some(d) => Some(hw_text(card, d)),
            None => None,
        },
        playback: match playback {
            Some(d) => Some(hw_text(card, d)),
            None => None,
        },
    }
}

/// The names that the radio's card is looked up among can be cut apart.
pub open spec fn readable(l: SoundListing) -> bool {
    radio_card(l.usb@) matches Some(card) ==> all_cuttable(card, l.sound@)
}

/// Whether the radio's devices can be looked up in a listing.
pub fn is_readable(l: &SoundListing) -> (r: bool)
    ensures
        r == readable(*l),
{
    match find_card(&l.usb) {
        Some(card) => can_cut_names(card, &l.sound),
        None => true,
    }
}

/// The radio's sound devices in a listing.
pub open spec fn radio_sound(l: SoundListing) -> Option<AlsaView> {
    match radio_card(l.usb@) {
        Some(card) => Some(pcm_devices(card, l.sound@)),
        None => None,
    }
}

/// Finds the radio's sound devices; `None` if it has no card.
pub fn discover_alsa_devices(l: &SoundListing) -> (r: Option<FdmDuoAlsa>)
    requires
        readable(*l),
    ensures
        match r {
            Some(found) => radio_sound(*l) == Some(found@),
            None => radio_sound(*l) is None,
        },
{
    match find_card(&l.usb) {
        Some(card) => Some(resolve_pcm_devices(card, &l.sound)),
        None => None,
    }
}

/// The device that a configured name stands for: itself, unless it is `auto`,
/// and for that the one that is found.
pub open spec fn device_for(configured: Seq<char>, capture: bool, l: SoundListing) -> Option<
    Seq<char>,
> {
    if configured == "auto"@ {
        match radio_sound(l) {
            Some(found) => if capture {
                found.capture
            } else {
                found.playback
            },
            None => None,
        }
    } else {
        Some(configured)
    }
}

/// Resolves a configured device name; `None` only where `auto` finds none.
pub fn resolve_device(configured: &str, capture: bool, l: &SoundListing) -> (r: Option<String>)
    requires
        configured@ == "auto"@ ==> readable(*l),
    ensures
        opt_view(r) == device_for(configured@, capture, *l),
{
    let v: Vec<char> = chars_of(configured);
    if !is_text(v.as_slice(), "auto") {
        return Some(configured.to_owned());
    }
    match discover_alsa_devices(l) {
        Some(found) => if capture {
            found.capture
        } else {
            found.playback
        },
        None => None,
    }
}

/// A name given by hand is taken as it stands, whatever the system lists.
pub proof fn law_given_names_stand(configured: Seq<char>, capture: bool, l: SoundListing)
    requires
        configured != "auto"@,
    ensures
        device_for(configured, capture, l) == Some(configured),
{
}

/// Where no radio is listed, no device is found for it.
pub proof fn law_no_radio_no_device(capture: bool, l: SoundListing)
    requires
        forall|k: int| 0 <= k < l.usb@.len() ==> !is_radio_device(#[trigger] l.usb@[k]),
    ensures
        device_for("auto"@, capture, l) is None,
{
    lemma_no_hub(l.usb@, 0);
}

proof fn lemma_no_hub(usb: Seq<UsbDevice>, at: int)
    requires
        forall|k: int| 0 <= k < usb.len() ==> !is_radio_device(#[trigger] usb[k]),
    ensures
        radio_hub(usb, at) is None,
    decreases usb.len() - at,
{
    if 0 <= at < usb.len() {
        lemma_no_hub(usb, at + 1);
    }
}

/// A card with this number stands in a directory `sound` among entries or
/// below them, at most so many levels down.
pub open spec fn card_stands_below(
    entries: Seq<Entry>,
    parent: Seq<char>,
    n: nat,
    depth: nat,
) -> bool
    decreases depth,
{
    depth > 0 && exists|i: int|
        0 <= i < entries.len() && (#[trigger] entries[i]).is_dir && (parent == "sound"@
            && card_number(entries[i].name@) == Some(n) || card_stands_below(
            entries[i].children@,
            entries[i].name@,
            n,
            (depth - 1) as nat,
        ))
}

proof fn lemma_card_found(entries: Seq<Entry>, parent: Seq<char>, depth: nat)
    ensures
        match card_among(entries, parent, depth) {
            Some(n) => card_stands_below(entries, parent, n, depth),
            None => forall|n: nat| !#[trigger] card_stands_below(entries, parent, n, depth),
        },
    decreases depth, entries.len(),
{
    if depth > 0 && entries.len() > 0 {
        let first = entries[0];
        let rest = entries.skip(1);
        let less = (depth - 1) as nat;
        if first.is_dir {
            lemma_card_found(first.children@, first.name@, less);
        }
        lemma_card_found(rest, parent, depth);
        match card_among(entries, parent, depth) {
            Some(n) => {
                if card_among(rest, parent, depth) == Some(n) {
                    let i = choose|i: int|
                        0 <= i < rest.len() && (#[trigger] rest[i]).is_dir && (parent == "sound"@
                            && card_number(rest[i].name@) == Some(n) || card_stands_below(
                            rest[i].children@,
                            rest[i].name@,
                            n,
                            less,
                        ));
                    assert(entries[i + 1] == rest[i]);
                } else {
                    assert(entries[0] == first);
                }
            },
            None => {
                assert forall|n: nat| !#[trigger]
                    card_stands_below(entries, parent, n, depth) by {
                    if card_stands_below(entries, parent, n, depth) {
                        let i = choose|i: int|
                            0 <= i < entries.len() && (#[trigger] entries[i]).is_dir && (parent
                                == "sound"@ && card_number(entries[i].name@) == Some(n)
                                || card_stands_below(
                                entries[i].children@,
                                entries[i].name@,
                                n,
                                less,
                            ));
                        if i > 0 {
                            assert(rest[i - 1] == entries[i]);
                            assert(card_stands_below(rest, parent, n, depth));
                        }
                    }
                }
            },
        }
    }
}

/// The card that is found below a device stands there, in the directory for
/// sound and within five levels; where none is found, none stands there.
pub proof fn law_cards_below_are_found(d: &UsbDevice, r: Option<u32>)
    requires
        call_ensures(find_sound_card_under, (d,), r),
    ensures
        match r {
            Some(n) => card_stands_below(d.below@, d.name@, n as nat, 5),
            None => forall|n: nat| !#[trigger] card_stands_below(d.below@, d.name@, n, 5),
        },
{
    lemma_card_found(d.below@, d.name@, 5);
}

/// A card's name says its number.
pub proof fn law_card_names_say_their_number(n: u32)
    ensures
        card_number(seq!['c', 'a', 'r', 'd'] + decimal(n as nat)) == Some(n as nat),
{
    reveal_strlit("card");
    crate::text::lemma_padded_reads_back(n as nat, 0, u32::MAX as nat);
    let name = seq!['c', 'a', 'r', 'd'] + decimal(n as nat);
    assert("card"@ =~= seq!['c', 'a', 'r', 'd']);
    assert(name.take(4) =~= "card"@);
    assert(name.skip(4) =~= decimal(n as nat));
}

proof fn lemma_card_on_hub(usb: Seq<UsbDevice>, hub: Seq<char>, at: int)
    requires
        0 <= at,
    ensures
        match card_on_hub(usb, hub, at) {
            Some(n) => exists|j: int|
                at <= j < usb.len() && has_prefix((#[trigger] usb[j]).name@, hub)
                    && !usb[j].name@.contains(':') && card_of(usb[j]) == Some(n),
            None => forall|j: int|
                at <= j < usb.len() && has_prefix((#[trigger] usb[j]).name@, hub)
                    && !usb[j].name@.contains(':') ==> card_of(usb[j]) is None,
        },
    decreases usb.len() - at,
{
    if at < usb.len() {
        lemma_card_on_hub(usb, hub, at + 1);
    }
}

/// A card on the radio's hub is the radio's card; only where there is none is
/// it looked for on the radio itself.
pub proof fn law_the_card_is_on_the_radios_hub(
    usb: &Vec<UsbDevice>,
    hub: String,
    j: int,
    card: u32,
    r: Option<u32>,
)
    requires
        call_ensures(find_card, (usb,), r),
        call_ensures(find_elad_hub_prefix, (usb,), Some(hub)),
        0 <= j < usb@.len(),
        has_prefix(usb@[j].name@, hub@),
        !usb@[j].name@.contains(':'),
        call_ensures(find_sound_card_under, (&usb@[j],), Some(card)),
    ensures
        r matches Some(n) && exists|i: int|
            0 <= i < usb@.len() && has_prefix((#[trigger] usb@[i]).name@, hub@)
                && !usb@[i].name@.contains(':') && card_of(usb@[i]) == Some(n as nat),
{
    lemma_card_on_hub(usb@, hub@, 0);
}

/// Without a radio on a hub there is no card.
pub proof fn law_no_hub_no_card(usb: &Vec<UsbDevice>, r: Option<u32>)
    requires
        call_ensures(find_card, (usb,), r),
        call_ensures(find_elad_hub_prefix, (usb,), None::<String>),
    ensures
        r is None,
{
}

/// The name that the system gives to a card's device.
pub open spec fn device_name(card: nat, device: nat, mark: char) -> Seq<char> {
    seq!['p', 'c', 'm', 'C'] + decimal(card) + seq!['D'] + decimal(device) + seq![mark]
}

proof fn lemma_device_name(card: nat, device: nat, mark: char, other: char)
    requires
        device <= u32::MAX,
    ensures
        pcm_number(card, device_name(card, device, mark), mark) == Some(device),
        other != mark ==> pcm_number(card, device_name(card, device, mark), other) is None,
{
    reveal_strlit("pcmC");
    reveal_strlit("D");
    let name = device_name(card, device, mark);
    let p = pcm_prefix(card);
    crate::text::lemma_padded_reads_back(device, 0, u32::MAX as nat);
    assert(name.take(p.len() as int) =~= p);
    assert(name.subrange(p.len() as int, name.len() - 1) =~= decimal(device));
}

proof fn lemma_first_pcm(names: Seq<String>, card: nat, mark: char, at: int, k: int)
    requires
        0 <= at <= k <= names.len(),
        forall|i: int| at <= i < k ==> pcm_number(card, (#[trigger] names[i])@, mark) is None,
    ensures
        first_pcm(names, card, mark, at) == first_pcm(names, card, mark, k),
    decreases k - at,
{
    if at < k {
        lemma_first_pcm(names, card, mark, at + 1, k);
    }
}

/// The first device of the card whose name ends in `c` records, and the first
/// that ends in `p` plays; each is opened by the numbers in its name.
pub proof fn law_devices_are_named_by_their_direction(
    card: u32,
    names: &Vec<String>,
    k: int,
    device: u32,
    r: FdmDuoAlsa,
)
    requires
        call_ensures(resolve_pcm_devices, (card, names), r),
        0 <= k < names@.len(),
    ensures
        names@[k]@ == device_name(card as nat, device as nat, 'c') && (forall|i: int|
            0 <= i < k ==> pcm_number(card as nat, (#[trigger] names@[i])@, 'c') is None) ==> (
        r.capture matches Some(hw) && hw@ == seq!['h', 'w', ':'] + decimal(card as nat) + seq![',']
            + decimal(device as nat)),
        names@[k]@ == device_name(card as nat, device as nat, 'p') && (forall|i: int|
            0 <= i < k ==> pcm_number(card as nat, (#[trigger] names@[i])@, 'p') is None) ==> (
        r.playback matches Some(hw) && hw@ == seq!['h', 'w', ':'] + decimal(card as nat) + seq![
            ',',
        ] + decimal(device as nat)),
{
    reveal_strlit("hw:");
    reveal_strlit(",");
    assert("hw:"@ =~= seq!['h', 'w', ':']);
    assert(","@ =~= seq![',']);
    lemma_device_name(card as nat, device as nat, 'c', 'p');
    lemma_device_name(card as nat, device as nat, 'p', 'c');
    if forall|i: int| 0 <= i < k ==> pcm_number(card as nat, (#[trigger] names@[i])@, 'c') is None {
        lemma_first_pcm(names@, card as nat, 'c', 0, k);
    }
    if forall|i: int| 0 <= i < k ==> pcm_number(card as nat, (#[trigger] names@[i])@, 'p') is None {
        lemma_first_pcm(names@, card as nat, 'p', 0, k);
    }
}

/// `auto` stands for the device that was found for the direction that is
/// asked about, and any other name for itself.
pub proof fn law_auto_finds_the_direction(
    configured: &str,
    capture: bool,
    l: &SoundListing,
    found: Option<FdmDuoAlsa>,
    r: Option<String>,
)
    requires
        call_ensures(discover_alsa_devices, (l,), found),
        call_ensures(resolve_device, (configured, capture, l), r),
    ensures
        configured@ == "auto"@ ==> match found {
            Some(f) => opt_view(r) == if capture {
                opt_view(f.capture)
            } else {
                opt_view(f.playback)
            },
            None => r is None,
        },
        configured@ != "auto"@ ==> (r matches Some(name) && name@ == configured@),
{
}

/// The devices that are found are those of the card that is found.
pub proof fn law_devices_belong_to_the_card(
    l: &SoundListing,
    card: Option<u32>,
    devices: FdmDuoAlsa,
    r: Option<FdmDuoAlsa>,
)
    requires
        call_ensures(find_card, (&l.usb,), card),
        card matches Some(n) ==> call_ensures(resolve_pcm_devices, (n, &l.sound), devices),
        call_ensures(discover_alsa_devices, (l,), r),
    ensures
        card is Some <==> r is Some,
        r matches Some(f) ==> f@ == devices@,
{
}

/// The names that the system gives to a card's devices can be looked up.
pub proof fn law_system_names_can_be_looked_up(card: u32, names: &Vec<String>, r: bool)
    requires
        call_ensures(can_cut_names, (card, names), r),
        forall|k: int|
            0 <= k < names@.len() ==> exists|device: nat, mark: char|
                (mark == 'c' || mark == 'p') && (#[trigger] names@[k])@ == #[trigger] device_name(
                    card as nat,
                    device,
                    mark,
                ),
    ensures
        r,
{
    reveal_strlit("pcmC");
    reveal_strlit("D");
    assert forall|k: int| 0 <= k < names@.len() implies cuttable(
        card as nat,
        (#[trigger] names@[k])@,
    ) by {
        let (device, mark) = choose|device: nat, mark: char|
            (mark == 'c' || mark == 'p') && names@[k]@ == #[trigger] device_name(
                card as nat,
                device,
                mark,
            );
        crate::text::lemma_decimal(device);
        assert(names@[k]@.last() == mark);
    }
}

} // verus!
