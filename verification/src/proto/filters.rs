//! The FDM-DUO's reception filters, by mode and filter index.
use crate::proto::radio::Mode;
use vstd::prelude::*;

verus! {

/// One selectable filter. `index` is the number used in the radio's filter
/// command; `label` is what the user sees.
#[derive(Debug, Clone, Copy, PartialEq, Eq)]
pub struct FilterOption {
    pub index: u8,
    pub label: &'static str,
}

/// The AM family: the radio itself stays in AM for all of them, and the
/// software demodulator picks the sideband.
pub open spec fn am_family(mode: Mode) -> bool {
    mode == Mode::AM || mode == Mode::DRM || mode == Mode::SAM || mode == Mode::SAMU || mode
        == Mode::SAML || mode == Mode::DSB
}

/// The labels of a mode's filters, in the order of their indices.
pub open spec fn filter_labels(mode: Mode) -> Seq<Seq<char>> {
    if mode == Mode::LSB || mode == Mode::USB {
        seq![
            "1.6k"@, "1.7k"@, "1.8k"@, "1.9k"@, "2.0k"@, "2.1k"@, "2.2k"@, "2.3k"@,
            "2.4k"@, "2.5k"@, "2.6k"@, "2.7k"@, "2.8k"@, "2.9k"@, "3.0k"@, "3.1k"@,
            "4.0k"@, "5.0k"@, "6.0k"@, "D300"@, "D600"@, "D1k"@,
        ]
    } else if mode == Mode::CW || mode == Mode::CWR {
        seq![
            "100&4"@, "100&3"@, "100&2"@, "100&1"@, "100"@, "300"@, "500"@, "1.0k"@,
            "1.5k"@, "2.6k"@,
        ]
    } else if mode == Mode::FM {
        seq!["Narrow"@, "Wide"@, "Data"@]
    } else if mode == Mode::Unknown {
        Seq::empty()
    } else {
        seq![
            "2.5k"@, "3.0k"@, "3.5k"@, "4.0k"@, "4.5k"@, "5.0k"@, "5.5k"@, "6.0k"@,
        ]
    }
}

/// The index of a mode's first filter: the CW filters start at 7, the others
/// at 0.
pub open spec fn first_filter(mode: Mode) -> nat {
    if mode == Mode::CW || mode == Mode::CWR {
        7
    } else {
        0
    }
}

/// The label of the filter with number `index` in `mode`, if the mode has one.
pub open spec fn label_of(mode: Mode, index: int) -> Option<Seq<char>> {
    let k = index - first_filter(mode);
    if 0 <= k < filter_labels(mode).len() {
        Some(filter_labels(mode)[k])
    } else {
        None
    }
}

/// The filters that a mode offers; none for `Mode::Unknown`.
pub fn filters_for_mode(mode: Mode) -> (r: &'static [FilterOption])
    ensures
        r@.len() == filter_labels(mode).len(),
        forall|k: int|
            0 <= k < r@.len() ==> (#[trigger] r@[k]).index == first_filter(mode) + k
                && r@[k].label@ == filter_labels(mode)[k],
{
    match mode {
        Mode::LSB | Mode::USB => &[
            FilterOption { index: 0, label: "1.6k" },
            FilterOption { index: 1, label: "1.7k" },
            FilterOption { index: 2, label: "1.8k" },
            FilterOption { index: 3, label: "1.9k" },
            FilterOption { index: 4, label: "2.0k" },
            FilterOption { index: 5, label: "2.1k" },
            FilterOption { index: 6, label: "2.2k" },
            FilterOption { index: 7, label: "2.3k" },
            FilterOption { index: 8, label: "2.4k" },
            FilterOption { index: 9, label: "2.5k" },
            FilterOption { index: 10, label: "2.6k" },
            FilterOption { index: 11, label: "2.7k" },
            FilterOption { index: 12, label: "2.8k" },
            FilterOption { index: 13, label: "2.9k" },
            FilterOption { index: 14, label: "3.0k" },
            FilterOption { index: 15, label: "3.1k" },
            FilterOption { index: 16, label: "4.0k" },
            FilterOption { index: 17, label: "5.0k" },
            FilterOption { index: 18, label: "6.0k" },
            FilterOption { index: 19, label: "D300" },
            FilterOption { index: 20, label: "D600" },
            FilterOption { index: 21, label: "D1k" },
        ],
        Mode::CW | Mode::CWR => &[
            FilterOption { index: 7, label: "100&4" },
            FilterOption { index: 8, label: "100&3" },
            FilterOption { index: 9, label: "100&2" },
            FilterOption { index: 10, label: "100&1" },
            FilterOption { index: 11, label: "100" },
            FilterOption { index: 12, label: "300" },
            FilterOption { index: 13, label: "500" },
            FilterOption { index: 14, label: "1.0k" },
            FilterOption { index: 15, label: "1.5k" },
            FilterOption { index: 16, label: "2.6k" },
        ],
        Mode::AM | Mode::DRM | Mode::SAM | Mode::SAMU | Mode::SAML | Mode::DSB => &[
            FilterOption { index: 0, label: "2.5k" },
            FilterOption { index: 1, label: "3.0k" },
            FilterOption { index: 2, label: "3.5k" },
            FilterOption { index: 3, label: "4.0k" },
            FilterOption { index: 4, label: "4.5k" },
            FilterOption { index: 5, label: "5.0k" },
            FilterOption { index: 6, label: "5.5k" },
            FilterOption { index: 7, label: "6.0k" },
        ],
        Mode::FM => &[
            FilterOption { index: 0, label: "Narrow" },
            FilterOption { index: 1, label: "Wide" },
            FilterOption { index: 2, label: "Data" },
        ],
        Mode::Unknown => &[],
    }
}

/// The label of filter `index` in `mode`; `None` when the mode has no such
/// filter.
pub fn filter_label(mode: Mode, index: u8) -> (r: Option<&'static str>)
    ensures
        match r {
            Some(label) => label_of(mode, index as int) == Some(label@),
            None => label_of(mode, index as int) is None,
        },
{
    let table = filters_for_mode(mode);
    let mut i: usize = 0;
    while i < table.len()
        invariant
            i <= table@.len(),
            table@.len() == filter_labels(mode).len(),
            forall|k: int|
                0 <= k < table@.len() ==> (#[trigger] table@[k]).index == first_filter(mode) + k
                    && table@[k].label@ == filter_labels(mode)[k],
            forall|k: int| 0 <= k < i ==> (#[trigger] table@[k]).index != index,
        decreases table@.len() - i,
    {
        if table[i].index == index {
            return Some(table[i].label);
        }
        i = i + 1;
    }
    proof {
        let k = index - first_filter(mode);
        if 0 <= k < filter_labels(mode).len() {
            assert(table@[k].index == index);
        }
    }
    None
}

/// The digit by which the radio knows a mode; the whole AM family is `'5'`.
pub open spec fn mode_digit(mode: Mode) -> Option<char> {
    if mode == Mode::LSB {
        Some('1')
    } else if mode == Mode::USB {
        Some('2')
    } else if mode == Mode::CW {
        Some('3')
    } else if mode == Mode::FM {
        Some('4')
    } else if am_family(mode) {
        Some('5')
    } else if mode == Mode::CWR {
        Some('7')
    } else {
        None
    }
}

/// The digit by which the radio knows `mode` in its mode and filter commands.
pub fn kenwood_mode_char(mode: Mode) -> (r: Option<char>)
    ensures
        r == mode_digit(mode),
{
    match mode {
        Mode::LSB => Some('1'),
        Mode::USB => Some('2'),
        Mode::CW => Some('3'),
        Mode::FM => Some('4'),
        Mode::AM | Mode::DRM | Mode::SAM | Mode::SAMU | Mode::SAML | Mode::DSB => Some('5'),
        Mode::CWR => Some('7'),
        Mode::Unknown => None,
    }
}

/// The modes of the AM family offer the same filters.
pub proof fn law_am_family_shares_filters(a: Mode, b: Mode)
    requires
        am_family(a),
        am_family(b),
    ensures
        filter_labels(a) == filter_labels(b),
        first_filter(a) == first_filter(b),
        mode_digit(a) == mode_digit(b),
{
}

/// A label of kilohertz with one decimal place, for so many tenths.
pub open spec fn tenths_label(tenths: int) -> Seq<char> {
    seq![(48 + tenths / 10) as char, '.', (48 + tenths % 10) as char, 'k']
}

/// The filters for one sideband grow by 100 Hz from 1.6 to 3.1 kHz, then by
/// 1 kHz from 4 to 6; those for data follow.
pub proof fn law_sideband_filters_grow(mode: Mode, k: int)
    requires
        mode == Mode::LSB || mode == Mode::USB,
    ensures
        filter_labels(mode).len() == 22,
        first_filter(mode) == 0,
        0 <= k < 16 ==> filter_labels(mode)[k] == tenths_label(16 + k),
        16 <= k < 19 ==> filter_labels(mode)[k] == tenths_label(40 + 10 * (k - 16)),
        filter_labels(mode)[19] == seq!['D', '3', '0', '0'],
        filter_labels(mode)[20] == seq!['D', '6', '0', '0'],
        filter_labels(mode)[21] == seq!['D', '1', 'k'],
{
    lemma_label_texts();
}

/// The filters for AM grow by 500 Hz from 2.5 to 6 kHz.
pub proof fn law_am_filters_grow(mode: Mode, k: int)
    requires
        am_family(mode),
    ensures
        filter_labels(mode).len() == 8,
        first_filter(mode) == 0,
        0 <= k < 8 ==> filter_labels(mode)[k] == tenths_label(25 + 5 * k),
{
    lemma_label_texts();
}

/// The filters for CW start at 7: four variants of 100 Hz, the last the
/// plainest, then 100, 300 and 500 Hz and three wide ones.
pub proof fn law_cw_filters(mode: Mode, k: int)
    requires
        mode == Mode::CW || mode == Mode::CWR,
    ensures
        filter_labels(mode).len() == 10,
        first_filter(mode) == 7,
        0 <= k < 4 ==> filter_labels(mode)[k] == seq!['1', '0', '0', '&', (52 - k) as char],
        filter_labels(mode)[4] == seq!['1', '0', '0'],
        filter_labels(mode)[5] == seq!['3', '0', '0'],
        filter_labels(mode)[6] == seq!['5', '0', '0'],
        filter_labels(mode)[7] == tenths_label(10),
        filter_labels(mode)[8] == tenths_label(15),
        filter_labels(mode)[9] == tenths_label(26),
{
    lemma_label_texts();
}

/// FM has three filters, which go by names; no mode has none.
pub proof fn law_fm_filters()
    ensures
        filter_labels(Mode::FM) == seq!["Narrow"@, "Wide"@, "Data"@],
        first_filter(Mode::FM) == 0,
        filter_labels(Mode::Unknown).len() == 0,
{
}

/// A filter is found by its index if and only if the mode offers it, and then
/// with the label that it is offered under.
pub proof fn law_filters_are_found_by_their_index(
    mode: Mode,
    index: u8,
    table: &'static [FilterOption],
    r: Option<&'static str>,
)
    requires
        call_ensures(filters_for_mode, (mode,), table),
        call_ensures(filter_label, (mode, index), r),
    ensures
        r is Some <==> exists|k: int| 0 <= k < table@.len() && (#[trigger] table@[k]).index == index,
        forall|k: int|
            0 <= k < table@.len() && (#[trigger] table@[k]).index == index ==> (r matches Some(l)
                && l@ == table@[k].label@),
        forall|k: int| 0 <= k < table@.len() ==> (#[trigger] table@[k]).index == first_filter(mode) + k,
{
    let k = index - first_filter(mode);
    if 0 <= k < table@.len() {
        assert(table@[k].index == index);
    }
}

proof fn lemma_label_texts()
    ensures
        "1.6k"@ == tenths_label(16),
        "1.7k"@ == tenths_label(17),
        "1.8k"@ == tenths_label(18),
        "1.9k"@ == tenths_label(19),
        "2.0k"@ == tenths_label(20),
        "2.1k"@ == tenths_label(21),
        "2.2k"@ == tenths_label(22),
        "2.3k"@ == tenths_label(23),
        "2.4k"@ == tenths_label(24),
        "2.5k"@ == tenths_label(25),
        "2.6k"@ == tenths_label(26),
        "2.7k"@ == tenths_label(27),
        "2.8k"@ == tenths_label(28),
        "2.9k"@ == tenths_label(29),
        "3.0k"@ == tenths_label(30),
        "3.1k"@ == tenths_label(31),
        "3.5k"@ == tenths_label(35),
        "4.0k"@ == tenths_label(40),
        "4.5k"@ == tenths_label(45),
        "5.0k"@ == tenths_label(50),
        "5.5k"@ == tenths_label(55),
        "6.0k"@ == tenths_label(60),
        "1.0k"@ == tenths_label(10),
        "1.5k"@ == tenths_label(15),
        "D300"@ == seq!['D', '3', '0', '0'],
        "D600"@ == seq!['D', '6', '0', '0'],
        "D1k"@ == seq!['D', '1', 'k'],
        "100&4"@ == seq!['1', '0', '0', '&', '4'],
        "100&3"@ == seq!['1', '0', '0', '&', '3'],
        "100&2"@ == seq!['1', '0', '0', '&', '2'],
        "100&1"@ == seq!['1', '0', '0', '&', '1'],
        "100"@ == seq!['1', '0', '0'],
        "300"@ == seq!['3', '0', '0'],
        "500"@ == seq!['5', '0', '0'],
{
    reveal_strlit("1.6k");
    assert("1.6k"@ =~= tenths_label(16));
    reveal_strlit("1.7k");
    assert("1.7k"@ =~= tenths_label(17));
    reveal_strlit("1.8k");
    assert("1.8k"@ =~= tenths_label(18));
    reveal_strlit("1.9k");
    assert("1.9k"@ =~= tenths_label(19));
    reveal_strlit("2.0k");
    assert("2.0k"@ =~= tenths_label(20));
    reveal_strlit("2.1k");
    assert("2.1k"@ =~= tenths_label(21));
    reveal_strlit("2.2k");
    assert("2.2k"@ =~= tenths_label(22));
    reveal_strlit("2.3k");
    assert("2.3k"@ =~= tenths_label(23));
    reveal_strlit("2.4k");
    assert("2.4k"@ =~= tenths_label(24));
    reveal_strlit("2.5k");
    assert("2.5k"@ =~= tenths_label(25));
    reveal_strlit("2.6k");
    assert("2.6k"@ =~= tenths_label(26));
    reveal_strlit("2.7k");
    assert("2.7k"@ =~= tenths_label(27));
    reveal_strlit("2.8k");
    assert("2.8k"@ =~= tenths_label(28));
    reveal_strlit("2.9k");
    assert("2.9k"@ =~= tenths_label(29));
    reveal_strlit("3.0k");
    assert("3.0k"@ =~= tenths_label(30));
    reveal_strlit("3.1k");
    assert("3.1k"@ =~= tenths_label(31));
    reveal_strlit("3.5k");
    assert("3.5k"@ =~= tenths_label(35));
    reveal_strlit("4.0k");
    assert("4.0k"@ =~= tenths_label(40));
    reveal_strlit("4.5k");
    assert("4.5k"@ =~= tenths_label(45));
    reveal_strlit("5.0k");
    assert("5.0k"@ =~= tenths_label(50));
    reveal_strlit("5.5k");
    assert("5.5k"@ =~= tenths_label(55));
    reveal_strlit("6.0k");
    assert("6.0k"@ =~= tenths_label(60));
    reveal_strlit("1.0k");
    assert("1.0k"@ =~= tenths_label(10));
    reveal_strlit("1.5k");
    assert("1.5k"@ =~= tenths_label(15));
    reveal_strlit("D300");
    assert("D300"@ =~= seq!['D', '3', '0', '0']);
    reveal_strlit("D600");
    assert("D600"@ =~= seq!['D', '6', '0', '0']);
    reveal_strlit("D1k");
    assert("D1k"@ =~= seq!['D', '1', 'k']);
    reveal_strlit("100&4");
    assert("100&4"@ =~= seq!['1', '0', '0', '&', '4']);
    reveal_strlit("100&3");
    assert("100&3"@ =~= seq!['1', '0', '0', '&', '3']);
    reveal_strlit("100&2");
    assert("100&2"@ =~= seq!['1', '0', '0', '&', '2']);
    reveal_strlit("100&1");
    assert("100&1"@ =~= seq!['1', '0', '0', '&', '1']);
    reveal_strlit("100");
    assert("100"@ =~= seq!['1', '0', '0']);
    reveal_strlit("300");
    assert("300"@ =~= seq!['3', '0', '0']);
    reveal_strlit("500");
    assert("500"@ =~= seq!['5', '0', '0']);
}

} // verus!
