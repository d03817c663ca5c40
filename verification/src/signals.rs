//! The signal assembler. It goes through the text line by line, keeps in
//! mind the message whose header it saw last, and puts each signal line
//! under that message.

use crate::extract::{
    initial_values, label_texts, parse_initial_values, table_labels, table_texts,
};
use crate::model::{signal_models, Signal, SignalModel};
use crate::pattern::{
    first_match, group, group_text, groups_view, regex_captures, Found, Groups, HEADER_LINE,
    SIGNAL_LINE,
};
use crate::signal_table::SignalTable;
use crate::table::value_or;
use crate::text::{
    is_number_literal, is_number_text, lines_of, parse_u32, parse_u64, same_text, split_lines,
    split_on, split_trimmed, texts, trim, trim_all, trimmed, u32_of, u64_of,
};
use std::collections::HashMap;
use vstd::prelude::*;
use vstd::string::StrSliceExecFns;

verus! {

broadcast use vstd::std_specs::hash::group_hash_axioms;

// ---------------------------------------------------------------------------
// One signal line
// ---------------------------------------------------------------------------

/// The byte order that the flag of a signal line stands for.
pub open spec fn byte_order_of(flag: Seq<char>) -> Seq<char> {
    if flag == "1"@ {
        "Intel"@
    } else {
        "Motorola"@
    }
}

/// The value type that the sign of a signal line stands for.
pub open spec fn value_type_of(sign: Seq<char>) -> Seq<char> {
    if sign == "+"@ {
        "Unsigned"@
    } else {
        "Signed"@
    }
}

/// The part that a signal plays in multiplexing: none where the line says
/// nothing, the multiplexer where it says `M`, a multiplexed signal where
/// what it says begins with `m`, and none where it says anything else.
pub open spec fn multiplexer_type_of(mux: Seq<char>) -> Seq<char> {
    if mux.len() == 0 {
        "Plain"@
    } else if mux == "M"@ {
        "Multiplexer"@
    } else if mux[0] == 'm' {
        "Multiplexed"@
    } else {
        "Plain"@
    }
}

/// The receivers that the end of a signal line names: the trimmed pieces
/// between its commas, and none at all where the end is blank.
pub open spec fn receivers_of(tail: Seq<char>) -> Seq<Seq<char>> {
    let list = trimmed(tail);
    if list.len() == 0 {
        Seq::empty()
    } else {
        trim_all(split_on(list, ','))
    }
}

/// The text of group `i`, or the empty text where the group took no part.
pub open spec fn text_of(groups: Groups, i: int) -> Seq<char> {
    match group(groups, i) {
        Some(text) => text,
        None => Seq::empty(),
    }
}

/// Groups 1 to `upto` all took part in the match.
pub open spec fn has_groups(groups: Groups, upto: int) -> bool {
    forall|i: int| 1 <= i <= upto ==> (#[trigger] group(groups, i)) is Some
}

/// The initial value of a signal for which the description states none.
pub open spec fn no_initial_value() -> Seq<char> {
    "0.0"@
}

/// The signal that a match of the signal pattern describes, when it stands
/// under message `id`. There is none where start bit or size does not read
/// as a `u64`, or where factor, offset, minimum or maximum is no number
/// literal.
pub open spec fn signal_of(
    groups: Groups,
    id: u32,
    labels: Map<(u32, Seq<char>), Map<u64, Seq<char>>>,
    initials: Map<(u32, Seq<char>), Seq<char>>,
) -> Option<SignalModel> {
    let name = text_of(groups, 1);
    if has_groups(groups, 11) && u64_of(text_of(groups, 3)) is Some && u64_of(text_of(groups, 4))
        is Some && is_number_literal(text_of(groups, 7)) && is_number_literal(text_of(groups, 8))
        && is_number_literal(text_of(groups, 9)) && is_number_literal(text_of(groups, 10)) {
        Some(
            SignalModel {
                name,
                start_bit: u64_of(text_of(groups, 3))->0,
                signal_size: u64_of(text_of(groups, 4))->0,
                byte_order: byte_order_of(text_of(groups, 5)),
                value_type: value_type_of(text_of(groups, 6)),
                factor: text_of(groups, 7),
                offset: text_of(groups, 8),
                min: text_of(groups, 9),
                max: text_of(groups, 10),
                unit: text_of(groups, 11),
                receivers: receivers_of(text_of(groups, 12)),
                value_descriptions: value_or(labels, (id, name), Map::empty()),
                multiplexer_type: multiplexer_type_of(text_of(groups, 2)),
                initial_value: value_or(initials, (id, name), no_initial_value()),
            },
        )
    } else {
        None
    }
}

/// The receivers that `tail`, the end of a signal line, names.
pub fn read_receivers(tail: &str) -> (receivers: Vec<String>)
    ensures
        texts(receivers@) == receivers_of(tail@),
{
    let list = trim(tail);
    if list.as_str().is_empty() {
        Vec::new()
    } else {
        split_trimmed(list.as_str(), ',')
    }
}

/// The part that a signal plays in multiplexing, from what its line says.
pub fn read_multiplexer_type(mux: &str) -> (kind: String)
    ensures
        kind@ == multiplexer_type_of(mux@),
{
    if mux.is_empty() {
        "Plain".to_owned()
    } else if same_text(mux, "M") {
        "Multiplexer".to_owned()
    } else if mux.get_char(0) == 'm' {
        "Multiplexed".to_owned()
    } else {
        "Plain".to_owned()
    }
}

/// Reads a match of the signal pattern as a signal of message `id`.
pub fn read_signal(
    groups: &Found,
    id: u32,
    labels: &SignalTable<HashMap<u64, String>>,
    initials: &SignalTable<String>,
) -> (signal: Option<Signal>)
    ensures
        signal_of(groups_view(groups@), id, table_labels(labels@), table_texts(initials@))
            == match signal {
            Some(s) => Some(s@),
            None => None,
        },
{
    let ghost g = groups_view(groups@);
    let name = match group_text(groups, 1) {
        Some(t) => t,
        None => return None,
    };
    let mux = match group_text(groups, 2) {
        Some(t) => t,
        None => return None,
    };
    let start_bit = match group_text(groups, 3) {
        Some(t) => t,
        None => return None,
    };
    let signal_size = match group_text(groups, 4) {
        Some(t) => t,
        None => return None,
    };
    let order = match group_text(groups, 5) {
        Some(t) => t,
        None => return None,
    };
    let sign = match group_text(groups, 6) {
        Some(t) => t,
        None => return None,
    };
    let factor = match group_text(groups, 7) {
        Some(t) => t,
        None => return None,
    };
    let offset = match group_text(groups, 8) {
        Some(t) => t,
        None => return None,
    };
    let min = match group_text(groups, 9) {
        Some(t) => t,
        None => return None,
    };
    let max = match group_text(groups, 10) {
        Some(t) => t,
        None => return None,
    };
    let unit = match group_text(groups, 11) {
        Some(t) => t,
        None => return None,
    };
    assert(has_groups(g, 11));
    let start_bit = match parse_u64(start_bit.as_str()) {
        Some(n) => n,
        None => return None,
    };
    let signal_size = match parse_u64(signal_size.as_str()) {
        Some(n) => n,
        None => return None,
    };
    if !is_number_text(factor.as_str()) || !is_number_text(offset.as_str()) || !is_number_text(
        min.as_str(),
    ) || !is_number_text(max.as_str()) {
        return None;
    }
    let byte_order = if same_text(order.as_str(), "1") {
        "Intel".to_owned()
    } else {
        "Motorola".to_owned()
    };
    let value_type = if same_text(sign.as_str(), "+") {
        "Unsigned".to_owned()
    } else {
        "Signed".to_owned()
    };
    let multiplexer_type = read_multiplexer_type(mux.as_str());
    let receivers = match group_text(groups, 12) {
        Some(tail) => read_receivers(tail.as_str()),
        None => Vec::new(),
    };
    let value_descriptions = match labels.get(id, name.as_str()) {
        Some(found) => found.clone(),
        None => HashMap::new(),
    };
    let initial_value = match initials.get(id, name.as_str()) {
        Some(found) => found.clone(),
        None => "0.0".to_owned(),
    };
    proof {
        assert(texts(receivers@) == receivers_of(text_of(g, 12)));
        assert(label_texts(value_descriptions@) == value_or(
            table_labels(labels@),
            (id, name@),
            Map::empty(),
        ));
    }
    Some(
        Signal {
            name: name.clone(),
            start_bit,
            signal_size,
            byte_order,
            value_type,
            factor: factor.clone(),
            offset: offset.clone(),
            min: min.clone(),
            max: max.clone(),
            unit: unit.clone(),
            receivers,
            value_descriptions,
            multiplexer_type,
            initial_value,
        },
    )
}

// ---------------------------------------------------------------------------
// The scan
// ---------------------------------------------------------------------------

/// The message number that a match of the header pattern gives, where its
/// group 1 reads as a `u32`.
pub open spec fn header_id(found: Option<Groups>) -> Option<u32> {
    match found {
        Some(groups) => match group(groups, 1) {
            Some(id) => u32_of(id),
            None => None,
        },
        None => None,
    }
}

/// What the scan knows after some lines: the number of the message whose
/// header came last (0 before the first header), and the signals found so
/// far for each message whose header was seen.
pub struct ScanModel {
    pub current: u32,
    pub lists: Map<u32, Seq<SignalModel>>,
}

/// The scan before the first line.
pub open spec fn scan_start() -> ScanModel {
    ScanModel { current: 0, lists: Map::empty() }
}

/// The scan after a header for message `id`, or after no header: the header
/// makes `id` the current message and, unless the message has a list of
/// signals already, gives it an empty one.
pub open spec fn open_message(scan: ScanModel, id: Option<u32>) -> ScanModel {
    match id {
        Some(id) => ScanModel {
            current: id,
            lists: if scan.lists.contains_key(id) {
                scan.lists
            } else {
                scan.lists.insert(id, Seq::empty())
            },
        },
        None => scan,
    }
}

/// The scan after a signal, or after none: the signal goes to the end of
/// the current message's list. A signal that comes while the current
/// message has no list is dropped.
pub open spec fn add_signal(scan: ScanModel, signal: Option<SignalModel>) -> ScanModel {
    match signal {
        Some(signal) => if scan.lists.contains_key(scan.current) {
            ScanModel {
                current: scan.current,
                lists: scan.lists.insert(scan.current, scan.lists[scan.current].push(signal)),
            }
        } else {
            scan
        },
        None => scan,
    }
}

/// The scan after one more line, `header` and `signal` being what the header
/// pattern and the signal pattern find in that line. The header is looked
/// at first, so a signal on a header's line belongs to that header.
pub open spec fn scan_line(
    scan: ScanModel,
    header: Option<Groups>,
    signal: Option<Groups>,
    labels: Map<(u32, Seq<char>), Map<u64, Seq<char>>>,
    initials: Map<(u32, Seq<char>), Seq<char>>,
) -> ScanModel {
    let opened = open_message(scan, header_id(header));
    add_signal(
        opened,
        match signal {
            Some(groups) => signal_of(groups, opened.current, labels, initials),
            None => None,
        },
    )
}

/// The scan after the lines `lines`.
pub open spec fn scan_lines(
    lines: Seq<Seq<char>>,
    labels: Map<(u32, Seq<char>), Map<u64, Seq<char>>>,
    initials: Map<(u32, Seq<char>), Seq<char>>,
) -> ScanModel
    decreases lines.len(),
{
    if lines.len() == 0 {
        scan_start()
    } else {
        scan_line(
            scan_lines(lines.drop_last(), labels, initials),
            regex_captures(HEADER_LINE@, lines.last()),
            regex_captures(SIGNAL_LINE@, lines.last()),
            labels,
            initials,
        )
    }
}

/// The signals of each message whose header stands on a line of `text`, in
/// the order of their lines, `labels` being the value descriptions to take.
pub open spec fn signal_lists(
    text: Seq<char>,
    labels: Map<(u32, Seq<char>), Map<u64, Seq<char>>>,
) -> Map<u32, Seq<SignalModel>> {
    scan_lines(lines_of(text), labels, initial_values(text)).lists
}

/// The models of the lists that a map holds.
pub open spec fn list_models(lists: Map<u32, Vec<Signal>>) -> Map<u32, Seq<SignalModel>> {
    lists.map_values(|list: Vec<Signal>| signal_models(list@))
}

/// The groups of a match that may be missing.
pub open spec fn found_view(found: Option<Found>) -> Option<Groups> {
    match found {
        Some(groups) => Some(groups_view(groups@)),
        None => None,
    }
}

/// The state of a scan.
pub struct Scan {
    pub current: u32,
    pub lists: HashMap<u32, Vec<Signal>>,
}

impl View for Scan {
    type V = ScanModel;

    open spec fn view(&self) -> ScanModel {
        ScanModel { current: self.current, lists: list_models(self.lists@) }
    }
}

impl Scan {
    /// The scan before the first line.
    pub fn new() -> (scan: Scan)
        ensures
            scan@ == scan_start(),
    {
        let scan = Scan { current: 0, lists: HashMap::new() };
        assert(list_models(scan.lists@) == Map::<u32, Seq<SignalModel>>::empty());
        scan
    }

    /// Takes in one line, `header` and `signal` being what the header
    /// pattern and the signal pattern find in it.
    pub fn line(
        &mut self,
        header: &Option<Found>,
        signal: &Option<Found>,
        labels: &SignalTable<HashMap<u64, String>>,
        initials: &SignalTable<String>,
    )
        ensures
            final(self)@ == scan_line(
                old(self)@,
                found_view(*header),
                found_view(*signal),
                table_labels(labels@),
                table_texts(initials@),
            ),
    {
        let id = match header {
            Some(groups) => match group_text(groups, 1) {
                Some(id) => parse_u32(id.as_str()),
                None => None,
            },
            None => None,
        };
        match id {
            Some(id) => {
                self.current = id;
                if !self.lists.contains_key(&id) {
                    let ghost before = list_models(self.lists@);
                    let list: Vec<Signal> = Vec::new();
                    assert(signal_models(list@) == Seq::<SignalModel>::empty());
                    self.lists.insert(id, list);
                    assert(list_models(self.lists@) == before.insert(id, Seq::empty()));
                }
            },
            None => {},
        }
        assert(self@ == open_message(old(self)@, id));
        match signal {
            Some(groups) => match read_signal(groups, self.current, labels, initials) {
                Some(found) => {
                    let ghost before = list_models(self.lists@);
                    let ghost model = found@;
                    match self.lists.remove(&self.current) {
                        Some(list) => {
                            let mut list = list;
                            let ghost old_list = signal_models(list@);
                            list.push(found);
                            assert(signal_models(list@) == old_list.push(model));
                            self.lists.insert(self.current, list);
                            assert(list_models(self.lists@) == before.insert(
                                self.current,
                                old_list.push(model),
                            ));
                        },
                        None => {
                            assert(list_models(self.lists@) == before);
                        },
                    }
                },
                None => {},
            },
            None => {},
        }
    }
}

/// The signals of each message whose header stands on a line of
/// `dbc_input`, with the labels that `value_descriptions` holds for them.
pub fn parse_signals(
    dbc_input: &str,
    value_descriptions: &SignalTable<HashMap<u64, String>>,
) -> (lists: HashMap<u32, Vec<Signal>>)
    ensures
        list_models(lists@) == signal_lists(dbc_input@, table_labels(value_descriptions@)),
{
    let initials = parse_initial_values(dbc_input);
    let lines = split_lines(dbc_input);
    let mut scan = Scan::new();
    let ghost all = lines_of(dbc_input@);
    let ghost labels = table_labels(value_descriptions@);
    let ghost values = initial_values(dbc_input@);
    let mut i: usize = 0;
    while i < lines.len()
        invariant
            i <= lines.len(),
            all == texts(lines@),
            labels == table_labels(value_descriptions@),
            values == table_texts(initials@),
            scan@ == scan_lines(all.take(i as int), labels, values),
        decreases lines.len() - i,
    {
        proof {
            assert(all.take(i + 1).drop_last() == all.take(i as int));
        }
        let line = lines[i].as_str();
        let header = first_match(HEADER_LINE, line);
        let signal = first_match(SIGNAL_LINE, line);
        scan.line(&header, &signal, value_descriptions, &initials);
        i = i + 1;
    }
    assert(all.take(i as int) == all);
    scan.lists
}

} // verus!
