//! The extractors of message attributes. Each one scans the whole text for
//! one pattern and keeps, for each message number, what the last match for
//! that number says.

use crate::pattern::{
    all_matches, first_match, group, group_text, groups_view, matches_view, regex_captures,
    regex_captures_iter, Found, Groups, DEFAULT_CYCLE_TIME, EXPLICIT_CYCLE_TIME, INITIAL_VALUE,
    MESSAGE_NAME, MESSAGE_SIZE, MESSAGE_TRANSMITTER, VALUE_PAIR, VALUE_TABLE,
};
use crate::signal_table::SignalTable;
use crate::table::{
    collect, first_seen, lemma_first_seen, lemma_ordered_append, lemma_ordered_replace,
    lemma_ordered_skip, ordered,
};
use crate::text::{
    is_number_literal, is_number_text, parse_u32, parse_u64, trim, trimmed, u32_of, u64_of,
};
use std::collections::HashMap;
use vstd::prelude::*;

verus! {

broadcast use vstd::std_specs::hash::group_hash_axioms;

// ---------------------------------------------------------------------------
// What one match says
// ---------------------------------------------------------------------------

/// A message number with a text: groups 1 and 2 of a match, where group 1
/// reads as a `u32`.
pub open spec fn labelled(groups: Groups) -> Option<(u32, Seq<char>)> {
    match (group(groups, 1), group(groups, 2)) {
        (Some(id), Some(label)) => match u32_of(id) {
            Some(id) => Some((id, label)),
            None => None,
        },
        _ => None,
    }
}

/// A message number with a size: groups 1 and 2 of a match, where group 1
/// reads as a `u32` and group 2 as a `u64`.
pub open spec fn sized(groups: Groups) -> Option<(u32, u64)> {
    match (group(groups, 1), group(groups, 2)) {
        (Some(id), Some(size)) => match (u32_of(id), u64_of(size)) {
            (Some(id), Some(size)) => Some((id, size)),
            _ => None,
        },
        _ => None,
    }
}

/// A message number with a cycle time: groups 1 and 2 of a match, where
/// both read as a `u32`.
pub open spec fn timed(groups: Groups) -> Option<(u32, u32)> {
    match (group(groups, 1), group(groups, 2)) {
        (Some(id), Some(cycle)) => match (u32_of(id), u32_of(cycle)) {
            (Some(id), Some(cycle)) => Some((id, cycle)),
            _ => None,
        },
        _ => None,
    }
}

/// A cycle time alone: group 1 of a match, where it reads as a `u32`.
pub open spec fn cycle_of(groups: Groups) -> Option<u32> {
    match group(groups, 1) {
        Some(cycle) => u32_of(cycle),
        None => None,
    }
}

/// What each of the matches says, as [`labelled`] reads it.
pub open spec fn labelled_entries(found: Seq<Groups>) -> Seq<Option<(u32, Seq<char>)>> {
    found.map_values(|groups: Groups| labelled(groups))
}

/// What each of the matches says, as [`sized`] reads it.
pub open spec fn sized_entries(found: Seq<Groups>) -> Seq<Option<(u32, u64)>> {
    found.map_values(|groups: Groups| sized(groups))
}

/// What each of the matches says, as [`timed`] reads it.
pub open spec fn timed_entries(found: Seq<Groups>) -> Seq<Option<(u32, u32)>> {
    found.map_values(|groups: Groups| timed(groups))
}

/// Reads groups 1 and 2 of a match as a message number and a text.
pub fn read_labelled(groups: &Found) -> (entry: Option<(u32, String)>)
    ensures
        labelled(groups_view(groups@)) == match entry {
            Some((id, label)) => Some((id, label@)),
            None => None,
        },
{
    match (group_text(groups, 1), group_text(groups, 2)) {
        (Some(id), Some(label)) => match parse_u32(id.as_str()) {
            Some(id) => Some((id, label.clone())),
            None => None,
        },
        _ => None,
    }
}

/// Reads groups 1 and 2 of a match as a message number and a size.
pub fn read_sized(groups: &Found) -> (entry: Option<(u32, u64)>)
    ensures
        entry == sized(groups_view(groups@)),
{
    match (group_text(groups, 1), group_text(groups, 2)) {
        (Some(id), Some(size)) => match (parse_u32(id.as_str()), parse_u64(size.as_str())) {
            (Some(id), Some(size)) => Some((id, size)),
            _ => None,
        },
        _ => None,
    }
}

/// Reads groups 1 and 2 of a match as a message number and a cycle time.
pub fn read_timed(groups: &Found) -> (entry: Option<(u32, u32)>)
    ensures
        entry == timed(groups_view(groups@)),
{
    match (group_text(groups, 1), group_text(groups, 2)) {
        (Some(id), Some(cycle)) => match (parse_u32(id.as_str()), parse_u32(cycle.as_str())) {
            (Some(id), Some(cycle)) => Some((id, cycle)),
            _ => None,
        },
        _ => None,
    }
}

// ---------------------------------------------------------------------------
// Message names
// ---------------------------------------------------------------------------

/// The texts of a list of numbered strings.
pub open spec fn numbered_texts(list: Seq<(u32, String)>) -> Seq<(u32, Seq<char>)> {
    list.map_values(|e: (u32, String)| (e.0, e.1@))
}

/// The message headers of `text`, in the order in which they stand: the
/// number and the name that each one gives, or nothing where its number does
/// not read as a `u32`.
pub open spec fn headers(text: Seq<char>) -> Seq<Option<(u32, Seq<char>)>> {
    labelled_entries(regex_captures_iter(MESSAGE_NAME@, text))
}

/// The messages that `text` names: each number once, in the order in which
/// the headers first name it, with the name that its last header gives.
pub open spec fn message_names(text: Seq<char>) -> Seq<(u32, Seq<char>)> {
    ordered(headers(text))
}

/// The messages that the matches of the header pattern name. They come as a
/// list, not as a map: the order of the list is the order of the messages in
/// the description, and a hash map keeps none.
pub fn names_from_matches(found: &Vec<Found>) -> (names: Vec<(u32, String)>)
    ensures
        numbered_texts(names@) == ordered(labelled_entries(matches_view(found@))),
{
    let mut names: Vec<(u32, String)> = Vec::new();
    let ghost all = matches_view(found@);
    let mut i: usize = 0;
    while i < found.len()
        invariant
            i <= found.len(),
            all == matches_view(found@),
            numbered_texts(names@) == ordered(labelled_entries(all.take(i as int))),
        decreases found.len() - i,
    {
        let ghost before = labelled_entries(all.take(i as int));
        proof {
            assert(labelled_entries(all.take(i + 1)) == before.push(labelled(all[i as int])));
            lemma_first_seen(before);
        }
        match read_labelled(&found[i]) {
            Some((id, name)) => {
                let mut at: usize = 0;
                while at < names.len() && names[at].0 != id
                    invariant
                        at <= names.len(),
                        forall|j: int| 0 <= j < at ==> #[trigger] names@[j].0 != id,
                    decreases names.len() - at,
                {
                    at = at + 1;
                }
                let ghost old_names = numbered_texts(names@);
                if at < names.len() {
                    proof {
                        assert(ordered(before)[at as int].0 == id);
                        lemma_ordered_replace(before, id, name@, at as int);
                    }
                    names.set(at, (id, name));
                    assert(numbered_texts(names@) == old_names.update(at as int, (id, name@)));
                } else {
                    proof {
                        if first_seen(before).contains(id) {
                            let j = choose|j: int|
                                0 <= j < first_seen(before).len() && first_seen(before)[j] == id;
                            assert(names@[j].0 == numbered_texts(names@)[j].0);
                        }
                        lemma_ordered_append(before, id, name@);
                    }
                    names.push((id, name));
                    assert(numbered_texts(names@) == old_names.push((id, name@)));
                }
            },
            None => {
                proof {
                    lemma_ordered_skip(before);
                }
            },
        }
        i = i + 1;
    }
    assert(all.take(i as int) == all);
    names
}

/// The messages that `dbc_input` names.
pub fn parse_message_name(dbc_input: &str) -> (names: Vec<(u32, String)>)
    ensures
        numbered_texts(names@) == message_names(dbc_input@),
{
    let found = all_matches(MESSAGE_NAME, dbc_input);
    names_from_matches(&found)
}

// ---------------------------------------------------------------------------
// Message sizes
// ---------------------------------------------------------------------------

/// The size that `text` states for each message number.
pub open spec fn message_sizes(text: Seq<char>) -> Map<u32, u64> {
    collect(sized_entries(regex_captures_iter(MESSAGE_SIZE@, text)))
}

/// The sizes that the matches of the size pattern state.
pub fn sizes_from_matches(found: &Vec<Found>) -> (sizes: HashMap<u32, u64>)
    ensures
        sizes@ == collect(sized_entries(matches_view(found@))),
{
    let mut sizes: HashMap<u32, u64> = HashMap::new();
    let ghost all = matches_view(found@);
    let mut i: usize = 0;
    while i < found.len()
        invariant
            i <= found.len(),
            all == matches_view(found@),
            sizes@ == collect(sized_entries(all.take(i as int))),
        decreases found.len() - i,
    {
        proof {
            assert(sized_entries(all.take(i + 1)).drop_last() == sized_entries(
                all.take(i as int),
            ));
        }
        match read_sized(&found[i]) {
            Some((id, size)) => {
                sizes.insert(id, size);
            },
            None => {},
        }
        i = i + 1;
    }
    assert(all.take(i as int) == all);
    sizes
}

/// The size that `dbc_input` states for each message number.
pub fn parse_message_size(dbc_input: &str) -> (sizes: HashMap<u32, u64>)
    ensures
        sizes@ == message_sizes(dbc_input@),
{
    let found = all_matches(MESSAGE_SIZE, dbc_input);
    sizes_from_matches(&found)
}

// ---------------------------------------------------------------------------
// Transmitters
// ---------------------------------------------------------------------------

/// The texts that a map holds.
pub open spec fn text_values(table: Map<u32, String>) -> Map<u32, Seq<char>> {
    table.map_values(|s: String| s@)
}

/// The transmitter that `text` states for each message number.
pub open spec fn message_transmitters(text: Seq<char>) -> Map<u32, Seq<char>> {
    collect(labelled_entries(regex_captures_iter(MESSAGE_TRANSMITTER@, text)))
}

/// The transmitters that the matches of the transmitter pattern state.
pub fn transmitters_from_matches(found: &Vec<Found>) -> (transmitters: HashMap<u32, String>)
    ensures
        text_values(transmitters@) == collect(labelled_entries(matches_view(found@))),
{
    let mut transmitters: HashMap<u32, String> = HashMap::new();
    let ghost all = matches_view(found@);
    let mut i: usize = 0;
    while i < found.len()
        invariant
            i <= found.len(),
            all == matches_view(found@),
            text_values(transmitters@) == collect(labelled_entries(all.take(i as int))),
        decreases found.len() - i,
    {
        proof {
            assert(labelled_entries(all.take(i + 1)).drop_last() == labelled_entries(
                all.take(i as int),
            ));
        }
        match read_labelled(&found[i]) {
            Some((id, transmitter)) => {
                let ghost before = text_values(transmitters@);
                transmitters.insert(id, transmitter);
                assert(text_values(transmitters@) == before.insert(id, transmitter@));
            },
            None => {},
        }
        i = i + 1;
    }
    assert(all.take(i as int) == all);
    transmitters
}

/// The transmitter that `dbc_input` states for each message number.
pub fn parse_message_transmitters(dbc_input: &str) -> (transmitters: HashMap<u32, String>)
    ensures
        text_values(transmitters@) == message_transmitters(dbc_input@),
{
    let found = all_matches(MESSAGE_TRANSMITTER, dbc_input);
    transmitters_from_matches(&found)
}

// ---------------------------------------------------------------------------
// Cycle times
// ---------------------------------------------------------------------------

/// The cycle time that `text` states for the messages that state none of
/// their own: what the first default directive says, if it reads as a `u32`.
pub open spec fn default_cycle_time(text: Seq<char>) -> Option<u32> {
    match regex_captures(DEFAULT_CYCLE_TIME@, text) {
        Some(groups) => cycle_of(groups),
        None => None,
    }
}

/// The cycle time that the first match of the default directive states.
pub fn default_cycle_from_match(found: &Option<Found>) -> (cycle: Option<u32>)
    ensures
        cycle == match found {
            Some(groups) => cycle_of(groups_view(groups@)),
            None => None,
        },
{
    match found {
        Some(groups) => match group_text(groups, 1) {
            Some(cycle) => parse_u32(cycle.as_str()),
            None => None,
        },
        None => None,
    }
}

/// The cycle time that `dbc_input` states for the messages that state none
/// of their own.
pub fn parse_default_cycle_time(dbc_input: &str) -> (cycle: Option<u32>)
    ensures
        cycle == default_cycle_time(dbc_input@),
{
    let found = first_match(DEFAULT_CYCLE_TIME, dbc_input);
    default_cycle_from_match(&found)
}

/// The cycle time that `text` states for each message number.
pub open spec fn explicit_cycle_times(text: Seq<char>) -> Map<u32, u32> {
    collect(timed_entries(regex_captures_iter(EXPLICIT_CYCLE_TIME@, text)))
}

/// The cycle times that the matches of the cycle time directive state.
pub fn cycles_from_matches(found: &Vec<Found>) -> (cycles: HashMap<u32, u32>)
    ensures
        cycles@ == collect(timed_entries(matches_view(found@))),
{
    let mut cycles: HashMap<u32, u32> = HashMap::new();
    let ghost all = matches_view(found@);
    let mut i: usize = 0;
    while i < found.len()
        invariant
            i <= found.len(),
            all == matches_view(found@),
            cycles@ == collect(timed_entries(all.take(i as int))),
        decreases found.len() - i,
    {
        proof {
            assert(timed_entries(all.take(i + 1)).drop_last() == timed_entries(
                all.take(i as int),
            ));
        }
        match read_timed(&found[i]) {
            Some((id, cycle)) => {
                cycles.insert(id, cycle);
            },
            None => {},
        }
        i = i + 1;
    }
    assert(all.take(i as int) == all);
    cycles
}

/// The cycle time that `dbc_input` states for each message number.
pub fn parse_explicit_cycle_time(dbc_input: &str) -> (cycles: HashMap<u32, u32>)
    ensures
        cycles@ == explicit_cycle_times(dbc_input@),
{
    let found = all_matches(EXPLICIT_CYCLE_TIME, dbc_input);
    cycles_from_matches(&found)
}

// ---------------------------------------------------------------------------
// Initial values
// ---------------------------------------------------------------------------

/// What a match of the initial value directive says: the message number,
/// the signal name and the trimmed value, where the number reads as a `u32`
/// and the trimmed value is a number literal.
pub open spec fn initial_entry(groups: Groups) -> Option<((u32, Seq<char>), Seq<char>)> {
    match (group(groups, 1), group(groups, 2), group(groups, 3)) {
        (Some(id), Some(name), Some(value)) => match u32_of(id) {
            Some(id) => if is_number_literal(trimmed(value)) {
                Some(((id, name), trimmed(value)))
            } else {
                None
            },
            None => None,
        },
        _ => None,
    }
}

/// What each of the matches says, as [`initial_entry`] reads it.
pub open spec fn initial_entries(found: Seq<Groups>) -> Seq<
    Option<((u32, Seq<char>), Seq<char>)>,
> {
    found.map_values(|groups: Groups| initial_entry(groups))
}

/// The initial value that `text` states for each signal.
pub open spec fn initial_values(text: Seq<char>) -> Map<(u32, Seq<char>), Seq<char>> {
    collect(initial_entries(regex_captures_iter(INITIAL_VALUE@, text)))
}

/// The texts that a signal table holds.
pub open spec fn table_texts(table: Map<(u32, Seq<char>), String>) -> Map<
    (u32, Seq<char>),
    Seq<char>,
> {
    table.map_values(|s: String| s@)
}

/// Reads a match of the initial value directive.
pub fn read_initial(groups: &Found) -> (entry: Option<(u32, String, String)>)
    ensures
        initial_entry(groups_view(groups@)) == match entry {
            Some((id, name, value)) => Some(((id, name@), value@)),
            None => None,
        },
{
    match (group_text(groups, 1), group_text(groups, 2), group_text(groups, 3)) {
        (Some(id), Some(name), Some(value)) => match parse_u32(id.as_str()) {
            Some(id) => {
                let value = trim(value.as_str());
                if is_number_text(value.as_str()) {
                    Some((id, name.clone(), value))
                } else {
                    None
                }
            },
            None => None,
        },
        _ => None,
    }
}

/// The initial values that the matches of the initial value directive state.
pub fn initial_values_from_matches(found: &Vec<Found>) -> (values: SignalTable<String>)
    ensures
        table_texts(values@) == collect(initial_entries(matches_view(found@))),
{
    let mut values: SignalTable<String> = SignalTable::new();
    let ghost all = matches_view(found@);
    let mut i: usize = 0;
    while i < found.len()
        invariant
            i <= found.len(),
            all == matches_view(found@),
            table_texts(values@) == collect(initial_entries(all.take(i as int))),
        decreases found.len() - i,
    {
        proof {
            assert(initial_entries(all.take(i + 1)).drop_last() == initial_entries(
                all.take(i as int),
            ));
        }
        match read_initial(&found[i]) {
            Some((id, name, value)) => {
                let ghost before = table_texts(values@);
                let ghost key = (id, name@);
                let ghost text = value@;
                values.insert(id, name, value);
                assert(table_texts(values@) == before.insert(key, text));
            },
            None => {},
        }
        i = i + 1;
    }
    assert(all.take(i as int) == all);
    values
}

/// The initial value that `dbc_input` states for each signal.
pub fn parse_initial_values(dbc_input: &str) -> (values: SignalTable<String>)
    ensures
        table_texts(values@) == initial_values(dbc_input@),
{
    let found = all_matches(INITIAL_VALUE, dbc_input);
    initial_values_from_matches(&found)
}

// ---------------------------------------------------------------------------
// Value descriptions
// ---------------------------------------------------------------------------

/// What a match of the pair pattern says: a raw value and its label, where
/// group 1 reads as a `u64`.
pub open spec fn pair_entry(groups: Groups) -> Option<(u64, Seq<char>)> {
    match (group(groups, 1), group(groups, 2)) {
        (Some(value), Some(label)) => match u64_of(value) {
            Some(value) => Some((value, label)),
            None => None,
        },
        _ => None,
    }
}

/// What each of the matches says, as [`pair_entry`] reads it.
pub open spec fn pair_entries(found: Seq<Groups>) -> Seq<Option<(u64, Seq<char>)>> {
    found.map_values(|groups: Groups| pair_entry(groups))
}

/// The labels that `pairs`, the text of a value table, gives to raw values.
pub open spec fn value_labels(pairs: Seq<char>) -> Map<u64, Seq<char>> {
    collect(pair_entries(regex_captures_iter(VALUE_PAIR@, pairs)))
}

/// What a match of the value table directive says, `labels` being what its
/// group 3 gives: the message number, the signal name and the labels, where
/// the number reads as a `u32` and there is at least one label.
pub open spec fn described(groups: Groups, labels: Map<u64, Seq<char>>) -> Option<
    ((u32, Seq<char>), Map<u64, Seq<char>>),
> {
    match (group(groups, 1), group(groups, 2), group(groups, 3)) {
        (Some(id), Some(name), Some(_)) => match u32_of(id) {
            Some(id) => if labels.dom().len() > 0 {
                Some(((id, name), labels))
            } else {
                None
            },
            None => None,
        },
        _ => None,
    }
}

/// The text of the pairs in a match of the value table directive.
pub open spec fn pairs_text(groups: Groups) -> Seq<char> {
    match group(groups, 3) {
        Some(pairs) => pairs,
        None => Seq::empty(),
    }
}

/// What each of the matches says, as [`described`] reads it with the
/// labels that the pairs in the match give.
pub open spec fn described_entries(found: Seq<Groups>) -> Seq<
    Option<((u32, Seq<char>), Map<u64, Seq<char>>)>,
> {
    found.map_values(|groups: Groups| described(groups, value_labels(pairs_text(groups))))
}

/// The labels that `text` gives to the raw values of each signal. A signal
/// whose value table holds no pair has no entry.
pub open spec fn value_descriptions(text: Seq<char>) -> Map<
    (u32, Seq<char>),
    Map<u64, Seq<char>>,
> {
    collect(described_entries(regex_captures_iter(VALUE_TABLE@, text)))
}

/// The labels that a map holds.
pub open spec fn label_texts(labels: Map<u64, String>) -> Map<u64, Seq<char>> {
    labels.map_values(|s: String| s@)
}

/// The labels that a signal table holds.
pub open spec fn table_labels(table: Map<(u32, Seq<char>), HashMap<u64, String>>) -> Map<
    (u32, Seq<char>),
    Map<u64, Seq<char>>,
> {
    table.map_values(|labels: HashMap<u64, String>| label_texts(labels@))
}

/// The labels that the matches of the pair pattern give to raw values.
pub fn labels_from_matches(found: &Vec<Found>) -> (labels: HashMap<u64, String>)
    ensures
        label_texts(labels@) == collect(pair_entries(matches_view(found@))),
{
    let mut labels: HashMap<u64, String> = HashMap::new();
    let ghost all = matches_view(found@);
    let mut i: usize = 0;
    while i < found.len()
        invariant
            i <= found.len(),
            all == matches_view(found@),
            label_texts(labels@) == collect(pair_entries(all.take(i as int))),
        decreases found.len() - i,
    {
        proof {
            assert(pair_entries(all.take(i + 1)).drop_last() == pair_entries(
                all.take(i as int),
            ));
        }
        let groups = &found[i];
        match (group_text(groups, 1), group_text(groups, 2)) {
            (Some(value), Some(label)) => match parse_u64(value.as_str()) {
                Some(value) => {
                    let ghost before = label_texts(labels@);
                    labels.insert(value, label.clone());
                    assert(label_texts(labels@) == before.insert(value, label@));
                },
                None => {},
            },
            _ => {},
        }
        i = i + 1;
    }
    assert(all.take(i as int) == all);
    labels
}

/// Reads a match of the value table directive, `labels` being what the
/// pairs in its group 3 give.
pub fn read_described(groups: &Found, labels: HashMap<u64, String>) -> (entry: Option<
    (u32, String, HashMap<u64, String>),
>)
    ensures
        described(groups_view(groups@), label_texts(labels@)) == match entry {
            Some((id, name, kept)) => Some(((id, name@), label_texts(kept@))),
            None => None,
        },
{
    match (group_text(groups, 1), group_text(groups, 2), group_text(groups, 3)) {
        (Some(id), Some(name), Some(_)) => match parse_u32(id.as_str()) {
            Some(id) => {
                proof {
                    assert(labels@.dom() =~= label_texts(labels@).dom());
                    if labels@.dom().len() == 0 {
                        labels@.dom().lemma_len0_is_empty();
                    }
                }
                if !labels.is_empty() {
                    Some((id, name.clone(), labels))
                } else {
                    None
                }
            },
            None => None,
        },
        _ => None,
    }
}

/// The labels that `dbc_input` gives to the raw values of each signal.
pub fn parse_value_descriptions(dbc_input: &str) -> (tables: SignalTable<HashMap<u64, String>>)
    ensures
        table_labels(tables@) == value_descriptions(dbc_input@),
{
    let found = all_matches(VALUE_TABLE, dbc_input);
    let mut tables: SignalTable<HashMap<u64, String>> = SignalTable::new();
    let ghost all = matches_view(found@);
    let mut i: usize = 0;
    while i < found.len()
        invariant
            i <= found.len(),
            all == matches_view(found@),
            table_labels(tables@) == collect(described_entries(all.take(i as int))),
        decreases found.len() - i,
    {
        proof {
            assert(described_entries(all.take(i + 1)).drop_last() == described_entries(
                all.take(i as int),
            ));
        }
        let groups = &found[i];
        let labels = match group_text(groups, 3) {
            Some(pairs) => labels_from_matches(&all_matches(VALUE_PAIR, pairs.as_str())),
            None => HashMap::new(),
        };
        match read_described(groups, labels) {
            Some((id, name, kept)) => {
                let ghost before = table_labels(tables@);
                let ghost key = (id, name@);
                let ghost texts = label_texts(kept@);
                tables.insert(id, name, kept);
                assert(table_labels(tables@) == before.insert(key, texts));
            },
            None => {},
        }
        i = i + 1;
    }
    assert(all.take(i as int) == all);
    tables
}

} // verus!
