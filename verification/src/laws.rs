//! What holds of every description that is read from a text.

use crate::entry::reads_as;
use crate::extract::{
    default_cycle_time, described_entries, explicit_cycle_times, headers, initial_entries,
    initial_values, value_descriptions,
};
use crate::merge::messages_of;
use crate::model::{Dbc, Error};
use crate::pattern::{
    regex_captures, regex_captures_iter, HEADER_LINE, INITIAL_VALUE, MESSAGE_NAME, SIGNAL_LINE,
    VALUE_TABLE,
};
use crate::signals::{
    add_signal, header_id, no_initial_value, open_message, scan_lines, signal_of, ScanModel,
};
use crate::text::{digit_run, is_number_literal, lines_of};
use crate::table::{
    collect, first_entry, first_seen, is_entry_for, keys_of, lemma_collect_values,
    lemma_first_seen_count, lemma_first_seen_order, value_satisfies,
};
use vstd::prelude::*;

verus! {

/// Reading a text succeeds exactly when the text holds a message header,
/// and the description then holds one message for each message number that
/// the headers name.
pub proof fn law_one_message_for_each_number(text: Seq<char>, outcome: Result<Dbc, Error>)
    requires
        reads_as(text, outcome),
    ensures
        outcome is Ok <==> exists|n: int| 0 <= n < headers(text).len() && headers(text)[n] is Some,
        keys_of(headers(text)).finite(),
        outcome matches Ok(dbc) ==> dbc@.len() == keys_of(headers(text)).len(),
{
    let entries = headers(text);
    lemma_first_seen_count(entries);
    if exists|n: int| 0 <= n < entries.len() && entries[n] is Some {
        let n = choose|n: int| 0 <= n < entries.len() && entries[n] is Some;
        let k = match entries[n] {
            Some((k, _)) => k,
            None => arbitrary(),
        };
        assert(is_entry_for(entries, k, n));
        assert(keys_of(entries).contains(k));
    }
    if first_seen(entries).len() > 0 {
        let k = first_seen(entries)[0];
        assert(keys_of(entries).contains(k));
        let n = choose|n: int| is_entry_for(entries, k, n);
        assert(entries[n] is Some);
    }
}

/// A text in which the header pattern finds nothing yields the failure.
pub proof fn law_no_header_no_description(text: Seq<char>, outcome: Result<Dbc, Error>)
    requires
        reads_as(text, outcome),
        regex_captures_iter(MESSAGE_NAME@, text).len() == 0,
    ensures
        outcome is Err,
{
}

/// The messages stand in the order in which the headers first name them:
/// each message has a header, and of two messages the one whose first header
/// comes first stands first. No two messages have the same identifier, and
/// each message bears the name that the last header for it gives.
pub proof fn law_messages_in_order_of_first_header(text: Seq<char>)
    ensures
        forall|i: int|
            0 <= i < messages_of(text).len() ==> first_entry(
                headers(text),
                (#[trigger] messages_of(text)[i]).message_id.number(),
            ) < headers(text).len(),
        forall|i: int, j: int|
            0 <= i < j < messages_of(text).len() ==> first_entry(
                headers(text),
                (#[trigger] messages_of(text)[i]).message_id.number(),
            ) < first_entry(headers(text), (#[trigger] messages_of(text)[j]).message_id.number()),
        forall|i: int, j: int|
            0 <= i < j < messages_of(text).len() ==> (#[trigger] messages_of(text)[i]).message_id
                != (#[trigger] messages_of(text)[j]).message_id,
        forall|i: int|
            0 <= i < messages_of(text).len() ==> (#[trigger] messages_of(text)[i]).message_name
                == collect(headers(text))[messages_of(text)[i].message_id.number()],
        forall|i: int|
            0 <= i < messages_of(text).len() ==> (#[trigger] messages_of(
                text,
            )[i]).message_id.well_formed(),
{
    let entries = headers(text);
    lemma_first_seen_order(entries);
    assert forall|i: int, j: int| 0 <= i < j < messages_of(text).len() implies (
    #[trigger] messages_of(text)[i]).message_id != (#[trigger] messages_of(text)[j]).message_id by {
        assert(first_seen(entries)[i] != first_seen(entries)[j]);
    }
}

/// The cycle time of a message is the one that the text states for the
/// message itself; where it states none, the default that the text states;
/// and 0 where it states neither.
pub proof fn law_cycle_time_precedence(text: Seq<char>)
    ensures
        forall|i: int|
            0 <= i < messages_of(text).len() ==> {
                let message = #[trigger] messages_of(text)[i];
                let id = message.message_id.number();
                message.cycle_time == if explicit_cycle_times(text).contains_key(id) {
                    explicit_cycle_times(text)[id]
                } else {
                    match default_cycle_time(text) {
                        Some(cycle) => cycle,
                        None => 0,
                    }
                }
            },
{
}

/// No signal has an empty value table entered for it: a value table in
/// which no pair is found leaves no entry.
pub proof fn law_value_tables_hold_a_pair(text: Seq<char>)
    ensures
        forall|key: (u32, Seq<char>)|
            value_descriptions(text).contains_key(key) ==> (#[trigger] value_descriptions(
                text,
            )[key]).dom().len() > 0,
{
    let entries = described_entries(regex_captures_iter(VALUE_TABLE@, text));
    let holds = |labels: Map<u64, Seq<char>>| labels.dom().len() > 0;
    assert forall|n: int| 0 <= n < entries.len() implies value_satisfies(
        #[trigger] entries[n],
        holds,
    ) by {}
    lemma_collect_values(entries, holds);
}

/// The text `0.0` is a number literal.
proof fn lemma_zero_is_a_number()
    ensures
        is_number_literal(no_initial_value()),
{
    reveal_strlit("0.0");
    let s = no_initial_value();
    assert(digit_run(s.skip(1)) == 0);
    let rest = s.skip(1);
    assert(digit_run(rest.skip(1).skip(1)) == 0);
}

/// All signals of all lists of a scan are well formed.
spec fn lists_well_formed(scan: ScanModel) -> bool {
    forall|id: u32, j: int|
        scan.lists.contains_key(id) && 0 <= j < scan.lists[id].len() ==> (
        #[trigger] scan.lists[id][j]).well_formed()
}

/// A scan that is given number literals for initial values holds well-formed
/// signals only.
proof fn lemma_scan_well_formed(
    lines: Seq<Seq<char>>,
    labels: Map<(u32, Seq<char>), Map<u64, Seq<char>>>,
    initials: Map<(u32, Seq<char>), Seq<char>>,
)
    requires
        forall|key: (u32, Seq<char>)|
            initials.contains_key(key) ==> is_number_literal(#[trigger] initials[key]),
    ensures
        lists_well_formed(scan_lines(lines, labels, initials)),
    decreases lines.len(),
{
    if lines.len() > 0 {
        lemma_scan_well_formed(lines.drop_last(), labels, initials);
        lemma_zero_is_a_number();
        let before = scan_lines(lines.drop_last(), labels, initials);
        let header = regex_captures(HEADER_LINE@, lines.last());
        let signal = regex_captures(SIGNAL_LINE@, lines.last());
        let opened = open_message(before, header_id(header));
        let found = match signal {
            Some(groups) => signal_of(groups, opened.current, labels, initials),
            None => None,
        };
        let after = add_signal(opened, found);
        match found {
            Some(s) => {
                assert forall|id: u32, j: int|
                    after.lists.contains_key(id) && 0 <= j < after.lists[id].len() implies (
                #[trigger] after.lists[id][j]).well_formed() by {
                    if !(opened.lists.contains_key(opened.current) && id == opened.current) {
                        assert(after.lists[id][j] == opened.lists[id][j]);
                    } else if j < opened.lists[id].len() {
                        assert(after.lists[id][j] == opened.lists[id][j]);
                    } else {
                        assert(after.lists[id][j] == s);
                    }
                }
            },
            None => {},
        }
    }
}

/// Every signal of a description that is read from a text is well formed.
pub proof fn law_signals_well_formed(text: Seq<char>)
    ensures
        forall|i: int, j: int|
            0 <= i < messages_of(text).len() && 0 <= j < messages_of(text)[i].signals.len() ==> (
            #[trigger] messages_of(text)[i].signals[j]).well_formed(),
{
    let entries = initial_entries(regex_captures_iter(INITIAL_VALUE@, text));
    let holds = |value: Seq<char>| is_number_literal(value);
    assert forall|n: int| 0 <= n < entries.len() implies value_satisfies(
        #[trigger] entries[n],
        holds,
    ) by {}
    lemma_collect_values(entries, holds);
    lemma_scan_well_formed(lines_of(text), value_descriptions(text), initial_values(text));
}

} // verus!
