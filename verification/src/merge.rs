//! The message merger: joins what the extractors and the signal assembler
//! found, message number by message number, into the description.

use crate::extract::{
    default_cycle_time, explicit_cycle_times, message_names, message_sizes, message_transmitters,
    numbered_texts, parse_default_cycle_time, parse_explicit_cycle_time, parse_message_name,
    parse_message_size, parse_message_transmitters, parse_value_descriptions, text_values,
    value_descriptions,
};
use crate::model::{
    message_models, no_transmitter_token, signal_models, Message, MessageID, MessageModel, Signal,
    SignalModel,
};
use crate::signals::{list_models, parse_signals, signal_lists};
use crate::table::value_or;
use std::collections::HashMap;
use vstd::prelude::*;

verus! {

broadcast use vstd::std_specs::hash::group_hash_axioms;

/// What the extractors say of the messages, apart from their names.
pub struct Findings {
    pub sizes: Map<u32, u64>,
    pub transmitters: Map<u32, Seq<char>>,
    pub default_cycle: u32,
    pub cycles: Map<u32, u32>,
    pub signals: Map<u32, Seq<SignalModel>>,
}

/// The message with number `id` and name `name`: its size is the one found
/// for `id`, else 0; its cycle time the one found for `id`, else the
/// default; its transmitter the one found for `id`, else `Vector__XXX`; its
/// signals those found for `id`, else none.
pub open spec fn message_of(id: u32, name: Seq<char>, found: Findings) -> MessageModel {
    MessageModel {
        message_name: name,
        message_id: MessageID::of(id),
        message_size: value_or(found.sizes, id, 0),
        cycle_time: value_or(found.cycles, id, found.default_cycle),
        transmitter: value_or(found.transmitters, id, no_transmitter_token()),
        signals: value_or(found.signals, id, Seq::empty()),
    }
}

/// One message for each name, in the order of the names.
pub open spec fn merged(names: Seq<(u32, Seq<char>)>, found: Findings) -> Seq<MessageModel> {
    names.map_values(|e: (u32, Seq<char>)| message_of(e.0, e.1, found))
}

/// The cycle time of messages that state none: the default that `text`
/// states, else 0.
pub open spec fn fallback_cycle_time(text: Seq<char>) -> u32 {
    match default_cycle_time(text) {
        Some(cycle) => cycle,
        None => 0,
    }
}

/// What the extractors find in `text`.
pub open spec fn findings_of(text: Seq<char>) -> Findings {
    Findings {
        sizes: message_sizes(text),
        transmitters: message_transmitters(text),
        default_cycle: fallback_cycle_time(text),
        cycles: explicit_cycle_times(text),
        signals: signal_lists(text, value_descriptions(text)),
    }
}

/// The messages that `text` describes: one for each message number that a
/// header names, in the order in which the headers first name them.
pub open spec fn messages_of(text: Seq<char>) -> Seq<MessageModel> {
    merged(message_names(text), findings_of(text))
}

/// Builds one message for each name, in the order of the names.
pub fn merge_messages(
    names: &Vec<(u32, String)>,
    sizes: &HashMap<u32, u64>,
    transmitters: &HashMap<u32, String>,
    default_cycle: u32,
    cycles: &HashMap<u32, u32>,
    signals: &HashMap<u32, Vec<Signal>>,
) -> (messages: Vec<Message>)
    ensures
        message_models(messages@) == merged(
            numbered_texts(names@),
            Findings {
                sizes: sizes@,
                transmitters: text_values(transmitters@),
                default_cycle,
                cycles: cycles@,
                signals: list_models(signals@),
            },
        ),
{
    let ghost found = Findings {
        sizes: sizes@,
        transmitters: text_values(transmitters@),
        default_cycle,
        cycles: cycles@,
        signals: list_models(signals@),
    };
    let ghost all = numbered_texts(names@);
    let mut messages: Vec<Message> = Vec::new();
    let mut i: usize = 0;
    while i < names.len()
        invariant
            i <= names.len(),
            all == numbered_texts(names@),
            found == (Findings {
                sizes: sizes@,
                transmitters: text_values(transmitters@),
                default_cycle,
                cycles: cycles@,
                signals: list_models(signals@),
            }),
            message_models(messages@) == merged(all.take(i as int), found),
        decreases names.len() - i,
    {
        let id = names[i].0;
        let message_name = names[i].1.clone();
        let cycle_time = match cycles.get(&id) {
            Some(cycle) => *cycle,
            None => default_cycle,
        };
        let message_size = match sizes.get(&id) {
            Some(size) => *size,
            None => 0,
        };
        let message_signals = match signals.get(&id) {
            Some(list) => {
                let copy = list.clone();
                assert(signal_models(copy@) == signal_models(list@));
                copy
            },
            None => {
                let empty: Vec<Signal> = Vec::new();
                assert(signal_models(empty@) == Seq::<SignalModel>::empty());
                empty
            },
        };
        let transmitter = match transmitters.get(&id) {
            Some(transmitter) => transmitter.clone(),
            None => "Vector__XXX".to_owned(),
        };
        let message = Message {
            message_name,
            message_id: MessageID::from_number(id),
            message_size,
            cycle_time,
            transmitter,
            signals: message_signals,
        };
        let ghost before = message_models(messages@);
        messages.push(message);
        proof {
            assert(message_models(messages@) == before.push(message@));
            assert(merged(all.take(i + 1), found) == merged(all.take(i as int), found).push(
                message_of(all[i as int].0, all[i as int].1, found),
            ));
        }
        i = i + 1;
    }
    messages
}

/// The messages that `dbc_input` describes.
pub fn parse_message(dbc_input: &str) -> (messages: Vec<Message>)
    ensures
        message_models(messages@) == messages_of(dbc_input@),
{
    let message_names = parse_message_name(dbc_input);
    let message_size = parse_message_size(dbc_input);
    let message_transmitters = parse_message_transmitters(dbc_input);
    let default_cycles = match parse_default_cycle_time(dbc_input) {
        Some(cycle) => cycle,
        None => 0,
    };
    let explicit_cycles = parse_explicit_cycle_time(dbc_input);
    let value_descriptions = parse_value_descriptions(dbc_input);
    let signals = parse_signals(dbc_input, &value_descriptions);
    merge_messages(
        &message_names,
        &message_size,
        &message_transmitters,
        default_cycles,
        &explicit_cycles,
        &signals,
    )
}

} // verus!
