//! The model: messages, signals and the description that holds them.

use crate::text::{is_number_literal, same_text, texts};
use std::collections::HashMap;
use vstd::prelude::*;

verus! {

/// The identifier of a message: one of the 11-bit standard address space, or
/// one of the 29-bit extended address space.
#[derive(Copy, Clone, Debug, PartialEq)]
pub enum MessageID {
    Standard(u16),
    Extended(u32),
}

/// The smallest number that is no standard identifier.
pub const EXTENDED_FROM: u32 = 0x800;

/// The bit that marks an extended identifier on the wire.
pub const EXTENDED_FLAG: u32 = 0x8000_0000;

impl MessageID {
    /// The identifier that stands for the number `id`: standard below
    /// `0x800`, extended from there on.
    pub open spec fn of(id: u32) -> MessageID {
        if id < EXTENDED_FROM {
            MessageID::Standard(id as u16)
        } else {
            MessageID::Extended(id)
        }
    }

    /// The number that the identifier stands for.
    pub open spec fn number(self) -> u32 {
        match self {
            MessageID::Standard(id) => id as u32,
            MessageID::Extended(id) => id,
        }
    }

    /// Numbers below `0x800` are standard identifiers, all others extended.
    pub open spec fn well_formed(self) -> bool {
        match self {
            MessageID::Standard(id) => id < EXTENDED_FROM,
            MessageID::Extended(id) => id >= EXTENDED_FROM,
        }
    }

    /// The identifier in wire format.
    pub open spec fn wire(self) -> u32 {
        match self {
            MessageID::Standard(id) => id as u32,
            MessageID::Extended(id) => id | EXTENDED_FLAG,
        }
    }

    /// The name of the address space.
    pub open spec fn kind_name(self) -> Seq<char> {
        match self {
            MessageID::Standard(_) => "CAN Standard"@,
            MessageID::Extended(_) => "CAN Extended"@,
        }
    }

    /// Classifies the number `id`.
    pub fn from_number(id: u32) -> (r: MessageID)
        ensures
            r == MessageID::of(id),
            r.well_formed(),
            r.number() == id,
            id < 0x800 ==> r == MessageID::Standard(id as u16),
            id >= 0x800 ==> r == MessageID::Extended(id),
    {
        if id < EXTENDED_FROM {
            MessageID::Standard(id as u16)
        } else {
            MessageID::Extended(id)
        }
    }

    /// The identifier in wire format: an extended identifier has bit 31 set.
    pub fn raw(&self) -> (r: u32)
        ensures
            r == self.wire(),
            self matches MessageID::Extended(id) ==> (id < EXTENDED_FLAG ==> r == id + EXTENDED_FLAG),
    {
        match self {
            MessageID::Standard(id) => *id as u32,
            MessageID::Extended(id) => {
                let id: u32 = *id;
                assert(id < 0x8000_0000u32 ==> id | 0x8000_0000u32 == id + 0x8000_0000u32)
                    by (bit_vector);
                id | EXTENDED_FLAG
            },
        }
    }

    /// The name of the address space: `CAN Standard` or `CAN Extended`.
    pub fn kind(&self) -> (k: &'static str)
        ensures
            k@ == self.kind_name(),
    {
        match self {
            MessageID::Standard(_) => "CAN Standard",
            MessageID::Extended(_) => "CAN Extended",
        }
    }
}

/// The name of the byte order that puts the least significant byte first.
pub open spec fn intel() -> Seq<char> {
    "Intel"@
}

/// The name of the byte order that puts the most significant byte first.
pub open spec fn motorola() -> Seq<char> {
    "Motorola"@
}

/// What a [`Signal`] holds, as mathematical values.
pub struct SignalModel {
    pub name: Seq<char>,
    pub start_bit: u64,
    pub signal_size: u64,
    pub byte_order: Seq<char>,
    pub value_type: Seq<char>,
    pub factor: Seq<char>,
    pub offset: Seq<char>,
    pub min: Seq<char>,
    pub max: Seq<char>,
    pub unit: Seq<char>,
    pub receivers: Seq<Seq<char>>,
    pub value_descriptions: Map<u64, Seq<char>>,
    pub multiplexer_type: Seq<char>,
    pub initial_value: Seq<char>,
}

/// The lowest bit of a Motorola signal that starts at `start_bit` and is
/// `signal_size` bits wide: `start_bit - (signal_size - 1)`, where neither
/// difference goes below 0.
pub open spec fn motorola_end_bit(start_bit: u64, signal_size: u64) -> u64 {
    let span: int = if signal_size >= 1 {
        signal_size - 1
    } else {
        0
    };
    if span > start_bit {
        0
    } else {
        (start_bit - span) as u64
    }
}

/// The start bit that the Vector tools display for a Motorola signal. A
/// signal that lies within one byte and starts at that byte's highest bit
/// keeps its start bit; every other signal shows its lowest bit.
pub open spec fn motorola_display_bit(start_bit: u64, signal_size: u64) -> u64 {
    let end_bit = motorola_end_bit(start_bit, signal_size);
    if start_bit / 8 != end_bit / 8 || signal_size > 8 {
        end_bit
    } else if start_bit % 8 != 7 {
        end_bit
    } else {
        start_bit
    }
}

impl SignalModel {
    /// What holds of every signal that is read from a text: byte order,
    /// value type and multiplexer type are among the names that stand for
    /// them, and the numbers are number literals.
    pub open spec fn well_formed(self) -> bool {
        &&& self.byte_order == intel() || self.byte_order == motorola()
        &&& self.value_type == "Signed"@ || self.value_type == "Unsigned"@
        &&& self.multiplexer_type == "Plain"@ || self.multiplexer_type == "Multiplexer"@
            || self.multiplexer_type == "Multiplexed"@
        &&& is_number_literal(self.factor)
        &&& is_number_literal(self.offset)
        &&& is_number_literal(self.min)
        &&& is_number_literal(self.max)
        &&& is_number_literal(self.initial_value)
    }

    /// The start bit that the Vector tools display for the signal: its own
    /// start bit for an Intel signal, [`motorola_display_bit`] for a Motorola
    /// signal, and the signal's size where the byte order is neither.
    pub open spec fn display_start_bit(self) -> u64 {
        if self.byte_order == intel() {
            self.start_bit
        } else if self.byte_order == motorola() {
            motorola_display_bit(self.start_bit, self.signal_size)
        } else {
            self.signal_size
        }
    }
}

/// One bit field of a message. The numbers of its scaling (`factor`,
/// `offset`, `min`, `max`) and its `initial_value` are held as the number
/// literals that the description wrote.
#[derive(Debug, PartialEq)]
pub struct Signal {
    pub name: String,
    pub start_bit: u64,
    pub signal_size: u64,
    pub byte_order: String,
    pub value_type: String,
    pub factor: String,
    pub offset: String,
    pub min: String,
    pub max: String,
    pub unit: String,
    pub receivers: Vec<String>,
    pub value_descriptions: HashMap<u64, String>,
    pub multiplexer_type: String,
    pub initial_value: String,
}

impl View for Signal {
    type V = SignalModel;

    open spec fn view(&self) -> SignalModel {
        SignalModel {
            name: self.name@,
            start_bit: self.start_bit,
            signal_size: self.signal_size,
            byte_order: self.byte_order@,
            value_type: self.value_type@,
            factor: self.factor@,
            offset: self.offset@,
            min: self.min@,
            max: self.max@,
            unit: self.unit@,
            receivers: texts(self.receivers@),
            value_descriptions: self.value_descriptions@.map_values(|label: String| label@),
            multiplexer_type: self.multiplexer_type@,
            initial_value: self.initial_value@,
        }
    }
}

impl Clone for Signal {
    fn clone(&self) -> (copy: Signal)
        ensures
            copy@ == self@,
    {
        let receivers = self.receivers.clone();
        Signal {
            name: self.name.clone(),
            start_bit: self.start_bit,
            signal_size: self.signal_size,
            byte_order: self.byte_order.clone(),
            value_type: self.value_type.clone(),
            factor: self.factor.clone(),
            offset: self.offset.clone(),
            min: self.min.clone(),
            max: self.max.clone(),
            unit: self.unit.clone(),
            receivers,
            value_descriptions: self.value_descriptions.clone(),
            multiplexer_type: self.multiplexer_type.clone(),
            initial_value: self.initial_value.clone(),
        }
    }
}

impl Signal {
    /// The name of the signal.
    pub fn name(&self) -> (r: &str)
        ensures
            r@ == self@.name,
    {
        self.name.as_str()
    }

    /// The start bit, in the numbering of the description.
    pub fn start_bit(&self) -> (r: u64)
        ensures
            r == self@.start_bit,
    {
        self.start_bit
    }

    /// The start bit as the Vector tools display it.
    pub fn vector_start_bit(&self) -> (r: u64)
        ensures
            r == self@.display_start_bit(),
            self@.byte_order == intel() ==> r == self.start_bit,
            self@.byte_order == motorola() ==> r == motorola_display_bit(
                self.start_bit,
                self.signal_size,
            ),
            self@.byte_order == motorola() && self.signal_size == 1 ==> r == self.start_bit,
            self@.byte_order != intel() && self@.byte_order != motorola() ==> r
                == self.signal_size,
    {
        proof {
            reveal_strlit("Intel");
            reveal_strlit("Motorola");
            assert(intel().len() != motorola().len());
        }
        if same_text(self.byte_order.as_str(), "Intel") {
            self.start_bit
        } else if same_text(self.byte_order.as_str(), "Motorola") {
            let start_byte = self.start_bit / 8;
            let start_bit_in_byte = self.start_bit % 8;
            let span: u64 = if self.signal_size >= 1 {
                self.signal_size - 1
            } else {
                0
            };
            let end_bit: u64 = if span > self.start_bit {
                0
            } else {
                self.start_bit - span
            };
            let end_byte = end_bit / 8;
            if start_byte != end_byte || self.signal_size > 8 {
                end_bit
            } else if start_bit_in_byte != 7 {
                end_bit
            } else {
                self.start_bit
            }
        } else {
            self.signal_size
        }
    }

    /// The width in bits.
    pub fn signal_size(&self) -> (r: u64)
        ensures
            r == self@.signal_size,
    {
        self.signal_size
    }

    /// `Intel` or `Motorola`.
    pub fn byte_order(&self) -> (r: &str)
        ensures
            r@ == self@.byte_order,
    {
        self.byte_order.as_str()
    }

    /// `Signed` or `Unsigned`.
    pub fn value_type(&self) -> (r: &str)
        ensures
            r@ == self@.value_type,
    {
        self.value_type.as_str()
    }

    /// The factor of the scaling, as the description wrote it.
    pub fn factor(&self) -> (r: &str)
        ensures
            r@ == self@.factor,
    {
        self.factor.as_str()
    }

    /// The offset of the scaling, as the description wrote it.
    pub fn offset(&self) -> (r: &str)
        ensures
            r@ == self@.offset,
    {
        self.offset.as_str()
    }

    /// The least physical value, as the description wrote it.
    pub fn min(&self) -> (r: &str)
        ensures
            r@ == self@.min,
    {
        self.min.as_str()
    }

    /// The greatest physical value, as the description wrote it.
    pub fn max(&self) -> (r: &str)
        ensures
            r@ == self@.max,
    {
        self.max.as_str()
    }

    /// The unit of the physical value.
    pub fn unit(&self) -> (r: &str)
        ensures
            r@ == self@.unit,
    {
        self.unit.as_str()
    }

    /// The nodes that receive the signal.
    pub fn receivers(&self) -> (r: &Vec<String>)
        ensures
            texts(r@) == self@.receivers,
    {
        &self.receivers
    }

    /// The labels of single raw values.
    pub fn value_descriptions(&self) -> (r: &HashMap<u64, String>)
        ensures
            r@.map_values(|label: String| label@) == self@.value_descriptions,
    {
        &self.value_descriptions
    }

    /// `Plain`, `Multiplexer` or `Multiplexed`.
    pub fn multiplexer_type(&self) -> (r: &str)
        ensures
            r@ == self@.multiplexer_type,
    {
        self.multiplexer_type.as_str()
    }

    /// The initial raw value, as the description wrote it; `0.0` where it
    /// wrote none.
    pub fn initial_value(&self) -> (r: &str)
        ensures
            r@ == self@.initial_value,
    {
        self.initial_value.as_str()
    }
}

/// What a [`Message`] holds, as mathematical values.
pub struct MessageModel {
    pub message_name: Seq<char>,
    pub message_id: MessageID,
    pub message_size: u64,
    pub cycle_time: u32,
    pub transmitter: Seq<char>,
    pub signals: Seq<SignalModel>,
}

/// The transmitter of a message that names none.
pub open spec fn no_transmitter_token() -> Seq<char> {
    "Vector__XXX"@
}

/// How the transmitter `raw` is reported: the placeholder `Vector__XXX` as
/// `No Transmitter`, every other transmitter as it is.
pub open spec fn reported_transmitter(raw: Seq<char>) -> Seq<char> {
    if raw == no_transmitter_token() {
        "No Transmitter"@
    } else {
        raw
    }
}

/// One message: a frame with its signals.
#[derive(Debug, PartialEq)]
pub struct Message {
    pub message_name: String,
    pub message_id: MessageID,
    pub message_size: u64,
    pub cycle_time: u32,
    pub transmitter: String,
    pub signals: Vec<Signal>,
}

/// The models of a list of signals.
pub open spec fn signal_models(signals: Seq<Signal>) -> Seq<SignalModel> {
    signals.map_values(|s: Signal| s@)
}

impl View for Message {
    type V = MessageModel;

    open spec fn view(&self) -> MessageModel {
        MessageModel {
            message_name: self.message_name@,
            message_id: self.message_id,
            message_size: self.message_size,
            cycle_time: self.cycle_time,
            transmitter: self.transmitter@,
            signals: signal_models(self.signals@),
        }
    }
}

impl Clone for Message {
    fn clone(&self) -> (copy: Message)
        ensures
            copy@ == self@,
    {
        let signals = self.signals.clone();
        assert(signal_models(signals@) == signal_models(self.signals@));
        Message {
            message_name: self.message_name.clone(),
            message_id: self.message_id,
            message_size: self.message_size,
            cycle_time: self.cycle_time,
            transmitter: self.transmitter.clone(),
            signals,
        }
    }
}

impl Message {
    /// The name of the message.
    pub fn message_name(&self) -> (r: &str)
        ensures
            r@ == self@.message_name,
    {
        self.message_name.as_str()
    }

    /// The identifier in wire format, and the name of its address space.
    pub fn message_id(&self) -> (r: (u32, &'static str))
        ensures
            r.0 == self.message_id.wire(),
            r.1@ == self.message_id.kind_name(),
    {
        (self.message_id.raw(), self.message_id.kind())
    }

    /// The length of the frame in bytes; 0 where the description states none.
    pub fn message_size(&self) -> (r: u64)
        ensures
            r == self@.message_size,
    {
        self.message_size
    }

    /// The cycle time: the one stated for the message, else the default of
    /// the description, else 0.
    pub fn cycle_time(&self) -> (r: u32)
        ensures
            r == self@.cycle_time,
    {
        self.cycle_time
    }

    /// The transmitter, or `No Transmitter` where the message has the
    /// placeholder `Vector__XXX` in its place. The placeholder is the whole
    /// text `Vector__XXX`: a transmitter that only begins with it is a
    /// transmitter like any other.
    pub fn transmitter(&self) -> (r: &str)
        ensures
            r@ == reported_transmitter(self@.transmitter),
            self@.transmitter == no_transmitter_token() ==> r@ == "No Transmitter"@,
            self@.transmitter != no_transmitter_token() ==> r@ == self@.transmitter,
    {
        if same_text(self.transmitter.as_str(), "Vector__XXX") {
            "No Transmitter"
        } else {
            self.transmitter.as_str()
        }
    }
}

/// The models of a list of messages.
pub open spec fn message_models(messages: Seq<Message>) -> Seq<MessageModel> {
    messages.map_values(|m: Message| m@)
}

/// A network description: its messages, in the order in which the text
/// first names them.
#[derive(Debug, PartialEq)]
pub struct Dbc {
    pub messages: Vec<Message>,
}

impl Clone for Dbc {
    fn clone(&self) -> (copy: Dbc)
        ensures
            copy@ == self@,
    {
        let messages = self.messages.clone();
        Dbc { messages }
    }
}

impl View for Dbc {
    type V = Seq<MessageModel>;

    open spec fn view(&self) -> Seq<MessageModel> {
        message_models(self.messages@)
    }
}

/// Why a text yields no description.
#[derive(Debug)]
pub enum Error {
    /// The text names no message. Holds the empty description and the text.
    Invalid(Dbc, String),
}

} // verus!
