//! The ways to make a description: from a text, from bytes that have to be
//! UTF-8, and from bytes of which as much as possible is read as UTF-8.

use crate::merge::{messages_of, parse_message};
use crate::model::{Dbc, Error, MessageModel};
use vstd::prelude::*;
use vstd::std_specs::convert::TryFromSpecImpl;
use vstd::utf8::{decode_utf8, valid_utf8};

verus! {

/// The text that `bytes` hold when every sequence in them that is no UTF-8
/// is read as the replacement character U+FFFD.
pub uninterp spec fn utf8_lossy(bytes: Seq<u8>) -> Seq<char>;

/// `core::str::from_utf8`: the bytes as a text where they are UTF-8, and
/// nothing where they are not.
#[verifier::external_body]
fn utf8_text(buffer: &[u8]) -> (text: Option<&str>)
    ensures
        text is Some <==> valid_utf8(buffer@),
        text matches Some(t) ==> t@ == decode_utf8(buffer@),
{
    core::str::from_utf8(buffer).ok()
}

/// `String::from_utf8_lossy`: the bytes as a text, with U+FFFD in place of
/// what is no UTF-8. The result is what [`utf8_lossy`] names; of bytes that
/// are UTF-8 it is the text that they encode.
#[verifier::external_body]
fn lossy_text(buffer: &[u8]) -> (text: String)
    ensures
        text@ == utf8_lossy(buffer@),
        valid_utf8(buffer@) ==> text@ == decode_utf8(buffer@),
{
    String::from_utf8_lossy(buffer).into_owned()
}

/// What reading `text` gives: the messages that it describes, or the
/// failure where it describes none.
pub open spec fn reads_as(text: Seq<char>, outcome: Result<Dbc, Error>) -> bool {
    match outcome {
        Ok(dbc) => messages_of(text).len() > 0 && dbc@ == messages_of(text),
        Err(Error::Invalid(dbc, input)) => messages_of(text).len() == 0 && dbc@
            == Seq::<MessageModel>::empty() && input@ == text,
    }
}

/// Two descriptions with the same messages need not be the same value, so
/// no value is named as the outcome of `try_from`: what it returns is stated
/// by its own contract.
impl TryFromSpecImpl<&str> for Dbc {
    open spec fn obeys_try_from_spec() -> bool {
        false
    }

    open spec fn try_from_spec(dbc_input: &str) -> Result<Dbc, Error> {
        arbitrary()
    }
}

impl TryFrom<&str> for Dbc {
    type Error = Error;

    /// Reads a description from its text. Fails where the text names no
    /// message.
    fn try_from(dbc_input: &str) -> (outcome: Result<Dbc, Error>)
        ensures
            reads_as(dbc_input@, outcome),
    {
        let messages = parse_message(dbc_input);
        if messages.len() == 0 {
            assert(messages_of(dbc_input@) == Seq::<MessageModel>::empty());
            return Err(Error::Invalid(Dbc { messages }, dbc_input.to_owned()));
        }
        Ok(Dbc { messages })
    }
}

/// Why bytes that have to be UTF-8 yield no description.
#[derive(Debug)]
pub enum SliceError {
    /// The bytes are no UTF-8. Nothing was read, and no description made.
    NotUtf8,
    /// The bytes are UTF-8, and reading their text failed.
    Text(Error),
}

/// What reading `bytes` gives when they have to be UTF-8: the failure
/// `NotUtf8` exactly where they are not, and otherwise what reading the text
/// that they encode gives.
pub open spec fn slice_reads_as(bytes: Seq<u8>, outcome: Result<Dbc, SliceError>) -> bool {
    match outcome {
        Ok(dbc) => valid_utf8(bytes) && reads_as(decode_utf8(bytes), Ok(dbc)),
        Err(SliceError::Text(failure)) => valid_utf8(bytes) && reads_as(
            decode_utf8(bytes),
            Err(failure),
        ),
        Err(SliceError::NotUtf8) => !valid_utf8(bytes),
    }
}

impl Dbc {
    /// Reads a description from bytes that have to be UTF-8. Bytes that are
    /// not are refused: they are not read in any other way.
    pub fn from_slice(buffer: &[u8]) -> (outcome: Result<Dbc, SliceError>)
        ensures
            slice_reads_as(buffer@, outcome),
            outcome matches Err(SliceError::NotUtf8) <==> !valid_utf8(buffer@),
    {
        match utf8_text(buffer) {
            Some(dbc_input) => match Dbc::try_from(dbc_input) {
                Ok(dbc) => Ok(dbc),
                Err(failure) => Err(SliceError::Text(failure)),
            },
            None => Err(SliceError::NotUtf8),
        }
    }

    /// Reads a description from bytes, taking what is no UTF-8 in them as
    /// the replacement character.
    pub fn from_slice_lossy(buffer: &[u8]) -> (outcome: Result<Dbc, Error>)
        ensures
            reads_as(utf8_lossy(buffer@), outcome),
            valid_utf8(buffer@) ==> reads_as(decode_utf8(buffer@), outcome),
    {
        let dbc_input = lossy_text(buffer);
        Dbc::try_from(dbc_input.as_str())
    }
}

} // verus!
