//! Pattern matching. The shapes that the parser looks for are regular
//! expressions; matching them is left to the `regex` crate.

use vstd::prelude::*;

verus! {

/// A message header, as far as its name: `BO_ <id> <name>:`.
pub const MESSAGE_NAME: &'static str = r#"BO_\s+(\d+)\s+(\w+):"#;

/// A message header, as far as its size: `BO_ <id> <name>: <size>`.
pub const MESSAGE_SIZE: &'static str = r#"BO_\s+(\d+)\s+\w+:\s+(\d+)"#;

/// A whole message header: `BO_ <id> <name>: <size> <transmitter>`.
pub const MESSAGE_TRANSMITTER: &'static str = r#"BO_\s+(\d+)\s+\w+:\s+\d+\s+(\w+)"#;

/// The cycle time of messages that state none:
/// `BA_DEF_DEF_ "GenMsgCycleTime" <n>;`.
pub const DEFAULT_CYCLE_TIME: &'static str = r#"BA_DEF_DEF_\s+"GenMsgCycleTime"\s+(\d+);"#;

/// The cycle time of one message: `BA_ "GenMsgCycleTime" BO_ <id> <n>;`.
pub const EXPLICIT_CYCLE_TIME: &'static str = r#"BA_ "GenMsgCycleTime" BO_ (\d+) (\d+);"#;

/// The initial value of one signal:
/// `BA_ "GenSigStartValue" SG_ <id> <signal> <value>;`.
pub const INITIAL_VALUE: &'static str =
    r#"BA_\s+"GenSigStartValue"\s+SG_\s+(\d+)\s+([^\s]+)\s+([^;]+);"#;

/// The value table of one signal: `VAL_ <id> <signal> <pairs>;`.
pub const VALUE_TABLE: &'static str = r#"VAL_\s+(\d+)\s+(\w+)\s+(.+?);"#;

/// One entry of a value table: `<value> "<label>"`.
pub const VALUE_PAIR: &'static str = r#"(\d+)\s+"([^"]+)""#;

/// The start of a message header within a line: `BO_ <id> <name>:`.
pub const HEADER_LINE: &'static str = r#"BO_\s+(\d+)\s+\w+:"#;

/// A signal line:
/// `SG_ <name> <mux> : <start>|<size>@<order><sign> (<factor>,<offset>) [<min>|<max>] "<unit>" <receivers>`.
pub const SIGNAL_LINE: &'static str =
    r#"SG_\s+(\w+)\s*([mM]?\d*)\s*:\s*(\d+)\|(\d+)@([01])([+-])\s*\(([^,]+),([^)]+)\)\s*\[([^|]+)\|([^\]]+)\]\s*"([^"]*)"\s*(.*)"#;

/// The capture groups of one match: the text that each group matched, or
/// `None` where the group took no part. Group 0 is the whole match.
pub type Groups = Seq<Option<Seq<char>>>;

/// The capture groups of one match, as the matcher hands them out.
pub type Found = Vec<Option<String>>;

/// The first match of the regular expression `pattern` in `haystack`: for
/// each capture group, the overall match being group 0, the text that it
/// matched, or `None` where the group took no part. `None` where nothing
/// matches, and where `pattern` is no regular expression.
pub uninterp spec fn regex_captures(pattern: Seq<char>, haystack: Seq<char>) -> Option<
    Seq<Option<Seq<char>>>,
>;

/// The successive matches of the regular expression `pattern` in
/// `haystack`, none overlapping another: for each match what
/// [`regex_captures`] gives for one. Empty where `pattern` is no regular
/// expression.
pub uninterp spec fn regex_captures_iter(pattern: Seq<char>, haystack: Seq<char>) -> Seq<
    Seq<Option<Seq<char>>>,
>;

/// The texts of the capture groups of one match.
pub open spec fn groups_view(groups: Seq<Option<String>>) -> Groups {
    groups.map_values(
        |g: Option<String>|
            match g {
                Some(s) => Some(s@),
                None => None,
            },
    )
}

/// The texts of the capture groups of a list of matches.
pub open spec fn matches_view(found: Seq<Found>) -> Seq<Groups> {
    found.map_values(|groups: Found| groups_view(groups@))
}

/// `regex::Regex::new`, then `Regex::captures` on the compiled expression:
/// the capture groups of the first match, copied out as strings. The result
/// is what [`regex_captures`] names; nothing more is claimed of it.
#[verifier::external_body]
pub(crate) fn first_match(pattern: &str, haystack: &str) -> (found: Option<Found>)
    ensures
        regex_captures(pattern@, haystack@) == match found {
            Some(groups) => Some(groups_view(groups@)),
            None => None,
        },
{
    let re = regex::Regex::new(pattern).ok()?;
    let caps = re.captures(haystack)?;
    Some(caps.iter().map(|m| m.map(|m| m.as_str().to_string())).collect())
}

/// `regex::Regex::new`, then `Regex::captures_iter` on the compiled
/// expression: the capture groups of every match, in the order in which the
/// matches are found, copied out as strings. The result is what
/// [`regex_captures_iter`] names; nothing more is claimed of it.
#[verifier::external_body]
pub(crate) fn all_matches(pattern: &str, haystack: &str) -> (found: Vec<Found>)
    ensures
        matches_view(found@) == regex_captures_iter(pattern@, haystack@),
{
    match regex::Regex::new(pattern) {
        Ok(re) => re.captures_iter(haystack).map(
            |caps| caps.iter().map(|m| m.map(|m| m.as_str().to_string())).collect(),
        ).collect(),
        Err(_) => Vec::new(),
    }
}

/// The text of group `i` of a match, if the match has such a group and the
/// group took part.
pub open spec fn group(groups: Groups, i: int) -> Option<Seq<char>> {
    if 0 <= i < groups.len() {
        groups[i]
    } else {
        None
    }
}

/// The text of group `i` of a match.
pub fn group_text(groups: &Found, i: usize) -> (text: Option<&String>)
    ensures
        group(groups_view(groups@), i as int) == match text {
            Some(s) => Some(s@),
            None => None,
        },
{
    if i < groups.len() {
        groups[i].as_ref()
    } else {
        None
    }
}

} // verus!
