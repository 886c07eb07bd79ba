//! What can end a run.

use crate::address::{fault_text, HexFault};
use crate::amount::{decimal_string, decimal_text};
use vstd::prelude::*;
use vstd::string::StringExecFns;

verus! {

/// The reason for which a run ends without an export.
#[derive(Clone, Debug, PartialEq, Eq)]
pub enum StatsError {
    /// A line of the address list is no address: the line as it was read,
    /// and what is wrong with it.
    InvalidAddress { line: String, fault: HexFault },
    /// The aggregated call did not come back: what the transport said.
    Transport { cause: String },
    /// What the aggregated call returned is not laid out as its answer.
    MalformedAnswer,
    /// The aggregated call came back with another number of results than
    /// there were calls.
    ReturnCount { expected: usize, returned: usize },
    /// The result at `index` does not hold an unsigned 256-bit integer.
    MalformedReturn { index: usize },
}

/// A `StatsError` with its texts as sequences of characters.
pub enum StatsFault {
    InvalidAddress { line: Seq<char>, fault: HexFault },
    Transport { cause: Seq<char> },
    MalformedAnswer,
    ReturnCount { expected: usize, returned: usize },
    MalformedReturn { index: usize },
}

impl View for StatsError {
    type V = StatsFault;

    open spec fn view(&self) -> StatsFault {
        match *self {
            StatsError::InvalidAddress { line, fault } => StatsFault::InvalidAddress {
                line: line@,
                fault,
            },
            StatsError::Transport { cause } => StatsFault::Transport { cause: cause@ },
            StatsError::MalformedAnswer => StatsFault::MalformedAnswer,
            StatsError::ReturnCount { expected, returned } => StatsFault::ReturnCount {
                expected,
                returned,
            },
            StatsError::MalformedReturn { index } => StatsFault::MalformedReturn { index },
        }
    }
}

/// The words in which a fault is reported. An invalid address is reported
/// with the line as it was read and with what the decoder found wrong, a
/// failed call with what the transport said.
pub open spec fn message_text(fault: StatsFault) -> Seq<char> {
    match fault {
        StatsFault::InvalidAddress { line, fault } => "provided address is not valid `"@ + line
            + "`: "@ + fault_text(fault),
        StatsFault::Transport { cause } => cause,
        StatsFault::MalformedAnswer => "the aggregated call returned no list of results"@,
        StatsFault::ReturnCount { expected, returned } => decimal_text(returned as nat)
            + " results were returned for "@ + decimal_text(expected as nat) + " calls"@,
        StatsFault::MalformedReturn { index } => "result "@ + decimal_text(index as nat)
            + " holds no allocation"@,
    }
}

impl StatsError {
    /// The error in words.
    pub fn message(&self) -> (text: String)
        ensures
            text@ == message_text(self@),
    {
        match self {
            StatsError::InvalidAddress { line, fault } => {
                let mut text = "provided address is not valid `".to_owned();
                text.append(line.as_str());
                text.append("`: ");
                text.append(fault.message().as_str());
                text
            },
            StatsError::Transport { cause } => cause.clone(),
            StatsError::MalformedAnswer => {
                "the aggregated call returned no list of results".to_owned()
            },
            StatsError::ReturnCount { expected, returned } => {
                let mut text = decimal_string(*returned);
                text.append(" results were returned for ");
                text.append(decimal_string(*expected).as_str());
                text.append(" calls");
                text
            },
            StatsError::MalformedReturn { index } => {
                let mut text = "result ".to_owned();
                text.append(decimal_string(*index).as_str());
                text.append(" holds no allocation");
                text
            },
        }
    }
}

} // verus!
