//! The command line: its commands and what it tells the user.

use vstd::prelude::*;

use crate::error::AudioError;
use crate::flow::Goal;
use crate::pactl::COMBINED_SINK_NAME;
use crate::sink::Sink;
use crate::text::{decimal, decimal_text, join_with, joined_by, texts};

verus! {

/// The parsed command line.
pub struct Cli {
    pub command: Option<Command>,
}

/// The subcommands.
pub enum Command {
    /// Enable combined output (optionally only on selected sinks).
    Enable { sinks: Vec<String> },
    /// Disable the combined sink if present.
    Disable,
    /// List sinks and whether the combined sink exists.
    List,
    /// Launch the GUI.
    Gui,
}

/// The enable operation over the given sink names: all sinks when none is given.
pub fn enable_goal(names: Vec<String>) -> (g: Goal)
    ensures
        names@.len() == 0 ==> g == Goal::Enable(None),
        names@.len() > 0 ==> g == Goal::Enable(Some(names)),
{
    if names.len() == 0 {
        Goal::Enable(None)
    } else {
        Goal::Enable(Some(names))
    }
}

pub open spec fn enabling_text(names: Seq<Seq<char>>) -> Seq<char> {
    if names.len() == 0 {
        "Enabling combined sink using all physical sinks…"@
    } else {
        "Enabling combined sink using sinks: "@ + joined_by(names, ", "@)
    }
}

/// What `enable` prints before it starts.
pub fn enabling_message(names: &Vec<String>) -> (m: String)
    ensures
        m@ == enabling_text(texts(names@)),
{
    if names.len() == 0 {
        String::from_str("Enabling combined sink using all physical sinks…")
    } else {
        let list = join_with(names, ", ");
        String::from_str("Enabling combined sink using sinks: ").concat(list.as_str())
    }
}

pub open spec fn enabled_text() -> Seq<char> {
    "Combined sink '"@ + COMBINED_SINK_NAME@ + "' enabled and set as default."@
}

pub open spec fn too_few_text() -> Seq<char> {
    "Not enough sinks - need at least 2 outputs to combine."@
}

/// What `enable` reports for the result of the operation. With no sinks
/// named (`all`), too few sinks is reported as a message, not an error; every
/// other error is passed on.
pub fn enable_report(all: bool, result: Result<(), AudioError>) -> (r: Result<String, AudioError>)
    ensures
        result is Ok ==> (r matches Ok(m) && m@ == enabled_text()),
        result matches Err(e) ==> if all && e is NotEnoughSinks {
            r matches Ok(m) && m@ == too_few_text()
        } else {
            r == Err::<String, AudioError>(e)
        },
{
    match result {
        Ok(()) => Ok(
            String::from_str("Combined sink '").concat(COMBINED_SINK_NAME).concat(
                "' enabled and set as default.",
            ),
        ),
        Err(AudioError::NotEnoughSinks) if all => Ok(
            String::from_str("Not enough sinks - need at least 2 outputs to combine."),
        ),
        Err(e) => Err(e),
    }
}

pub open spec fn disabled_text() -> Seq<char> {
    "Combined sink '"@ + COMBINED_SINK_NAME@ + "' disabled."@
}

pub open spec fn nothing_to_disable_text() -> Seq<char> {
    "Combined sink not found; nothing to disable."@
}

/// What `disable` reports for the result of the operation: a missing
/// combined sink is reported as a message; every other error is passed on.
pub fn disable_report(result: Result<(), AudioError>) -> (r: Result<String, AudioError>)
    ensures
        result is Ok ==> (r matches Ok(m) && m@ == disabled_text()),
        result matches Err(e) ==> if e is CombinedNotFound {
            r matches Ok(m) && m@ == nothing_to_disable_text()
        } else {
            r == Err::<String, AudioError>(e)
        },
{
    match result {
        Ok(()) => Ok(
            String::from_str("Combined sink '").concat(COMBINED_SINK_NAME).concat("' disabled."),
        ),
        Err(AudioError::CombinedNotFound) => Ok(
            String::from_str("Combined sink not found; nothing to disable."),
        ),
        Err(e) => Err(e),
    }
}

pub open spec fn sink_line_text(s: Sink) -> Seq<char> {
    (if s.is_combined {
        "[combined]"@
    } else {
        "          "@
    }) + " #"@ + decimal(s.index as nat) + "  "@ + s.name@
}

/// The line that `list` prints for a sink: a marker for our combined sink,
/// its index and its name.
pub fn sink_line(s: &Sink) -> (m: String)
    ensures
        m@ == sink_line_text(*s),
{
    let marker = if s.is_combined {
        String::from_str("[combined]")
    } else {
        String::from_str("          ")
    };
    let index = decimal_text(s.index);
    marker.concat(" #").concat(index.as_str()).concat("  ").concat(s.name.as_str())
}

pub open spec fn presence_text(present: bool) -> Seq<char> {
    "\nCombined sink '"@ + COMBINED_SINK_NAME@ + "' present: "@ + if present {
        "yes"@
    } else {
        "no"@
    }
}

/// The line that `list` prints last: whether our combined sink exists.
pub fn presence_line(present: bool) -> (m: String)
    ensures
        m@ == presence_text(present),
{
    let head = String::from_str("\nCombined sink '").concat(COMBINED_SINK_NAME).concat(
        "' present: ",
    );
    if present {
        head.concat("yes")
    } else {
        head.concat("no")
    }
}

} // verus!
