//! What the window shows: its subtitle, its toggle button and one row per sink.

use vstd::prelude::*;

use crate::error::{error_text, AudioError};
use crate::sink::Sink;
use crate::text::{decimal, decimal_text};

verus! {

/// What a refresh found out.
pub enum Survey {
    /// `pactl` cannot reach the sound server.
    NoBackend(AudioError),
    /// Listing the sinks failed.
    ListFailed(AudioError),
    /// The sinks.
    Listed(Vec<Sink>),
}

/// The state of the toggle button.
pub struct Toggle {
    pub sensitive: bool,
    pub tooltip: String,
    pub icon: String,
    pub suggested: bool,
    pub destructive: bool,
}

/// One row of the sink list: a check box that carries the sink name, and a label.
pub struct Row {
    pub name: String,
    pub checked: bool,
    pub label: String,
}

/// Everything a refresh puts on screen.
pub struct Panel {
    pub subtitle: String,
    pub toggle: Toggle,
    pub rows: Vec<Row>,
}

/// The look of the toggle button: whether it can be pressed, its tooltip and
/// icon, and which of the two style classes it carries.
pub open spec fn toggle_is(
    t: Toggle,
    sensitive: bool,
    tooltip: Seq<char>,
    icon: Seq<char>,
    suggested: bool,
    destructive: bool,
) -> bool {
    &&& t.sensitive == sensitive
    &&& t.tooltip@ == tooltip
    &&& t.icon@ == icon
    &&& t.suggested == suggested
    &&& t.destructive == destructive
}

/// The label of a sink's row: for our combined sink its name, index and a
/// marker, for the others their pretty name.
pub open spec fn row_label(s: Sink) -> Seq<char> {
    if s.is_combined {
        s.name@ + " (#"@ + decimal(s.index as nat) + " ) [combined]"@
    } else {
        s.pretty_name@
    }
}

/// A row shows its sink: the name, checked unless it is the combined sink.
pub open spec fn row_shows(r: Row, s: Sink) -> bool {
    &&& r.name@ == s.name@
    &&& r.checked == !s.is_combined
    &&& r.label@ == row_label(s)
}

/// Whether some sink is marked combined.
pub open spec fn any_combined(sinks: Seq<Sink>) -> bool {
    exists|i: int| 0 <= i < sinks.len() && (#[trigger] sinks[i]).is_combined
}

/// What the window shows after a refresh that found `survey`.
pub open spec fn panel_shows(p: Panel, survey: Survey) -> bool {
    match survey {
        Survey::NoBackend(e) => {
            &&& p.subtitle@ == "Audio backend not available: "@ + error_text(e)
            &&& toggle_is(p.toggle, false, "Unavailable"@, "circle-crossed-symbolic"@, false, false)
            &&& p.rows@.len() == 0
        },
        Survey::ListFailed(e) => {
            &&& p.subtitle@ == "Error listing sinks: "@ + error_text(e)
            &&& toggle_is(p.toggle, false, "Unavailable"@, "circle-crossed-symbolic"@, false, false)
            &&& p.rows@.len() == 0
        },
        Survey::Listed(sinks) => if sinks@.len() == 0 {
            &&& p.subtitle@ == "No audio outputs found."@
            &&& toggle_is(p.toggle, false, "Enable"@, "checkmark-small-symbolic"@, true, false)
            &&& p.rows@.len() == 0
        } else {
            &&& p.rows@.len() == sinks@.len()
            &&& forall|i: int| 0 <= i < sinks@.len() ==> row_shows(#[trigger] p.rows@[i], sinks@[i])
            &&& if any_combined(sinks@) {
                &&& p.subtitle@ == "Enabled combined output"@
                &&& toggle_is(p.toggle, true, "Disable"@, "cross-small-symbolic"@, false, true)
            } else {
                &&& p.subtitle@ == "Disabled combined output"@
                &&& toggle_is(p.toggle, true, "Enable"@, "checkmark-small-symbolic"@, true, false)
            }
        },
    }
}

fn toggle(sensitive: bool, tooltip: &str, icon: &str, suggested: bool, destructive: bool) -> (t: Toggle)
    ensures
        toggle_is(t, sensitive, tooltip@, icon@, suggested, destructive),
{
    Toggle {
        sensitive,
        tooltip: String::from_str(tooltip),
        icon: String::from_str(icon),
        suggested,
        destructive,
    }
}

fn row_for(s: &Sink) -> (r: Row)
    ensures
        row_shows(r, *s),
{
    let label = if s.is_combined {
        let index = decimal_text(s.index);
        s.name.clone().concat(" (#").concat(index.as_str()).concat(" ) [combined]")
    } else {
        s.pretty_name.clone()
    };
    Row { name: s.name.clone(), checked: !s.is_combined, label }
}

/// What the window shows after a refresh that found `survey`.
pub fn panel_for(survey: &Survey) -> (p: Panel)
    ensures
        panel_shows(p, *survey),
{
    match survey {
        Survey::NoBackend(e) => Panel {
            subtitle: String::from_str("Audio backend not available: ").concat(e.message().as_str()),
            toggle: toggle(false, "Unavailable", "circle-crossed-symbolic", false, false),
            rows: Vec::new(),
        },
        Survey::ListFailed(e) => Panel {
            subtitle: String::from_str("Error listing sinks: ").concat(e.message().as_str()),
            toggle: toggle(false, "Unavailable", "circle-crossed-symbolic", false, false),
            rows: Vec::new(),
        },
        Survey::Listed(sinks) => {
            if sinks.len() == 0 {
                return Panel {
                    subtitle: String::from_str("No audio outputs found."),
                    toggle: toggle(false, "Enable", "checkmark-small-symbolic", true, false),
                    rows: Vec::new(),
                };
            }
            let mut rows: Vec<Row> = Vec::new();
            let mut present = false;
            let mut i: usize = 0;
            while i < sinks.len()
                invariant
                    i <= sinks@.len(),
                    rows@.len() == i,
                    forall|j: int| 0 <= j < i ==> row_shows(#[trigger] rows@[j], sinks@[j]),
                    present == exists|j: int| 0 <= j < i && (#[trigger] sinks@[j]).is_combined,
                decreases sinks@.len() - i,
            {
                rows.push(row_for(&sinks[i]));
                if sinks[i].is_combined {
                    present = true;
                }
                i = i + 1;
            }
            if present {
                Panel {
                    subtitle: String::from_str("Enabled combined output"),
                    toggle: toggle(true, "Disable", "cross-small-symbolic", false, true),
                    rows,
                }
            } else {
                Panel {
                    subtitle: String::from_str("Disabled combined output"),
                    toggle: toggle(true, "Enable", "checkmark-small-symbolic", true, false),
                    rows,
                }
            }
        },
    }
}

pub open spec fn toggle_result_text(disabling: bool, result: Result<(), AudioError>) -> Seq<char> {
    match result {
        Ok(_) => if disabling {
            "Combined output disabled."@
        } else {
            "Combined output enabled."@
        },
        Err(e) => if disabling {
            "Failed to disable combined sink: "@ + error_text(e)
        } else {
            "Failed to enable combined sink: "@ + error_text(e)
        },
    }
}

/// The subtitle shown after the toggle button disabled (`disabling`) or
/// enabled the combined output.
pub fn toggle_result_message(disabling: bool, result: &Result<(), AudioError>) -> (m: String)
    ensures
        m@ == toggle_result_text(disabling, *result),
{
    match result {
        Ok(()) => if disabling {
            String::from_str("Combined output disabled.")
        } else {
            String::from_str("Combined output enabled.")
        },
        Err(e) => if disabling {
            String::from_str("Failed to disable combined sink: ").concat(e.message().as_str())
        } else {
            String::from_str("Failed to enable combined sink: ").concat(e.message().as_str())
        },
    }
}


/// Whether the toggle button disables: exactly when the combined sink was
/// found to exist; when that could not be found out, it enables.
pub fn toggle_disables(present: &Result<bool, AudioError>) -> (b: bool)
    ensures
        b == (*present matches Ok(true)),
{
    match present {
        Ok(p) => *p,
        Err(_) => false,
    }
}


/// For a non-empty listing, the window reports the combined output as enabled,
/// and offers to disable it, exactly when some sink, at any position, is
/// marked combined.
pub proof fn lemma_enabled_iff_some_combined(p: Panel, sinks: Vec<Sink>)
    requires
        panel_shows(p, Survey::Listed(sinks)),
        sinks@.len() > 0,
    ensures
        (p.subtitle@ == "Enabled combined output"@) <==> exists|i: int|
            0 <= i < sinks@.len() && (#[trigger] sinks@[i]).is_combined,
        p.toggle.destructive <==> exists|i: int| 0 <= i < sinks@.len() && (#[trigger] sinks@[i]).is_combined,
        !p.toggle.suggested <==> exists|i: int| 0 <= i < sinks@.len() && (#[trigger] sinks@[i]).is_combined,
{
    reveal_strlit("Enabled combined output");
    reveal_strlit("Disabled combined output");
    if !any_combined(sinks@) {
        assert(p.subtitle@[0] == 'D');
    }
}

} // verus!
