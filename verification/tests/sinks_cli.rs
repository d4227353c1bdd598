use multisink::cli::{disable_report, enable_goal, enable_report, enabling_message, presence_line, sink_line};
use multisink::error::AudioError;
use multisink::flow::Goal;
use multisink::panel::{panel_for, toggle_disables, toggle_result_message, Survey};
use multisink::sink::{combined_sink_exists, select_sink_names, sink_from_raw, sinks_from_raw, PactlSink, Sink};

fn sink(index: u32, name: &str, pretty: &str, combined: bool) -> Sink {
    Sink { index, name: name.to_string(), pretty_name: pretty.to_string(), is_combined: combined }
}

fn strs(v: &[&str]) -> Vec<String> {
    v.iter().map(|s| s.to_string()).collect()
}

#[test]
fn raw_entries_become_sinks() {
    let s = sink_from_raw(&PactlSink { index: 4, name: "x".into() });
    assert_eq!((s.index, s.name.as_str(), s.pretty_name.as_str(), s.is_combined), (4, "x", "x", false));
    let v = sinks_from_raw(&vec![
        PactlSink { index: 1, name: "multisink_combined".into() },
        PactlSink { index: 2, name: "y".into() },
    ]);
    assert!(v[0].is_combined);
    assert_eq!(v[0].pretty_name, "multisink_combined");
    assert!(!v[1].is_combined);
    assert_eq!(v[1].pretty_name, "y");
    assert!(combined_sink_exists(&v));
    assert!(!combined_sink_exists(&sinks_from_raw(&vec![PactlSink { index: 2, name: "y".into() }])));
}

#[test]
fn toggle_choice() {
    assert!(toggle_disables(&Ok(true)));
    assert!(!toggle_disables(&Ok(false)));
    assert!(!toggle_disables(&Err(AudioError::BackendUnavailable)));
}

#[test]
fn combined_sink_detection() {
    assert!(!combined_sink_exists(&vec![]));
    assert!(!combined_sink_exists(&vec![sink(1, "a", "a", false)]));
    // the name decides, not the flag
    assert!(combined_sink_exists(&vec![sink(1, "a", "a", false), sink(2, "multisink_combined", "c", false)]));
}

#[test]
fn selection_of_sinks() {
    let sinks = vec![sink(1, "a", "A", false), sink(2, "multisink_combined", "C", true), sink(3, "b", "B", false)];
    assert_eq!(select_sink_names(&sinks, None), strs(&["a", "b"]));
    let sel = strs(&["b", "multisink_combined", "q"]);
    assert_eq!(select_sink_names(&sinks, Some(&sel)), strs(&["b"]));
    assert_eq!(select_sink_names(&sinks, Some(&[])), Vec::<String>::new());
}

#[test]
fn error_messages() {
    assert_eq!(AudioError::BackendUnavailable.message(), "pactl / PulseAudio/PipeWire backend not available");
    assert_eq!(AudioError::CommandFailed("boom".into()).message(), "command failed: boom");
    assert_eq!(AudioError::Utf8(String::from_utf8(vec![0xff]).unwrap_err()).message(), "UTF-8 error");
    assert_eq!(AudioError::Io(std::io::Error::new(std::io::ErrorKind::Other, "x")).message(), "IO error");
    assert_eq!(AudioError::NotEnoughSinks.message(), "not enough sinks to create a combined sink");
    assert_eq!(AudioError::CombinedNotFound.message(), "combined sink not found");
}

#[test]
fn enable_goal_from_names() {
    assert!(matches!(enable_goal(vec![]), Goal::Enable(None)));
    match enable_goal(strs(&["a"])) {
        Goal::Enable(Some(v)) => assert_eq!(v, strs(&["a"])),
        _ => panic!(),
    }
}

#[test]
fn cli_messages() {
    assert_eq!(enabling_message(&vec![]), "Enabling combined sink using all physical sinks…");
    assert_eq!(enabling_message(&strs(&["a", "b"])), "Enabling combined sink using sinks: a, b");
    assert_eq!(enable_report(true, Ok(())).unwrap(), "Combined sink 'multisink_combined' enabled and set as default.");
    assert_eq!(enable_report(true, Err(AudioError::NotEnoughSinks)).unwrap(), "Not enough sinks - need at least 2 outputs to combine.");
    assert!(matches!(enable_report(false, Err(AudioError::NotEnoughSinks)), Err(AudioError::NotEnoughSinks)));
    assert!(matches!(enable_report(true, Err(AudioError::BackendUnavailable)), Err(AudioError::BackendUnavailable)));
    assert_eq!(disable_report(Ok(())).unwrap(), "Combined sink 'multisink_combined' disabled.");
    assert_eq!(disable_report(Err(AudioError::CombinedNotFound)).unwrap(), "Combined sink not found; nothing to disable.");
    assert!(matches!(disable_report(Err(AudioError::NotEnoughSinks)), Err(AudioError::NotEnoughSinks)));
}

#[test]
fn list_lines() {
    assert_eq!(sink_line(&sink(57, "alsa_output.pci", "Built-in", false)), "           #57  alsa_output.pci");
    assert_eq!(sink_line(&sink(3, "multisink_combined", "C", true)), "[combined] #3  multisink_combined");
    assert_eq!(presence_line(true), "\nCombined sink 'multisink_combined' present: yes");
    assert_eq!(presence_line(false), "\nCombined sink 'multisink_combined' present: no");
}

#[test]
fn panel_without_backend() {
    let p = panel_for(&Survey::NoBackend(AudioError::BackendUnavailable));
    assert_eq!(p.subtitle, "Audio backend not available: pactl / PulseAudio/PipeWire backend not available");
    assert!(!p.toggle.sensitive);
    assert_eq!(p.toggle.tooltip, "Unavailable");
    assert_eq!(p.toggle.icon, "circle-crossed-symbolic");
    assert!(!p.toggle.suggested && !p.toggle.destructive);
    assert!(p.rows.is_empty());
    let p = panel_for(&Survey::ListFailed(AudioError::CommandFailed("x".into())));
    assert_eq!(p.subtitle, "Error listing sinks: command failed: x");
}

#[test]
fn panel_with_sinks() {
    let p = panel_for(&Survey::Listed(vec![]));
    assert_eq!(p.subtitle, "No audio outputs found.");
    assert!(!p.toggle.sensitive && p.toggle.suggested);
    let p = panel_for(&Survey::Listed(vec![sink(1, "a", "Speakers", false), sink(12, "multisink_combined", "C", true)]));
    assert_eq!(p.subtitle, "Enabled combined output");
    assert_eq!(p.toggle.tooltip, "Disable");
    assert_eq!(p.toggle.icon, "cross-small-symbolic");
    assert!(p.toggle.sensitive && p.toggle.destructive && !p.toggle.suggested);
    assert_eq!(p.rows.len(), 2);
    assert_eq!((p.rows[0].name.as_str(), p.rows[0].checked, p.rows[0].label.as_str()), ("a", true, "Speakers"));
    assert_eq!(
        (p.rows[1].name.as_str(), p.rows[1].checked, p.rows[1].label.as_str()),
        ("multisink_combined", false, "multisink_combined (#12 ) [combined]")
    );
    let p = panel_for(&Survey::Listed(vec![sink(1, "a", "Speakers", false)]));
    assert_eq!(p.subtitle, "Disabled combined output");
    assert_eq!(p.toggle.tooltip, "Enable");
    assert_eq!(p.toggle.icon, "checkmark-small-symbolic");
}

#[test]
fn toggle_messages() {
    assert_eq!(toggle_result_message(true, &Ok(())), "Combined output disabled.");
    assert_eq!(toggle_result_message(false, &Ok(())), "Combined output enabled.");
    assert_eq!(toggle_result_message(true, &Err(AudioError::CombinedNotFound)), "Failed to disable combined sink: combined sink not found");
    assert_eq!(toggle_result_message(false, &Err(AudioError::NotEnoughSinks)), "Failed to enable combined sink: not enough sinks to create a combined sink");
}
