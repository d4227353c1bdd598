use multisink::error::AudioError;
use multisink::flow::{Action, CommandOutput, Flow, Goal, Outcome, Reply};

fn ok(stdout: &str) -> Reply {
    Reply::Output(CommandOutput { success: true, stdout: stdout.as_bytes().to_vec(), stderr: Vec::new() })
}

fn failed(stderr: &[u8]) -> Reply {
    Reply::Output(CommandOutput { success: false, stdout: Vec::new(), stderr: stderr.to_vec() })
}

fn spawn_failed() -> Reply {
    Reply::SpawnFailed(std::io::Error::new(std::io::ErrorKind::NotFound, "no pactl"))
}

/// A `pactl list sinks short` line for a sink.
fn line(index: u32, name: &str) -> String {
    format!("{index}\t{name}\tmodule-alsa-card.c\ts16le 2ch 44100Hz\tSUSPENDED\n")
}

fn listing(sinks: &[(u32, &str)]) -> Reply {
    let text: String = sinks.iter().map(|(i, n)| line(*i, n)).collect();
    ok(&text)
}

fn args(a: &Action) -> Vec<String> {
    match a {
        Action::Capture(v) | Action::Fire(v) => v.clone(),
        _ => panic!("not a command"),
    }
}

fn strs(v: &[&str]) -> Vec<String> {
    v.iter().map(|s| s.to_string()).collect()
}

/// Runs a flow over scripted replies; returns the actions it issued.
fn run(goal: Goal, replies: Vec<Reply>) -> Vec<Action> {
    let mut flow = Flow::new(goal);
    let mut reply = Reply::Done;
    let mut actions = Vec::new();
    let mut script = replies.into_iter();
    loop {
        let (next, action) = flow.step(reply);
        flow = next;
        let done = matches!(action, Action::Finish(_));
        actions.push(action);
        if done {
            return actions;
        }
        reply = script.next().expect("flow asked for more than the script holds");
    }
}

fn finish(actions: &[Action]) -> &Result<Outcome, AudioError> {
    match actions.last() {
        Some(Action::Finish(r)) => r,
        _ => panic!("flow did not finish"),
    }
}

#[test]
fn probe_succeeds() {
    let a = run(Goal::Probe, vec![ok("Server Name: PulseAudio")]);
    assert_eq!(args(&a[0]), strs(&["info"]));
    assert!(matches!(finish(&a), Ok(Outcome::Done)));
}

#[test]
fn probe_fails_without_backend() {
    let a = run(Goal::Probe, vec![failed(b"")]);
    assert!(matches!(finish(&a), Err(AudioError::BackendUnavailable)));
    let a = run(Goal::Probe, vec![spawn_failed()]);
    assert!(matches!(finish(&a), Err(AudioError::BackendUnavailable)));
}

#[test]
fn list_gives_sinks() {
    let a = run(Goal::List, vec![ok(""), listing(&[(1, "a"), (2, "multisink_combined")])]);
    assert_eq!(args(&a[1]), strs(&["list", "sinks", "short"]));
    match finish(&a) {
        Ok(Outcome::Sinks(s)) => {
            assert_eq!(s.len(), 2);
            assert_eq!((s[0].index, s[0].name.as_str(), s[0].pretty_name.as_str(), s[0].is_combined), (1, "a", "a", false));
            assert_eq!((s[1].index, s[1].name.as_str(), s[1].pretty_name.as_str(), s[1].is_combined), (2, "multisink_combined", "multisink_combined", true));
        }
        _ => panic!(),
    }
    // only read-only commands were issued
    assert_eq!(a.len(), 3);
}

#[test]
fn list_reports_unreadable_line() {
    let a = run(Goal::List, vec![ok(""), ok("1\ta\tx\n\nnot a sink line\n2\tb\n")]);
    match finish(&a) {
        Err(AudioError::CommandFailed(m)) => assert_eq!(m, "cannot read sink list line: not a sink line"),
        _ => panic!(),
    }
}

#[test]
fn list_reports_output_that_is_not_utf8() {
    let bad = Reply::Output(CommandOutput { success: true, stdout: vec![0xff], stderr: Vec::new() });
    let a = run(Goal::List, vec![ok(""), bad]);
    assert!(matches!(finish(&a), Err(AudioError::Utf8(_))));
}

#[test]
fn list_reports_failed_command_with_its_error_output() {
    let a = run(Goal::List, vec![ok(""), failed(b"Connection failure\xff")]);
    match finish(&a) {
        Err(AudioError::CommandFailed(m)) => assert_eq!(m, "Connection failure\u{fffd}"),
        _ => panic!(),
    }
}

#[test]
fn list_reports_spawn_failure_as_io() {
    let a = run(Goal::List, vec![ok(""), spawn_failed()]);
    assert!(matches!(finish(&a), Err(AudioError::Io(_))));
}

#[test]
fn enable_runs_the_whole_sequence() {
    let a = run(
        Goal::Enable(None),
        vec![
            ok(""),
            ok(""),
            listing(&[(1, "alsa.a"), (2, "multisink_combined"), (3, "bt.b")]),
            Reply::Done,
            Reply::Done,
            ok(" 536870913\n"),
            Reply::Done,
            Reply::Done,
            Reply::Done,
            ok("7\t1\tx\n9\t2\ty\n"),
            Reply::Done,
            Reply::Done,
        ],
    );
    assert_eq!(args(&a[0]), strs(&["info"]));
    assert_eq!(args(&a[1]), strs(&["info"]));
    assert_eq!(args(&a[2]), strs(&["list", "sinks", "short"]));
    assert_eq!(args(&a[3]), strs(&["set-sink-volume", "alsa.a", "100%"]));
    assert_eq!(args(&a[4]), strs(&["set-sink-volume", "bt.b", "100%"]));
    assert_eq!(
        args(&a[5]),
        strs(&["load-module", "module-combine-sink", "sink_name=multisink_combined", "slaves=alsa.a,bt.b"])
    );
    match &a[6] {
        Action::StoreModuleId(id) => assert_eq!(id, "536870913"),
        _ => panic!(),
    }
    assert_eq!(args(&a[7]), strs(&["set-sink-volume", "multisink_combined", "100%"]));
    assert_eq!(args(&a[8]), strs(&["set-default-sink", "multisink_combined"]));
    assert_eq!(args(&a[9]), strs(&["list", "sink-inputs", "short"]));
    assert_eq!(args(&a[10]), strs(&["move-sink-input", "7", "multisink_combined"]));
    assert_eq!(args(&a[11]), strs(&["move-sink-input", "9", "multisink_combined"]));
    assert!(matches!(finish(&a), Ok(Outcome::Done)));
    assert_eq!(a.len(), 13);
}

#[test]
fn enable_uses_only_selected_sinks() {
    let a = run(
        Goal::Enable(Some(strs(&["c", "a", "zz"]))),
        vec![ok(""), ok(""), listing(&[(1, "a"), (2, "b"), (3, "c")]), Reply::Done, Reply::Done, ok(""), Reply::Done, Reply::Done, failed(b"")],
    );
    assert_eq!(args(&a[3]), strs(&["set-sink-volume", "a", "100%"]));
    assert_eq!(args(&a[4]), strs(&["set-sink-volume", "c", "100%"]));
    assert_eq!(args(&a[5])[3], "slaves=a,c");
    // empty module id: nothing stored, straight to the volume of the combined sink
    assert_eq!(args(&a[6]), strs(&["set-sink-volume", "multisink_combined", "100%"]));
    // a failed stream listing is no error
    assert!(matches!(finish(&a), Ok(Outcome::Done)));
}

#[test]
fn enable_needs_two_sinks() {
    let a = run(Goal::Enable(None), vec![ok(""), ok(""), listing(&[(1, "a"), (2, "multisink_combined")])]);
    assert!(matches!(finish(&a), Err(AudioError::NotEnoughSinks)));
    let a = run(Goal::Enable(Some(strs(&["a"]))), vec![ok(""), ok(""), listing(&[(1, "a"), (2, "b")])]);
    assert!(matches!(finish(&a), Err(AudioError::NotEnoughSinks)));
}

#[test]
fn enable_rejects_output_that_is_not_utf8() {
    let bad = Reply::Output(CommandOutput { success: true, stdout: vec![0xc3, 0x28], stderr: Vec::new() });
    let a = run(
        Goal::Enable(None),
        vec![ok(""), ok(""), listing(&[(1, "a"), (2, "b")]), Reply::Done, Reply::Done, bad],
    );
    assert!(matches!(finish(&a), Err(AudioError::Utf8(_))));
}

#[test]
fn enable_reports_failed_load() {
    let a = run(
        Goal::Enable(None),
        vec![ok(""), ok(""), listing(&[(1, "a"), (2, "b")]), Reply::Done, Reply::Done, failed(b"Failure: Module initialization failed")],
    );
    match finish(&a) {
        Err(AudioError::CommandFailed(m)) => assert_eq!(m, "Failure: Module initialization failed"),
        _ => panic!(),
    }
}

#[test]
fn stored_id_round_trip() {
    let sinks = listing(&[(1, "a"), (2, "b")]);
    let a = run(
        Goal::Enable(None),
        vec![ok(""), ok(""), sinks, Reply::Done, Reply::Done, ok("536870913\n"), Reply::Done, Reply::Done, Reply::Done, ok(""), ],
    );
    let stored = match &a[6] {
        Action::StoreModuleId(id) => id.clone(),
        _ => panic!(),
    };
    let d = run(Goal::Disable, vec![ok(""), Reply::Loaded(Some(stored)), ok(""), Reply::Done]);
    assert_eq!(args(&d[2]), strs(&["unload-module", "536870913"]));
    assert!(matches!(d[3], Action::ForgetModuleId));
    assert!(matches!(finish(&d), Ok(Outcome::Done)));
}

#[test]
fn disable_uses_stored_module_id() {
    let a = run(Goal::Disable, vec![ok(""), Reply::Loaded(Some(" 42\n".to_string())), ok(""), Reply::Done]);
    assert!(matches!(a[1], Action::LoadModuleId));
    assert_eq!(args(&a[2]), strs(&["unload-module", "42"]));
    assert!(matches!(a[3], Action::ForgetModuleId));
    assert!(matches!(finish(&a), Ok(Outcome::Done)));
}

#[test]
fn disable_falls_back_to_module_listing() {
    let listing = "Module #3\nName: module-combine-sink\nArgument: sink_name=multisink_combined\n";
    let a = run(
        Goal::Disable,
        vec![ok(""), Reply::Loaded(Some("42".to_string())), failed(b"No such module"), ok(listing), ok(""), Reply::Done],
    );
    assert_eq!(args(&a[3]), strs(&["list", "modules"]));
    assert_eq!(args(&a[4]), strs(&["unload-module", "3"]));
    assert!(matches!(finish(&a), Ok(Outcome::Done)));
    let a = run(Goal::Disable, vec![ok(""), Reply::Loaded(None), ok(listing), ok(""), Reply::Done]);
    assert_eq!(args(&a[2]), strs(&["list", "modules"]));
    let a = run(Goal::Disable, vec![ok(""), Reply::Loaded(Some("  ".to_string())), ok(listing), ok(""), Reply::Done]);
    assert_eq!(args(&a[2]), strs(&["list", "modules"]));
}

#[test]
fn disable_without_our_module() {
    let a = run(Goal::Disable, vec![ok(""), Reply::Loaded(None), ok("Module #1\nName: module-null-sink\n")]);
    assert!(matches!(finish(&a), Err(AudioError::CombinedNotFound)));
}

#[test]
fn disable_reports_failed_unload_and_io() {
    let listing = "Module #3\nName: module-combine-sink\nArgument: sink_name=multisink_combined\n";
    let a = run(Goal::Disable, vec![ok(""), Reply::Loaded(None), ok(listing), failed(b"denied")]);
    match finish(&a) {
        Err(AudioError::CommandFailed(m)) => assert_eq!(m, "denied"),
        _ => panic!(),
    }
    let a = run(Goal::Disable, vec![ok(""), Reply::Loaded(Some("5".to_string())), spawn_failed()]);
    assert!(matches!(finish(&a), Err(AudioError::Io(_))));
    let a = run(Goal::Disable, vec![ok(""), Reply::Loaded(None), failed(b"x")]);
    assert!(matches!(finish(&a), Err(AudioError::CommandFailed(_))));
}
