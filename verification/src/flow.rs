//! The sequence of `pactl` commands behind each operation, as a state
//! machine: `Flow::step` takes what the last action produced and decides the
//! next action. The caller performs the actions (running `pactl`, touching
//! the module-id file) and hands back the replies.

use vstd::prelude::*;
use vstd::utf8::{decode_utf8, valid_utf8};

use crate::decode::{lossy_text, utf8_lossy};
use crate::error::AudioError;
use crate::pactl::{
    bad_sink_line_text, find_combined_module_id, input_ids, is_our_module,
    lemma_found_module_is_first_ours, loaded_module_id, module_blocks, our_module_id,
    parse_sink_list, raw_is_entries, sink_entries, sink_input_ids, SinkEntry,
    COMBINED_SINK_NAME, COMBINE_MODULE,
};
use crate::sink::{
    chosen_names, select_sink_names, sink_matches_raw, sinks_from_raw, sinks_match, Sink,
};
use crate::text::{join_with, joined_by, lemma_trim_idempotent, lines, texts, trim, trim_text};

verus! {

/// The operation a flow carries out.
pub enum Goal {
    /// See whether `pactl` can talk to the sound server.
    Probe,
    /// List the sinks.
    List,
    /// Create the combined sink, from the selected sinks or from all.
    Enable(Option<Vec<String>>),
    /// Remove the combined sink.
    Disable,
}

/// Where a flow stands: what it waits for.
pub enum Phase {
    /// Nothing done yet.
    Start,
    /// Waiting for `pactl info`; `true` when another probe follows.
    AwaitInfo(bool),
    /// Waiting for `pactl list sinks short`.
    AwaitSinkList,
    /// Raising the volume of the chosen sinks, in order; the next one to raise.
    RaisingVolumes(Vec<String>, usize),
    /// Waiting for `pactl load-module`.
    AwaitLoad,
    /// Waiting for the module id to be stored.
    StoringId,
    /// Raising the volume of the combined sink.
    RaisingCombined,
    /// Making the combined sink the default.
    SettingDefault,
    /// Waiting for `pactl list sink-inputs short`.
    AwaitInputs,
    /// Moving the listed streams to the combined sink; the next one to move.
    Moving(Vec<String>, usize),
    /// Waiting for the stored module id.
    AwaitStoredId,
    /// Waiting for the unload of the stored module id.
    AwaitStoredUnload,
    /// Waiting for `pactl list modules`.
    AwaitModules,
    /// Waiting for the unload of the module found in the listing.
    AwaitUnload,
    /// Waiting for the stored module id to be removed.
    Forgetting,
    /// The flow has given its result.
    Finished,
}

/// What a finished flow gives back.
pub enum Outcome {
    /// The operation was carried out.
    Done,
    /// The sinks that were listed.
    Sinks(Vec<Sink>),
}

/// What `pactl` produced when it ran.
pub struct CommandOutput {
    pub success: bool,
    pub stdout: Vec<u8>,
    pub stderr: Vec<u8>,
}

/// What the caller does next.
pub enum Action {
    /// Run `pactl` with these arguments and reply with its output
    /// (or with the error that kept it from starting).
    Capture(Vec<String>),
    /// Run `pactl` with these arguments, ignore how it went, reply `Done`.
    Fire(Vec<String>),
    /// Store this module id in the module-id file (failures ignored), reply `Done`.
    StoreModuleId(String),
    /// Read the module-id file and reply `Loaded`.
    LoadModuleId,
    /// Remove the module-id file (failures ignored), reply `Done`.
    ForgetModuleId,
    /// The operation is over, with this result.
    Finish(Result<Outcome, AudioError>),
}

/// What the last action produced.
pub enum Reply {
    /// `pactl` ran and produced this.
    Output(CommandOutput),
    /// `pactl` could not be started.
    SpawnFailed(std::io::Error),
    /// The action is done (also the reply that starts a flow).
    Done,
    /// The contents of the module-id file, `None` when it could not be read.
    Loaded(Option<String>),
}

/// A running operation.
pub struct Flow {
    pub goal: Goal,
    pub phase: Phase,
}

// ----- argument lists -----

pub open spec fn info_args() -> Seq<Seq<char>> {
    seq!["info"@]
}

pub open spec fn list_sinks_args() -> Seq<Seq<char>> {
    seq!["list"@, "sinks"@, "short"@]
}

pub open spec fn volume_args(sink: Seq<char>) -> Seq<Seq<char>> {
    seq!["set-sink-volume"@, sink, "100%"@]
}

pub open spec fn load_args(slaves: Seq<char>) -> Seq<Seq<char>> {
    seq!["load-module"@, COMBINE_MODULE@, "sink_name="@ + COMBINED_SINK_NAME@, "slaves="@ + slaves]
}

pub open spec fn default_args() -> Seq<Seq<char>> {
    seq!["set-default-sink"@, COMBINED_SINK_NAME@]
}

pub open spec fn list_inputs_args() -> Seq<Seq<char>> {
    seq!["list"@, "sink-inputs"@, "short"@]
}

pub open spec fn move_args(id: Seq<char>) -> Seq<Seq<char>> {
    seq!["move-sink-input"@, id, COMBINED_SINK_NAME@]
}

pub open spec fn unload_args(id: Seq<char>) -> Seq<Seq<char>> {
    seq!["unload-module"@, id]
}

pub open spec fn list_modules_args() -> Seq<Seq<char>> {
    seq!["list"@, "modules"@]
}

// ----- the protocol -----

/// Whether `r` is a reply that action `a` can produce.
pub open spec fn answers(a: Action, r: Reply) -> bool {
    match a {
        Action::Capture(_) => r is Output || r is SpawnFailed,
        Action::Fire(_) | Action::StoreModuleId(_) | Action::ForgetModuleId => r is Done,
        Action::LoadModuleId => r is Loaded,
        Action::Finish(_) => false,
    }
}

impl Flow {
    /// The replies this flow can take in its current phase.
    pub open spec fn awaits(self, r: Reply) -> bool {
        match self.phase {
            Phase::Start => r is Done,
            Phase::AwaitInfo(_) | Phase::AwaitSinkList | Phase::AwaitLoad | Phase::AwaitInputs
            | Phase::AwaitStoredUnload | Phase::AwaitModules | Phase::AwaitUnload => r is Output
                || r is SpawnFailed,
            Phase::AwaitStoredId => r is Loaded,
            Phase::RaisingVolumes(_, _) | Phase::StoringId | Phase::RaisingCombined
            | Phase::SettingDefault | Phase::Moving(_, _) | Phase::Forgetting => r is Done,
            Phase::Finished => false,
        }
    }

    /// The phases agree with the goal, and the list positions are in range.
    pub open spec fn wf(self) -> bool {
        match self.phase {
            Phase::AwaitInfo(again) => again ==> self.goal is Enable,
            Phase::AwaitSinkList => self.goal is List || self.goal is Enable,
            Phase::RaisingVolumes(names, next) => self.goal is Enable && 1 <= next <= names@.len()
                && names@.len() >= 2,
            Phase::AwaitLoad | Phase::StoringId | Phase::RaisingCombined | Phase::SettingDefault
            | Phase::AwaitInputs => self.goal is Enable,
            Phase::Moving(ids, next) => self.goal is Enable && 1 <= next <= ids@.len(),
            Phase::AwaitStoredId | Phase::AwaitStoredUnload | Phase::AwaitModules
            | Phase::AwaitUnload | Phase::Forgetting => self.goal is Disable,
            Phase::Start | Phase::Finished => true,
        }
    }

    /// A flow at its start.
    pub fn new(goal: Goal) -> (f: Flow)
        ensures
            f.goal == goal,
            f.phase is Start,
            f.wf(),
    {
        Flow { goal, phase: Phase::Start }
    }
}

/// Position of a phase in the order in which a flow passes through them.
pub open spec fn rank(p: Phase) -> nat {
    match p {
        Phase::Start => 20,
        Phase::AwaitInfo(again) => if again {
            19
        } else {
            18
        },
        Phase::AwaitSinkList => 17,
        Phase::RaisingVolumes(_, _) => 15,
        Phase::AwaitLoad => 14,
        Phase::StoringId => 13,
        Phase::RaisingCombined => 12,
        Phase::SettingDefault => 11,
        Phase::AwaitInputs => 10,
        Phase::Moving(_, _) => 9,
        Phase::AwaitStoredId => 8,
        Phase::AwaitStoredUnload => 7,
        Phase::AwaitModules => 6,
        Phase::AwaitUnload => 5,
        Phase::Forgetting => 4,
        Phase::Finished => 0,
    }
}

/// How many list items a phase still has to go through.
pub open spec fn items_left(p: Phase) -> int {
    match p {
        Phase::RaisingVolumes(names, next) => names@.len() - next,
        Phase::Moving(ids, next) => ids@.len() - next,
        _ => 0,
    }
}

/// A step moves to a later phase, or stays in a list phase with fewer items left.
pub open spec fn progresses(pre: Phase, post: Phase) -> bool {
    ||| rank(post) < rank(pre)
    ||| rank(post) == rank(pre) && 0 <= items_left(post) < items_left(pre)
}

pub open spec fn captures(a: Action, args: Seq<Seq<char>>) -> bool {
    a matches Action::Capture(v) && texts(v@) == args
}

pub open spec fn fires(a: Action, args: Seq<Seq<char>>) -> bool {
    a matches Action::Fire(v) && texts(v@) == args
}

pub open spec fn finishes(post: Flow, a: Action) -> bool {
    post.phase is Finished && a is Finish
}

pub open spec fn finishes_done(post: Flow, a: Action) -> bool {
    post.phase is Finished && a matches Action::Finish(Ok(Outcome::Done))
}

pub open spec fn finishes_err(post: Flow, a: Action, e: AudioError) -> bool {
    post.phase is Finished && a == Action::Finish(Err(e))
}

/// Ends with `CommandFailed`, carrying the command's error output.
pub open spec fn finishes_failed_run(post: Flow, a: Action, o: CommandOutput) -> bool {
    post.phase is Finished && (a matches Action::Finish(Err(AudioError::CommandFailed(d))) && d@
        == utf8_lossy(o.stderr@))
}

/// Ends with `Utf8`.
pub open spec fn finishes_bad_text(post: Flow, a: Action) -> bool {
    post.phase is Finished && a matches Action::Finish(Err(AudioError::Utf8(_)))
}

/// The names of the sinks to combine, read from the entries of the sink list:
/// entries that are not our combined sink and, when a selection is given, are
/// named in it.
pub open spec fn chosen_entries(es: Seq<SinkEntry>, selected: Option<Seq<Seq<char>>>) -> Seq<
    Seq<char>,
>
    decreases es.len(),
{
    if es.len() == 0 {
        Seq::empty()
    } else {
        let rest = chosen_entries(es.drop_last(), selected);
        let e = es.last();
        let wanted = match selected {
            Some(sel) => sel.contains(e.name),
            None => true,
        };
        if wanted && e.name != COMBINED_SINK_NAME@ {
            rest.push(e.name)
        } else {
            rest
        }
    }
}

/// A sink made from a listed entry: same index and name, the name as pretty
/// name, and marked combined exactly when the name is ours.
pub open spec fn sink_shows_entry(s: Sink, e: SinkEntry) -> bool {
    &&& s.index == e.index
    &&& s.name@ == e.name
    &&& s.pretty_name@ == e.name
    &&& s.is_combined == (e.name == COMBINED_SINK_NAME@)
}

/// The sinks correspond one to one, in order, to the listed entries.
pub open spec fn sinks_show(sinks: Seq<Sink>, es: Seq<SinkEntry>) -> bool {
    &&& sinks.len() == es.len()
    &&& forall|i: int| 0 <= i < es.len() ==> sink_shows_entry(#[trigger] sinks[i], es[i])
}

pub open spec fn opt_vec_texts(o: Option<Vec<String>>) -> Option<Seq<Seq<char>>> {
    match o {
        Some(v) => Some(texts(v@)),
        None => None,
    }
}

/// What one step does, phase by phase.
pub open spec fn transition(pre: Flow, r: Reply, post: Flow, a: Action) -> bool {
    &&& post.goal == pre.goal
    &&& match pre.phase {
        Phase::Start => post.phase == Phase::AwaitInfo(pre.goal is Enable) && captures(
            a,
            info_args(),
        ),
        Phase::AwaitInfo(again) => if r matches Reply::Output(o) && o.success {
            if again {
                post.phase == Phase::AwaitInfo(false) && captures(a, info_args())
            } else {
                match pre.goal {
                    Goal::Probe => finishes_done(post, a),
                    Goal::Disable => post.phase is AwaitStoredId && a is LoadModuleId,
                    _ => post.phase is AwaitSinkList && captures(a, list_sinks_args()),
                }
            }
        } else {
            finishes_err(post, a, AudioError::BackendUnavailable)
        },
        Phase::AwaitSinkList => match r {
            Reply::SpawnFailed(e) => finishes_err(post, a, AudioError::Io(e)),
            Reply::Output(o) => if !o.success {
                finishes_failed_run(post, a, o)
            } else if !valid_utf8(o.stdout@) {
                finishes_bad_text(post, a)
            } else {
                match sink_entries(lines(decode_utf8(o.stdout@))) {
                    Err(bad) => post.phase is Finished && (a matches Action::Finish(
                        Err(AudioError::CommandFailed(d)),
                    ) && d@ == bad_sink_line_text(bad)),
                    Ok(es) => match pre.goal {
                        Goal::Enable(sel) => {
                            let names = chosen_entries(es, opt_vec_texts(sel));
                            if names.len() < 2 {
                                finishes_err(post, a, AudioError::NotEnoughSinks)
                            } else {
                                &&& post.phase matches Phase::RaisingVolumes(v, next) && texts(v@)
                                    == names && next == 1
                                &&& fires(a, volume_args(names[0]))
                            }
                        },
                        _ => post.phase is Finished && (a matches Action::Finish(
                            Ok(Outcome::Sinks(v)),
                        ) && sinks_show(v@, es)),
                    },
                }
            },
            _ => true,
        },
        Phase::RaisingVolumes(names, next) => if next < names@.len() {
            &&& post.phase matches Phase::RaisingVolumes(v, n) && v@ == names@ && n == next + 1
            &&& fires(a, volume_args(names@[next as int]@))
        } else {
            post.phase is AwaitLoad && captures(a, load_args(joined_by(texts(names@), ","@)))
        },
        Phase::AwaitLoad => match r {
            Reply::SpawnFailed(e) => finishes_err(post, a, AudioError::Io(e)),
            Reply::Output(o) => if !o.success {
                finishes_failed_run(post, a, o)
            } else if !valid_utf8(o.stdout@) {
                finishes_bad_text(post, a)
            } else {
                let id = trim(decode_utf8(o.stdout@));
                if id.len() > 0 {
                    post.phase is StoringId && (a matches Action::StoreModuleId(s) && s@ == id)
                } else {
                    post.phase is RaisingCombined && fires(a, volume_args(COMBINED_SINK_NAME@))
                }
            },
            _ => true,
        },
        Phase::StoringId => post.phase is RaisingCombined && fires(
            a,
            volume_args(COMBINED_SINK_NAME@),
        ),
        Phase::RaisingCombined => post.phase is SettingDefault && fires(a, default_args()),
        Phase::SettingDefault => post.phase is AwaitInputs && captures(a, list_inputs_args()),
        Phase::AwaitInputs => match r {
            Reply::SpawnFailed(e) => finishes_err(post, a, AudioError::Io(e)),
            Reply::Output(o) => if !o.success {
                finishes_done(post, a)
            } else if !valid_utf8(o.stdout@) {
                finishes_bad_text(post, a)
            } else {
                let ids = input_ids(lines(decode_utf8(o.stdout@)));
                if ids.len() == 0 {
                    finishes_done(post, a)
                } else {
                    &&& post.phase matches Phase::Moving(v, next) && texts(v@) == ids && next == 1
                    &&& fires(a, move_args(ids[0]))
                }
            },
            _ => true,
        },
        Phase::Moving(ids, next) => if next < ids@.len() {
            &&& post.phase matches Phase::Moving(v, n) && v@ == ids@ && n == next + 1
            &&& fires(a, move_args(ids@[next as int]@))
        } else {
            finishes_done(post, a)
        },
        Phase::AwaitStoredId => match r {
            Reply::Loaded(Some(s)) if trim(s@).len() > 0 => post.phase is AwaitStoredUnload
                && captures(a, unload_args(trim(s@))),
            _ => post.phase is AwaitModules && captures(a, list_modules_args()),
        },
        Phase::AwaitStoredUnload => match r {
            Reply::SpawnFailed(e) => finishes_err(post, a, AudioError::Io(e)),
            Reply::Output(o) => if o.success {
                post.phase is Forgetting && a is ForgetModuleId
            } else {
                post.phase is AwaitModules && captures(a, list_modules_args())
            },
            _ => true,
        },
        Phase::AwaitModules => match r {
            Reply::SpawnFailed(e) => finishes_err(post, a, AudioError::Io(e)),
            Reply::Output(o) => if !o.success {
                finishes_failed_run(post, a, o)
            } else if !valid_utf8(o.stdout@) {
                finishes_bad_text(post, a)
            } else {
                match our_module_id(decode_utf8(o.stdout@)) {
                    None => finishes_err(post, a, AudioError::CombinedNotFound),
                    Some(id) => post.phase is AwaitUnload && captures(a, unload_args(id)),
                }
            },
            _ => true,
        },
        Phase::AwaitUnload => match r {
            Reply::SpawnFailed(e) => finishes_err(post, a, AudioError::Io(e)),
            Reply::Output(o) => if o.success {
                post.phase is Forgetting && a is ForgetModuleId
            } else {
                finishes_failed_run(post, a, o)
            },
            _ => true,
        },
        Phase::Forgetting => finishes_done(post, a),
        Phase::Finished => true,
    }
}


// ----- building the argument lists -----

fn one_arg(a: &str) -> (v: Vec<String>)
    ensures
        texts(v@) == seq![a@],
{
    let mut v: Vec<String> = Vec::new();
    v.push(String::from_str(a));
    assert(texts(v@) =~= seq![a@]);
    v
}

fn two_args(a: &str, b: &str) -> (v: Vec<String>)
    ensures
        texts(v@) == seq![a@, b@],
{
    let mut v: Vec<String> = Vec::new();
    v.push(String::from_str(a));
    v.push(String::from_str(b));
    assert(texts(v@) =~= seq![a@, b@]);
    v
}

fn three_args(a: &str, b: &str, c: &str) -> (v: Vec<String>)
    ensures
        texts(v@) == seq![a@, b@, c@],
{
    let mut v: Vec<String> = Vec::new();
    v.push(String::from_str(a));
    v.push(String::from_str(b));
    v.push(String::from_str(c));
    assert(texts(v@) =~= seq![a@, b@, c@]);
    v
}

/// The arguments that load the combine module over `slaves`.
fn load_command(names: &Vec<String>) -> (v: Vec<String>)
    ensures
        texts(v@) == load_args(joined_by(texts(names@), ","@)),
{
    let slaves = join_with(names, ",");
    let mut v: Vec<String> = Vec::new();
    v.push(String::from_str("load-module"));
    v.push(String::from_str(COMBINE_MODULE));
    v.push(String::from_str("sink_name=").concat(COMBINED_SINK_NAME));
    v.push(String::from_str("slaves=").concat(slaves.as_str()));
    assert(texts(v@) =~= load_args(joined_by(texts(names@), ","@)));
    v
}


proof fn lemma_chosen_from_entries(sinks: Seq<Sink>, es: Seq<SinkEntry>, sel: Option<Seq<Seq<char>>>)
    requires
        sinks_show(sinks, es),
    ensures
        chosen_names(sinks, sel) == chosen_entries(es, sel),
    decreases es.len(),
{
    if es.len() > 0 {
        let s2 = sinks.drop_last();
        let e2 = es.drop_last();
        assert forall|i: int| 0 <= i < e2.len() implies sink_shows_entry(#[trigger] s2[i], e2[i]) by {
            assert(sink_shows_entry(sinks[i], es[i]));
        }
        lemma_chosen_from_entries(s2, e2, sel);
        assert(sink_shows_entry(sinks[es.len() - 1], es[es.len() - 1]));
    }
}

proof fn lemma_sinks_show_entries(sinks: Seq<Sink>, raw: Seq<crate::sink::PactlSink>, es: Seq<SinkEntry>)
    requires
        sinks_match(sinks, raw),
        raw_is_entries(raw, es),
    ensures
        sinks_show(sinks, es),
{
    assert forall|i: int| 0 <= i < es.len() implies sink_shows_entry(#[trigger] sinks[i], es[i]) by {
        assert(sink_matches_raw(sinks[i], raw[i]));
        assert(raw[i].index == es[i].index);
    }
}

fn finished(goal: Goal, result: Result<Outcome, AudioError>) -> (res: (Flow, Action))
    ensures
        res.0.goal == goal,
        res.0.phase is Finished,
        res.1 == Action::Finish(result),
{
    (Flow { goal, phase: Phase::Finished }, Action::Finish(result))
}

fn failed_run(goal: Goal, o: CommandOutput) -> (res: (Flow, Action))
    ensures
        res.0.goal == goal,
        finishes_failed_run(res.0, res.1, o),
{
    let detail = lossy_text(o.stderr.as_slice());
    finished(goal, Err(AudioError::CommandFailed(detail)))
}

impl Flow {
    /// Takes the reply to the last action (`Reply::Done` to start) and
    /// gives the next action, as `transition` describes.
    pub fn step(self, reply: Reply) -> (res: (Flow, Action))
        requires
            self.wf(),
            self.awaits(reply),
        ensures
            res.0.wf(),
            transition(self, reply, res.0, res.1),
            progresses(self.phase, res.0.phase),
            res.1 is Finish <==> res.0.phase is Finished,
            forall|r: Reply| answers(res.1, r) ==> res.0.awaits(r),
    {
        let ghost pre = self;
        let Flow { goal, phase } = self;
        match phase {
            Phase::Start => {
                let again = match &goal {
                    Goal::Enable(_) => true,
                    _ => false,
                };
                (Flow { goal, phase: Phase::AwaitInfo(again) }, Action::Capture(one_arg("info")))
            },
            Phase::AwaitInfo(again) => {
                let ok = match &reply {
                    Reply::Output(o) => o.success,
                    _ => false,
                };
                if !ok {
                    finished(goal, Err(AudioError::BackendUnavailable))
                } else if again {
                    (Flow { goal, phase: Phase::AwaitInfo(false) }, Action::Capture(one_arg("info")))
                } else {
                    match goal {
                        Goal::Probe => finished(Goal::Probe, Ok(Outcome::Done)),
                        Goal::Disable => (
                            Flow { goal: Goal::Disable, phase: Phase::AwaitStoredId },
                            Action::LoadModuleId,
                        ),
                        g => (
                            Flow { goal: g, phase: Phase::AwaitSinkList },
                            Action::Capture(three_args("list", "sinks", "short")),
                        ),
                    }
                }
            },
            Phase::AwaitSinkList => match reply {
                Reply::SpawnFailed(e) => finished(goal, Err(AudioError::Io(e))),
                Reply::Output(o) => if !o.success {
                    failed_run(goal, o)
                } else {
                    match String::from_utf8(o.stdout) {
                        Err(e) => finished(goal, Err(AudioError::Utf8(e))),
                        Ok(text) => match parse_sink_list(text.as_str()) {
                            Err(m) => finished(goal, Err(AudioError::CommandFailed(m))),
                            Ok(raw) => {
                                let sinks = sinks_from_raw(&raw);
                                let ghost es = sink_entries(lines(text@))->Ok_0;
                                proof {
                                    lemma_sinks_show_entries(sinks@, raw@, es);
                                }
                                match goal {
                                    Goal::Enable(sel) => {
                                        let names = match &sel {
                                            Some(v) => select_sink_names(&sinks, Some(v.as_slice())),
                                            None => select_sink_names(&sinks, None),
                                        };
                                        proof {
                                            lemma_chosen_from_entries(sinks@, es, opt_vec_texts(sel));
                                        }
                                        if names.len() < 2 {
                                            finished(Goal::Enable(sel), Err(AudioError::NotEnoughSinks))
                                        } else {
                                            let first = three_args(
                                                "set-sink-volume",
                                                names[0].as_str(),
                                                "100%",
                                            );
                                            (
                                                Flow {
                                                    goal: Goal::Enable(sel),
                                                    phase: Phase::RaisingVolumes(names, 1),
                                                },
                                                Action::Fire(first),
                                            )
                                        }
                                    },
                                    g => finished(g, Ok(Outcome::Sinks(sinks))),
                                }
                            },
                        },
                    }
                },
                _ => finished(goal, Ok(Outcome::Done)),
            },
            Phase::RaisingVolumes(names, next) => {
                if next < names.len() {
                    let cmd = three_args("set-sink-volume", names[next].as_str(), "100%");
                    (Flow { goal, phase: Phase::RaisingVolumes(names, next + 1) }, Action::Fire(cmd))
                } else {
                    let cmd = load_command(&names);
                    (Flow { goal, phase: Phase::AwaitLoad }, Action::Capture(cmd))
                }
            },
            Phase::AwaitLoad => match reply {
                Reply::SpawnFailed(e) => finished(goal, Err(AudioError::Io(e))),
                Reply::Output(o) => if !o.success {
                    failed_run(goal, o)
                } else {
                    match String::from_utf8(o.stdout) {
                        Err(e) => finished(goal, Err(AudioError::Utf8(e))),
                        Ok(text) => {
                            let id = loaded_module_id(text.as_str());
                            if !id.as_str().is_empty() {
                                (Flow { goal, phase: Phase::StoringId }, Action::StoreModuleId(id))
                            } else {
                                let cmd = three_args("set-sink-volume", COMBINED_SINK_NAME, "100%");
                                (Flow { goal, phase: Phase::RaisingCombined }, Action::Fire(cmd))
                            }
                        },
                    }
                },
                _ => finished(goal, Ok(Outcome::Done)),
            },
            Phase::StoringId => {
                let cmd = three_args("set-sink-volume", COMBINED_SINK_NAME, "100%");
                (Flow { goal, phase: Phase::RaisingCombined }, Action::Fire(cmd))
            },
            Phase::RaisingCombined => {
                let cmd = two_args("set-default-sink", COMBINED_SINK_NAME);
                (Flow { goal, phase: Phase::SettingDefault }, Action::Fire(cmd))
            },
            Phase::SettingDefault => {
                let cmd = three_args("list", "sink-inputs", "short");
                (Flow { goal, phase: Phase::AwaitInputs }, Action::Capture(cmd))
            },
            Phase::AwaitInputs => match reply {
                Reply::SpawnFailed(e) => finished(goal, Err(AudioError::Io(e))),
                Reply::Output(o) => if !o.success {
                    finished(goal, Ok(Outcome::Done))
                } else {
                    match String::from_utf8(o.stdout) {
                        Err(e) => finished(goal, Err(AudioError::Utf8(e))),
                        Ok(text) => {
                            let ids = sink_input_ids(text.as_str());
                            if ids.len() == 0 {
                                finished(goal, Ok(Outcome::Done))
                            } else {
                                let cmd = three_args("move-sink-input", ids[0].as_str(), COMBINED_SINK_NAME);
                                (Flow { goal, phase: Phase::Moving(ids, 1) }, Action::Fire(cmd))
                            }
                        },
                    }
                },
                _ => finished(goal, Ok(Outcome::Done)),
            },
            Phase::Moving(ids, next) => {
                if next < ids.len() {
                    let cmd = three_args("move-sink-input", ids[next].as_str(), COMBINED_SINK_NAME);
                    (Flow { goal, phase: Phase::Moving(ids, next + 1) }, Action::Fire(cmd))
                } else {
                    finished(goal, Ok(Outcome::Done))
                }
            },
            Phase::AwaitStoredId => {
                let stored = match reply {
                    Reply::Loaded(Some(s)) => {
                        let id = trim_text(s.as_str());
                        if !id.as_str().is_empty() {
                            Some(id)
                        } else {
                            None
                        }
                    },
                    _ => None,
                };
                match stored {
                    Some(id) => {
                        let cmd = two_args("unload-module", id.as_str());
                        (Flow { goal, phase: Phase::AwaitStoredUnload }, Action::Capture(cmd))
                    },
                    None => {
                        let cmd = two_args("list", "modules");
                        (Flow { goal, phase: Phase::AwaitModules }, Action::Capture(cmd))
                    },
                }
            },
            Phase::AwaitStoredUnload => match reply {
                Reply::SpawnFailed(e) => finished(goal, Err(AudioError::Io(e))),
                Reply::Output(o) => if o.success {
                    (Flow { goal, phase: Phase::Forgetting }, Action::ForgetModuleId)
                } else {
                    let cmd = two_args("list", "modules");
                    (Flow { goal, phase: Phase::AwaitModules }, Action::Capture(cmd))
                },
                _ => finished(goal, Ok(Outcome::Done)),
            },
            Phase::AwaitModules => match reply {
                Reply::SpawnFailed(e) => finished(goal, Err(AudioError::Io(e))),
                Reply::Output(o) => if !o.success {
                    failed_run(goal, o)
                } else {
                    match String::from_utf8(o.stdout) {
                        Err(e) => finished(goal, Err(AudioError::Utf8(e))),
                        Ok(text) => match find_combined_module_id(text.as_str()) {
                            None => finished(goal, Err(AudioError::CombinedNotFound)),
                            Some(id) => {
                                let cmd = two_args("unload-module", id.as_str());
                                (Flow { goal, phase: Phase::AwaitUnload }, Action::Capture(cmd))
                            },
                        },
                    }
                },
                _ => finished(goal, Ok(Outcome::Done)),
            },
            Phase::AwaitUnload => match reply {
                Reply::SpawnFailed(e) => finished(goal, Err(AudioError::Io(e))),
                Reply::Output(o) => if o.success {
                    (Flow { goal, phase: Phase::Forgetting }, Action::ForgetModuleId)
                } else {
                    failed_run(goal, o)
                },
                _ => finished(goal, Ok(Outcome::Done)),
            },
            Phase::Forgetting => finished(goal, Ok(Outcome::Done)),
            Phase::Finished => finished(goal, Ok(Outcome::Done)),
        }
    }
}


/// Enable loads the combine module only over a choice of at least two sinks,
/// and the module's `slaves` are exactly those sinks, comma-separated.
pub proof fn lemma_load_needs_two_sinks(pre: Flow, r: Reply, post: Flow, a: Action)
    requires
        pre.wf(),
        pre.awaits(r),
        transition(pre, r, post, a),
        post.phase is AwaitLoad,
    ensures
        pre.phase matches Phase::RaisingVolumes(names, _) && names@.len() >= 2 && captures(
            a,
            load_args(joined_by(texts(names@), ","@)),
        ),
{
}


/// When disable unloads a module found in the module listing, that module is
/// a `module-combine-sink` block of the listing whose arguments name our sink
/// (the first such block).
pub proof fn lemma_unload_targets_our_module(pre: Flow, r: Reply, post: Flow, a: Action)
    requires
        pre.phase is AwaitModules,
        pre.awaits(r),
        transition(pre, r, post, a),
        post.phase is AwaitUnload,
    ensures
        r matches Reply::Output(o) && valid_utf8(o.stdout@) && exists|i: int|
            0 <= i < module_blocks(lines(decode_utf8(o.stdout@))).len() && is_our_module(
                #[trigger] module_blocks(lines(decode_utf8(o.stdout@)))[i],
            ) && captures(a, unload_args(module_blocks(lines(decode_utf8(o.stdout@)))[i].id)),
{
    if let Reply::Output(o) = r {
        lemma_found_module_is_first_ours(module_blocks(lines(decode_utf8(o.stdout@))));
    }
}


/// The module id that enable stores is the one that disable later unloads:
/// when the module-id file gives back what enable stored, disable's first
/// command is `unload-module` with exactly that id (the trimmed output of
/// `pactl load-module`).
pub proof fn lemma_stored_id_round_trip(
    load: Flow,
    load_reply: Reply,
    after_load: Flow,
    store: Action,
    disable: Flow,
    loaded: Reply,
    after_read: Flow,
    a: Action,
)
    requires
        load.phase is AwaitLoad,
        load.awaits(load_reply),
        transition(load, load_reply, after_load, store),
        store matches Action::StoreModuleId(_),
        disable.phase is AwaitStoredId,
        loaded matches Reply::Loaded(Some(text)) && text@ == store->StoreModuleId_0@,
        transition(disable, loaded, after_read, a),
    ensures
        load_reply matches Reply::Output(o) && store->StoreModuleId_0@ == trim(decode_utf8(o.stdout@)),
        after_read.phase is AwaitStoredUnload,
        captures(a, unload_args(store->StoreModuleId_0@)),
{
    let id = store->StoreModuleId_0@;
    if let Reply::Output(o) = load_reply {
        lemma_trim_idempotent(decode_utf8(o.stdout@));
    }
    assert(trim(id) == id);
}

/// An action that changes nothing: the end, or running `pactl info` or
/// `pactl list sinks short`.
pub open spec fn is_read_only(a: Action) -> bool {
    ||| a is Finish
    ||| captures(a, info_args())
    ||| captures(a, list_sinks_args())
}

/// Probing and listing only read: every action of such a flow is `pactl
/// info`, `pactl list sinks short` or the end; no sink, module, default sink
/// or module-id file is touched.
pub proof fn lemma_list_is_read_only(pre: Flow, r: Reply, post: Flow, a: Action)
    requires
        pre.wf(),
        pre.awaits(r),
        transition(pre, r, post, a),
        pre.goal is List || pre.goal is Probe,
    ensures
        is_read_only(a),
        post.goal == pre.goal,
{
}


/// Whether a listed entry is to be combined: it is not our combined sink and,
/// when a selection is given, the selection names it.
pub open spec fn entry_eligible(selected: Option<Seq<Seq<char>>>) -> spec_fn(SinkEntry) -> bool {
    |e: SinkEntry|
        e.name != COMBINED_SINK_NAME@ && match selected {
            Some(sel) => sel.contains(e.name),
            None => true,
        }
}

/// The name of a listed entry.
pub open spec fn entry_name() -> spec_fn(SinkEntry) -> Seq<char> {
    |e: SinkEntry| e.name
}

/// Enable combines the eligible listed sinks, each once, in listing order.
pub proof fn lemma_chosen_entries_in_order(es: Seq<SinkEntry>, selected: Option<Seq<Seq<char>>>)
    ensures
        chosen_entries(es, selected) == es.filter(entry_eligible(selected)).map_values(entry_name()),
    decreases es.len(),
{
    reveal(Seq::filter);
    if es.len() > 0 {
        lemma_chosen_entries_in_order(es.drop_last(), selected);
        let f = es.drop_last().filter(entry_eligible(selected));
        assert(f.push(es.last()).map_values(entry_name()) =~= f.map_values(entry_name()).push(
            es.last().name,
        ));
    } else {
        assert(es.filter(entry_eligible(selected)).map_values(entry_name()) =~= Seq::<Seq<char>>::empty());
    }
}

} // verus!
