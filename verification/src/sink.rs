//! Audio outputs ("sinks") and which of them to combine.

use vstd::prelude::*;

use crate::pactl::COMBINED_SINK_NAME;
use crate::text::texts;

verus! {

/// An audio output as this tool shows it.
#[derive(Debug, Clone)]
pub struct Sink {
    pub index: u32,
    pub name: String,
    pub pretty_name: String,
    pub is_combined: bool,
}

/// One line of `pactl list sinks short`, with the fields read from it.
#[derive(Debug, Clone)]
pub struct PactlSink {
    pub index: u32,
    pub name: String,
}

/// What `sink_from_raw` makes of one entry: same index and name, the name as
/// pretty name too (the short listing has no description), and marked
/// combined exactly when its name is ours.
pub open spec fn sink_matches_raw(s: Sink, r: PactlSink) -> bool {
    &&& s.index == r.index
    &&& s.name@ == r.name@
    &&& s.pretty_name@ == r.name@
    &&& s.is_combined == (r.name@ == COMBINED_SINK_NAME@)
}

/// The sink that one `pactl` entry describes.
pub fn sink_from_raw(raw: &PactlSink) -> (s: Sink)
    ensures
        sink_matches_raw(s, *raw),
{
    let ours = String::from_str(COMBINED_SINK_NAME);
    let is_combined = raw.name == ours;
    let pretty_name = raw.name.clone();
    Sink { index: raw.index, name: raw.name.clone(), pretty_name, is_combined }
}

/// The sinks that the lines of `pactl list sinks short` describe, in order.
pub fn sinks_from_raw(raw: &Vec<PactlSink>) -> (sinks: Vec<Sink>)
    ensures
        sinks@.len() == raw@.len(),
        forall|i: int| 0 <= i < raw@.len() ==> sink_matches_raw(#[trigger] sinks@[i], raw@[i]),
{
    let mut sinks: Vec<Sink> = Vec::new();
    let mut i: usize = 0;
    while i < raw.len()
        invariant
            i <= raw@.len(),
            sinks@.len() == i,
            forall|j: int| 0 <= j < i ==> sink_matches_raw(#[trigger] sinks@[j], raw@[j]),
        decreases raw@.len() - i,
    {
        sinks.push(sink_from_raw(&raw[i]));
        i = i + 1;
    }
    sinks
}

/// The sinks correspond one to one, in order, to the entries of the list.
pub open spec fn sinks_match(sinks: Seq<Sink>, raw: Seq<PactlSink>) -> bool {
    &&& sinks.len() == raw.len()
    &&& forall|i: int| 0 <= i < raw.len() ==> sink_matches_raw(#[trigger] sinks[i], raw[i])
}

/// Whether some sink carries the name of our combined sink.
pub open spec fn has_combined(sinks: Seq<Sink>) -> bool {
    exists|i: int| 0 <= i < sinks.len() && #[trigger] sinks[i].name@ == COMBINED_SINK_NAME@
}

/// Whether our combined sink is among `sinks`.
pub fn combined_sink_exists(sinks: &Vec<Sink>) -> (b: bool)
    ensures
        b == has_combined(sinks@),
{
    let ours = String::from_str(COMBINED_SINK_NAME);
    let mut i: usize = 0;
    while i < sinks.len()
        invariant
            i <= sinks@.len(),
            ours@ == COMBINED_SINK_NAME@,
            forall|j: int| 0 <= j < i ==> #[trigger] sinks@[j].name@ != COMBINED_SINK_NAME@,
        decreases sinks@.len() - i,
    {
        if sinks[i].name == ours {
            return true;
        }
        i = i + 1;
    }
    false
}

/// The names of the sinks to combine: those not marked combined and, when
/// `selected` is given, named in it; in the order of `sinks`.
pub open spec fn chosen_names(sinks: Seq<Sink>, selected: Option<Seq<Seq<char>>>) -> Seq<Seq<char>>
    decreases sinks.len(),
{
    if sinks.len() == 0 {
        Seq::empty()
    } else {
        let rest = chosen_names(sinks.drop_last(), selected);
        let s = sinks.last();
        let wanted = match selected {
            Some(sel) => sel.contains(s.name@),
            None => true,
        };
        if wanted && !s.is_combined {
            rest.push(s.name@)
        } else {
            rest
        }
    }
}

fn names_contain(names: &[String], name: &String) -> (b: bool)
    ensures
        b == texts(names@).contains(name@),
{
    let mut i: usize = 0;
    while i < names.len()
        invariant
            i <= names@.len(),
            forall|j: int| 0 <= j < i ==> names@[j]@ != name@,
        decreases names@.len() - i,
    {
        if names[i] == *name {
            assert(texts(names@)[i as int] == name@);
            return true;
        }
        i = i + 1;
    }
    proof {
        if texts(names@).contains(name@) {
            let j = choose|j: int| 0 <= j < texts(names@).len() && texts(names@)[j] == name@;
            assert(names@[j]@ == name@);
        }
    }
    false
}

/// The optional list of selected names, as views.
pub open spec fn opt_texts(selected: Option<&[String]>) -> Option<Seq<Seq<char>>> {
    match selected {
        Some(sel) => Some(texts(sel@)),
        None => None,
    }
}

/// Picks the sinks to combine: all sinks that are not our combined sink, or,
/// when `selected` is given, only those among them whose name it lists.
pub fn select_sink_names(sinks: &Vec<Sink>, selected: Option<&[String]>) -> (names: Vec<String>)
    ensures
        texts(names@) == chosen_names(sinks@, opt_texts(selected)),
{
    let mut names: Vec<String> = Vec::new();
    let mut i: usize = 0;
    while i < sinks.len()
        invariant
            i <= sinks@.len(),
            texts(names@) == chosen_names(sinks@.take(i as int), opt_texts(selected)),
        decreases sinks@.len() - i,
    {
        assert(sinks@.take(i + 1).drop_last() =~= sinks@.take(i as int));
        let s = &sinks[i];
        let wanted = match selected {
            Some(sel) => names_contain(sel, &s.name),
            None => true,
        };
        if wanted && !s.is_combined {
            let ghost before = texts(names@);
            names.push(s.name.clone());
            assert(texts(names@) =~= before.push(s.name@));
        }
        i = i + 1;
    }
    assert(sinks@.take(sinks@.len() as int) =~= sinks@);
    names
}


/// A chosen name belongs to a sink that is not marked combined and, when a
/// selection is given, is listed in it.
pub proof fn lemma_chosen_are_eligible(sinks: Seq<Sink>, selected: Option<Seq<Seq<char>>>, i: int)
    requires
        0 <= i < chosen_names(sinks, selected).len(),
    ensures
        exists|j: int|
            0 <= j < sinks.len() && (#[trigger] sinks[j]).name@ == chosen_names(sinks, selected)[i]
                && !sinks[j].is_combined,
        selected matches Some(sel) ==> sel.contains(chosen_names(sinks, selected)[i]),
    decreases sinks.len(),
{
    let rest = chosen_names(sinks.drop_last(), selected);
    if i < rest.len() {
        lemma_chosen_are_eligible(sinks.drop_last(), selected, i);
        let j = choose|j: int|
            0 <= j < sinks.drop_last().len() && (#[trigger] sinks.drop_last()[j]).name@ == rest[i]
                && !sinks.drop_last()[j].is_combined;
        assert(sinks[j] == sinks.drop_last()[j]);
    } else {
        let j = sinks.len() - 1;
        assert(sinks[j] == sinks.last());
    }
}

/// Every sink that is not marked combined, and that the selection lists when
/// there is one, is among the chosen names.
pub proof fn lemma_eligible_are_chosen(sinks: Seq<Sink>, selected: Option<Seq<Seq<char>>>, j: int)
    requires
        0 <= j < sinks.len(),
        !sinks[j].is_combined,
        selected matches Some(sel) ==> sel.contains(sinks[j].name@),
    ensures
        chosen_names(sinks, selected).contains(sinks[j].name@),
    decreases sinks.len(),
{
    let rest = chosen_names(sinks.drop_last(), selected);
    if j < sinks.len() - 1 {
        assert(sinks.drop_last()[j] == sinks[j]);
        lemma_eligible_are_chosen(sinks.drop_last(), selected, j);
        let k = choose|k: int| 0 <= k < rest.len() && rest[k] == sinks[j].name@;
        let all = chosen_names(sinks, selected);
        assert(all[k] == rest[k]);
    } else {
        let all = chosen_names(sinks, selected);
        assert(all[all.len() - 1] == sinks[j].name@);
    }
}

/// Our combined sink is among the sinks made from the `pactl` entries exactly
/// when one of the entries carries its name.
pub proof fn lemma_combined_exists_iff_listed(sinks: Seq<Sink>, raw: Seq<PactlSink>)
    requires
        sinks_match(sinks, raw),
    ensures
        has_combined(sinks) <==> exists|i: int|
            0 <= i < raw.len() && (#[trigger] raw[i]).name@ == COMBINED_SINK_NAME@,
{
    if has_combined(sinks) {
        let i = choose|i: int| 0 <= i < sinks.len() && #[trigger] sinks[i].name@ == COMBINED_SINK_NAME@;
        assert(sink_matches_raw(sinks[i], raw[i]));
    }
    if exists|i: int| 0 <= i < raw.len() && (#[trigger] raw[i]).name@ == COMBINED_SINK_NAME@ {
        let i = choose|i: int| 0 <= i < raw.len() && (#[trigger] raw[i]).name@ == COMBINED_SINK_NAME@;
        assert(sink_matches_raw(sinks[i], raw[i]));
    }
}


/// Whether a sink is to be combined: it is not marked combined and, when a
/// selection is given, the selection names it.
pub open spec fn eligible(selected: Option<Seq<Seq<char>>>) -> spec_fn(Sink) -> bool {
    |s: Sink|
        !s.is_combined && match selected {
            Some(sel) => sel.contains(s.name@),
            None => true,
        }
}

/// The name of a sink.
pub open spec fn sink_name() -> spec_fn(Sink) -> Seq<char> {
    |s: Sink| s.name@
}

/// The chosen names are the names of the eligible sinks, each once, in the
/// order of the sinks.
pub proof fn lemma_chosen_are_eligible_in_order(sinks: Seq<Sink>, selected: Option<Seq<Seq<char>>>)
    ensures
        chosen_names(sinks, selected) == sinks.filter(eligible(selected)).map_values(sink_name()),
    decreases sinks.len(),
{
    reveal(Seq::filter);
    if sinks.len() > 0 {
        lemma_chosen_are_eligible_in_order(sinks.drop_last(), selected);
        let f = sinks.drop_last().filter(eligible(selected));
        assert(f.push(sinks.last()).map_values(sink_name()) =~= f.map_values(sink_name()).push(
            sinks.last().name@,
        ));
    } else {
        assert(sinks.filter(eligible(selected)).map_values(sink_name()) =~= Seq::<Seq<char>>::empty());
    }
}

} // verus!
