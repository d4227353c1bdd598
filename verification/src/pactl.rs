//! Reading what `pactl` prints.

use vstd::prelude::*;

use crate::sink::PactlSink;
use crate::text::{
    decimal, digit_char, lemma_trim_shape, lemma_trim_unchanged,
    slice_chars,
    is_space, lead_space, word_len,
    texts,
    chars_of, first_word, first_word_chars, lines, occurs_chars, occurs_in, same_chars,
    split_lines, starts_with, starts_with_chars, string_of, strip_repeated, strip_repeated_chars,
    trim, trim_chars,
};

verus! {

/// Name of the combined sink that this tool creates and looks for.
pub const COMBINED_SINK_NAME: &'static str = "multisink_combined";

/// The module that PulseAudio/PipeWire uses to build a combined sink.
pub const COMBINE_MODULE: &'static str = "module-combine-sink";

/// The module argument that names our combined sink: `sink_name=` and the name.
pub open spec fn sink_name_arg() -> Seq<char> {
    "sink_name="@ + COMBINED_SINK_NAME@
}

/// One `Module #` block of `pactl list modules`: its id and the last
/// `Name:` and `Argument:` values seen in it.
pub struct ModuleBlock {
    pub id: Seq<char>,
    pub name: Option<Seq<char>>,
    pub args: Option<Seq<char>>,
}

/// The module blocks of a listing given as its lines. A `Module #` line opens a
/// block; `Name:` and `Argument:` lines set the field of the open block; lines
/// before the first block and all other lines are ignored. Every line is read
/// trimmed.
pub open spec fn module_blocks(ls: Seq<Seq<char>>) -> Seq<ModuleBlock>
    decreases ls.len(),
{
    if ls.len() == 0 {
        Seq::empty()
    } else {
        let bs = module_blocks(ls.drop_last());
        let l = trim(ls.last());
        if starts_with(l, "Module #"@) {
            bs.push(ModuleBlock { id: trim(strip_repeated(l, "Module #"@)), name: None, args: None })
        } else if bs.len() == 0 {
            bs
        } else if starts_with(l, "Name:"@) {
            bs.update(
                bs.len() - 1,
                ModuleBlock { name: Some(trim(strip_repeated(l, "Name:"@))), ..bs.last() },
            )
        } else if starts_with(l, "Argument:"@) {
            bs.update(
                bs.len() - 1,
                ModuleBlock { args: Some(trim(strip_repeated(l, "Argument:"@))), ..bs.last() },
            )
        } else {
            bs
        }
    }
}

/// Whether a module block is the combine-sink module that made our sink.
pub open spec fn is_our_module(b: ModuleBlock) -> bool {
    &&& b.name == Some(COMBINE_MODULE@)
    &&& b.args matches Some(a) && occurs_in(sink_name_arg(), a)
}

/// The id of the first block of `bs` that is our module.
pub open spec fn first_ours(bs: Seq<ModuleBlock>) -> Option<Seq<char>>
    decreases bs.len(),
{
    if bs.len() == 0 {
        None
    } else {
        match first_ours(bs.drop_last()) {
            Some(id) => Some(id),
            None => if is_our_module(bs.last()) {
                Some(bs.last().id)
            } else {
                None
            },
        }
    }
}

/// The id of the module that made our combined sink, read from the text of
/// `pactl list modules`.
pub open spec fn our_module_id(listing: Seq<char>) -> Option<Seq<char>> {
    first_ours(module_blocks(lines(listing)))
}

/// The view of an optional character vector.
pub open spec fn opt_chars(o: Option<Vec<char>>) -> Option<Seq<char>> {
    match o {
        Some(v) => Some(v@),
        None => None,
    }
}

/// The view of an optional string.
pub open spec fn opt_text(o: Option<String>) -> Option<Seq<char>> {
    match o {
        Some(s) => Some(s@),
        None => None,
    }
}

fn is_our_block(
    name: &Option<Vec<char>>,
    args: &Option<Vec<char>>,
    module: &Vec<char>,
    arg: &Vec<char>,
) -> (b: bool)
    requires
        module@ == COMBINE_MODULE@,
        arg@ == sink_name_arg(),
    ensures
        b == is_our_module(ModuleBlock { id: Seq::empty(), name: opt_chars(*name), args: opt_chars(*args) }),
{
    match (name, args) {
        (Some(n), Some(a)) => same_chars(n, module) && occurs_chars(arg, a),
        _ => false,
    }
}

/// Finds, in the text of `pactl list modules`, the id of the
/// `module-combine-sink` module whose arguments name our combined sink; the
/// first such module when there are several.
pub fn find_combined_module_id(listing: &str) -> (r: Option<String>)
    ensures
        opt_text(r) == our_module_id(listing@),
{
    let header = chars_of("Module #");
    let name_key = chars_of("Name:");
    let args_key = chars_of("Argument:");
    let module = chars_of(COMBINE_MODULE);
    let mut arg = chars_of("sink_name=");
    let ours = chars_of(COMBINED_SINK_NAME);
    let mut i: usize = 0;
    while i < ours.len()
        invariant
            i <= ours@.len(),
            ours@ == COMBINED_SINK_NAME@,
            arg@ == "sink_name="@ + ours@.take(i as int),
        decreases ours@.len() - i,
    {
        arg.push(ours[i]);
        assert(ours@.take(i + 1) =~= ours@.take(i as int).push(ours@[i as int]));
        i = i + 1;
    }
    assert(ours@.take(ours@.len() as int) =~= ours@);

    let text = chars_of(listing);
    let ls = split_lines(&text);
    let ghost lv = ls@.map_values(|l: Vec<char>| l@);
    let mut cur_id: Option<Vec<char>> = None;
    let mut cur_name: Option<Vec<char>> = None;
    let mut cur_args: Option<Vec<char>> = None;
    let mut target: Option<Vec<char>> = None;
    let mut k: usize = 0;
    while k < ls.len()
        invariant
            k <= ls@.len(),
            lv == ls@.map_values(|l: Vec<char>| l@),
            lv == lines(listing@),
            header@ == "Module #"@,
            name_key@ == "Name:"@,
            args_key@ == "Argument:"@,
            module@ == COMBINE_MODULE@,
            arg@ == sink_name_arg(),
            module_blocks(lv.take(k as int)).len() == 0 ==> cur_id is None && target is None,
            module_blocks(lv.take(k as int)).len() > 0 ==> {
                let bs = module_blocks(lv.take(k as int));
                &&& opt_chars(cur_id) == Some(bs.last().id)
                &&& opt_chars(cur_name) == bs.last().name
                &&& opt_chars(cur_args) == bs.last().args
                &&& opt_chars(target) == first_ours(bs.drop_last())
            },
        decreases ls@.len() - k,
    {
        let ghost bs = module_blocks(lv.take(k as int));
        assert(lv.take(k + 1).drop_last() =~= lv.take(k as int));
        assert(lv.take(k + 1).last() == ls@[k as int]@);
        let line = trim_chars(&ls[k]);
        if starts_with_chars(&line, &header) {
            if target.is_none() && cur_id.is_some() && is_our_block(
                &cur_name,
                &cur_args,
                &module,
                &arg,
            ) {
                target = cur_id;
            }
            let id = trim_chars(&strip_repeated_chars(&line, &header));
            cur_id = Some(id);
            cur_name = None;
            cur_args = None;
            proof {
                let nb = module_blocks(lv.take(k + 1));
                assert(nb.drop_last() =~= bs);
            }
        } else if cur_id.is_none() {
        } else if starts_with_chars(&line, &name_key) {
            cur_name = Some(trim_chars(&strip_repeated_chars(&line, &name_key)));
            proof {
                let nb = module_blocks(lv.take(k + 1));
                assert(nb.drop_last() =~= bs.drop_last());
            }
        } else if starts_with_chars(&line, &args_key) {
            cur_args = Some(trim_chars(&strip_repeated_chars(&line, &args_key)));
            proof {
                let nb = module_blocks(lv.take(k + 1));
                assert(nb.drop_last() =~= bs.drop_last());
            }
        }
        k = k + 1;
    }
    assert(lv.take(ls@.len() as int) =~= lv);
    if target.is_none() && cur_id.is_some() && is_our_block(&cur_name, &cur_args, &module, &arg) {
        target = cur_id;
    }
    match target {
        Some(t) => Some(string_of(&t)),
        None => None,
    }
}


/// The ids named by the lines of `pactl list sink-inputs short`, in order:
/// the first word of each line that has one.
pub open spec fn input_ids(ls: Seq<Seq<char>>) -> Seq<Seq<char>>
    decreases ls.len(),
{
    if ls.len() == 0 {
        Seq::empty()
    } else {
        let rest = input_ids(ls.drop_last());
        let w = first_word(trim(ls.last()));
        if w.len() > 0 {
            rest.push(w)
        } else {
            rest
        }
    }
}

/// The ids of the playback streams listed by `pactl list sink-inputs short`
/// (one stream per line, its id first).
pub fn sink_input_ids(listing: &str) -> (r: Vec<String>)
    ensures
        texts(r@) == input_ids(lines(listing@)),
{
    let text = chars_of(listing);
    let ls = split_lines(&text);
    let ghost lv = ls@.map_values(|l: Vec<char>| l@);
    let mut ids: Vec<String> = Vec::new();
    let mut k: usize = 0;
    while k < ls.len()
        invariant
            k <= ls@.len(),
            lv == ls@.map_values(|l: Vec<char>| l@),
            texts(ids@) == input_ids(lv.take(k as int)),
        decreases ls@.len() - k,
    {
        assert(lv.take(k + 1).drop_last() =~= lv.take(k as int));
        assert(lv.take(k + 1).last() == ls@[k as int]@);
        let line = trim_chars(&ls[k]);
        if line.len() > 0 {
            let word = first_word_chars(&line);
            if word.len() > 0 {
                let ghost before = texts(ids@);
                ids.push(string_of(&word));
                assert(texts(ids@) =~= before.push(word@));
            }
        } else {
            proof {
                assert(line@.skip(0) =~= line@);
                assert(first_word(line@).len() == 0);
            }
        }
        k = k + 1;
    }
    assert(lv.take(ls@.len() as int) =~= lv);
    ids
}

/// The module id that `pactl load-module` printed: its output, trimmed.
pub fn loaded_module_id(output: &str) -> (r: String)
    ensures
        r@ == trim(output@),
{
    crate::text::trim_text(output)
}


/// The module found is the first block of the listing that is our
/// combine-sink module; when none is found, no block is.
pub proof fn lemma_found_module_is_first_ours(bs: Seq<ModuleBlock>)
    ensures
        first_ours(bs) matches Some(id) ==> exists|i: int|
            0 <= i < bs.len() && is_our_module(#[trigger] bs[i]) && bs[i].id == id && forall|j: int|
                0 <= j < i ==> !is_our_module(#[trigger] bs[j]),
        first_ours(bs) is None ==> forall|i: int| 0 <= i < bs.len() ==> !is_our_module(#[trigger] bs[i]),
    decreases bs.len(),
{
    if bs.len() > 0 {
        let front = bs.drop_last();
        lemma_found_module_is_first_ours(front);
        match first_ours(front) {
            Some(id) => {
                let i = choose|i: int|
                    0 <= i < front.len() && is_our_module(#[trigger] front[i]) && front[i].id == id
                        && forall|j: int| 0 <= j < i ==> !is_our_module(#[trigger] front[j]);
                assert(bs[i] == front[i]);
                assert forall|j: int| 0 <= j < i implies !is_our_module(#[trigger] bs[j]) by {
                    assert(bs[j] == front[j]);
                }
            },
            None => {
                assert forall|j: int| 0 <= j < bs.len() - 1 implies !is_our_module(#[trigger] bs[j]) by {
                    assert(bs[j] == front[j]);
                }
            },
        }
    }
}

proof fn lemma_first_word_is_word(s: Seq<char>)
    ensures
        forall|k: int| 0 <= k < first_word(s).len() ==> !is_space(#[trigger] first_word(s)[k]),
{
    let t = s.skip(lead_space(s) as int);
    lemma_word_prefix(t);
}

proof fn lemma_word_prefix(t: Seq<char>)
    ensures
        word_len(t) <= t.len(),
        forall|k: int| 0 <= k < word_len(t) ==> !is_space(#[trigger] t[k]),
    decreases t.len(),
{
    if t.len() > 0 && !is_space(t[0]) {
        lemma_word_prefix(t.drop_first());
        assert forall|k: int| 0 <= k < word_len(t) implies !is_space(#[trigger] t[k]) by {
            if k > 0 {
                assert(t[k] == t.drop_first()[k - 1]);
            }
        }
    }
}

/// Every stream id read from `pactl list sink-inputs short` is a non-empty
/// word without whitespace.
pub proof fn lemma_input_ids_are_words(ls: Seq<Seq<char>>)
    ensures
        forall|i: int|
            0 <= i < input_ids(ls).len() ==> {
                &&& (#[trigger] input_ids(ls)[i]).len() > 0
                &&& forall|k: int| 0 <= k < input_ids(ls)[i].len() ==> !is_space(#[trigger] input_ids(ls)[i][k])
            },
    decreases ls.len(),
{
    if ls.len() > 0 {
        let rest = input_ids(ls.drop_last());
        let w = first_word(trim(ls.last()));
        lemma_input_ids_are_words(ls.drop_last());
        lemma_first_word_is_word(trim(ls.last()));
        let all = input_ids(ls);
        assert forall|i: int| 0 <= i < all.len() implies {
            &&& (#[trigger] all[i]).len() > 0
            &&& forall|k: int| 0 <= k < all[i].len() ==> !is_space(#[trigger] all[i][k])
        } by {
            if i < rest.len() {
                assert(all[i] == rest[i]);
            } else {
                assert(all[i] == w);
            }
        }
    }
}


/// One sink as `pactl list sinks short` lists it: its index and its name.
pub struct SinkEntry {
    pub index: nat,
    pub name: Seq<char>,
}

pub open spec fn is_digit(c: char) -> bool {
    '0' <= c <= '9'
}

/// The number that a run of decimal digits writes.
pub open spec fn digits_value(s: Seq<char>) -> nat
    decreases s.len(),
{
    if s.len() == 0 {
        0
    } else {
        digits_value(s.drop_last()) * 10 + ((s.last() as u32) - 48) as nat
    }
}

/// Number of characters before the first tab of `s` (all of them when there is none).
pub open spec fn tab_field_len(s: Seq<char>) -> nat
    decreases s.len(),
{
    if s.len() == 0 || s[0] == '\t' {
        0
    } else {
        1 + tab_field_len(s.drop_first())
    }
}

/// The sink that one line of `pactl list sinks short` describes: its
/// tab-separated fields are the index (decimal digits that fit a `u32`), the
/// name (non-empty), then driver, sample spec and state, which are not read.
/// `None` when the trimmed line has no such first two fields.
pub open spec fn sink_line_entry(line: Seq<char>) -> Option<SinkEntry> {
    let t = trim(line);
    let n = tab_field_len(t);
    let digits = t.take(n as int);
    let rest = t.skip((n + 1) as int);
    let name = rest.take(tab_field_len(rest) as int);
    if n < t.len() && digits.len() > 0 && (forall|i: int| 0 <= i < digits.len() ==> is_digit(#[trigger] digits[i]))
        && digits_value(digits) <= u32::MAX && name.len() > 0 {
        Some(SinkEntry { index: digits_value(digits), name })
    } else {
        None
    }
}

/// The sinks of a `pactl list sinks short` listing given as its lines, in
/// order; blank lines are skipped. `Err` holds the first line (trimmed) that
/// does not describe a sink.
pub open spec fn sink_entries(ls: Seq<Seq<char>>) -> Result<Seq<SinkEntry>, Seq<char>>
    decreases ls.len(),
{
    if ls.len() == 0 {
        Ok(Seq::empty())
    } else {
        match sink_entries(ls.drop_last()) {
            Err(bad) => Err(bad),
            Ok(es) => if trim(ls.last()).len() == 0 {
                Ok(es)
            } else {
                match sink_line_entry(ls.last()) {
                    Some(e) => Ok(es.push(e)),
                    None => Err(trim(ls.last())),
                }
            },
        }
    }
}

/// The message for a line of the sink listing that does not describe a sink.
pub open spec fn bad_sink_line_text(line: Seq<char>) -> Seq<char> {
    "cannot read sink list line: "@ + line
}

/// The entries read from the listing carry the indexes and names of `es`.
pub open spec fn raw_is_entries(raw: Seq<PactlSink>, es: Seq<SinkEntry>) -> bool {
    &&& raw.len() == es.len()
    &&& forall|i: int| 0 <= i < es.len() ==> (#[trigger] raw[i]).index == es[i].index && raw[i].name@ == es[i].name
}

/// Number of characters of `v[from..]` before the first tab.
fn count_to_tab(v: &[char], from: usize) -> (n: usize)
    requires
        from <= v@.len(),
    ensures
        n == tab_field_len(v@.skip(from as int)),
        from + n <= v@.len(),
{
    let len = v.len();
    let mut i: usize = from;
    while i < len && v[i] != '\t'
        invariant
            from <= i <= v@.len(),
            len == v@.len(),
            tab_field_len(v@.skip(from as int)) == (i - from) + tab_field_len(v@.skip(i as int)),
        decreases v@.len() - i,
    {
        assert(v@.skip(i as int).drop_first() =~= v@.skip(i + 1));
        i = i + 1;
    }
    proof {
        if i < v@.len() {
            assert(v@.skip(i as int)[0] == v@[i as int]);
        } else {
            assert(v@.skip(i as int).len() == 0);
        }
    }
    i - from
}

/// The value of `v` read as decimal digits, when it is a non-empty run of
/// digits whose value fits a `u32`.
fn read_index(v: &[char]) -> (r: Option<u32>)
    ensures
        r is Some <==> (v@.len() > 0 && (forall|i: int| 0 <= i < v@.len() ==> is_digit(#[trigger] v@[i]))
            && digits_value(v@) <= u32::MAX),
        r matches Some(n) ==> n == digits_value(v@),
{
    if v.len() == 0 {
        return None;
    }
    let mut acc: u64 = 0;
    let mut i: usize = 0;
    while i < v.len()
        invariant
            i <= v@.len(),
            acc == digits_value(v@.take(i as int)),
            acc <= u32::MAX,
            forall|k: int| 0 <= k < i ==> is_digit(#[trigger] v@[k]),
        decreases v@.len() - i,
    {
        let c = v[i];
        assert(v@.take(i + 1).drop_last() =~= v@.take(i as int));
        if !('0' <= c && c <= '9') {
            return None;
        }
        let d: u64 = ((c as u32) - 48) as u64;
        acc = acc * 10 + d;
        proof {
            lemma_digits_grow(v@, i as int);
        }
        if acc > 0xFFFF_FFFF {
            proof {
                if forall|j: int| 0 <= j < v@.len() ==> is_digit(#[trigger] v@[j]) {
                    lemma_digits_monotone(v@, i + 1);
                }
            }
            return None;
        }
        i = i + 1;
    }
    assert(v@.take(v@.len() as int) =~= v@);
    Some(acc as u32)
}

proof fn lemma_digits_grow(s: Seq<char>, i: int)
    requires
        0 <= i < s.len(),
    ensures
        digits_value(s.take(i + 1)) == digits_value(s.take(i)) * 10 + ((s[i] as u32) - 48) as nat,
{
    assert(s.take(i + 1).drop_last() =~= s.take(i));
}

/// Reading more digits never gives a smaller value.
proof fn lemma_digits_monotone(s: Seq<char>, k: int)
    requires
        0 <= k <= s.len(),
        forall|i: int| 0 <= i < s.len() ==> is_digit(#[trigger] s[i]),
    ensures
        digits_value(s.take(k)) <= digits_value(s),
    decreases s.len() - k,
{
    if k < s.len() {
        lemma_digits_grow(s, k);
        lemma_digits_monotone(s, k + 1);
    } else {
        assert(s.take(k) =~= s);
    }
}

/// The entry that one line of `pactl list sinks short` describes.
fn read_sink_line(line: &[char]) -> (r: Option<PactlSink>)
    ensures
        match sink_line_entry(line@) {
            Some(e) => r matches Some(p) && p.index == e.index && p.name@ == e.name,
            None => r is None,
        },
{
    let t = trim_chars(line);
    let n = count_to_tab(&t, 0);
    assert(t@.skip(0) =~= t@);
    if n >= t.len() {
        return None;
    }
    let digits = slice_chars(&t, 0, n);
    assert(digits@ =~= t@.take(n as int));
    let m = count_to_tab(&t, n + 1);
    let name = slice_chars(&t, n + 1, n + 1 + m);
    assert(name@ =~= t@.skip((n + 1) as int).take(m as int));
    if name.len() == 0 {
        return None;
    }
    match read_index(&digits) {
        Some(index) => Some(PactlSink { index, name: string_of(&name) }),
        None => None,
    }
}

/// Reads the sinks from the text of `pactl list sinks short`, one per
/// non-blank line; fails on the first line that does not describe a sink.
pub fn parse_sink_list(listing: &str) -> (r: Result<Vec<PactlSink>, String>)
    ensures
        match sink_entries(lines(listing@)) {
            Ok(es) => r matches Ok(raw) && raw_is_entries(raw@, es),
            Err(bad) => r matches Err(m) && m@ == bad_sink_line_text(bad),
        },
{
    let text = chars_of(listing);
    let ls = split_lines(&text);
    let ghost lv = ls@.map_values(|l: Vec<char>| l@);
    let mut raw: Vec<PactlSink> = Vec::new();
    let mut bad: Option<Vec<char>> = None;
    let mut k: usize = 0;
    while k < ls.len()
        invariant
            k <= ls@.len(),
            lv == ls@.map_values(|l: Vec<char>| l@),
            match sink_entries(lv.take(k as int)) {
                Ok(es) => bad is None && raw_is_entries(raw@, es),
                Err(b) => opt_chars(bad) == Some(b),
            },
        decreases ls@.len() - k,
    {
        assert(lv.take(k + 1).drop_last() =~= lv.take(k as int));
        assert(lv.take(k + 1).last() == ls@[k as int]@);
        if bad.is_none() {
            let t = trim_chars(&ls[k]);
            if t.len() > 0 {
                match read_sink_line(&ls[k]) {
                    Some(entry) => {
                        let ghost es = sink_entries(lv.take(k as int))->Ok_0;
                        let ghost before = raw@;
                        raw.push(entry);
                        proof {
                            let es2 = sink_entries(lv.take(k + 1))->Ok_0;
                            assert(es2 == es.push(sink_line_entry(ls@[k as int]@)->Some_0));
                            assert forall|i: int| 0 <= i < es2.len() implies (#[trigger] raw@[i]).index
                                == es2[i].index && raw@[i].name@ == es2[i].name by {
                                if i < es.len() {
                                    assert(raw@[i] == before[i]);
                                }
                            }
                        }
                    },
                    None => {
                        bad = Some(t);
                    },
                }
            }
        }
        k = k + 1;
    }
    assert(lv.take(ls@.len() as int) =~= lv);
    match bad {
        Some(b) => Err(String::from_str("cannot read sink list line: ").concat(string_of(&b).as_str())),
        None => Ok(raw),
    }
}


/// The first word of a line, read trimmed.
pub open spec fn line_word() -> spec_fn(Seq<char>) -> Seq<char> {
    |l: Seq<char>| first_word(trim(l))
}

/// Whether a word is non-empty.
pub open spec fn non_empty() -> spec_fn(Seq<char>) -> bool {
    |w: Seq<char>| w.len() > 0
}

/// The stream ids are the first words of the lines, in order, with the lines
/// that have none left out: every non-blank line gives its id, whatever its length.
pub proof fn lemma_input_ids_are_line_words(ls: Seq<Seq<char>>)
    ensures
        input_ids(ls) == ls.map_values(line_word()).filter(non_empty()),
    decreases ls.len(),
{
    reveal(Seq::filter);
    if ls.len() > 0 {
        lemma_input_ids_are_line_words(ls.drop_last());
        assert(ls.map_values(line_word()).drop_last() =~= ls.drop_last().map_values(line_word()));
    } else {
        assert(ls.map_values(line_word()) =~= Seq::<Seq<char>>::empty());
    }
}

/// One more line adds its first word to the ids when it has one, and nothing otherwise.
pub proof fn lemma_input_ids_push(ls: Seq<Seq<char>>, l: Seq<char>)
    ensures
        first_word(trim(l)).len() > 0 ==> input_ids(ls.push(l)) == input_ids(ls).push(first_word(trim(l))),
        first_word(trim(l)).len() == 0 ==> input_ids(ls.push(l)) == input_ids(ls),
{
    assert(ls.push(l).drop_last() =~= ls);
}


/// A `Module #` line opens a block whose id is the whole word after the
/// header, whatever its length.
pub proof fn lemma_header_gives_whole_id(ls: Seq<Seq<char>>, d: Seq<char>)
    requires
        d.len() > 0,
        forall|k: int| 0 <= k < d.len() ==> !is_space(#[trigger] d[k]),
    ensures
        module_blocks(ls.push("Module #"@ + d)) == module_blocks(ls).push(
            ModuleBlock { id: d, name: None, args: None },
        ),
{
    reveal_strlit("Module #");
    let h = "Module #"@;
    let l = h + d;
    assert(l[0] == 'M');
    assert(l.last() == d.last());
    lemma_trim_unchanged(l);
    assert(l.subrange(0, h.len() as int) =~= h);
    assert(starts_with(l, h));
    assert(l.skip(h.len() as int) =~= d);
    if d.len() >= h.len() {
        assert(d.subrange(0, h.len() as int)[6] != h[6]);
    }
    assert(!starts_with(d, h));
    assert(strip_repeated(d, h) == d);
    assert(strip_repeated(l, h) == strip_repeated(l.skip(h.len() as int), h));
    assert(d[0] == d[0]);
    lemma_trim_unchanged(d);
    assert(ls.push(l).drop_last() =~= ls);
}

/// The decimal form of a number is a non-empty run of digits that reads back
/// as the number.
pub proof fn lemma_decimal_reads_back(n: nat)
    ensures
        decimal(n).len() > 0,
        forall|k: int| 0 <= k < decimal(n).len() ==> is_digit(#[trigger] decimal(n)[k]),
        digits_value(decimal(n)) == n,
    decreases n,
{
    if n >= 10 {
        lemma_decimal_reads_back(n / 10);
        let s = decimal(n / 10);
        let c = digit_char(n % 10);
        assert(decimal(n) == s.push(c));
        assert(s.push(c).drop_last() =~= s);
        assert forall|k: int| 0 <= k < decimal(n).len() implies is_digit(#[trigger] decimal(n)[k]) by {
            if k < s.len() {
                assert(decimal(n)[k] == s[k]);
            }
        }
        assert((c as u32) - 48 == n % 10);
        assert((n / 10) * 10 + n % 10 == n) by (nonlinear_arith);
        assert(digits_value(s.push(c)) == digits_value(s) * 10 + ((c as u32) - 48) as nat);
    } else {
        let c = digit_char(n);
        assert(decimal(n) == seq![c]);
        assert(seq![c].drop_last() =~= Seq::<char>::empty());
        assert((c as u32) - 48 == n);
        assert(digits_value(seq![c]) == digits_value(Seq::<char>::empty()) * 10 + ((c as u32) - 48) as nat);
    }
}

proof fn lemma_tab_field_len_concat(a: Seq<char>, b: Seq<char>)
    requires
        forall|k: int| 0 <= k < a.len() ==> #[trigger] a[k] != '\t',
        b.len() == 0 || b[0] == '\t',
    ensures
        tab_field_len(a + b) == a.len(),
    decreases a.len(),
{
    if a.len() > 0 {
        assert((a + b)[0] == a[0]);
        assert((a + b).drop_first() =~= a.drop_first() + b);
        lemma_tab_field_len_concat(a.drop_first(), b);
    } else {
        assert(a + b =~= b);
    }
}

/// Every `u32` index is read back from a line of `pactl list sinks short`,
/// 0 included: the index in decimal, a tab, a name without whitespace, and
/// either nothing or more tab-separated fields.
pub proof fn lemma_sink_line_reads_back(n: u32, name: Seq<char>, tail: Seq<char>)
    requires
        name.len() > 0,
        forall|k: int| 0 <= k < name.len() ==> !is_space(#[trigger] name[k]),
        tail.len() == 0 || (tail[0] == '\t' && !is_space(tail.last())),
    ensures
        sink_line_entry(decimal(n as nat) + seq!['\t'] + name + tail) == Some(
            SinkEntry { index: n as nat, name },
        ),
{
    let ds = decimal(n as nat);
    lemma_decimal_reads_back(n as nat);
    let line = ds + seq!['\t'] + name + tail;
    let rest = name + tail;
    assert(line =~= ds + (seq!['\t'] + rest));
    assert(line[0] == ds[0]);
    assert(is_digit(ds[0]));
    if tail.len() == 0 {
        assert(line.last() == name.last());
    } else {
        assert(line.last() == tail.last());
    }
    lemma_trim_unchanged(line);
    assert forall|k: int| 0 <= k < ds.len() implies #[trigger] ds[k] != '\t' by {
        assert(is_digit(ds[k]));
    }
    lemma_tab_field_len_concat(ds, seq!['\t'] + rest);
    assert(line.take(ds.len() as int) =~= ds);
    assert(line.skip((ds.len() + 1) as int) =~= rest);
    assert forall|k: int| 0 <= k < name.len() implies #[trigger] name[k] != '\t' by {
        assert(!is_space(name[k]));
    }
    lemma_tab_field_len_concat(name, tail);
    assert(rest.take(name.len() as int) =~= name);
}


proof fn lemma_word_len_concat(w: Seq<char>, r: Seq<char>)
    requires
        forall|k: int| 0 <= k < w.len() ==> !is_space(#[trigger] w[k]),
        r.len() == 0 || is_space(r[0]),
    ensures
        word_len(w + r) == w.len(),
    decreases w.len(),
{
    if w.len() > 0 {
        assert((w + r)[0] == w[0]);
        assert((w + r).drop_first() =~= w.drop_first() + r);
        lemma_word_len_concat(w.drop_first(), r);
    } else {
        assert(w + r =~= r);
    }
}

/// A line that begins with a word and continues with whitespace (or ends)
/// gives that word as its first word, read trimmed, whatever its length.
pub proof fn lemma_line_word(w: Seq<char>, rest: Seq<char>)
    requires
        w.len() > 0,
        forall|k: int| 0 <= k < w.len() ==> !is_space(#[trigger] w[k]),
        rest.len() == 0 || is_space(rest[0]),
    ensures
        first_word(trim(w + rest)) == w,
{
    let l = w + rest;
    lemma_trim_shape(l);
    let (a, b) = choose|a: int, b: int|
        {
            &&& 0 <= a <= b <= l.len()
            &&& trim(l) == l.subrange(a, b)
            &&& forall|k: int| 0 <= k < a ==> is_space(#[trigger] l[k])
            &&& forall|k: int| b <= k < l.len() ==> is_space(#[trigger] l[k])
            &&& a < b ==> !is_space(l[a]) && !is_space(l[b - 1])
        };
    assert(l[0] == w[0]);
    assert(a == 0);
    assert(l[w.len() - 1] == w[w.len() - 1]);
    assert(b >= w.len());
    let r2 = rest.take(b - w.len());
    assert(trim(l) =~= w + r2);
    if r2.len() > 0 {
        assert(r2[0] == rest[0]);
    }
    assert((w + r2)[0] == w[0]);
    lemma_word_len_concat(w, r2);
    assert((w + r2).skip(0) =~= w + r2);
    assert((w + r2).take(w.len() as int) =~= w);
}

/// A stream line that begins with its id adds exactly that id, whatever its length.
pub proof fn lemma_stream_line_gives_id(ls: Seq<Seq<char>>, id: Seq<char>, rest: Seq<char>)
    requires
        id.len() > 0,
        forall|k: int| 0 <= k < id.len() ==> !is_space(#[trigger] id[k]),
        rest.len() == 0 || is_space(rest[0]),
    ensures
        input_ids(ls.push(id + rest)) == input_ids(ls).push(id),
{
    lemma_line_word(id, rest);
    lemma_input_ids_push(ls, id + rest);
}

proof fn lemma_trim_after_space(v: Seq<char>)
    requires
        v.len() > 0,
        !is_space(v[0]),
        !is_space(v.last()),
    ensures
        trim(seq![' '] + v) == v,
{
    let l = seq![' '] + v;
    assert(l[0] == ' ');
    assert(is_space(l[0]));
    assert(l.drop_first() =~= v);
    assert(lead_space(v) == 0);
    assert(lead_space(l) == 1);
    assert(l.last() == v.last());
    assert(l.subrange(1, l.len() as int) =~= v);
}

/// A `Name:` line inside a block sets the block's name to the whole trimmed
/// value after the key.
pub proof fn lemma_name_line_sets_name(ls: Seq<Seq<char>>, v: Seq<char>)
    requires
        module_blocks(ls).len() > 0,
        v.len() > 0,
        !is_space(v[0]),
        !is_space(v.last()),
    ensures
        ({
            let bs = module_blocks(ls);
            module_blocks(ls.push("Name: "@ + v)) == bs.update(
                bs.len() - 1,
                ModuleBlock { name: Some(v), ..bs.last() },
            )
        }),
{
    reveal_strlit("Name: ");
    reveal_strlit("Name:");
    reveal_strlit("Module #");
    let key = "Name:"@;
    let l = "Name: "@ + v;
    assert(l[0] == 'N');
    assert(l.last() == v.last());
    lemma_trim_unchanged(l);
    assert(!starts_with(l, "Module #"@)) by {
        if 8 <= l.len() {
            assert(l.subrange(0, 8)[0] != "Module #"@[0]);
        }
    }
    assert(l.subrange(0, key.len() as int) =~= key);
    assert(l.skip(key.len() as int) =~= seq![' '] + v);
    assert(!starts_with(seq![' '] + v, key)) by {
        if key.len() <= (seq![' '] + v).len() {
            assert((seq![' '] + v).subrange(0, key.len() as int)[0] != key[0]);
        }
    }
    assert(strip_repeated(seq![' '] + v, key) == seq![' '] + v);
    assert(strip_repeated(l, key) == strip_repeated(l.skip(key.len() as int), key));
    lemma_trim_after_space(v);
    assert(ls.push(l).drop_last() =~= ls);
}

/// An `Argument:` line inside a block sets the block's arguments to the
/// whole trimmed value after the key.
pub proof fn lemma_argument_line_sets_args(ls: Seq<Seq<char>>, v: Seq<char>)
    requires
        module_blocks(ls).len() > 0,
        v.len() > 0,
        !is_space(v[0]),
        !is_space(v.last()),
    ensures
        ({
            let bs = module_blocks(ls);
            module_blocks(ls.push("Argument: "@ + v)) == bs.update(
                bs.len() - 1,
                ModuleBlock { args: Some(v), ..bs.last() },
            )
        }),
{
    reveal_strlit("Argument: ");
    reveal_strlit("Argument:");
    reveal_strlit("Name:");
    reveal_strlit("Module #");
    let key = "Argument:"@;
    let l = "Argument: "@ + v;
    assert(l[0] == 'A');
    assert(l.last() == v.last());
    lemma_trim_unchanged(l);
    assert(!starts_with(l, "Module #"@)) by {
        if 8 <= l.len() {
            assert(l.subrange(0, 8)[0] != "Module #"@[0]);
        }
    }
    assert(!starts_with(l, "Name:"@)) by {
        if 5 <= l.len() {
            assert(l.subrange(0, 5)[0] != "Name:"@[0]);
        }
    }
    assert(l.subrange(0, key.len() as int) =~= key);
    assert(l.skip(key.len() as int) =~= seq![' '] + v);
    assert(!starts_with(seq![' '] + v, key)) by {
        if key.len() <= (seq![' '] + v).len() {
            assert((seq![' '] + v).subrange(0, key.len() as int)[0] != key[0]);
        }
    }
    assert(strip_repeated(seq![' '] + v, key) == seq![' '] + v);
    assert(strip_repeated(l, key) == strip_repeated(l.skip(key.len() as int), key));
    lemma_trim_after_space(v);
    assert(ls.push(l).drop_last() =~= ls);
}

} // verus!
