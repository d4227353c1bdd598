//! Character-level text handling used to read `pactl` output.

use vstd::prelude::*;

verus! {

/// The Unicode `White_Space` property, as `char::is_whitespace` documents it.
pub open spec fn is_space(c: char) -> bool {
    let u = c as u32;
    ||| 0x9 <= u <= 0xD
    ||| u == 0x20
    ||| u == 0x85
    ||| u == 0xA0
    ||| u == 0x1680
    ||| 0x2000 <= u <= 0x200A
    ||| u == 0x2028
    ||| u == 0x2029
    ||| u == 0x202F
    ||| u == 0x205F
    ||| u == 0x3000
}

/// Whether `c` is a whitespace character.
pub fn is_space_char(c: char) -> (b: bool)
    ensures
        b == is_space(c),
{
    let u: u32 = c as u32;
    (0x9 <= u && u <= 0xD) || u == 0x20 || u == 0x85 || u == 0xA0 || u == 0x1680 || (0x2000 <= u
        && u <= 0x200A) || u == 0x2028 || u == 0x2029 || u == 0x202F || u == 0x205F || u == 0x3000
}

/// The characters of `s`, in order.
pub fn chars_of(s: &str) -> (v: Vec<char>)
    ensures
        v@ == s@,
{
    broadcast use vstd::string::group_string_axioms;

    let mut v: Vec<char> = Vec::new();
    for c in it: s.chars()
        invariant
            it.seq() == s@,
            v@ == it.seq().take(it.index() as int),
    {
        v.push(c);
    }
    v
}


/// Number of whitespace characters at the start of `s`.
pub open spec fn lead_space(s: Seq<char>) -> nat
    decreases s.len(),
{
    if s.len() == 0 {
        0
    } else if is_space(s[0]) {
        1 + lead_space(s.drop_first())
    } else {
        0
    }
}

/// Number of whitespace characters at the end of `s`.
pub open spec fn trail_space(s: Seq<char>) -> nat
    decreases s.len(),
{
    if s.len() == 0 {
        0
    } else if is_space(s.last()) {
        1 + trail_space(s.drop_last())
    } else {
        0
    }
}

/// `s` without leading and trailing whitespace (`str::trim`).
pub open spec fn trim(s: Seq<char>) -> Seq<char> {
    if lead_space(s) == s.len() {
        Seq::empty()
    } else {
        s.subrange(lead_space(s) as int, s.len() - trail_space(s))
    }
}

/// Number of non-whitespace characters at the start of `s`.
pub open spec fn word_len(s: Seq<char>) -> nat
    decreases s.len(),
{
    if s.len() == 0 {
        0
    } else if is_space(s[0]) {
        0
    } else {
        1 + word_len(s.drop_first())
    }
}

/// The first whitespace-separated word of `s`, empty when there is none
/// (what `split_whitespace().next().unwrap_or("")` gives).
pub open spec fn first_word(s: Seq<char>) -> Seq<char> {
    let t = s.skip(lead_space(s) as int);
    t.take(word_len(t) as int)
}

/// Whether `s` begins with `p`.
pub open spec fn starts_with(s: Seq<char>, p: Seq<char>) -> bool {
    p.len() <= s.len() && s.subrange(0, p.len() as int) == p
}

/// `s` with every leading repetition of a non-empty `p` removed
/// (`str::trim_start_matches` with a string pattern).
pub open spec fn strip_repeated(s: Seq<char>, p: Seq<char>) -> Seq<char>
    decreases s.len(),
{
    if p.len() > 0 && starts_with(s, p) {
        strip_repeated(s.skip(p.len() as int), p)
    } else {
        s
    }
}

/// Whether `p` occurs in `s` as a contiguous run.
pub open spec fn occurs_in(p: Seq<char>, s: Seq<char>) -> bool {
    exists|i: int| 0 <= i && i + p.len() <= s.len() && #[trigger] s.subrange(i, i + p.len()) == p
}

/// `s` without one trailing carriage return.
pub open spec fn drop_cr(s: Seq<char>) -> Seq<char> {
    if s.len() > 0 && s.last() == '\r' {
        s.drop_last()
    } else {
        s
    }
}

/// Left-to-right reading of `s` into the lines that end with a newline
/// and the text after the last newline.
pub open spec fn line_scan(s: Seq<char>) -> (Seq<Seq<char>>, Seq<char>)
    decreases s.len(),
{
    if s.len() == 0 {
        (Seq::empty(), Seq::empty())
    } else {
        let (done, cur) = line_scan(s.drop_last());
        if s.last() == '\n' {
            (done.push(drop_cr(cur)), Seq::empty())
        } else {
            (done, cur.push(s.last()))
        }
    }
}

/// The lines of `s` as `str::lines` yields them: split at `\n`, one `\r`
/// before it dropped, and no empty line after a final newline.
pub open spec fn lines(s: Seq<char>) -> Seq<Seq<char>> {
    let (done, cur) = line_scan(s);
    if cur.len() == 0 {
        done
    } else {
        done.push(cur)
    }
}

proof fn lemma_lead_space_step(s: Seq<char>, i: int)
    requires
        0 <= i < s.len(),
        is_space(s[i]),
    ensures
        lead_space(s.skip(i)) == 1 + lead_space(s.skip(i + 1)),
{
    assert(s.skip(i).drop_first() =~= s.skip(i + 1));
}

proof fn lemma_trail_space_step(s: Seq<char>, j: int)
    requires
        0 < j <= s.len(),
        is_space(s[j - 1]),
    ensures
        trail_space(s.take(j)) == 1 + trail_space(s.take(j - 1)),
{
    assert(s.take(j).drop_last() =~= s.take(j - 1));
}

proof fn lemma_word_len_step(s: Seq<char>, i: int)
    requires
        0 <= i < s.len(),
        !is_space(s[i]),
    ensures
        word_len(s.skip(i)) == 1 + word_len(s.skip(i + 1)),
{
    assert(s.skip(i).drop_first() =~= s.skip(i + 1));
}

/// Number of whitespace characters at the start of `v[from..]`.
fn count_lead_space(v: &[char], from: usize) -> (n: usize)
    requires
        from <= v@.len(),
    ensures
        n == lead_space(v@.skip(from as int)),
        from + n <= v@.len(),
{
    let mut i: usize = from;
    while i < v.len() && is_space_char(v[i])
        invariant
            from <= i <= v@.len(),
            lead_space(v@.skip(from as int)) == (i - from) + lead_space(v@.skip(i as int)),
        decreases v@.len() - i,
    {
        proof {
            lemma_lead_space_step(v@, i as int);
        }
        i = i + 1;
    }
    proof {
        if i < v@.len() {
            assert(v@.skip(i as int)[0] == v@[i as int]);
        } else {
            assert(v@.skip(i as int).len() == 0);
        }
    }
    i - from
}

/// Number of non-whitespace characters at the start of `v[from..]`.
fn count_word(v: &[char], from: usize) -> (n: usize)
    requires
        from <= v@.len(),
    ensures
        n == word_len(v@.skip(from as int)),
        from + n <= v@.len(),
{
    let mut i: usize = from;
    while i < v.len() && !is_space_char(v[i])
        invariant
            from <= i <= v@.len(),
            word_len(v@.skip(from as int)) == (i - from) + word_len(v@.skip(i as int)),
        decreases v@.len() - i,
    {
        proof {
            lemma_word_len_step(v@, i as int);
        }
        i = i + 1;
    }
    proof {
        if i < v@.len() {
            assert(v@.skip(i as int)[0] == v@[i as int]);
        } else {
            assert(v@.skip(i as int).len() == 0);
        }
    }
    i - from
}

/// Number of whitespace characters at the end of `v`.
fn count_trail_space(v: &[char]) -> (n: usize)
    ensures
        n == trail_space(v@),
        n <= v@.len(),
{
    let mut j: usize = v.len();
    assert(v@.take(j as int) =~= v@);
    while j > 0 && is_space_char(v[j - 1])
        invariant
            j <= v@.len(),
            trail_space(v@) == (v@.len() - j) + trail_space(v@.take(j as int)),
        decreases j,
    {
        proof {
            lemma_trail_space_step(v@, j as int);
        }
        j = j - 1;
    }
    proof {
        if j > 0 {
            assert(v@.take(j as int).last() == v@[j - 1]);
        } else {
            assert(v@.take(j as int).len() == 0);
        }
    }
    v.len() - j
}

/// A copy of `v[lo..hi]`.
pub fn slice_chars(v: &[char], lo: usize, hi: usize) -> (r: Vec<char>)
    requires
        lo <= hi <= v@.len(),
    ensures
        r@ == v@.subrange(lo as int, hi as int),
{
    let mut r: Vec<char> = Vec::new();
    let mut i: usize = lo;
    while i < hi
        invariant
            lo <= i <= hi <= v@.len(),
            r@ == v@.subrange(lo as int, i as int),
        decreases hi - i,
    {
        r.push(v[i]);
        proof {
            assert(v@.subrange(lo as int, i + 1) =~= v@.subrange(lo as int, i as int).push(v@[i as int]));
        }
        i = i + 1;
    }
    r
}

proof fn lemma_trail_drop_first(s: Seq<char>)
    requires
        s.len() > 0,
        trail_space(s.drop_first()) < s.drop_first().len(),
    ensures
        trail_space(s.drop_first()) == trail_space(s),
    decreases s.len(),
{
    let t = s.drop_first();
    if is_space(s.last()) {
        assert(t.last() == s.last());
        assert(t.drop_last() =~= s.drop_last().drop_first());
        lemma_trail_drop_first(s.drop_last());
    }
}

proof fn lemma_trail_within(s: Seq<char>)
    requires
        lead_space(s) < s.len(),
    ensures
        lead_space(s) + trail_space(s) < s.len(),
    decreases s.len(),
{
    if is_space(s[0]) {
        let t = s.drop_first();
        lemma_trail_within(t);
        lemma_trail_drop_first(s);
    } else {
        lemma_trail_not_all(s);
    }
}

proof fn lemma_trail_not_all(s: Seq<char>)
    requires
        s.len() > 0,
        !is_space(s[0]),
    ensures
        trail_space(s) < s.len(),
    decreases s.len(),
{
    if s.len() > 1 && is_space(s.last()) {
        lemma_trail_not_all(s.drop_last());
    }
}

proof fn lemma_lead_stops(s: Seq<char>)
    requires
        lead_space(s) < s.len(),
    ensures
        !is_space(s[lead_space(s) as int]),
        forall|k: int| 0 <= k < lead_space(s) ==> is_space(#[trigger] s[k]),
    decreases s.len(),
{
    if is_space(s[0]) {
        lemma_lead_stops(s.drop_first());
        assert forall|k: int| 0 <= k < lead_space(s) implies is_space(#[trigger] s[k]) by {
            if k > 0 {
                assert(s[k] == s.drop_first()[k - 1]);
            }
        }
    }
}

proof fn lemma_trail_stops(s: Seq<char>)
    requires
        trail_space(s) < s.len(),
    ensures
        !is_space(s[s.len() - 1 - trail_space(s)]),
    decreases s.len(),
{
    if is_space(s.last()) {
        lemma_trail_stops(s.drop_last());
    }
}

proof fn lemma_no_lead(s: Seq<char>)
    requires
        s.len() > 0,
        !is_space(s[0]),
    ensures
        lead_space(s) == 0,
{
}

proof fn lemma_no_trail(s: Seq<char>)
    requires
        s.len() > 0,
        !is_space(s.last()),
    ensures
        trail_space(s) == 0,
{
}

/// A text that neither begins nor ends with whitespace is its own trim.
pub proof fn lemma_trim_unchanged(s: Seq<char>)
    requires
        s.len() > 0,
        !is_space(s[0]),
        !is_space(s.last()),
    ensures
        trim(s) == s,
{
    lemma_no_lead(s);
    lemma_no_trail(s);
    assert(s.subrange(0, s.len() as int) =~= s);
}

proof fn lemma_lead_all(s: Seq<char>)
    ensures
        lead_space(s) <= s.len(),
        forall|k: int| 0 <= k < lead_space(s) ==> is_space(#[trigger] s[k]),
    decreases s.len(),
{
    if s.len() > 0 && is_space(s[0]) {
        lemma_lead_all(s.drop_first());
        assert forall|k: int| 0 <= k < lead_space(s) implies is_space(#[trigger] s[k]) by {
            if k > 0 {
                assert(s[k] == s.drop_first()[k - 1]);
            }
        }
    }
}

proof fn lemma_trail_all(s: Seq<char>)
    ensures
        trail_space(s) <= s.len(),
        forall|k: int| s.len() - trail_space(s) <= k < s.len() ==> is_space(#[trigger] s[k]),
    decreases s.len(),
{
    if s.len() > 0 && is_space(s.last()) {
        lemma_trail_all(s.drop_last());
        assert forall|k: int| s.len() - trail_space(s) <= k < s.len() implies is_space(#[trigger] s[k]) by {
            if k < s.len() - 1 {
                assert(s[k] == s.drop_last()[k]);
            }
        }
    }
}

/// `trim` cuts a text into leading whitespace, the trimmed text, and
/// trailing whitespace; the trimmed text is empty or begins and ends with a
/// character that is not whitespace.
pub proof fn lemma_trim_shape(s: Seq<char>)
    ensures
        exists|a: int, b: int|
            {
                &&& 0 <= a <= b <= s.len()
                &&& trim(s) == s.subrange(a, b)
                &&& forall|k: int| 0 <= k < a ==> is_space(#[trigger] s[k])
                &&& forall|k: int| b <= k < s.len() ==> is_space(#[trigger] s[k])
                &&& a < b ==> !is_space(s[a]) && !is_space(s[b - 1])
            },
{
    lemma_lead_all(s);
    lemma_trail_all(s);
    if lead_space(s) == s.len() {
        let a = s.len() as int;
        assert(trim(s) =~= s.subrange(a, a));
    } else {
        lemma_trail_within(s);
        lemma_lead_stops(s);
        lemma_trail_stops(s);
        let a = lead_space(s) as int;
        let b = s.len() - trail_space(s);
        assert(trim(s) == s.subrange(a, b));
    }
}

proof fn lemma_line_scan_extends(s: Seq<char>, l: Seq<char>)
    requires
        line_scan(s).1.len() == 0,
        forall|k: int| 0 <= k < l.len() ==> #[trigger] l[k] != '\n',
    ensures
        line_scan(s + l) == (line_scan(s).0, l),
    decreases l.len(),
{
    if l.len() == 0 {
        assert(s + l =~= s);
    } else {
        lemma_line_scan_extends(s, l.drop_last());
        assert((s + l).drop_last() =~= s + l.drop_last());
        assert((s + l).last() == l.last());
        assert(l.drop_last().push(l.last()) =~= l);
    }
}

/// How a text splits into lines: after text that is empty or ends with a
/// newline, a run without newlines followed by a newline adds one line (one
/// `\r` before the newline dropped), and a final non-empty run without a
/// newline adds itself.
pub proof fn lemma_lines_append(s: Seq<char>, l: Seq<char>)
    requires
        s.len() == 0 || s.last() == '\n',
        forall|k: int| 0 <= k < l.len() ==> #[trigger] l[k] != '\n',
    ensures
        lines(s + l + seq!['\n']) == lines(s).push(drop_cr(l)),
        l.len() > 0 ==> lines(s + l) == lines(s).push(l),
{
    if s.len() > 0 {
        assert(s.drop_last().push(s.last()) =~= s);
    }
    lemma_line_scan_extends(s, l);
    let t = s + l + seq!['\n'];
    assert(t.drop_last() =~= s + l);
    assert(t.last() == '\n');
}

/// Trimming twice gives what trimming once gives.
pub proof fn lemma_trim_idempotent(s: Seq<char>)
    ensures
        trim(trim(s)) == trim(s),
{
    let t = trim(s);
    if lead_space(s) < s.len() {
        lemma_trail_within(s);
        lemma_lead_stops(s);
        lemma_trail_stops_within(s);
        assert(t[0] == s[lead_space(s) as int]);
        assert(t.last() == s[s.len() - 1 - trail_space(s)]);
        lemma_no_lead(t);
        lemma_no_trail(t);
        assert(t.subrange(0, t.len() as int) =~= t);
    } else {
        lemma_lead_bounded(s);
        assert(t.len() == 0);
    }
}

proof fn lemma_lead_bounded(s: Seq<char>)
    ensures
        lead_space(s) <= s.len(),
    decreases s.len(),
{
    if s.len() > 0 {
        lemma_lead_bounded(s.drop_first());
    }
}

proof fn lemma_trail_stops_within(s: Seq<char>)
    requires
        lead_space(s) < s.len(),
    ensures
        !is_space(s[s.len() - 1 - trail_space(s)]),
{
    lemma_trail_within(s);
    lemma_trail_stops(s);
}

/// `v` without leading and trailing whitespace.
pub fn trim_chars(v: &[char]) -> (r: Vec<char>)
    ensures
        r@ == trim(v@),
{
    let lo = count_lead_space(v, 0);
    assert(v@.skip(0) =~= v@);
    if lo == v.len() {
        return Vec::new();
    }
    let t = count_trail_space(v);
    proof {
        lemma_trail_within(v@);
    }
    slice_chars(v, lo, v.len() - t)
}


/// The first whitespace-separated word of `v`.
pub fn first_word_chars(v: &[char]) -> (r: Vec<char>)
    ensures
        r@ == first_word(v@),
{
    let len = v.len();
    let lo = count_lead_space(v, 0);
    assert(v@.skip(0) =~= v@);
    let n = count_word(v, lo);
    let r = slice_chars(v, lo, lo + n);
    assert(r@ =~= v@.skip(lo as int).take(n as int));
    r
}

/// Whether `v[at..]` begins with `p`.
fn starts_with_at(v: &[char], at: usize, p: &[char]) -> (b: bool)
    requires
        at <= v@.len(),
    ensures
        b == starts_with(v@.skip(at as int), p@),
{
    let len = v.len();
    if p.len() > len - at {
        return false;
    }
    let mut i: usize = 0;
    while i < p.len()
        invariant
            at + p@.len() <= v@.len(),
            len == v@.len(),
            i <= p@.len(),
            forall|k: int| 0 <= k < i ==> v@[at + k] == p@[k],
        decreases p@.len() - i,
    {
        if v[at + i] != p[i] {
            assert(v@.skip(at as int).subrange(0, p@.len() as int)[i as int] != p@[i as int]);
            return false;
        }
        i = i + 1;
    }
    assert(v@.skip(at as int).subrange(0, p@.len() as int) =~= p@);
    true
}

/// Whether `v` begins with `p`.
pub fn starts_with_chars(v: &[char], p: &[char]) -> (b: bool)
    ensures
        b == starts_with(v@, p@),
{
    assert(v@.skip(0) =~= v@);
    starts_with_at(v, 0, p)
}

/// Whether `v` and `p` hold the same characters.
pub fn same_chars(v: &[char], p: &[char]) -> (b: bool)
    ensures
        b == (v@ == p@),
{
    if v.len() != p.len() {
        return false;
    }
    let b = starts_with_chars(v, p);
    assert(v@.subrange(0, v@.len() as int) =~= v@);
    b
}

/// `v` with every leading repetition of `p` removed.
pub fn strip_repeated_chars(v: &[char], p: &[char]) -> (r: Vec<char>)
    ensures
        r@ == strip_repeated(v@, p@),
{
    if p.len() == 0 {
        return slice_chars(v, 0, v.len());
    }
    let len = v.len();
    let mut at: usize = 0;
    assert(v@.skip(0) =~= v@);
    while starts_with_at(v, at, p)
        invariant
            at <= v@.len(),
            len == v@.len(),
            p@.len() > 0,
            strip_repeated(v@, p@) == strip_repeated(v@.skip(at as int), p@),
        decreases v@.len() - at,
    {
        assert(v@.skip(at as int).skip(p@.len() as int) =~= v@.skip(at + p@.len()));
        at = at + p.len();
    }
    slice_chars(v, at, v.len())
}

/// Whether `p` occurs in `v`.
pub fn occurs_chars(p: &[char], v: &[char]) -> (b: bool)
    ensures
        b == occurs_in(p@, v@),
{
    if p.len() > v.len() {
        return false;
    }
    if p.len() == 0 {
        assert(v@.subrange(0int, 0int + p@.len()) =~= p@);
        return true;
    }
    let mut i: usize = 0;
    while i <= v.len() - p.len()
        invariant
            1 <= p@.len() <= v@.len(),
            i <= v@.len() - p@.len() + 1,
            forall|k: int| 0 <= k < i ==> #[trigger] v@.subrange(k, k + p@.len()) != p@,
        decreases v@.len() - p@.len() + 1 - i,
    {
        if starts_with_at(v, i, p) {
            assert(v@.skip(i as int).subrange(0, p@.len() as int) =~= v@.subrange(
                i as int,
                i + p@.len(),
            ));
            return true;
        }
        assert(v@.skip(i as int).subrange(0, p@.len() as int) =~= v@.subrange(
            i as int,
            i + p@.len(),
        ));
        i = i + 1;
    }
    false
}

/// The lines of `v`, as `str::lines` yields them.
pub fn split_lines(v: &[char]) -> (r: Vec<Vec<char>>)
    ensures
        r@.map_values(|l: Vec<char>| l@) == lines(v@),
{
    let mut done: Vec<Vec<char>> = Vec::new();
    let mut cur: Vec<char> = Vec::new();
    let mut i: usize = 0;
    while i < v.len()
        invariant
            i <= v@.len(),
            line_scan(v@.take(i as int)) == (done@.map_values(|l: Vec<char>| l@), cur@),
        decreases v@.len() - i,
    {
        let c = v[i];
        assert(v@.take(i + 1).drop_last() =~= v@.take(i as int));
        if c == '\n' {
            let ghost cur_view = cur@;
            if cur.len() > 0 && cur[cur.len() - 1] == '\r' {
                cur.pop();
            }
            assert(cur@ == drop_cr(cur_view));
            done.push(cur);
            cur = Vec::new();
            assert(done@.map_values(|l: Vec<char>| l@) =~= line_scan(v@.take(i as int)).0.push(
                drop_cr(cur_view),
            ));
        } else {
            cur.push(c);
        }
        i = i + 1;
    }
    assert(v@.take(v@.len() as int) =~= v@);
    if cur.len() > 0 {
        let ghost before = done@.map_values(|l: Vec<char>| l@);
        done.push(cur);
        assert(done@.map_values(|l: Vec<char>| l@) =~= before.push(line_scan(v@).1));
    }
    done
}


/// `String::push` appends one character.
pub assume_specification[ String::push ](s: &mut String, ch: char)
    ensures
        final(s)@ == old(s)@.push(ch),
;

/// A `String` holding the characters of `v`.
pub fn string_of(v: &[char]) -> (r: String)
    ensures
        r@ == v@,
{
    let mut r = String::new();
    let mut i: usize = 0;
    while i < v.len()
        invariant
            i <= v@.len(),
            r@ == v@.take(i as int),
        decreases v@.len() - i,
    {
        r.push(v[i]);
        assert(v@.take(i + 1) =~= v@.take(i as int).push(v@[i as int]));
        i = i + 1;
    }
    assert(v@.take(v@.len() as int) =~= v@);
    r
}

/// `s` without leading and trailing whitespace (`str::trim`).
pub fn trim_text(s: &str) -> (r: String)
    ensures
        r@ == trim(s@),
{
    let v = chars_of(s);
    let t = trim_chars(&v);
    string_of(&t)
}


/// The character of a decimal digit.
pub open spec fn digit_char(d: nat) -> char {
    if d == 0 { '0' } else if d == 1 { '1' } else if d == 2 { '2' } else if d == 3 { '3' }
    else if d == 4 { '4' } else if d == 5 { '5' } else if d == 6 { '6' } else if d == 7 { '7' }
    else if d == 8 { '8' } else { '9' }
}

/// The decimal digits of `n`, as `Display` writes an unsigned number.
pub open spec fn decimal(n: nat) -> Seq<char>
    decreases n,
{
    if n < 10 {
        seq![digit_char(n)]
    } else {
        decimal(n / 10).push(digit_char(n % 10))
    }
}

fn digit(d: u32) -> (c: char)
    requires
        d < 10,
    ensures
        c == digit_char(d as nat),
{
    if d == 0 { '0' } else if d == 1 { '1' } else if d == 2 { '2' } else if d == 3 { '3' }
    else if d == 4 { '4' } else if d == 5 { '5' } else if d == 6 { '6' } else if d == 7 { '7' }
    else if d == 8 { '8' } else { '9' }
}

/// `n` written in decimal.
pub fn decimal_text(n: u32) -> (r: String)
    ensures
        r@ == decimal(n as nat),
{
    let mut rest: u32 = n;
    let mut tail: Vec<char> = Vec::new();
    while rest >= 10
        invariant
            decimal(n as nat) == decimal(rest as nat) + tail@,
        decreases rest,
    {
        let d = digit(rest % 10);
        let ghost before = tail@;
        tail.insert(0, d);
        assert(decimal(rest as nat) == decimal((rest / 10) as nat).push(d));
        assert(decimal(rest as nat) + before =~= decimal((rest / 10) as nat) + tail@);
        rest = rest / 10;
    }
    let mut out: Vec<char> = Vec::new();
    out.push(digit(rest));
    let mut i: usize = 0;
    while i < tail.len()
        invariant
            i <= tail@.len(),
            out@ == seq![digit_char(rest as nat)] + tail@.take(i as int),
        decreases tail@.len() - i,
    {
        out.push(tail[i]);
        assert(tail@.take(i + 1) =~= tail@.take(i as int).push(tail@[i as int]));
        i = i + 1;
    }
    assert(tail@.take(tail@.len() as int) =~= tail@);
    string_of(&out)
}


/// The views of a vector of strings.
pub open spec fn texts(v: Seq<String>) -> Seq<Seq<char>> {
    v.map_values(|s: String| s@)
}

/// The items separated by `sep`.
pub open spec fn joined_by(items: Seq<Seq<char>>, sep: Seq<char>) -> Seq<char>
    decreases items.len(),
{
    if items.len() == 0 {
        Seq::empty()
    } else if items.len() == 1 {
        items[0]
    } else {
        joined_by(items.drop_last(), sep) + sep + items.last()
    }
}

/// The items separated by `sep` (`[String]::join`).
pub fn join_with(items: &Vec<String>, sep: &str) -> (r: String)
    ensures
        r@ == joined_by(texts(items@), sep@),
{
    let mut r = String::new();
    let mut i: usize = 0;
    while i < items.len()
        invariant
            i <= items@.len(),
            r@ == joined_by(texts(items@).take(i as int), sep@),
        decreases items@.len() - i,
    {
        let ghost before = r@;
        let ghost t = texts(items@).take(i + 1);
        assert(t.drop_last() =~= texts(items@).take(i as int));
        assert(t.last() == items@[i as int]@);
        if i > 0 {
            r.append(sep);
        } else {
            assert(t =~= seq![items@[0]@]);
        }
        r.append(items[i].as_str());
        proof {
            if i == 0 {
                assert(r@ =~= items@[0]@);
            } else {
                assert(r@ =~= before + sep@ + items@[i as int]@);
            }
        }
        i = i + 1;
    }
    assert(texts(items@).take(items@.len() as int) =~= texts(items@));
    r
}

} // verus!
