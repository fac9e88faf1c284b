//! The element-composition mini-format.
//!
//! One `key=value` (or `key:value`) pair per line, blank lines ignored; a
//! malformed line rejects the whole input.  Weight percents are held in
//! hundredths (see [`crate::decimal`]); keys stay unique, insertion order is
//! kept, and a later line for the same key replaces the earlier value.

use vstd::prelude::*;

use crate::decimal::{
    parse_decimal, parse_decimal_spec, render_hundredths, render_hundredths_spec,
    lemma_parse_decimal_range, MAX_HUNDREDTHS,
};
use crate::strutil::{
    index_of, is_trimmed, lemma_index_of, lemma_index_of_unique, trim_chars, trim_spec,
    chars_of, string_from_chars, str_eq, to_string, lemma_trim_no_char, lemma_trim_spec_trimmed,
    lemma_trim_spec_of_trimmed, split_on, split_chars, subvec, find_char, line_views,
    lemma_split_on_no_sep,
};

verus! {

/// An element symbol together with its weight percent in hundredths.
#[derive(Debug, Clone)]
pub struct ElementMap {
    entries: Vec<(String, i64)>,
}

/// The entry sequence seen through the views of its keys.
pub open spec fn view_entries(es: Seq<(String, i64)>) -> Seq<(Seq<char>, i64)> {
    es.map_values(|e: (String, i64)| (e.0@, e.1))
}

impl View for ElementMap {
    type V = Seq<(Seq<char>, i64)>;

    closed spec fn view(&self) -> Seq<(Seq<char>, i64)> {
        view_entries(self.entries@)
    }
}

/// Keys the mini-format can both produce and reproduce: non-empty, no
/// surrounding whitespace, and free of line breaks and `=`.
pub open spec fn element_key_ok(k: Seq<char>) -> bool {
    &&& k.len() > 0
    &&& is_trimmed(k)
    &&& forall|i: int| 0 <= i < k.len() ==> #[trigger] k[i] != '\n' && k[i] != '='
}

/// Well-formed element mapping: valid keys, values within the decimal
/// range, keys pairwise distinct.
pub open spec fn wf_elements(m: Seq<(Seq<char>, i64)>) -> bool {
    &&& forall|i: int|
        0 <= i < m.len() ==> element_key_ok(#[trigger] m[i].0) && -MAX_HUNDREDTHS <= m[i].1
            <= MAX_HUNDREDTHS
    &&& forall|i: int, j: int| 0 <= i < j < m.len() ==> m[i].0 != m[j].0
}

/// Index of the first entry with key `k`, or `m.len()` when absent.
pub open spec fn find_key(m: Seq<(Seq<char>, i64)>, k: Seq<char>) -> int
    decreases m.len(),
{
    if m.len() == 0 {
        0
    } else if m[0].0 == k {
        0
    } else {
        1 + find_key(m.drop_first(), k)
    }
}

pub proof fn lemma_find_key(m: Seq<(Seq<char>, i64)>, k: Seq<char>)
    ensures
        0 <= find_key(m, k) <= m.len(),
        forall|j: int| 0 <= j < find_key(m, k) ==> m[j].0 != k,
        find_key(m, k) < m.len() ==> m[find_key(m, k)].0 == k,
    decreases m.len(),
{
    if m.len() > 0 && m[0].0 != k {
        let t = m.drop_first();
        lemma_find_key(t, k);
        assert forall|j: int| 0 <= j < find_key(m, k) implies m[j].0 != k by {
            if j > 0 {
                assert(t[j - 1] == m[j]);
            }
        }
    }
}

pub proof fn lemma_find_key_unique(m: Seq<(Seq<char>, i64)>, k: Seq<char>, i: int)
    requires
        0 <= i <= m.len(),
        forall|j: int| 0 <= j < i ==> m[j].0 != k,
        i < m.len() ==> m[i].0 == k,
    ensures
        find_key(m, k) == i,
    decreases m.len(),
{
    if m.len() > 0 && m[0].0 != k {
        lemma_find_key_unique(m.drop_first(), k, i - 1);
    }
}

/// Replaces the value under `k`, or appends a new entry when `k` is new.
pub open spec fn insert_entry(m: Seq<(Seq<char>, i64)>, k: Seq<char>, v: i64) -> Seq<
    (Seq<char>, i64),
> {
    let i = find_key(m, k);
    if 0 <= i < m.len() {
        m.update(i, (k, v))
    } else {
        m.push((k, v))
    }
}

/// Each entry of a well-formed mapping has a valid key and in-range value.
pub proof fn lemma_wf_at(m: Seq<(Seq<char>, i64)>, i: int)
    requires
        wf_elements(m),
        0 <= i < m.len(),
    ensures
        element_key_ok(m[i].0),
        -MAX_HUNDREDTHS <= m[i].1 <= MAX_HUNDREDTHS,
{
    assert(element_key_ok(m[i].0) && -MAX_HUNDREDTHS <= m[i].1 <= MAX_HUNDREDTHS);
}

/// Inserting a valid key and in-range value keeps the mapping well formed.
pub proof fn lemma_insert_wf(m: Seq<(Seq<char>, i64)>, k: Seq<char>, v: i64)
    requires
        wf_elements(m),
        element_key_ok(k),
        -MAX_HUNDREDTHS <= v <= MAX_HUNDREDTHS,
    ensures
        wf_elements(insert_entry(m, k, v)),
{
    lemma_find_key(m, k);
}

/// Error text for a line without both a key and a value.
pub open spec fn bad_line_msg() -> Seq<char> {
    "major_elements_pct lines must be like 'Si=46.7'"@
}

/// Error text for a value that is not a plain decimal number.
pub open spec fn invalid_pct_msg(key: Seq<char>) -> Seq<char> {
    "invalid percentage for '"@ + key + "'"@
}

/// Reading one non-blank, trimmed line: the separator is `=` when present,
/// `:` otherwise; key and value are trimmed; both must be non-empty and the
/// value must be a decimal number.
pub open spec fn line_entry_spec(t: Seq<char>) -> Result<(Seq<char>, i64), Seq<char>> {
    let sep: char = if index_of(t, '=') < t.len() {
        '='
    } else {
        ':'
    };
    let i = index_of(t, sep);
    let key = trim_spec(t.subrange(0, if i < t.len() { i } else { t.len() as int }));
    let value = if i < t.len() {
        trim_spec(t.subrange(i + 1, t.len() as int))
    } else {
        Seq::<char>::empty()
    };
    if key.len() == 0 || value.len() == 0 {
        Err(bad_line_msg())
    } else {
        match parse_decimal_spec(value) {
            Some(v) => Ok((key, v)),
            None => Err(invalid_pct_msg(key)),
        }
    }
}

/// Folds the remaining lines into `acc`, skipping blank lines.
pub open spec fn parse_lines_spec(lines: Seq<Seq<char>>, acc: Seq<(Seq<char>, i64)>) -> Result<
    Seq<(Seq<char>, i64)>,
    Seq<char>,
>
    decreases lines.len(),
{
    if lines.len() == 0 {
        Ok(acc)
    } else {
        let t = trim_spec(lines[0]);
        if t.len() == 0 {
            parse_lines_spec(lines.drop_first(), acc)
        } else {
            match line_entry_spec(t) {
                Ok(e) => parse_lines_spec(lines.drop_first(), insert_entry(acc, e.0, e.1)),
                Err(msg) => Err(msg),
            }
        }
    }
}

/// What parsing the whole mini-format text yields.
pub open spec fn parse_elements_spec(s: Seq<char>) -> Result<Seq<(Seq<char>, i64)>, Seq<char>> {
    parse_lines_spec(split_on(s, '\n'), Seq::<(Seq<char>, i64)>::empty())
}

/// Result of reading one line, through the views.
pub open spec fn line_result_view(r: Result<(String, i64), String>) -> Result<
    (Seq<char>, i64),
    Seq<char>,
> {
    match r {
        Ok(e) => Ok((e.0@, e.1)),
        Err(m) => Err(m@),
    }
}

/// Reads one trimmed, non-blank line of the mini-format.
fn line_entry(t: &Vec<char>) -> (r: Result<(String, i64), String>)
    requires
        t@ == trim_spec(t@),
        t@.len() > 0,
    ensures
        line_result_view(r) == line_entry_spec(t@),
{
    let n = t.len();
    let eq_pos = find_char(t, '=');
    let i: usize = if eq_pos < n {
        eq_pos
    } else {
        find_char(t, ':')
    };
    let key_chars = {
        let raw = subvec(t, 0, if i < n { i } else { n });
        trim_chars(&raw)
    };
    let value_chars = if i < n {
        let raw = subvec(t, i + 1, n);
        trim_chars(&raw)
    } else {
        Vec::<char>::new()
    };
    proof {
        assert(value_chars@ == if index_of(t@, if index_of(t@, '=') < t@.len() {
            '='
        } else {
            ':'
        }) < t@.len() {
            trim_spec(t@.subrange(index_of(t@, if index_of(t@, '=') < t@.len() {
                '='
            } else {
                ':'
            }) + 1, t@.len() as int))
        } else {
            Seq::<char>::empty()
        });
    }
    if key_chars.len() == 0 || value_chars.len() == 0 {
        return Err(to_string("major_elements_pct lines must be like 'Si=46.7'"));
    }
    match parse_decimal(&value_chars) {
        Some(v) => Ok((string_from_chars(&key_chars), v)),
        None => {
            let mut msg = to_string("invalid percentage for '");
            let key = string_from_chars(&key_chars);
            msg.append(key.as_str());
            msg.append("'");
            Err(msg)
        },
    }
}

/// A successfully read line yields a key the serializer can reproduce and a
/// value inside the decimal range.
pub proof fn lemma_line_entry_ok(t: Seq<char>)
    requires
        forall|j: int| 0 <= j < t.len() ==> t[j] != '\n',
    ensures
        line_entry_spec(t) matches Ok(e) ==> element_key_ok(e.0) && -MAX_HUNDREDTHS <= e.1
            <= MAX_HUNDREDTHS,
{
    if line_entry_spec(t) is Ok {
        let sep: char = if index_of(t, '=') < t.len() {
            '='
        } else {
            ':'
        };
        let i = index_of(t, sep);
        lemma_index_of(t, sep);
        lemma_index_of(t, '=');
        let raw = t.subrange(0, if i < t.len() { i } else { t.len() as int });
        let key = trim_spec(raw);
        assert(forall|j: int| 0 <= j < raw.len() ==> raw[j] != '\n');
        assert(forall|j: int| 0 <= j < raw.len() ==> raw[j] != '=');
        lemma_trim_no_char(raw, '\n');
        lemma_trim_no_char(raw, '=');
        lemma_trim_spec_trimmed(raw);
        if i < t.len() {
            let value = trim_spec(t.subrange(i + 1, t.len() as int));
            lemma_parse_decimal_range(value);
        }
    }
}

fn insert_exec(entries: &mut Vec<(String, i64)>, k: String, v: i64)
    ensures
        view_entries(final(entries)@) == insert_entry(view_entries(old(entries)@), k@, v),
{
    let n = entries.len();
    let mut i: usize = 0;
    while i < n
        invariant
            i <= n,
            n == entries@.len(),
            entries == old(entries),
            forall|j: int| 0 <= j < i ==> view_entries(entries@)[j].0 != k@,
        decreases n - i,
    {
        let hit = str_eq(entries[i].0.as_str(), k.as_str());
        proof {
            assert(view_entries(entries@)[i as int].0 == entries@[i as int].0@);
        }
        if hit {
            proof {
                lemma_find_key_unique(view_entries(entries@), k@, i as int);
            }
            entries.set(i, (k, v));
            proof {
                assert(view_entries(entries@) =~= insert_entry(
                    view_entries(old(entries)@),
                    k@,
                    v,
                ));
            }
            return;
        }
        i += 1;
    }
    proof {
        lemma_find_key_unique(view_entries(entries@), k@, n as int);
    }
    entries.push((k, v));
    proof {
        assert(view_entries(entries@) =~= insert_entry(view_entries(old(entries)@), k@, v));
    }
}

impl ElementMap {
    /// The empty mapping.
    pub fn new() -> (r: ElementMap)
        ensures
            r@ == Seq::<(Seq<char>, i64)>::empty(),
            wf_elements(r@),
    {
        let r = ElementMap { entries: Vec::new() };
        proof {
            assert(r@ =~= Seq::<(Seq<char>, i64)>::empty());
        }
        r
    }

    /// Number of element entries.
    pub fn len(&self) -> (r: usize)
        ensures
            r == self@.len(),
    {
        self.entries.len()
    }

    /// Element symbol of the entry at `i`.
    pub fn key_at(&self, i: usize) -> (r: &String)
        requires
            i < self@.len(),
        ensures
            r@ == self@[i as int].0,
    {
        &self.entries[i].0
    }

    /// Weight percent, in hundredths, of the entry at `i`.
    pub fn value_at(&self, i: usize) -> (r: i64)
        requires
            i < self@.len(),
        ensures
            r == self@[i as int].1,
    {
        self.entries[i].1
    }

    /// Looks a symbol up, returning its hundredths of a percent.
    pub fn get(&self, k: &str) -> (r: Option<i64>)
        ensures
            match r {
                Some(v) => {
                    let i = find_key(self@, k@);
                    i < self@.len() && self@[i].1 == v
                },
                None => find_key(self@, k@) == self@.len(),
            },
    {
        let n = self.entries.len();
        let mut i: usize = 0;
        while i < n
            invariant
                i <= n,
                n == self@.len(),
                n == self.entries@.len(),
                forall|j: int| 0 <= j < i ==> self@[j].0 != k@,
            decreases n - i,
        {
            let hit = str_eq(self.entries[i].0.as_str(), k);
            proof {
                assert(self@[i as int].0 == self.entries@[i as int].0@);
            }
            if hit {
                proof {
                    lemma_find_key_unique(self@, k@, i as int);
                }
                return Some(self.entries[i].1);
            }
            i += 1;
        }
        proof {
            lemma_find_key_unique(self@, k@, n as int);
        }
        None
    }

    /// A copy with the same entries in the same order.
    pub fn duplicate(&self) -> (r: ElementMap)
        ensures
            r@ == self@,
    {
        let n = self.entries.len();
        let mut out: Vec<(String, i64)> = Vec::new();
        let mut i: usize = 0;
        while i < n
            invariant
                i <= n,
                n == self.entries@.len(),
                view_entries(out@) =~= view_entries(self.entries@).subrange(0, i as int),
            decreases n - i,
        {
            let k = self.entries[i].0.clone();
            let v = self.entries[i].1;
            let pair = (k, v);
            let ghost gp = pair;
            let ghost prev = out@;
            proof {
                assert(gp.0 == self.entries@[i as int].0);
                assert(gp.1 == self.entries@[i as int].1);
            }
            out.push(pair);
            proof {
                assert(out@ == prev.push(gp));
                assert(view_entries(self.entries@).len() == self.entries@.len());
                assert(view_entries(out@).len() == out@.len());
                assert(view_entries(prev).len() == prev.len());
                let hi = view_entries(self.entries@).subrange(0, i as int + 1);
                assert forall|j: int| 0 <= j < out@.len() implies view_entries(out@)[j] == hi[j] by {
                    assert(view_entries(out@)[j] == (out@[j].0@, out@[j].1));
                    assert(hi[j] == view_entries(self.entries@)[j]);
                    assert(view_entries(self.entries@)[j] == (self.entries@[j].0@, self.entries@[j].1));
                    if j < i {
                        assert(out@[j] == prev[j]);
                        assert(view_entries(prev)[j] == (prev[j].0@, prev[j].1));
                    } else {
                        assert(out@[j] == gp);
                    }
                }
                assert(view_entries(out@) =~= hi);
            }
            i += 1;
        }
        let r = ElementMap { entries: out };
        proof {
            assert(view_entries(self.entries@).subrange(0, n as int) =~= self@);
        }
        r
    }

    /// Adds or replaces one entry; rejects a key the mini-format could not
    /// reproduce, or an out-of-range value, leaving the mapping unchanged.
    pub fn insert(&mut self, key: String, value: i64) -> (r: bool)
        ensures
            r == (element_key_ok(key@) && -MAX_HUNDREDTHS <= value <= MAX_HUNDREDTHS),
            r ==> final(self)@ == insert_entry(old(self)@, key@, value),
            !r ==> final(self)@ == old(self)@,
            wf_elements(old(self)@) && r ==> wf_elements(final(self)@),
    {
        let cs = chars_of(key.as_str());
        if cs.len() == 0 {
            return false;
        }
        let first_ws = crate::strutil::is_space_char(cs[0]);
        let last_ws = crate::strutil::is_space_char(cs[cs.len() - 1]);
        if first_ws || last_ws {
            return false;
        }
        let mut i: usize = 0;
        let n = cs.len();
        while i < n
            invariant
                i <= n,
                n == cs@.len(),
                cs@ == key@,
                forall|j: int| 0 <= j < i ==> #[trigger] key@[j] != '\n' && key@[j] != '=',
            decreases n - i,
        {
            if cs[i] == '\n' || cs[i] == '=' {
                return false;
            }
            i += 1;
        }
        if value < -MAX_HUNDREDTHS || value > MAX_HUNDREDTHS {
            return false;
        }
        proof {
            if wf_elements(self@) {
                lemma_insert_wf(self@, key@, value);
            }
        }
        insert_exec(&mut self.entries, key, value);
        true
    }
}

/// Parses the admin form's element-composition text, one pair per line.
pub fn parse_major_elements(raw: &str) -> (r: Result<ElementMap, String>)
    ensures
        r matches Ok(m) ==> parse_elements_spec(raw@) == Ok::<_, Seq<char>>(m@) && wf_elements(
            m@,
        ),
        r matches Err(e) ==> parse_elements_spec(raw@) == Err::<Seq<(Seq<char>, i64)>, _>(e@),
{
    let cs = chars_of(raw);
    let lines = split_chars(&cs, '\n');
    let n = lines.len();
    let mut entries: Vec<(String, i64)> = Vec::new();
    let mut i: usize = 0;
    proof {
        assert(view_entries(entries@) =~= Seq::<(Seq<char>, i64)>::empty());
        assert(line_views(lines@).subrange(0, n as int) =~= line_views(lines@));
        lemma_split_on_no_sep(cs@, '\n');
    }
    while i < n
        invariant
            i <= n,
            n == lines@.len(),
            line_views(lines@) == split_on(cs@, '\n'),
            cs@ == raw@,
            wf_elements(view_entries(entries@)),
            parse_lines_spec(line_views(lines@).subrange(i as int, n as int), view_entries(
                entries@,
            )) == parse_elements_spec(raw@),
            forall|k: int, j: int|
                0 <= k < split_on(cs@, '\n').len() && 0 <= j < split_on(cs@, '\n')[k].len()
                    ==> #[trigger] split_on(cs@, '\n')[k][j] != '\n',
        decreases n - i,
    {
        let rest = Ghost(line_views(lines@).subrange(i as int, n as int));
        proof {
            assert(rest@[0] == line_views(lines@)[i as int]);
            assert(line_views(lines@)[i as int] == lines@[i as int]@);
            assert(rest@.drop_first() =~= line_views(lines@).subrange(i as int + 1, n as int));
        }
        let t = trim_chars(&lines[i]);
        if t.len() == 0 {
            i += 1;
            continue;
        }
        proof {
            lemma_trim_spec_trimmed(lines@[i as int]@);
            lemma_trim_spec_of_trimmed(t@);
            assert(forall|j: int| 0 <= j < lines@[i as int]@.len()
                ==> #[trigger] lines@[i as int]@[j] != '\n');
            lemma_trim_no_char(lines@[i as int]@, '\n');
            lemma_line_entry_ok(t@);
        }
        match line_entry(&t) {
            Ok(entry) => {
                let (k, v) = entry;
                proof {
                    lemma_insert_wf(view_entries(entries@), k@, v);
                }
                insert_exec(&mut entries, k, v);
                i += 1;
            },
            Err(msg) => {
                return Err(msg);
            },
        }
    }
    proof {
        assert(line_views(lines@).subrange(n as int, n as int) =~= Seq::<Seq<char>>::empty());
    }
    let m = ElementMap { entries };
    Ok(m)
}

/// The mapping collected from suggested element/percent pairs: keys are
/// trimmed; a pair whose trimmed key the mini-format could not reproduce,
/// or whose value is out of range, is dropped.
pub open spec fn collect_spec(ps: Seq<(Seq<char>, i64)>) -> Seq<(Seq<char>, i64)>
    decreases ps.len(),
{
    if ps.len() == 0 {
        Seq::<(Seq<char>, i64)>::empty()
    } else {
        let prev = collect_spec(ps.drop_last());
        let k = trim_spec(ps.last().0);
        if element_key_ok(k) && -MAX_HUNDREDTHS <= ps.last().1 <= MAX_HUNDREDTHS {
            insert_entry(prev, k, ps.last().1)
        } else {
            prev
        }
    }
}

proof fn lemma_collect_wf(ps: Seq<(Seq<char>, i64)>)
    ensures
        wf_elements(collect_spec(ps)),
    decreases ps.len(),
{
    if ps.len() > 0 {
        lemma_collect_wf(ps.drop_last());
        let k = trim_spec(ps.last().0);
        if element_key_ok(k) && -MAX_HUNDREDTHS <= ps.last().1 <= MAX_HUNDREDTHS {
            lemma_insert_wf(collect_spec(ps.drop_last()), k, ps.last().1);
        }
    }
}

/// Builds an element mapping from suggested element/percent pairs, as
/// [`collect_spec`] describes.
#[verifier::loop_isolation(false)]
pub fn collect_suggested_elements(pairs: &Vec<(String, i64)>) -> (r: ElementMap)
    ensures
        r@ == collect_spec(view_entries(pairs@)),
        wf_elements(r@),
{
    let n = pairs.len();
    let mut m = ElementMap::new();
    let mut i: usize = 0;
    proof {
        assert(view_entries(pairs@).len() == n);
        assert(view_entries(pairs@).subrange(0, 0) =~= Seq::<(Seq<char>, i64)>::empty());
        lemma_collect_wf(view_entries(pairs@));
    }
    while i < n
        invariant
            i <= n,
            wf_elements(m@),
            m@ == collect_spec(view_entries(pairs@).subrange(0, i as int)),
        decreases n - i,
    {
        proof {
            let pre = view_entries(pairs@).subrange(0, i as int);
            let post = view_entries(pairs@).subrange(0, i as int + 1);
            assert(post.drop_last() =~= pre);
            assert(post.last() == view_entries(pairs@)[i as int]);
            assert(view_entries(pairs@)[i as int] == (pairs@[i as int].0@, pairs@[i as int].1));
        }
        let raw = chars_of(pairs[i].0.as_str());
        let t = trim_chars(&raw);
        let key = string_from_chars(&t);
        proof {
            lemma_trim_spec_trimmed(pairs@[i as int].0@);
            lemma_trim_spec_of_trimmed(key@);
        }
        let _accepted = m.insert(key, pairs[i].1);
        i += 1;
    }
    proof {
        assert(view_entries(pairs@).subrange(0, n as int) =~= view_entries(pairs@));
    }
    m
}

/// One serialized line: `key=` followed by the two-decimal rendering.
pub open spec fn render_entry_spec(k: Seq<char>, v: i64) -> Seq<char> {
    k + seq!['='] + render_hundredths_spec(v as int)
}

/// All serialized lines, in entry order.
pub open spec fn rendered_lines(m: Seq<(Seq<char>, i64)>) -> Seq<Seq<char>> {
    m.map_values(|e: (Seq<char>, i64)| render_entry_spec(e.0, e.1))
}

/// The serialized mini-format text: lines joined with `\n`.
pub open spec fn elements_text_spec(m: Seq<(Seq<char>, i64)>) -> Seq<char>
    decreases m.len(),
{
    if m.len() == 0 {
        Seq::<char>::empty()
    } else if m.len() == 1 {
        render_entry_spec(m[0].0, m[0].1)
    } else {
        render_entry_spec(m[0].0, m[0].1) + seq!['\n'] + elements_text_spec(m.drop_first())
    }
}

proof fn lemma_render_value_chars(v: i64)
    requires
        -MAX_HUNDREDTHS <= v <= MAX_HUNDREDTHS,
    ensures
        render_hundredths_spec(v as int).len() > 0,
        forall|j: int|
            0 <= j < render_hundredths_spec(v as int).len()
                ==> crate::decimal::is_digit(#[trigger] render_hundredths_spec(v as int)[j])
                || render_hundredths_spec(v as int)[j] == '.'
                || render_hundredths_spec(v as int)[j] == '-',
        crate::decimal::is_digit(render_hundredths_spec(v as int).last()),
        !crate::strutil::is_space(render_hundredths_spec(v as int)[0]),
{
    let m = if v < 0 { -(v as int) } else { v as int };
    crate::decimal::lemma_digits_of_val(m / 100);
    crate::decimal::lemma_digit_char_val((m / 10) % 10);
    crate::decimal::lemma_digit_char_val(m % 10);
    let ints = crate::decimal::digits_of(m / 100);
    let body = ints + seq!['.'] + seq![
        crate::decimal::digit_char_spec((m / 10) % 10),
        crate::decimal::digit_char_spec(m % 10),
    ];
    let s = render_hundredths_spec(v as int);
    assert forall|j: int| 0 <= j < body.len() implies crate::decimal::is_digit(#[trigger] body[j])
        || body[j] == '.' || body[j] == '-' by {
        if j < ints.len() {
            assert(body[j] == ints[j]);
        }
    }
    if v < 0 {
        assert(s == seq!['-'] + body);
        assert forall|j: int| 0 <= j < s.len() implies crate::decimal::is_digit(#[trigger] s[j])
            || s[j] == '.' || s[j] == '-' by {
            if j > 0 {
                assert(s[j] == body[j - 1]);
            }
        }
        assert(s.last() == body.last());
    } else {
        assert(s == body);
        assert(body[0] == ints[0]);
    }
}

/// A serialized line reads back as exactly its entry.
proof fn lemma_render_entry(k: Seq<char>, v: i64)
    requires
        element_key_ok(k),
        -MAX_HUNDREDTHS <= v <= MAX_HUNDREDTHS,
    ensures
        render_entry_spec(k, v).len() > 0,
        forall|j: int|
            0 <= j < render_entry_spec(k, v).len() ==> #[trigger] render_entry_spec(k, v)[j]
                != '\n',
        trim_spec(render_entry_spec(k, v)) == render_entry_spec(k, v),
        line_entry_spec(render_entry_spec(k, v)) == Ok::<_, Seq<char>>((k, v)),
{
    let rh = render_hundredths_spec(v as int);
    let line = render_entry_spec(k, v);
    lemma_render_value_chars(v);
    // no newline anywhere, and no '=' before position k.len()
    assert forall|j: int| 0 <= j < line.len() implies #[trigger] line[j] != '\n' by {
        if j < k.len() {
            assert(line[j] == k[j]);
        } else if j == k.len() {
            assert(line[j] == '=');
        } else {
            assert(line[j] == rh[j - k.len() - 1]);
        }
    }
    // trimmed: first char of key is not space, last char is a digit
    assert(line[0] == k[0]);
    assert(line[line.len() - 1] == rh[rh.len() - 1]);
    lemma_trim_spec_of_trimmed(line);
    // '=' first occurs at k.len()
    assert forall|j: int| 0 <= j < k.len() implies line[j] != '=' by {
        assert(line[j] == k[j]);
    }
    assert(line[k.len() as int] == '=');
    lemma_index_of_unique(line, '=', k.len() as int);
    // the key piece is exactly k, the value piece exactly rh
    assert(line.subrange(0, k.len() as int) =~= k);
    assert(line.subrange(k.len() as int + 1, line.len() as int) =~= rh);
    lemma_trim_spec_of_trimmed(k);
    assert(is_trimmed(rh)) by {
        assert(crate::decimal::is_digit(rh.last()));
    }
    lemma_trim_spec_of_trimmed(rh);
    crate::decimal::lemma_decimal_round_trip(v as int);
}

/// Splitting the joined text recovers the rendered lines.
proof fn lemma_split_join(m: Seq<(Seq<char>, i64)>)
    requires
        m.len() > 0,
        forall|i: int, j: int|
            0 <= i < m.len() && 0 <= j < rendered_lines(m)[i].len()
                ==> #[trigger] rendered_lines(m)[i][j] != '\n',
    ensures
        split_on(elements_text_spec(m), '\n') == rendered_lines(m),
    decreases m.len(),
{
    let text = elements_text_spec(m);
    let line0 = render_entry_spec(m[0].0, m[0].1);
    assert(rendered_lines(m)[0] == line0);
    if m.len() == 1 {
        assert(forall|j: int| 0 <= j < text.len() ==> text[j] != '\n');
        lemma_index_of_unique(text, '\n', text.len() as int);
        assert(split_on(text, '\n') =~= rendered_lines(m));
    } else {
        let rest = m.drop_first();
        let rest_text = elements_text_spec(rest);
        assert(text == line0 + seq!['\n'] + rest_text);
        assert forall|j: int| 0 <= j < line0.len() implies text[j] != '\n' by {
            assert(text[j] == line0[j]);
        }
        assert(text[line0.len() as int] == '\n');
        lemma_index_of_unique(text, '\n', line0.len() as int);
        assert(rendered_lines(rest) =~= rendered_lines(m).drop_first());
        assert forall|i: int, j: int|
            0 <= i < rest.len() && 0 <= j < rendered_lines(rest)[i].len()
                implies #[trigger] rendered_lines(rest)[i][j] != '\n' by {
            assert(rendered_lines(rest)[i] == rendered_lines(m)[i + 1]);
        }
        lemma_split_join(rest);
        assert(text.subrange(0, line0.len() as int) =~= line0);
        assert(text.subrange(line0.len() as int + 1, text.len() as int) =~= rest_text);
        assert(split_on(text, '\n') == seq![line0] + split_on(rest_text, '\n'));
        assert(seq![line0] + rendered_lines(rest) =~= rendered_lines(m));
    }
}

/// Folding the rendered lines appends the entries onto `acc`.
proof fn lemma_parse_rendered(m: Seq<(Seq<char>, i64)>, acc: Seq<(Seq<char>, i64)>)
    requires
        wf_elements(m),
        forall|i: int, j: int| 0 <= i < acc.len() && 0 <= j < m.len() ==> acc[i].0 != m[j].0,
    ensures
        parse_lines_spec(rendered_lines(m), acc) == Ok::<_, Seq<char>>(acc + m),
    decreases m.len(),
{
    if m.len() == 0 {
        assert(rendered_lines(m) =~= Seq::<Seq<char>>::empty());
        assert(acc + m =~= acc);
    } else {
        let k0 = m[0].0;
        let v0 = m[0].1;
        let line0 = render_entry_spec(k0, v0);
        lemma_render_entry(k0, v0);
        assert(rendered_lines(m)[0] == line0);
        assert(trim_spec(line0) == line0);
        // the key is new in acc, so insertion appends
        assert(forall|i: int| 0 <= i < acc.len() ==> acc[i].0 != k0);
        lemma_find_key_unique(acc, k0, acc.len() as int);
        let acc1 = acc.push((k0, v0));
        assert(insert_entry(acc, k0, v0) == acc1);
        let rest = m.drop_first();
        assert(wf_elements(rest)) by {
            assert(forall|i: int| 0 <= i < rest.len() ==> rest[i] == m[i + 1]);
        }
        assert forall|i: int, j: int|
            0 <= i < acc1.len() && 0 <= j < rest.len() implies acc1[i].0 != rest[j].0 by {
            assert(rest[j] == m[j + 1]);
            if i < acc.len() {
                assert(acc1[i] == acc[i]);
            } else {
                assert(acc1[i].0 == m[0].0);
            }
        }
        lemma_parse_rendered(rest, acc1);
        assert(rendered_lines(m).drop_first() =~= rendered_lines(rest));
        assert(acc1 + rest =~= acc + m);
    }
}

/// Round trip: serializing a well-formed mapping and parsing the text back
/// returns exactly the same mapping, keys, values and order alike.
pub proof fn lemma_elements_round_trip(m: Seq<(Seq<char>, i64)>)
    requires
        wf_elements(m),
    ensures
        parse_elements_spec(elements_text_spec(m)) == Ok::<_, Seq<char>>(m),
{
    if m.len() == 0 {
        let text = elements_text_spec(m);
        assert(text.len() == 0);
        lemma_index_of_unique(text, '\n', 0);
        assert(split_on(text, '\n') =~= seq![text]);
        let lines = split_on(text, '\n');
        assert(trim_spec(text).len() == 0);
        assert(lines.drop_first() =~= Seq::<Seq<char>>::empty());
        assert(lines[0] == text);
        assert(parse_lines_spec(Seq::<Seq<char>>::empty(), Seq::<(Seq<char>, i64)>::empty())
            == Ok::<_, Seq<char>>(Seq::<(Seq<char>, i64)>::empty()));
        assert(parse_lines_spec(lines, Seq::<(Seq<char>, i64)>::empty())
            == Ok::<_, Seq<char>>(Seq::<(Seq<char>, i64)>::empty()));
        assert(Seq::<(Seq<char>, i64)>::empty() =~= m);
    } else {
        assert forall|i: int, j: int|
            0 <= i < m.len() && 0 <= j < rendered_lines(m)[i].len()
                implies #[trigger] rendered_lines(m)[i][j] != '\n' by {
            lemma_render_entry(m[i].0, m[i].1);
            assert(rendered_lines(m)[i] == render_entry_spec(m[i].0, m[i].1));
        }
        lemma_split_join(m);
        lemma_parse_rendered(m, Seq::<(Seq<char>, i64)>::empty());
        assert(Seq::<(Seq<char>, i64)>::empty() + m =~= m);
    }
}

fn write_entries(out: &mut Vec<char>, m: &Vec<(String, i64)>, i: usize)
    requires
        i <= m@.len(),
        wf_elements(view_entries(m@)),
    ensures
        final(out)@ == old(out)@ + elements_text_spec(view_entries(m@).subrange(
            i as int,
            m@.len() as int,
        )),
    decreases m@.len() - i,
{
    let n = m.len();
    if i >= n {
        proof {
            assert(view_entries(m@).subrange(i as int, n as int) =~= Seq::<(Seq<char>, i64)>::empty());
            assert(out@ =~= out@ + Seq::<char>::empty());
        }
        return;
    }
    let sub = Ghost(view_entries(m@).subrange(i as int, n as int));
    proof {
        assert(sub@[0] == view_entries(m@)[i as int]);
        assert(view_entries(m@)[i as int] == (m@[i as int].0@, m@[i as int].1));
        assert(sub@.drop_first() =~= view_entries(m@).subrange(i as int + 1, n as int));
    }
    let kc = chars_of(m[i].0.as_str());
    out.extend_from_slice(kc.as_slice());
    out.push('=');
    proof {
        assert(view_entries(m@)[i as int].1 == m@[i as int].1);
        assert(view_entries(m@).len() == m@.len());
        lemma_wf_at(view_entries(m@), i as int);
    }
    let mut rv = render_hundredths(m[i].1);
    out.append(&mut rv);
    if i + 1 < n {
        out.push('\n');
        write_entries(out, m, i + 1);
        proof {
            assert(final(out)@ =~= old(out)@ + elements_text_spec(sub@));
        }
    } else {
        proof {
            assert(sub@.len() == 1);
            assert(final(out)@ =~= old(out)@ + elements_text_spec(sub@));
        }
    }
}

/// Serializes the mapping back to mini-format text, one `key=` line per
/// entry with two fraction digits, in entry order.
pub fn major_elements_to_text(m: &ElementMap) -> (r: String)
    requires
        wf_elements(m@),
    ensures
        r@ == elements_text_spec(m@),
{
    let mut out: Vec<char> = Vec::new();
    write_entries(&mut out, &m.entries, 0);
    proof {
        assert(view_entries(m.entries@).subrange(0, m.entries@.len() as int) =~= m@);
    }
    string_from_chars(&out)
}

} // verus!
