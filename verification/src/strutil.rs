//! Character-level string helpers shared by the parsing and formatting code.
//!
//! All contracts are stated over the `Seq<char>` view of `&str` / `String`.

use vstd::prelude::*;

verus! {

/// Whitespace characters stripped by [`trim_chars`]: space, tab, carriage
/// return and line feed.
pub open spec fn is_space(c: char) -> bool {
    c == ' ' || c == '\t' || c == '\r' || c == '\n'
}

/// Executable test matching [`is_space`].
pub fn is_space_char(c: char) -> (r: bool)
    ensures
        r == is_space(c),
{
    c == ' ' || c == '\t' || c == '\r' || c == '\n'
}

/// String equality through the character views.
pub fn str_eq(a: &str, b: &str) -> (r: bool)
    ensures
        r == (a@ == b@),
{
    let a_len = a.unicode_len();
    let b_len = b.unicode_len();
    if a_len != b_len {
        assert(a@ != b@);
        return false;
    }
    let mut i: usize = 0;
    while i < a_len
        invariant
            i <= a_len,
            a_len == a@.len(),
            b_len == b@.len(),
            a_len == b_len,
            forall|j: int| 0 <= j < i ==> a@[j] == b@[j],
        decreases a_len - i,
    {
        if a.get_char(i) != b.get_char(i) {
            assert(a@ != b@);
            return false;
        }
        i += 1;
    }
    assert(a@ =~= b@);
    true
}

/// Relies on `String::push`: appends exactly one character at the end.
#[verifier::external_body]
pub fn push_char(s: &mut String, c: char)
    ensures
        final(s)@ == old(s)@.push(c),
{
    s.push(c)
}

/// Copies the characters of a string slice into an owned `String`.
pub fn to_string(s: &str) -> (r: String)
    ensures
        r@ == s@,
{
    String::from_str(s)
}

/// The characters of `s` collected into a vector.
pub fn chars_of(s: &str) -> (r: Vec<char>)
    ensures
        r@ == s@,
{
    let len = s.unicode_len();
    let mut out: Vec<char> = Vec::new();
    let mut i: usize = 0;
    while i < len
        invariant
            i <= len,
            len == s@.len(),
            out@ =~= s@.subrange(0, i as int),
        decreases len - i,
    {
        out.push(s.get_char(i));
        i += 1;
    }
    assert(out@ =~= s@);
    out
}

/// A `String` holding exactly the characters of `cs`.
pub fn string_from_chars(cs: &Vec<char>) -> (r: String)
    ensures
        r@ == cs@,
{
    let mut out = String::new();
    let mut i: usize = 0;
    while i < cs.len()
        invariant
            i <= cs.len(),
            out@ =~= cs@.subrange(0, i as int),
        decreases cs.len() - i,
    {
        push_char(&mut out, cs[i]);
        i += 1;
    }
    assert(out@ =~= cs@);
    out
}

/// ASCII lowercasing of one character; everything else is unchanged.
pub open spec fn to_lower(c: char) -> char {
    if 65 <= c as int && c as int <= 90 {
        ((c as u8) + 32) as char
    } else {
        c
    }
}

/// Executable ASCII lowercasing matching [`to_lower`].
pub fn to_lower_char(c: char) -> (r: char)
    ensures
        r == to_lower(c),
{
    let v = c as u32;
    if 65 <= v && v <= 90 {
        ((v + 32) as u8) as char
    } else {
        c
    }
}

/// `s` with every character ASCII-lowercased.
pub open spec fn lower_seq(s: Seq<char>) -> Seq<char> {
    s.map_values(|c: char| to_lower(c))
}

/// Lowercases every character of `cs`.
pub fn lower_chars(cs: &Vec<char>) -> (r: Vec<char>)
    ensures
        r@ == lower_seq(cs@),
{
    let n = cs.len();
    let mut out: Vec<char> = Vec::new();
    let mut i: usize = 0;
    while i < n
        invariant
            i <= n,
            n == cs@.len(),
            out@.len() == i,
            forall|j: int| 0 <= j < i ==> out@[j] == to_lower(cs@[j]),
        decreases n - i,
    {
        out.push(to_lower_char(cs[i]));
        i += 1;
    }
    proof {
        assert(lower_seq(cs@).len() == n);
        assert(out@ =~= lower_seq(cs@));
    }
    out
}

/// Character-vector equality through the views.
pub fn chars_eq(a: &Vec<char>, b: &Vec<char>) -> (r: bool)
    ensures
        r == (a@ == b@),
{
    if a.len() != b.len() {
        assert(a@ != b@);
        return false;
    }
    let n = a.len();
    let mut i: usize = 0;
    while i < n
        invariant
            i <= n,
            n == a@.len(),
            n == b@.len(),
            forall|j: int| 0 <= j < i ==> a@[j] == b@[j],
        decreases n - i,
    {
        if a[i] != b[i] {
            return false;
        }
        i += 1;
    }
    assert(a@ =~= b@);
    true
}

/// Index of the first occurrence of `c` in `s`, or `s.len()` when absent.
pub open spec fn index_of(s: Seq<char>, c: char) -> int
    decreases s.len(),
{
    if s.len() == 0 {
        0
    } else if s[0] == c {
        0
    } else {
        1 + index_of(s.subrange(1, s.len() as int), c)
    }
}

pub proof fn lemma_index_of(s: Seq<char>, c: char)
    ensures
        0 <= index_of(s, c) <= s.len(),
        forall|j: int| 0 <= j < index_of(s, c) ==> s[j] != c,
        index_of(s, c) < s.len() ==> s[index_of(s, c)] == c,
    decreases s.len(),
{
    if s.len() > 0 && s[0] != c {
        let t = s.subrange(1, s.len() as int);
        lemma_index_of(t, c);
        assert forall|j: int| 0 <= j < index_of(s, c) implies s[j] != c by {
            if j > 0 {
                assert(t[j - 1] == s[j]);
            }
        }
    }
}

/// A position that is `c` and has no `c` before it is the first occurrence.
pub proof fn lemma_index_of_unique(s: Seq<char>, c: char, k: int)
    requires
        0 <= k <= s.len(),
        forall|j: int| 0 <= j < k ==> s[j] != c,
        k < s.len() ==> s[k] == c,
    ensures
        index_of(s, c) == k,
    decreases s.len(),
{
    if s.len() > 0 && s[0] != c {
        lemma_index_of_unique(s.subrange(1, s.len() as int), c, k - 1);
    }
}

/// Lexicographic order on character sequences, by code point.
pub open spec fn lex_le(a: Seq<char>, b: Seq<char>) -> bool
    decreases a.len(),
{
    if a.len() == 0 {
        true
    } else if b.len() == 0 {
        false
    } else if (a[0] as int) < (b[0] as int) {
        true
    } else if (a[0] as int) > (b[0] as int) {
        false
    } else {
        lex_le(a.subrange(1, a.len() as int), b.subrange(1, b.len() as int))
    }
}

/// The order is total.
pub proof fn lemma_lex_le_total(a: Seq<char>, b: Seq<char>)
    ensures
        lex_le(a, b) || lex_le(b, a),
    decreases a.len(),
{
    if a.len() > 0 && b.len() > 0 && a[0] == b[0] {
        lemma_lex_le_total(a.subrange(1, a.len() as int), b.subrange(1, b.len() as int));
    }
}

/// The order is transitive.
pub proof fn lemma_lex_le_trans(a: Seq<char>, b: Seq<char>, c: Seq<char>)
    requires
        lex_le(a, b),
        lex_le(b, c),
    ensures
        lex_le(a, c),
    decreases a.len(),
{
    if a.len() > 0 && b.len() > 0 && c.len() > 0 {
        if a[0] == b[0] && b[0] == c[0] {
            lemma_lex_le_trans(
                a.subrange(1, a.len() as int),
                b.subrange(1, b.len() as int),
                c.subrange(1, c.len() as int),
            );
        }
    }
}

proof fn lemma_lex_le_skip(a: Seq<char>, b: Seq<char>, i: int)
    requires
        0 <= i <= a.len(),
        i <= b.len(),
        forall|j: int| 0 <= j < i ==> a[j] == b[j],
    ensures
        lex_le(a, b) == lex_le(a.subrange(i, a.len() as int), b.subrange(i, b.len() as int)),
    decreases i,
{
    if i > 0 {
        assert(a.len() > 0 && b.len() > 0 && a[0] == b[0]);
        let a1 = a.subrange(1, a.len() as int);
        let b1 = b.subrange(1, b.len() as int);
        lemma_lex_le_skip(a1, b1, i - 1);
        assert(a1.subrange(i - 1, a1.len() as int) =~= a.subrange(i, a.len() as int));
        assert(b1.subrange(i - 1, b1.len() as int) =~= b.subrange(i, b.len() as int));
    } else {
        assert(a.subrange(0, a.len() as int) =~= a);
        assert(b.subrange(0, b.len() as int) =~= b);
    }
}

/// Compares two strings in lexicographic code-point order.
#[verifier::loop_isolation(false)]
pub fn str_le(a: &str, b: &str) -> (r: bool)
    ensures
        r == lex_le(a@, b@),
{
    let a_len = a.unicode_len();
    let b_len = b.unicode_len();
    let mut i: usize = 0;
    loop
        invariant
            i <= a_len,
            i <= b_len,
            a_len == a@.len(),
            b_len == b@.len(),
            forall|j: int| 0 <= j < i ==> a@[j] == b@[j],
        decreases a_len - i,
    {
        proof {
            lemma_lex_le_skip(a@, b@, i as int);
        }
        if i == a_len {
            return true;
        }
        if i == b_len {
            return false;
        }
        let ca = a.get_char(i);
        let cb = b.get_char(i);
        let va = ca as u32;
        let vb = cb as u32;
        if va < vb {
            return true;
        }
        if va > vb {
            return false;
        }
        i += 1;
    }
}

/// The view of `s` with leading and trailing [`is_space`] characters removed.
pub open spec fn trim_spec(s: Seq<char>) -> Seq<char>
    decreases s.len(),
{
    if s.len() == 0 {
        s
    } else if is_space(s[0]) {
        trim_spec(s.subrange(1, s.len() as int))
    } else if is_space(s[s.len() - 1]) {
        trim_spec(s.subrange(0, s.len() - 1))
    } else {
        s
    }
}

/// A sequence is trimmed when it neither starts nor ends with whitespace.
pub open spec fn is_trimmed(s: Seq<char>) -> bool {
    s.len() > 0 ==> !is_space(s[0]) && !is_space(s[s.len() - 1])
}

pub proof fn lemma_trim_spec_of_trimmed(s: Seq<char>)
    requires
        is_trimmed(s),
    ensures
        trim_spec(s) == s,
{
}

proof fn lemma_trim_spec_range(s: Seq<char>, lo: int, hi: int)
    requires
        0 <= lo <= hi <= s.len(),
        forall|j: int| 0 <= j < lo ==> is_space(s[j]),
        forall|j: int| hi <= j < s.len() ==> is_space(s[j]),
        lo < hi ==> !is_space(s[lo]) && !is_space(s[hi - 1]),
    ensures
        trim_spec(s) == s.subrange(lo, hi),
    decreases s.len(),
{
    if s.len() == 0 {
        assert(s.subrange(lo, hi) =~= s);
    } else if is_space(s[0]) {
        assert(lo > 0 || lo == hi) by {
            if lo == 0 && lo < hi {
                assert(!is_space(s[lo]));
            }
        }
        if lo == hi {
            // the whole string is whitespace
            let t = s.subrange(1, s.len() as int);
            assert(forall|j: int| 0 <= j < t.len() ==> t[j] == s[j + 1]);
            lemma_trim_spec_range(t, 0, 0);
            assert(trim_spec(s) == trim_spec(t));
            assert(t.subrange(0, 0) =~= s.subrange(lo, hi));
        } else {
            let t = s.subrange(1, s.len() as int);
            lemma_trim_spec_range(t, lo - 1, hi - 1);
            assert(t.subrange(lo - 1, hi - 1) =~= s.subrange(lo, hi));
        }
    } else if is_space(s[s.len() - 1]) {
        assert(hi < s.len() || lo == hi) by {
            if hi == s.len() && lo < hi {
                assert(!is_space(s[hi - 1]));
            }
        }
        let t = s.subrange(0, s.len() - 1);
        if lo == hi {
            lemma_trim_spec_range(t, 0, 0);
            assert(t.subrange(0, 0) =~= s.subrange(lo, hi));
        } else {
            lemma_trim_spec_range(t, lo, hi);
            assert(t.subrange(lo, hi) =~= s.subrange(lo, hi));
        }
    } else {
        assert(lo == 0) by {
            if lo > 0 {
                assert(is_space(s[0]));
            }
        }
        assert(hi == s.len()) by {
            if hi < s.len() {
                assert(is_space(s[s.len() - 1]));
            }
        }
        assert(s.subrange(lo, hi) =~= s);
    }
}

/// Trimming never introduces a character that `s` does not hold.
pub proof fn lemma_trim_no_char(s: Seq<char>, c: char)
    requires
        forall|j: int| 0 <= j < s.len() ==> s[j] != c,
    ensures
        forall|j: int| 0 <= j < trim_spec(s).len() ==> trim_spec(s)[j] != c,
    decreases s.len(),
{
    if s.len() == 0 {
    } else if is_space(s[0]) {
        let t = s.subrange(1, s.len() as int);
        assert(forall|j: int| 0 <= j < t.len() ==> t[j] == s[j + 1]);
        lemma_trim_no_char(t, c);
        assert(trim_spec(s) == trim_spec(t));
    } else if is_space(s[s.len() - 1]) {
        let t = s.subrange(0, s.len() - 1);
        assert(forall|j: int| 0 <= j < t.len() ==> t[j] == s[j]);
        lemma_trim_no_char(t, c);
        assert(trim_spec(s) == trim_spec(t));
    } else {
        assert(trim_spec(s) == s);
    }
}

/// `trim_spec` leaves no whitespace at either end.
pub proof fn lemma_trim_spec_trimmed(s: Seq<char>)
    ensures
        is_trimmed(trim_spec(s)),
    decreases s.len(),
{
    if s.len() == 0 {
    } else if is_space(s[0]) {
        lemma_trim_spec_trimmed(s.subrange(1, s.len() as int));
    } else if is_space(s[s.len() - 1]) {
        lemma_trim_spec_trimmed(s.subrange(0, s.len() - 1));
    }
}

/// The characters of `cs` with leading and trailing whitespace removed.
pub fn trim_chars(cs: &Vec<char>) -> (r: Vec<char>)
    ensures
        r@ == trim_spec(cs@),
{
    let n = cs.len();
    let mut lo: usize = 0;
    while lo < n && is_space_char(cs[lo])
        invariant
            lo <= n,
            n == cs@.len(),
            forall|j: int| 0 <= j < lo ==> is_space(cs@[j]),
        decreases n - lo,
    {
        lo += 1;
    }
    let mut hi: usize = n;
    while hi > lo && is_space_char(cs[hi - 1])
        invariant
            lo <= hi <= n,
            n == cs@.len(),
            forall|j: int| 0 <= j < lo ==> is_space(cs@[j]),
            forall|j: int| hi <= j < n ==> is_space(cs@[j]),
        decreases hi,
    {
        hi -= 1;
    }
    let mut out: Vec<char> = Vec::new();
    let mut i: usize = lo;
    while i < hi
        invariant
            lo <= i <= hi <= n,
            n == cs@.len(),
            out@ =~= cs@.subrange(lo as int, i as int),
        decreases hi - i,
    {
        out.push(cs[i]);
        i += 1;
    }
    proof {
        if lo == hi {
            lemma_trim_spec_range(cs@, lo as int, hi as int);
        } else {
            assert(!is_space(cs@[lo as int]));
            assert(!is_space(cs@[hi - 1]));
            lemma_trim_spec_range(cs@, lo as int, hi as int);
        }
        assert(out@ =~= cs@.subrange(lo as int, hi as int));
    }
    out
}

/// `s` split on every occurrence of `c`.
pub open spec fn split_on(s: Seq<char>, c: char) -> Seq<Seq<char>>
    decreases s.len(),
{
    let i = index_of(s, c);
    if 0 <= i < s.len() {
        seq![s.subrange(0, i)] + split_on(s.subrange(i + 1, s.len() as int), c)
    } else {
        seq![s]
    }
}

/// No segment of `split_on(s, c)` contains `c`.
pub proof fn lemma_split_on_no_sep(s: Seq<char>, c: char)
    ensures
        forall|k: int, j: int|
            0 <= k < split_on(s, c).len() && 0 <= j < split_on(s, c)[k].len()
                ==> #[trigger] split_on(s, c)[k][j] != c,
    decreases s.len(),
{
    let i = index_of(s, c);
    lemma_index_of(s, c);
    if 0 <= i < s.len() {
        let head = s.subrange(0, i);
        let tail = s.subrange(i + 1, s.len() as int);
        lemma_split_on_no_sep(tail, c);
        assert forall|k: int, j: int|
            0 <= k < split_on(s, c).len() && 0 <= j < split_on(s, c)[k].len() implies #[trigger] split_on(
            s,
            c,
        )[k][j] != c by {
            if k == 0 {
                assert(split_on(s, c)[0] == head);
                assert(head[j] == s[j]);
            } else {
                assert(split_on(s, c)[k] == split_on(tail, c)[k - 1]);
            }
        }
    }
}

pub fn subvec(cs: &Vec<char>, lo: usize, hi: usize) -> (r: Vec<char>)
    requires
        lo <= hi <= cs@.len(),
    ensures
        r@ == cs@.subrange(lo as int, hi as int),
{
    let mut out: Vec<char> = Vec::new();
    let mut i: usize = lo;
    while i < hi
        invariant
            lo <= i <= hi <= cs@.len(),
            out@ =~= cs@.subrange(lo as int, i as int),
        decreases hi - i,
    {
        out.push(cs[i]);
        i += 1;
    }
    assert(out@ =~= cs@.subrange(lo as int, hi as int));
    out
}

/// Position of the first `c` in `cs`, or the length when there is none.
pub fn find_char(cs: &Vec<char>, c: char) -> (r: usize)
    ensures
        r == index_of(cs@, c),
{
    let n = cs.len();
    let mut i: usize = 0;
    while i < n && cs[i] != c
        invariant
            i <= n,
            n == cs@.len(),
            forall|j: int| 0 <= j < i ==> cs@[j] != c,
        decreases n - i,
    {
        i += 1;
    }
    proof {
        lemma_index_of_unique(cs@, c, i as int);
    }
    i
}

/// The views of a vector of lines.
pub open spec fn line_views(ls: Seq<Vec<char>>) -> Seq<Seq<char>> {
    ls.map_values(|l: Vec<char>| l@)
}

#[verifier::loop_isolation(false)]
pub fn split_chars(cs: &Vec<char>, c: char) -> (r: Vec<Vec<char>>)
    ensures
        line_views(r@) == split_on(cs@, c),
{
    let n = cs.len();
    let mut out: Vec<Vec<char>> = Vec::new();
    let mut pos: usize = 0;
    proof {
        assert(cs@.subrange(0, n as int) =~= cs@);
        assert(line_views(out@) =~= Seq::<Seq<char>>::empty());
        assert(line_views(out@) + split_on(cs@, c) =~= split_on(cs@, c));
    }
    loop
        invariant
            pos <= n,
            n == cs@.len(),
            line_views(out@) + split_on(cs@.subrange(pos as int, n as int), c) == split_on(
                cs@,
                c,
            ),
        decreases n - pos,
    {
        let rest = Ghost(cs@.subrange(pos as int, n as int));
        // find the next newline
        let mut q: usize = pos;
        while q < n && cs[q] != c
            invariant
                pos <= q <= n,
                forall|j: int| pos <= j < q ==> cs@[j] != c,
            decreases n - q,
        {
            q += 1;
        }
        proof {
            assert forall|j: int| 0 <= j < q - pos implies rest@[j] != c by {
                assert(rest@[j] == cs@[pos + j]);
            }
            if q < n {
                assert(rest@[(q - pos) as int] == cs@[q as int]);
            }
            lemma_index_of_unique(rest@, c, (q - pos) as int);
        }
        let seg = subvec(cs, pos, q);
        out.push(seg);
        if q == n {
            proof {
                assert(index_of(rest@, c) == rest@.len());
                assert(split_on(rest@, c) =~= seq![rest@]);
                assert(line_views(out@) =~= line_views(out@.drop_last()) + seq![rest@]);
                assert(line_views(out@) + Seq::<Seq<char>>::empty() =~= line_views(out@));
                assert(line_views(out@) =~= split_on(cs@, c));
            }
            break;
        }
        proof {
            assert(rest@.subrange(0, (q - pos) as int) =~= cs@.subrange(pos as int, q as int));
            assert(rest@.subrange((q - pos) as int + 1, rest@.len() as int) =~= cs@.subrange(
                q as int + 1,
                n as int,
            ));
            assert(split_on(rest@, c) == seq![cs@.subrange(pos as int, q as int)] + split_on(
                cs@.subrange(q as int + 1, n as int),
                c,
            ));
            assert(line_views(out@) =~= line_views(out@.drop_last()) + seq![
                cs@.subrange(pos as int, q as int),
            ]);
            assert(line_views(out@) + split_on(cs@.subrange(q as int + 1, n as int), c)
                =~= split_on(cs@, c));
        }
        pos = q + 1;
    }
    proof {
        assert(line_views(out@) =~= split_on(cs@, c));
    }
    out
}

} // verus!
