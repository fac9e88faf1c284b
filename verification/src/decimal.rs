//! Plain decimal numbers, held as a whole count of hundredths.
//!
//! Numeric record fields (hardness, density, element weight percent) are
//! parsed from form text like `46.70` and rendered back with exactly two
//! fraction digits.  A value is stored as `i64` hundredths, so `46.70`
//! becomes `4670`.

use vstd::prelude::*;

verus! {

/// Largest count of integer digits a decimal field may carry.
pub const MAX_INT_DIGITS: usize = 12;

/// Largest value (in hundredths) that [`parse_decimal`] can produce and
/// [`render_hundredths`] can render: `10^12 * 100 - 1` hundredths.
pub const MAX_HUNDREDTHS: i64 = 99_999_999_999_999;

pub open spec fn is_digit(c: char) -> bool {
    48 <= c as int && c as int <= 57
}

pub open spec fn digit_val(c: char) -> int {
    c as int - 48
}

pub open spec fn all_digits(s: Seq<char>) -> bool {
    forall|i: int| 0 <= i < s.len() ==> is_digit(#[trigger] s[i])
}

/// Value of a digit string read most-significant first.
pub open spec fn digits_val(s: Seq<char>) -> int
    decreases s.len(),
{
    if s.len() == 0 {
        0
    } else {
        digits_val(s.drop_last()) * 10 + digit_val(s.last())
    }
}

pub open spec fn pow10(n: nat) -> int
    decreases n,
{
    if n == 0 {
        1
    } else {
        10 * pow10((n - 1) as nat)
    }
}

pub proof fn lemma_digits_val_bound(s: Seq<char>)
    requires
        all_digits(s),
    ensures
        0 <= digits_val(s) < pow10(s.len()),
    decreases s.len(),
{
    if s.len() > 0 {
        assert(all_digits(s.drop_last())) by {
            assert(forall|i: int| 0 <= i < s.len() - 1 ==> s.drop_last()[i] == s[i]);
        }
        lemma_digits_val_bound(s.drop_last());
        assert(0 <= digit_val(s.last()) <= 9);
    }
}

pub proof fn lemma_pow10_twelve()
    ensures
        pow10(12) == 1_000_000_000_000,
{
    reveal_with_fuel(pow10, 13);
}

pub proof fn lemma_pow10_pos(n: nat)
    ensures
        pow10(n) >= 1,
    decreases n,
{
    if n > 0 {
        lemma_pow10_pos((n - 1) as nat);
    }
}

pub proof fn lemma_pow10_monotone(a: nat, b: nat)
    requires
        a <= b,
    ensures
        pow10(a) <= pow10(b),
    decreases b,
{
    if a < b {
        lemma_pow10_monotone(a, (b - 1) as nat);
        lemma_pow10_pos((b - 1) as nat);
    }
}

/// Index of the first `.` in `s`, or `s.len()` when there is none.
pub open spec fn dot_index(s: Seq<char>) -> int
    decreases s.len(),
{
    if s.len() == 0 {
        0
    } else if s[0] == '.' {
        0
    } else {
        1 + dot_index(s.subrange(1, s.len() as int))
    }
}

pub proof fn lemma_dot_index(s: Seq<char>)
    ensures
        0 <= dot_index(s) <= s.len(),
        forall|j: int| 0 <= j < dot_index(s) ==> s[j] != '.',
        dot_index(s) < s.len() ==> s[dot_index(s)] == '.',
    decreases s.len(),
{
    if s.len() > 0 && s[0] != '.' {
        let t = s.subrange(1, s.len() as int);
        lemma_dot_index(t);
        assert forall|j: int| 0 <= j < dot_index(s) implies s[j] != '.' by {
            if j > 0 {
                assert(t[j - 1] == s[j]);
            }
        }
    }
}

/// Value, in hundredths, of a fraction-digit string; digits past the second
/// are dropped.
pub open spec fn frac_val(s: Seq<char>) -> int {
    if s.len() == 0 {
        0
    } else if s.len() == 1 {
        digit_val(s[0]) * 10
    } else {
        digit_val(s[0]) * 10 + digit_val(s[1])
    }
}

/// Hundredths encoded by an unsigned decimal string: digits, optionally
/// followed by `.` and more digits, with at least one digit in all and at
/// most [`MAX_INT_DIGITS`] integer digits.
pub open spec fn parse_unsigned_spec(s: Seq<char>) -> Option<int> {
    let d = dot_index(s);
    let int_part = s.subrange(0, d);
    let frac_part = if d < s.len() {
        s.subrange(d + 1, s.len() as int)
    } else {
        Seq::<char>::empty()
    };
    if all_digits(int_part) && all_digits(frac_part) && int_part.len() + frac_part.len() > 0
        && int_part.len() <= MAX_INT_DIGITS {
        Some(digits_val(int_part) * 100 + frac_val(frac_part))
    } else {
        None
    }
}

/// Hundredths encoded by a decimal string with an optional leading minus.
pub open spec fn parse_decimal_spec(s: Seq<char>) -> Option<i64> {
    if s.len() > 0 && s[0] == '-' {
        match parse_unsigned_spec(s.subrange(1, s.len() as int)) {
            Some(v) => Some((-v) as i64),
            None => None,
        }
    } else {
        match parse_unsigned_spec(s) {
            Some(v) => Some(v as i64),
            None => None,
        }
    }
}

proof fn lemma_unsigned_in_range(s: Seq<char>)
    ensures
        parse_unsigned_spec(s) matches Some(v) ==> 0 <= v <= MAX_HUNDREDTHS,
{
    let d = dot_index(s);
    lemma_dot_index(s);
    let int_part = s.subrange(0, d);
    let frac_part = if d < s.len() {
        s.subrange(d + 1, s.len() as int)
    } else {
        Seq::<char>::empty()
    };
    if parse_unsigned_spec(s) is Some {
        lemma_digits_val_bound(int_part);
        lemma_pow10_monotone(int_part.len(), MAX_INT_DIGITS as nat);
        lemma_pow10_twelve();
        assert(0 <= frac_val(frac_part) <= 99);
    }
}

/// Every parsed value lies within `±`[`MAX_HUNDREDTHS`].
pub proof fn lemma_parse_decimal_range(s: Seq<char>)
    ensures
        parse_decimal_spec(s) matches Some(v) ==> -MAX_HUNDREDTHS <= v <= MAX_HUNDREDTHS,
{
    if s.len() > 0 && s[0] == '-' {
        lemma_unsigned_in_range(s.subrange(1, s.len() as int));
    } else {
        lemma_unsigned_in_range(s);
    }
}

fn digit_of_char(c: char) -> (r: u64)
    requires
        is_digit(c),
    ensures
        r == digit_val(c),
{
    (c as u32 as u64) - 48
}

fn is_digit_char(c: char) -> (r: bool)
    ensures
        r == is_digit(c),
{
    let v = c as u32;
    48 <= v && v <= 57
}

/// Parses a decimal-number string to hundredths, as [`parse_decimal_spec`]
/// describes; `None` for anything outside that grammar.
#[verifier::loop_isolation(false)]
#[verifier::rlimit(100)]
pub fn parse_decimal(cs: &Vec<char>) -> (r: Option<i64>)
    ensures
        r == parse_decimal_spec(cs@),
{
    let n = cs.len();
    let neg = n > 0 && cs[0] == '-';
    let start: usize = if neg { 1 } else { 0 };
    // locate the first dot at or after `start`
    let mut d: usize = start;
    while d < n && cs[d] != '.'
        invariant
            start <= d <= n,
            n == cs@.len(),
            forall|j: int| start <= j < d ==> cs@[j] != '.',
        decreases n - d,
    {
        d += 1;
    }
    let body = Ghost(cs@.subrange(start as int, n as int));
    proof {
        lemma_dot_index(body@);
        // dot_index(body) == d - start
        let k = d - start;
        assert(forall|j: int| 0 <= j < k ==> body@[j] != '.');
        if k < body@.len() {
            assert(body@[k as int] == cs@[d as int]);
        }
        assert(dot_index(body@) == k) by {
            lemma_dot_index_unique(body@, k as int);
        }
        if !neg {
            assert(body@ =~= cs@);
        } else {
            assert(body@ =~= cs@.subrange(1, n as int));
        }
    }
    let int_part = Ghost(body@.subrange(0, d - start));
    // integer digits
    if d - start > MAX_INT_DIGITS {
        proof {
            assert(int_part@.len() > MAX_INT_DIGITS);
        }
        return None;
    }
    proof {
        assert(body@.subrange(0, (d - start) as int) =~= cs@.subrange(start as int, d as int));
        lemma_pow10_monotone(0, MAX_INT_DIGITS as nat);
    }
    let mut acc: u64 = 0;
    let mut i: usize = start;
    while i < d
        invariant
            start <= i <= d <= n,
            n == cs@.len(),
            d - start <= MAX_INT_DIGITS,
            int_part@ == cs@.subrange(start as int, d as int),
            all_digits(cs@.subrange(start as int, i as int)),
            acc == digits_val(cs@.subrange(start as int, i as int)),
            acc < pow10((i - start) as nat),
            pow10((i - start) as nat) <= pow10(MAX_INT_DIGITS as nat),
        decreases d - i,
    {
        proof {
            lemma_pow10_twelve();
            lemma_pow10_monotone((i - start) as nat, MAX_INT_DIGITS as nat);
        }
        let c = cs[i];
        if !is_digit_char(c) {
            proof {
                assert(int_part@[(i - start) as int] == cs@[i as int]);
                assert(!all_digits(int_part@));
            }
            return None;
        }
        let dv = digit_of_char(c);
        proof {
            let pre = cs@.subrange(start as int, i as int);
            let post = cs@.subrange(start as int, i as int + 1);
            assert(post.drop_last() =~= pre);
            assert(post.last() == cs@[i as int]);
            lemma_pow10_monotone(((i + 1) - start) as nat, MAX_INT_DIGITS as nat);
        }
        acc = acc * 10 + dv;
        i += 1;
    }
    proof {
        assert(cs@.subrange(start as int, d as int) =~= int_part@);
    }
    // fraction digits
    let frac_exists = d < n;
    let frac_part = Ghost(
        if d < n {
            cs@.subrange(d as int + 1, n as int)
        } else {
            Seq::<char>::empty()
        },
    );
    let mut frac: u64 = 0;
    let mut j: usize = if frac_exists { d + 1 } else { n };
    let frac_start = j;
    while j < n
        invariant
            frac_start <= j <= n,
            n == cs@.len(),
            frac_exists ==> frac_start == d + 1,
            !frac_exists ==> frac_start == n,
            frac_part@ == (if frac_exists {
                cs@.subrange(d as int + 1, n as int)
            } else {
                Seq::<char>::empty()
            }),
            all_digits(cs@.subrange(frac_start as int, j as int)),
            frac == frac_val(cs@.subrange(frac_start as int, j as int)),
            frac <= 99,
        decreases n - j,
    {
        let c = cs[j];
        if !is_digit_char(c) {
            proof {
                assert(frac_part@[(j - frac_start) as int] == cs@[j as int]);
                assert(!all_digits(frac_part@));
                if d < n {
                    assert(body@.subrange((d - start) as int + 1, body@.len() as int)
                        =~= cs@.subrange(d as int + 1, n as int));
                }
            }
            return None;
        }
        let dv = digit_of_char(c);
        proof {
            let pre = cs@.subrange(frac_start as int, j as int);
            let post = cs@.subrange(frac_start as int, j as int + 1);
            assert(post.drop_last() =~= pre);
            assert(post.last() == cs@[j as int]);
            assert(forall|t: int| 0 <= t < pre.len() ==> post[t] == pre[t]);
        }
        if j == frac_start {
            frac = dv * 10;
        } else if j == frac_start + 1 {
            frac = frac + dv;
        }
        j += 1;
    }
    proof {
        assert(cs@.subrange(frac_start as int, n as int) =~= frac_part@);
    }
    // at least one digit somewhere
    if d == start && !frac_exists {
        return None;
    }
    if d == start && frac_exists && d + 1 == n {
        proof {
            assert(int_part@.len() + frac_part@.len() == 0);
        }
        return None;
    }
    proof {
        lemma_unsigned_in_range(body@);
        assert(body@.subrange(0, (d - start) as int) =~= int_part@);
        if (d - start) < body@.len() {
            assert(body@.subrange((d - start) as int + 1, body@.len() as int) =~= frac_part@);
        }
        assert(parse_unsigned_spec(body@) == Some(acc * 100 + frac));
        if !neg {
            assert(body@ =~= cs@);
        }
    }
    let magnitude: i64 = (acc as i64) * 100 + (frac as i64);
    if neg {
        Some(-magnitude)
    } else {
        Some(magnitude)
    }
}

proof fn lemma_dot_index_unique(s: Seq<char>, k: int)
    requires
        0 <= k <= s.len(),
        forall|j: int| 0 <= j < k ==> s[j] != '.',
        k < s.len() ==> s[k] == '.',
    ensures
        dot_index(s) == k,
    decreases s.len(),
{
    if s.len() > 0 && s[0] != '.' {
        let t = s.subrange(1, s.len() as int);
        lemma_dot_index_unique(t, k - 1);
    }
}

/// Digit characters of `n`, most significant first, no leading zero except
/// for `n == 0`.
pub open spec fn digits_of(n: int) -> Seq<char>
    decreases n,
{
    if n <= 9 {
        seq![digit_char_spec(if n < 0 { 0 } else { n })]
    } else {
        digits_of(n / 10).push(digit_char_spec(n % 10))
    }
}

pub open spec fn digit_char_spec(d: int) -> char {
    if d == 0 { '0' }
    else if d == 1 { '1' }
    else if d == 2 { '2' }
    else if d == 3 { '3' }
    else if d == 4 { '4' }
    else if d == 5 { '5' }
    else if d == 6 { '6' }
    else if d == 7 { '7' }
    else if d == 8 { '8' }
    else { '9' }
}

pub proof fn lemma_digit_char_val(d: int)
    requires
        0 <= d <= 9,
    ensures
        is_digit(digit_char_spec(d)),
        digit_val(digit_char_spec(d)) == d,
{
    assert(is_digit(digit_char_spec(d)) && digit_val(digit_char_spec(d)) == d);
}

/// Rendering `n` and reading the digits back is the identity.
pub proof fn lemma_digits_of_val(n: int)
    requires
        n >= 0,
    ensures
        all_digits(digits_of(n)),
        digits_val(digits_of(n)) == n,
        digits_of(n).len() >= 1,
        forall|j: int| 0 <= j < digits_of(n).len() ==> #[trigger] digits_of(n)[j] != '.'
            && digits_of(n)[j] != '-',
    decreases n,
{
    if n <= 9 {
        lemma_digit_char_val(n);
        assert(digits_of(n) == seq![digit_char_spec(n)]);
        assert(digits_of(n).drop_last() =~= Seq::<char>::empty());
        assert(digits_val(Seq::<char>::empty()) == 0);
        assert(digits_of(n).last() == digit_char_spec(n));
        assert(digit_char_spec(n) != '.' && digit_char_spec(n) != '-');
    } else {
        lemma_digits_of_val(n / 10);
        lemma_digit_char_val(n % 10);
        let s = digits_of(n);
        assert(s.drop_last() =~= digits_of(n / 10));
        assert(s.last() == digit_char_spec(n % 10));
        assert(forall|j: int| 0 <= j < s.len() - 1 ==> s[j] == digits_of(n / 10)[j]);
        assert(digit_char_spec(n % 10) != '.' && digit_char_spec(n % 10) != '-');
    }
}

pub proof fn lemma_digits_of_len(n: int, k: nat)
    requires
        0 <= n < pow10(k),
        k >= 1,
    ensures
        digits_of(n).len() <= k,
    decreases n,
{
    if n <= 9 {
    } else {
        assert(pow10(k) == 10 * pow10((k - 1) as nat));
        lemma_digits_of_len(n / 10, (k - 1) as nat);
    }
}

fn digit_char(d: u64) -> (r: char)
    requires
        d <= 9,
    ensures
        r == digit_char_spec(d as int),
{
    if d == 0 { '0' }
    else if d == 1 { '1' }
    else if d == 2 { '2' }
    else if d == 3 { '3' }
    else if d == 4 { '4' }
    else if d == 5 { '5' }
    else if d == 6 { '6' }
    else if d == 7 { '7' }
    else if d == 8 { '8' }
    else { '9' }
}

fn push_digits(out: &mut Vec<char>, n: u64)
    ensures
        final(out)@ == old(out)@ + digits_of(n as int),
    decreases n,
{
    if n <= 9 {
        out.push(digit_char(n));
        assert(out@ =~= old(out)@ + digits_of(n as int));
    } else {
        push_digits(out, n / 10);
        out.push(digit_char(n % 10));
        assert(out@ =~= old(out)@ + digits_of(n as int));
    }
}

/// Characters of `v` hundredths rendered with a `.` and exactly two
/// fraction digits, with a leading `-` when `v` is negative.
pub open spec fn render_hundredths_spec(v: int) -> Seq<char> {
    let m = if v < 0 { -v } else { v };
    let body = digits_of(m / 100) + seq!['.'] + seq![
        digit_char_spec((m / 10) % 10),
        digit_char_spec(m % 10),
    ];
    if v < 0 {
        seq!['-'] + body
    } else {
        body
    }
}

/// Renders hundredths as decimal text, e.g. `4670` to `46.70`.
pub fn render_hundredths(v: i64) -> (r: Vec<char>)
    requires
        -MAX_HUNDREDTHS <= v <= MAX_HUNDREDTHS,
    ensures
        r@ == render_hundredths_spec(v as int),
{
    let mut out: Vec<char> = Vec::new();
    let m: u64 = if v < 0 {
        out.push('-');
        (-v) as u64
    } else {
        v as u64
    };
    push_digits(&mut out, m / 100);
    out.push('.');
    out.push(digit_char((m / 10) % 10));
    out.push(digit_char(m % 10));
    assert(out@ =~= render_hundredths_spec(v as int));
    out
}

/// Round trip: rendering hundredths and parsing the text returns the same
/// value, whatever the sign or magnitude within range.
pub proof fn lemma_decimal_round_trip(v: int)
    requires
        -MAX_HUNDREDTHS <= v <= MAX_HUNDREDTHS,
    ensures
        parse_decimal_spec(render_hundredths_spec(v)) == Some(v as i64),
{
    let m = if v < 0 { -v } else { v };
    let ints = digits_of(m / 100);
    let d1 = digit_char_spec((m / 10) % 10);
    let d2 = digit_char_spec(m % 10);
    let body = ints + seq!['.'] + seq![d1, d2];
    lemma_digits_of_val(m / 100);
    lemma_digit_char_val((m / 10) % 10);
    lemma_digit_char_val(m % 10);
    assert(d1 != '.' && d2 != '.');
    // dot sits right after the integer digits
    assert(forall|j: int| 0 <= j < ints.len() ==> body[j] == ints[j]);
    assert(body[ints.len() as int] == '.');
    lemma_dot_index_unique(body, ints.len() as int);
    assert(body.subrange(0, ints.len() as int) =~= ints);
    assert(body.subrange(ints.len() as int + 1, body.len() as int) =~= seq![d1, d2]);
    lemma_pow10_twelve();
    lemma_digits_of_len(m / 100, 12);
    assert(frac_val(seq![d1, d2]) == ((m / 10) % 10) * 10 + m % 10);
    assert((m / 100) * 100 + (((m / 10) % 10) * 10 + m % 10) == m) by (nonlinear_arith);
    assert(parse_unsigned_spec(body) == Some(m));
    if v < 0 {
        let s = render_hundredths_spec(v);
        assert(s == seq!['-'] + body);
        assert(s[0] == '-');
        assert(s.len() > 0);
        assert(s.subrange(1, s.len() as int) =~= body);
    } else {
        assert(render_hundredths_spec(v) == body);
        assert(body.len() > 0);
        assert(body[0] != '-') by {
            assert(ints.len() >= 1);
            assert(body[0] == ints[0]);
        }
    }
}

} // verus!
