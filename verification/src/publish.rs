//! The draft-to-publish pipeline: field validation, slug derivation,
//! unique folder-name allocation, image naming, and the per-language
//! translation-fallback bookkeeping.

use vstd::prelude::*;

use crate::decimal::{parse_decimal, parse_decimal_spec};
use crate::models::{is_lower_alnum, is_lower_hex, slug_ok, valid_folder_name, folder_id_ok};
use crate::strutil::{
    chars_of, lemma_index_of_unique, split_on, str_eq, string_from_chars, to_lower,
    to_lower_char, to_string, trim_chars, trim_spec,
};

verus! {

/// What can stop a publish: a recoverable request fault, or an internal
/// fault reported without detail.
#[derive(Debug)]
pub enum PublishError {
    BadRequest(String),
    Internal(String),
}

impl PublishError {
    /// The error's text.
    pub fn message(&self) -> (r: &String)
        ensures
            match self {
                PublishError::BadRequest(m) => r@ == m@,
                PublishError::Internal(m) => r@ == m@,
            },
    {
        match self {
            PublishError::BadRequest(m) => m,
            PublishError::Internal(m) => m,
        }
    }
}

/// Error text for a missing required field.
pub open spec fn required_msg(key: Seq<char>) -> Seq<char> {
    "'"@ + key + "' is required"@
}

/// Error text for a numeric field that does not parse.
pub open spec fn not_number_msg(key: Seq<char>) -> Seq<char> {
    "'"@ + key + "' must be a number"@
}

fn build_key_msg(prefix: &str, key: &str, suffix: &str) -> (r: String)
    ensures
        r@ == prefix@ + key@ + suffix@,
{
    let mut m = to_string(prefix);
    m.append(key);
    m.append(suffix);
    m
}

/// A required text field: the trimmed value when it is non-empty, the
/// `required` error naming `key` exactly when it is empty.
pub fn required_string(value: &str, key: &str) -> (r: Result<String, PublishError>)
    ensures
        trim_spec(value@).len() > 0 ==> (r matches Ok(s) && s@ == trim_spec(value@)),
        trim_spec(value@).len() == 0 ==> (r matches Err(e) && e matches PublishError::BadRequest(
            m,
        ) && m@ == required_msg(key@)),
{
    let cs = chars_of(value);
    let t = trim_chars(&cs);
    if t.len() == 0 {
        Err(PublishError::BadRequest(build_key_msg("'", key, "' is required")))
    } else {
        Ok(string_from_chars(&t))
    }
}

/// A required numeric field, parsed to hundredths: empty gives the
/// `required` error, a non-decimal value the `must be a number` error.
pub fn parse_number_field(value: &str, key: &str) -> (r: Result<i64, PublishError>)
    ensures
        trim_spec(value@).len() == 0 ==> (r matches Err(e) && e matches PublishError::BadRequest(
            m,
        ) && m@ == required_msg(key@)),
        trim_spec(value@).len() > 0 && parse_decimal_spec(trim_spec(value@)) is None ==> (
        r matches Err(e) && e matches PublishError::BadRequest(m) && m@ == not_number_msg(key@)),
        trim_spec(value@).len() > 0 && parse_decimal_spec(trim_spec(value@)) is Some
            ==> r == Ok::<i64, PublishError>(parse_decimal_spec(trim_spec(value@)).unwrap()),
{
    let cs = chars_of(value);
    let t = trim_chars(&cs);
    if t.len() == 0 {
        return Err(PublishError::BadRequest(build_key_msg("'", key, "' is required")));
    }
    match parse_decimal(&t) {
        Some(v) => Ok(v),
        None => Err(PublishError::BadRequest(build_key_msg("'", key, "' must be a number"))),
    }
}

pub open spec fn is_ascii_alnum(c: char) -> bool {
    (48 <= c as int && c as int <= 57) || (65 <= c as int && c as int <= 90) || (97 <= c as int
        && c as int <= 122)
}

fn is_ascii_alnum_char(c: char) -> (r: bool)
    ensures
        r == is_ascii_alnum(c),
{
    let v = c as u32;
    (48 <= v && v <= 57) || (65 <= v && v <= 90) || (97 <= v && v <= 122)
}

/// The dash-folding pass of the slug derivation: alphanumerics are
/// lowercased; every other character becomes a dash, except that no dash
/// is started at the front or doubled.
pub open spec fn slug_fold(s: Seq<char>) -> Seq<char>
    decreases s.len(),
{
    if s.len() == 0 {
        Seq::<char>::empty()
    } else {
        let prev = slug_fold(s.drop_last());
        let c = s.last();
        if is_ascii_alnum(c) {
            prev.push(to_lower(c))
        } else if prev.len() > 0 && prev.last() != '-' {
            prev.push('-')
        } else {
            prev
        }
    }
}

/// Trailing dashes removed.
pub open spec fn strip_dashes(s: Seq<char>) -> Seq<char>
    decreases s.len(),
{
    if s.len() > 0 && s.last() == '-' {
        strip_dashes(s.drop_last())
    } else {
        s
    }
}

/// The URL- and filesystem-safe slug of a family name; `unknown` when
/// nothing alphanumeric remains.
pub open spec fn slugify_spec(s: Seq<char>) -> Seq<char> {
    let t = strip_dashes(slug_fold(s));
    if t.len() == 0 {
        "unknown"@
    } else {
        t
    }
}

spec fn slug_chars_ok(f: Seq<char>) -> bool {
    &&& forall|j: int| 0 <= j < f.len() ==> is_lower_alnum(#[trigger] f[j]) || f[j] == '-'
    &&& f.len() > 0 ==> f[0] != '-'
    &&& forall|j: int| 0 <= j < f.len() - 1 ==> !(#[trigger] f[j] == '-' && f[j + 1] == '-')
}

proof fn lemma_slug_fold_ok(s: Seq<char>)
    ensures
        slug_chars_ok(slug_fold(s)),
    decreases s.len(),
{
    if s.len() > 0 {
        lemma_slug_fold_ok(s.drop_last());
        let prev = slug_fold(s.drop_last());
        let c = s.last();
        let f = slug_fold(s);
        if is_ascii_alnum(c) {
            assert(is_lower_alnum(to_lower(c)));
            assert(forall|j: int| 0 <= j < prev.len() ==> f[j] == prev[j]);
            assert(f[f.len() - 1] == to_lower(c));
        } else if prev.len() > 0 && prev.last() != '-' {
            assert(forall|j: int| 0 <= j < prev.len() ==> f[j] == prev[j]);
        }
    }
}

proof fn lemma_strip_dashes_ok(s: Seq<char>)
    requires
        slug_chars_ok(s),
    ensures
        slug_chars_ok(strip_dashes(s)),
        strip_dashes(s).len() > 0 ==> strip_dashes(s).last() != '-',
    decreases s.len(),
{
    if s.len() > 0 && s.last() == '-' {
        assert(slug_chars_ok(s.drop_last())) by {
            assert(forall|j: int| 0 <= j < s.len() - 1 ==> s.drop_last()[j] == s[j]);
        }
        lemma_strip_dashes_ok(s.drop_last());
    }
}

/// A derived slug always satisfies the folder-name grammar's slug rule.
pub proof fn lemma_slugify_ok(s: Seq<char>)
    ensures
        slug_ok(slugify_spec(s)),
{
    lemma_slug_fold_ok(s);
    lemma_strip_dashes_ok(slug_fold(s));
    let t = strip_dashes(slug_fold(s));
    if t.len() == 0 {
        reveal_strlit("unknown");
        assert(slug_ok("unknown"@)) by {
            assert("unknown"@.len() == 7);
            assert(forall|j: int| 0 <= j < 7 ==> is_lower_alnum(#[trigger] "unknown"@[j]));
            assert("unknown"@[0] == 'u');
            assert("unknown"@[6] == 'n');
        }
    }
}

/// Derives the family slug: lowercased alphanumeric runs joined by single
/// dashes, never empty, `unknown` as the fallback.
#[verifier::loop_isolation(false)]
pub fn slugify_family(value: &str) -> (r: String)
    ensures
        r@ == slugify_spec(value@),
        slug_ok(r@),
{
    let cs = chars_of(value);
    let n = cs.len();
    let mut out: Vec<char> = Vec::new();
    let mut i: usize = 0;
    proof {
        assert(cs@.subrange(0, 0) =~= Seq::<char>::empty());
    }
    while i < n
        invariant
            i <= n,
            out@ == slug_fold(cs@.subrange(0, i as int)),
        decreases n - i,
    {
        let c = cs[i];
        proof {
            let pre = cs@.subrange(0, i as int);
            let post = cs@.subrange(0, i as int + 1);
            assert(post.drop_last() =~= pre);
            assert(post.last() == cs@[i as int]);
        }
        if is_ascii_alnum_char(c) {
            out.push(to_lower_char(c));
        } else if out.len() > 0 && out[out.len() - 1] != '-' {
            out.push('-');
        }
        i += 1;
    }
    proof {
        assert(cs@.subrange(0, n as int) =~= cs@);
    }
    while out.len() > 0 && out[out.len() - 1] == '-'
        invariant
            strip_dashes(out@) == strip_dashes(slug_fold(cs@)),
        decreases out.len(),
    {
        proof {
            assert(out@.drop_last() =~= out@.subrange(0, out@.len() - 1));
        }
        let ghost before = out@;
        out.pop();
        proof {
            assert(out@ =~= before.drop_last());
            assert(strip_dashes(before) == strip_dashes(before.drop_last()));
        }
    }
    proof {
        assert(strip_dashes(out@) == out@);
        lemma_slugify_ok(cs@);
    }
    if out.len() == 0 {
        to_string("unknown")
    } else {
        string_from_chars(&out)
    }
}

pub open spec fn hex_digit_spec(d: int) -> char {
    if d == 0 { '0' }
    else if d == 1 { '1' }
    else if d == 2 { '2' }
    else if d == 3 { '3' }
    else if d == 4 { '4' }
    else if d == 5 { '5' }
    else if d == 6 { '6' }
    else if d == 7 { '7' }
    else if d == 8 { '8' }
    else if d == 9 { '9' }
    else if d == 10 { 'a' }
    else if d == 11 { 'b' }
    else if d == 12 { 'c' }
    else if d == 13 { 'd' }
    else if d == 14 { 'e' }
    else { 'f' }
}

/// Lowercase hex rendering of a byte string, two digits per byte.
pub open spec fn hex_of(bs: Seq<u8>) -> Seq<char>
    decreases bs.len(),
{
    if bs.len() == 0 {
        Seq::<char>::empty()
    } else {
        hex_of(bs.drop_last()) + seq![
            hex_digit_spec(bs.last() as int / 16),
            hex_digit_spec(bs.last() as int % 16),
        ]
    }
}

/// Hex renderings are twice as long and all lowercase hex digits.
pub proof fn lemma_hex_of_props(bs: Seq<u8>)
    ensures
        hex_of(bs).len() == 2 * bs.len(),
        forall|j: int| 0 <= j < hex_of(bs).len() ==> is_lower_hex(#[trigger] hex_of(bs)[j]),
    decreases bs.len(),
{
    if bs.len() > 0 {
        lemma_hex_of_props(bs.drop_last());
        let prev = hex_of(bs.drop_last());
        let f = hex_of(bs);
        assert(is_lower_hex(hex_digit_spec(bs.last() as int / 16)));
        assert(is_lower_hex(hex_digit_spec(bs.last() as int % 16)));
        assert(forall|j: int| 0 <= j < prev.len() ==> f[j] == prev[j]);
        assert(f[f.len() - 2] == hex_digit_spec(bs.last() as int / 16));
        assert(f[f.len() - 1] == hex_digit_spec(bs.last() as int % 16));
    }
}

fn hex_digit(d: u8) -> (r: char)
    requires
        d <= 15,
    ensures
        r == hex_digit_spec(d as int),
{
    if d == 0 { '0' }
    else if d == 1 { '1' }
    else if d == 2 { '2' }
    else if d == 3 { '3' }
    else if d == 4 { '4' }
    else if d == 5 { '5' }
    else if d == 6 { '6' }
    else if d == 7 { '7' }
    else if d == 8 { '8' }
    else if d == 9 { '9' }
    else if d == 10 { 'a' }
    else if d == 11 { 'b' }
    else if d == 12 { 'c' }
    else if d == 13 { 'd' }
    else if d == 14 { 'e' }
    else { 'f' }
}

/// Renders bytes as lowercase hex, as draft ids, session tokens and
/// folder-name suffixes are spelled.  Two or more bytes always give a
/// suffix the folder-name grammar accepts.
pub fn bytes_to_hex(bytes: &Vec<u8>) -> (r: String)
    ensures
        r@ == hex_of(bytes@),
        r@.len() == 2 * bytes@.len(),
        forall|j: int| 0 <= j < r@.len() ==> is_lower_hex(#[trigger] r@[j]),
        bytes@.len() >= 2 ==> hex_suffix_ok(r@),
{
    proof {
        lemma_hex_of_props(bytes@);
    }
    let n = bytes.len();
    let mut out: Vec<char> = Vec::new();
    let mut i: usize = 0;
    proof {
        assert(bytes@.subrange(0, 0) =~= Seq::<u8>::empty());
    }
    while i < n
        invariant
            i <= n,
            n == bytes@.len(),
            out@ == hex_of(bytes@.subrange(0, i as int)),
        decreases n - i,
    {
        let b = bytes[i];
        proof {
            let pre = bytes@.subrange(0, i as int);
            let post = bytes@.subrange(0, i as int + 1);
            assert(post.drop_last() =~= pre);
            assert(post.last() == bytes@[i as int]);
        }
        out.push(hex_digit(b / 16));
        out.push(hex_digit(b % 16));
        proof {
            assert(out@ =~= hex_of(bytes@.subrange(0, i as int + 1)));
        }
        i += 1;
    }
    proof {
        assert(bytes@.subrange(0, n as int) =~= bytes@);
    }
    string_from_chars(&out)
}

/// The folder name composed for a slug and a hex suffix.
pub open spec fn folder_name_spec(slug: Seq<char>, hex: Seq<char>) -> Seq<char> {
    "mineral."@ + slug + ".0x"@ + hex
}

/// A suffix fit for a folder name: at least three lowercase hex digits.
pub open spec fn hex_suffix_ok(hex: Seq<char>) -> bool {
    hex.len() >= 3 && forall|j: int| 0 <= j < hex.len() ==> is_lower_hex(#[trigger] hex[j])
}

/// Composing a valid slug with a valid suffix always meets the
/// folder-name grammar.
pub proof fn lemma_folder_name_valid(slug: Seq<char>, hex: Seq<char>)
    requires
        slug_ok(slug),
        hex_suffix_ok(hex),
    ensures
        valid_folder_name(folder_name_spec(slug, hex)),
{
    reveal_strlit("mineral.");
    reveal_strlit("mineral");
    reveal_strlit(".0x");
    let s = folder_name_spec(slug, hex);
    let id = seq!['0', 'x'] + hex;
    assert("mineral."@ =~= "mineral"@ + seq!['.']);
    assert(".0x"@ =~= seq!['.', '0', 'x']);
    assert(s =~= "mineral"@ + seq!['.'] + slug + seq!['.'] + id);
    // slug characters are never dots
    assert forall|j: int| 0 <= j < slug.len() implies slug[j] != '.' by {
        assert(is_lower_alnum(slug[j]) || slug[j] == '-');
    }
    assert forall|j: int| 0 <= j < id.len() implies id[j] != '.' by {
        if j >= 2 {
            assert(is_lower_hex(hex[j - 2]));
        }
    }
    // first dot at index 7
    assert forall|j: int| 0 <= j < 7 implies s[j] != '.' by {
        assert(s[j] == "mineral"@[j]);
    }
    assert(s[7] == '.');
    lemma_index_of_unique(s, '.', 7);
    let tail1 = s.subrange(8, s.len() as int);
    assert(tail1 =~= slug + seq!['.'] + id);
    // second dot right after the slug
    assert forall|j: int| 0 <= j < slug.len() implies tail1[j] != '.' by {
        assert(tail1[j] == slug[j]);
    }
    assert(tail1[slug.len() as int] == '.');
    lemma_index_of_unique(tail1, '.', slug.len() as int);
    let tail2 = tail1.subrange(slug.len() as int + 1, tail1.len() as int);
    assert(tail2 =~= id);
    // no dot in the id part
    lemma_index_of_unique(id, '.', id.len() as int);
    assert(split_on(id, '.') =~= seq![id]);
    assert(tail1.subrange(0, slug.len() as int) =~= slug);
    assert(split_on(tail1, '.') =~= seq![slug] + seq![id]);
    assert(s.subrange(0, 7) =~= "mineral"@);
    assert(split_on(s, '.') =~= seq!["mineral"@, slug, id]);
    assert(folder_id_ok(id)) by {
        assert(id[0] == '0');
        assert(id[1] == 'x');
        assert(forall|j: int| 2 <= j < id.len() ==> is_lower_hex(#[trigger] id[j - 2 + 2]));
        assert forall|j: int| 2 <= j < id.len() implies is_lower_hex(#[trigger] id[j]) by {
            assert(id[j] == hex[j - 2]);
        }
    }
}

/// Builds `mineral.<slug>.0x<suffix>`.
pub fn compose_folder_name(family_slug: &str, suffix: &str) -> (r: String)
    ensures
        r@ == folder_name_spec(family_slug@, suffix@),
{
    let mut s = to_string("mineral.");
    s.append(family_slug);
    s.append(".0x");
    s.append(suffix);
    s
}

/// Whether `s` is one of the names in `names`.
pub open spec fn contains_name(names: Seq<String>, s: Seq<char>) -> bool {
    exists|i: int| 0 <= i < names.len() && names[i]@ == s
}

fn contains_name_exec(names: &Vec<String>, s: &str) -> (r: bool)
    ensures
        r == contains_name(names@, s@),
{
    let n = names.len();
    let mut i: usize = 0;
    while i < n
        invariant
            i <= n,
            n == names@.len(),
            forall|j: int| 0 <= j < i ==> names@[j]@ != s@,
        decreases n - i,
    {
        let hit = str_eq(names[i].as_str(), s);
        if hit {
            return true;
        }
        i += 1;
    }
    false
}

/// Allocates a folder name that no existing folder uses: the first
/// candidate suffix whose composed name is free wins; when every one of
/// them collides, the bound is exhausted and that is an internal fault.
#[verifier::loop_isolation(false)]
pub fn create_unique_folder_name(
    existing: &Vec<String>,
    family_slug: &str,
    suffixes: &Vec<String>,
) -> (r: Result<String, PublishError>)
    requires
        slug_ok(family_slug@),
        forall|i: int| 0 <= i < suffixes@.len() ==> hex_suffix_ok(#[trigger] suffixes@[i]@),
    ensures
        r matches Ok(name) ==> valid_folder_name(name@) && !contains_name(existing@, name@)
            && exists|i: int|
            0 <= i < suffixes@.len() && name@ == folder_name_spec(
                family_slug@,
                #[trigger] suffixes@[i]@,
            ),
        r is Err ==> forall|i: int|
            0 <= i < suffixes@.len() ==> contains_name(
                existing@,
                folder_name_spec(family_slug@, #[trigger] suffixes@[i]@),
            ),
{
    let n = suffixes.len();
    let mut i: usize = 0;
    while i < n
        invariant
            i <= n,
            forall|j: int|
                0 <= j < i ==> contains_name(
                    existing@,
                    folder_name_spec(family_slug@, #[trigger] suffixes@[j]@),
                ),
        decreases n - i,
    {
        let candidate = compose_folder_name(family_slug, suffixes[i].as_str());
        if !contains_name_exec(existing, candidate.as_str()) {
            proof {
                lemma_folder_name_valid(family_slug@, suffixes@[i as int]@);
            }
            return Ok(candidate);
        }
        i += 1;
    }
    Err(PublishError::Internal(to_string("failed to allocate unique mineral id")))
}

/// A translated value, or the source value when the translation came back
/// blank.
pub open spec fn or_source(v: Seq<char>, fallback: Seq<char>) -> Seq<char> {
    if trim_spec(v).len() == 0 {
        fallback
    } else {
        trim_spec(v)
    }
}

/// Keeps a translated field unless it is empty after trimming, in which
/// case the source-language value stands.
pub fn translated_or_source(value: String, fallback: &str) -> (r: String)
    ensures
        r@ == or_source(value@, fallback@),
{
    let cs = chars_of(value.as_str());
    let t = trim_chars(&cs);
    if t.len() == 0 {
        to_string(fallback)
    } else {
        string_from_chars(&t)
    }
}

/// The translatable free-text fields of one translation result.
pub struct TranslatedFields {
    pub common_name: String,
    pub description: String,
    pub mineral_family: String,
    pub formula: String,
    pub crystal_system: String,
    pub color: String,
    pub streak: String,
    pub luster: String,
    pub notes: String,
}

/// The record written for a language whose translation succeeded: each
/// text field is the translation unless blank, numeric fields, the
/// element mapping and the image reference are copied unchanged.
pub open spec fn merged_record_view(
    base: crate::models::DiskRecordView,
    t: &TranslatedFields,
) -> crate::models::DiskRecordView {
    crate::models::DiskRecordView {
        common_name: or_source(t.common_name@, base.common_name),
        description: or_source(t.description@, base.description),
        mineral_family: or_source(t.mineral_family@, base.mineral_family),
        formula: or_source(t.formula@, base.formula),
        hardness_mohs: base.hardness_mohs,
        density_g_cm3: base.density_g_cm3,
        crystal_system: or_source(t.crystal_system@, base.crystal_system),
        color: or_source(t.color@, base.color),
        streak: or_source(t.streak@, base.streak),
        luster: or_source(t.luster@, base.luster),
        major_elements_pct: base.major_elements_pct,
        notes: or_source(t.notes@, base.notes),
        image_file: base.image_file,
    }
}

/// Builds the disk record for one successfully translated language.
pub fn merge_translation(
    base: &crate::models::MineralDiskRecord,
    t: &TranslatedFields,
) -> (r: crate::models::MineralDiskRecord)
    ensures
        r@ == merged_record_view(base@, t),
{
    crate::models::MineralDiskRecord {
        common_name: translated_or_source(t.common_name.clone(), base.common_name.as_str()),
        description: translated_or_source(t.description.clone(), base.description.as_str()),
        mineral_family: translated_or_source(
            t.mineral_family.clone(),
            base.mineral_family.as_str(),
        ),
        formula: translated_or_source(t.formula.clone(), base.formula.as_str()),
        hardness_mohs: base.hardness_mohs,
        density_g_cm3: base.density_g_cm3,
        crystal_system: translated_or_source(
            t.crystal_system.clone(),
            base.crystal_system.as_str(),
        ),
        color: translated_or_source(t.color.clone(), base.color.as_str()),
        streak: translated_or_source(t.streak.clone(), base.streak.as_str()),
        luster: translated_or_source(t.luster.clone(), base.luster.as_str()),
        major_elements_pct: base.major_elements_pct.duplicate(),
        notes: translated_or_source(t.notes.clone(), base.notes.as_str()),
        image_file: match &base.image_file {
            Some(f) => Some(f.clone()),
            None => None,
        },
    }
}

/// How a publish's translations went: how many target languages were
/// translated, and which fell back to the source values.
pub struct TranslationStats {
    pub translated_count: usize,
    pub fallback_lang_codes: Vec<String>,
}

/// Number of outcomes that carried a translation.
pub open spec fn count_translated(
    outs: Seq<(crate::i18n::Language, Option<TranslatedFields>)>,
) -> int
    decreases outs.len(),
{
    if outs.len() == 0 {
        0
    } else {
        count_translated(outs.drop_last()) + if outs.last().1 is Some {
            1int
        } else {
            0int
        }
    }
}

/// Codes of the languages that fell back, in outcome order.
pub open spec fn fallback_codes(
    outs: Seq<(crate::i18n::Language, Option<TranslatedFields>)>,
) -> Seq<Seq<char>>
    decreases outs.len(),
{
    if outs.len() == 0 {
        Seq::<Seq<char>>::empty()
    } else {
        fallback_codes(outs.drop_last()) + if outs.last().1 is None {
            seq![crate::i18n::lang_code_spec(outs.last().0)]
        } else {
            Seq::<Seq<char>>::empty()
        }
    }
}

/// Every outcome either counts as translated or appears as a fallback.
pub proof fn lemma_outcomes_partition(
    outs: Seq<(crate::i18n::Language, Option<TranslatedFields>)>,
)
    ensures
        count_translated(outs) + fallback_codes(outs).len() == outs.len(),
        0 <= count_translated(outs) <= outs.len(),
    decreases outs.len(),
{
    if outs.len() > 0 {
        lemma_outcomes_partition(outs.drop_last());
    }
}

/// The views of the produced code strings.
pub open spec fn code_views(codes: Seq<String>) -> Seq<Seq<char>> {
    codes.map_values(|c: String| c@)
}

/// Writes the per-language records of a publish: the base language's
/// record first, then, for each translation outcome in order, either the
/// merged translation or the base record copied verbatim as the fallback,
/// with the outcome tallied either as translated or in the fallback list.
#[verifier::loop_isolation(false)]
pub fn build_localized_records(
    base: &crate::models::MineralDiskRecord,
    outcomes: &Vec<(crate::i18n::Language, Option<TranslatedFields>)>,
) -> (r: (Vec<(String, crate::models::MineralDiskRecord)>, TranslationStats))
    ensures
        r.0@.len() == outcomes@.len() + 1,
        r.0@[0].0@ == crate::i18n::lang_code_spec(crate::i18n::Language::En),
        r.0@[0].1@ == base@,
        forall|i: int|
            0 <= i < outcomes@.len() ==> (#[trigger] r.0@[i + 1]).0@ == crate::i18n::lang_code_spec(
                outcomes@[i].0,
            ),
        forall|i: int|
            0 <= i < outcomes@.len() && outcomes@[i].1 is None ==> (#[trigger] r.0@[i + 1]).1@
                == base@,
        forall|i: int|
            0 <= i < outcomes@.len() && outcomes@[i].1 is Some ==> (#[trigger] r.0@[i + 1]).1@
                == merged_record_view(base@, &outcomes@[i].1.unwrap()),
        r.1.translated_count == count_translated(outcomes@),
        code_views(r.1.fallback_lang_codes@) == fallback_codes(outcomes@),
        r.1.translated_count + r.1.fallback_lang_codes@.len() == outcomes@.len(),
{
    let n = outcomes.len();
    let mut records: Vec<(String, crate::models::MineralDiskRecord)> = Vec::new();
    records.push((to_string(crate::i18n::Language::En.code()), base.duplicate()));
    let mut translated_count: usize = 0;
    let mut fallback_lang_codes: Vec<String> = Vec::new();
    let mut i: usize = 0;
    proof {
        assert(outcomes@.subrange(0, 0) =~= Seq::<(
            crate::i18n::Language,
            Option<TranslatedFields>,
        )>::empty());
        assert(code_views(fallback_lang_codes@) =~= Seq::<Seq<char>>::empty());
        lemma_outcomes_partition(outcomes@);
    }
    while i < n
        invariant
            i <= n,
            records@.len() == i + 1,
            records@[0].0@ == crate::i18n::lang_code_spec(crate::i18n::Language::En),
            records@[0].1@ == base@,
            forall|j: int|
                0 <= j < i ==> (#[trigger] records@[j + 1]).0@ == crate::i18n::lang_code_spec(
                    outcomes@[j].0,
                ),
            forall|j: int|
                0 <= j < i && outcomes@[j].1 is None ==> (#[trigger] records@[j + 1]).1@ == base@,
            forall|j: int|
                0 <= j < i && outcomes@[j].1 is Some ==> (#[trigger] records@[j + 1]).1@
                    == merged_record_view(base@, &outcomes@[j].1.unwrap()),
            translated_count == count_translated(outcomes@.subrange(0, i as int)),
            code_views(fallback_lang_codes@) == fallback_codes(outcomes@.subrange(0, i as int)),
            translated_count + fallback_lang_codes@.len() == i,
        decreases n - i,
    {
        proof {
            let pre = outcomes@.subrange(0, i as int);
            let post = outcomes@.subrange(0, i as int + 1);
            assert(post.drop_last() =~= pre);
            assert(post.last() == outcomes@[i as int]);
        }
        let lang = outcomes[i].0;
        match &outcomes[i].1 {
            Some(t) => {
                let merged = merge_translation(base, t);
                records.push((to_string(lang.code()), merged));
                translated_count = translated_count + 1;
            },
            None => {
                records.push((to_string(lang.code()), base.duplicate()));
                let ghost prev_codes = fallback_lang_codes@;
                fallback_lang_codes.push(to_string(lang.code()));
                proof {
                    assert(code_views(fallback_lang_codes@) =~= code_views(prev_codes) + seq![
                        crate::i18n::lang_code_spec(outcomes@[i as int].0),
                    ]);
                }
            },
        }
        i += 1;
    }
    proof {
        assert(outcomes@.subrange(0, n as int) =~= outcomes@);
    }
    (records, TranslationStats { translated_count, fallback_lang_codes })
}

/// The languages a publish must translate into: every supported language
/// but the base one, in presentation order.
pub fn non_base_languages() -> (r: Vec<crate::i18n::Language>)
    ensures
        r@ == crate::i18n::all_languages().subrange(1, crate::i18n::all_languages().len() as int),
        forall|i: int| 0 <= i < r@.len() ==> !(#[trigger] r@[i] is En),
{
    let all = crate::i18n::Language::all();
    let mut out: Vec<crate::i18n::Language> = Vec::new();
    let mut i: usize = 1;
    while i < all.len()
        invariant
            1 <= i <= all@.len(),
            all@ == crate::i18n::all_languages(),
            out@ =~= crate::i18n::all_languages().subrange(1, i as int),
        decreases all@.len() - i,
    {
        out.push(all[i]);
        proof {
            assert(out@ =~= crate::i18n::all_languages().subrange(1, i as int + 1));
        }
        i += 1;
    }
    proof {
        assert forall|i: int| 0 <= i < out@.len() implies !(#[trigger] out@[i] is En) by {
            assert(out@[i] == crate::i18n::all_languages()[i + 1]);
        }
    }
    out
}

/// Start of a file name's extension: the position right after the last
/// dot, or `0` when there is no dot.
pub open spec fn ext_start(s: Seq<char>) -> int
    decreases s.len(),
{
    if s.len() == 0 {
        0
    } else if s[s.len() - 1] == '.' {
        s.len() as int
    } else {
        ext_start(s.drop_last())
    }
}

proof fn lemma_ext_start_range(s: Seq<char>)
    ensures
        0 <= ext_start(s) <= s.len(),
    decreases s.len(),
{
    if s.len() > 0 && s[s.len() - 1] != '.' {
        lemma_ext_start_range(s.drop_last());
    }
}

proof fn lemma_ext_start_cut(s: Seq<char>, k: int)
    requires
        0 <= k <= s.len(),
        forall|t: int| k <= t < s.len() ==> s[t] != '.',
    ensures
        ext_start(s) == ext_start(s.subrange(0, k)),
    decreases s.len() - k,
{
    if k < s.len() {
        assert(s.drop_last() =~= s.subrange(0, s.len() - 1));
        lemma_ext_start_cut(s.subrange(0, s.len() - 1), k);
        assert(s.subrange(0, s.len() - 1).subrange(0, k) =~= s.subrange(0, k));
    } else {
        assert(s.subrange(0, k) =~= s);
    }
}

/// The lowercased extension a file name offers, normalized (`jpeg` to
/// `jpg`), when it is one of the supported image formats.
pub open spec fn ext_from_name(name: Seq<char>) -> Option<Seq<char>> {
    let e = crate::strutil::lower_seq(name.subrange(ext_start(name), name.len() as int));
    if e == "png"@ || e == "jpg"@ || e == "webp"@ || e == "gif"@ {
        Some(e)
    } else if e == "jpeg"@ {
        Some("jpg"@)
    } else {
        None
    }
}

/// The extension a MIME content type stands for, when supported.
pub open spec fn ext_from_content_type(ct: Seq<char>) -> Option<Seq<char>> {
    if ct == "image/png"@ {
        Some("png"@)
    } else if ct == "image/jpeg"@ {
        Some("jpg"@)
    } else if ct == "image/webp"@ {
        Some("webp"@)
    } else if ct == "image/gif"@ {
        Some("gif"@)
    } else {
        None
    }
}

/// The image format of an upload: the file name's extension when it is a
/// supported one, else whatever the content type says.
pub open spec fn detect_ext_spec(
    file_name: Option<Seq<char>>,
    content_type: Option<Seq<char>>,
) -> Option<Seq<char>> {
    let from_name = match file_name {
        Some(n) => ext_from_name(n),
        None => None,
    };
    if from_name is Some {
        from_name
    } else {
        match content_type {
            Some(ct) => ext_from_content_type(ct),
            None => None,
        }
    }
}

/// Error text for an upload in no supported image format.
pub open spec fn unsupported_image_msg() -> Seq<char> {
    "unsupported image type; use png, jpg, webp, or gif"@
}

fn ext_of_name_exec(name: &str) -> (r: Option<String>)
    ensures
        match r {
            Some(e) => ext_from_name(name@) == Some(e@),
            None => ext_from_name(name@) is None,
        },
{
    let cs = chars_of(name);
    let n = cs.len();
    let mut k: usize = n;
    while k > 0 && cs[k - 1] != '.'
        invariant
            k <= n,
            n == cs@.len(),
            forall|t: int| k <= t < n ==> cs@[t] != '.',
        decreases k,
    {
        k -= 1;
    }
    proof {
        lemma_ext_start_cut(cs@, k as int);
        if k > 0 {
            assert(cs@.subrange(0, k as int)[k - 1] == '.');
            assert(ext_start(cs@.subrange(0, k as int)) == k);
        } else {
            assert(cs@.subrange(0, 0) =~= Seq::<char>::empty());
        }
        assert(ext_start(cs@) == k);
    }
    let raw = crate::strutil::subvec(&cs, k, n);
    let e = crate::strutil::lower_chars(&raw);
    if crate::strutil::chars_eq(&e, &chars_of("png")) || crate::strutil::chars_eq(
        &e,
        &chars_of("jpg"),
    ) || crate::strutil::chars_eq(&e, &chars_of("webp")) || crate::strutil::chars_eq(
        &e,
        &chars_of("gif"),
    ) {
        Some(string_from_chars(&e))
    } else if crate::strutil::chars_eq(&e, &chars_of("jpeg")) {
        Some(to_string("jpg"))
    } else {
        None
    }
}

/// Determines an upload's image format from its file name or content
/// type; an upload in no supported format is rejected.
pub fn detect_image_extension(
    file_name: Option<&str>,
    content_type: Option<&str>,
) -> (r: Result<String, PublishError>)
    ensures
        match detect_ext_spec(
            match file_name {
                Some(n) => Some(n@),
                None => None,
            },
            match content_type {
                Some(c) => Some(c@),
                None => None,
            },
        ) {
            Some(e) => r matches Ok(s) && s@ == e,
            None => r matches Err(err) && err matches PublishError::BadRequest(m) && m@
                == unsupported_image_msg(),
        },
{
    if let Some(name) = file_name {
        if let Some(e) = ext_of_name_exec(name) {
            return Ok(e);
        }
    }
    if let Some(ct) = content_type {
        if str_eq(ct, "image/png") {
            return Ok(to_string("png"));
        }
        if str_eq(ct, "image/jpeg") {
            return Ok(to_string("jpg"));
        }
        if str_eq(ct, "image/webp") {
            return Ok(to_string("webp"));
        }
        if str_eq(ct, "image/gif") {
            return Ok(to_string("gif"));
        }
    }
    Err(PublishError::BadRequest(to_string(
        "unsupported image type; use png, jpg, webp, or gif",
    )))
}

/// The MIME content type served for an image extension; anything unknown
/// is treated as JPEG.
pub open spec fn content_type_spec(e: Seq<char>) -> Seq<char> {
    if e == "png"@ {
        "image/png"@
    } else if e == "webp"@ {
        "image/webp"@
    } else if e == "gif"@ {
        "image/gif"@
    } else {
        "image/jpeg"@
    }
}

/// The content type an image file is served with.
pub fn content_type_from_ext(ext: &str) -> (r: &'static str)
    ensures
        r@ == content_type_spec(ext@),
{
    if str_eq(ext, "png") {
        "image/png"
    } else if str_eq(ext, "webp") {
        "image/webp"
    } else if str_eq(ext, "gif") {
        "image/gif"
    } else {
        "image/jpeg"
    }
}

/// The file name a published image is stored under.
pub fn image_file_name_for(ext: &str) -> (r: String)
    ensures
        r@ == "image."@ + ext@,
{
    let mut s = to_string("image.");
    s.append(ext);
    s
}

/// The raw publish form: the draft id plus every field as submitted.
pub struct PublishMineralRequest {
    pub draft_id: String,
    pub common_name: String,
    pub description: String,
    pub mineral_family: String,
    pub formula: String,
    pub hardness_mohs: String,
    pub density_g_cm3: String,
    pub crystal_system: String,
    pub color: String,
    pub streak: String,
    pub luster: String,
    pub major_elements_pct_text: String,
    pub notes: String,
}

/// A fully validated publish: trimmed text, parsed numbers, the parsed
/// element mapping, and the draft's image.
#[derive(Debug)]
pub struct NewMineralDraft {
    pub common_name: String,
    pub description: String,
    pub mineral_family: String,
    pub formula: String,
    pub hardness_mohs: i64,
    pub density_g_cm3: i64,
    pub crystal_system: String,
    pub color: String,
    pub streak: String,
    pub luster: String,
    pub notes: String,
    pub major_elements_pct: crate::elements::ElementMap,
    pub image_bytes: Vec<u8>,
    pub image_ext: String,
}

/// A text field passes validation when something remains after trimming.
pub open spec fn text_ok(v: Seq<char>) -> bool {
    trim_spec(v).len() > 0
}

/// A numeric field passes validation when its trimmed text is a decimal
/// number.
pub open spec fn num_ok(v: Seq<char>) -> bool {
    text_ok(v) && parse_decimal_spec(trim_spec(v)) is Some
}

/// The first validation failure's message, in the order the fields are
/// checked: the nine text fields, then the two numeric fields, then the
/// element-composition text; `None` when everything passes.
pub open spec fn first_publish_error(r: &PublishMineralRequest) -> Option<Seq<char>> {
    if !text_ok(r.common_name@) {
        Some(required_msg("common_name"@))
    } else if !text_ok(r.description@) {
        Some(required_msg("description"@))
    } else if !text_ok(r.mineral_family@) {
        Some(required_msg("mineral_family"@))
    } else if !text_ok(r.formula@) {
        Some(required_msg("formula"@))
    } else if !text_ok(r.crystal_system@) {
        Some(required_msg("crystal_system"@))
    } else if !text_ok(r.color@) {
        Some(required_msg("color"@))
    } else if !text_ok(r.streak@) {
        Some(required_msg("streak"@))
    } else if !text_ok(r.luster@) {
        Some(required_msg("luster"@))
    } else if !text_ok(r.notes@) {
        Some(required_msg("notes"@))
    } else if !text_ok(r.hardness_mohs@) {
        Some(required_msg("hardness_mohs"@))
    } else if parse_decimal_spec(trim_spec(r.hardness_mohs@)) is None {
        Some(not_number_msg("hardness_mohs"@))
    } else if !text_ok(r.density_g_cm3@) {
        Some(required_msg("density_g_cm3"@))
    } else if parse_decimal_spec(trim_spec(r.density_g_cm3@)) is None {
        Some(not_number_msg("density_g_cm3"@))
    } else {
        match crate::elements::parse_elements_spec(r.major_elements_pct_text@) {
            Ok(_) => None,
            Err(m) => Some(m),
        }
    }
}

/// Whether a whole publish request passes field validation.
pub open spec fn request_ok(r: &PublishMineralRequest) -> bool {
    &&& text_ok(r.common_name@)
    &&& text_ok(r.description@)
    &&& text_ok(r.mineral_family@)
    &&& text_ok(r.formula@)
    &&& text_ok(r.crystal_system@)
    &&& text_ok(r.color@)
    &&& text_ok(r.streak@)
    &&& text_ok(r.luster@)
    &&& text_ok(r.notes@)
    &&& num_ok(r.hardness_mohs@)
    &&& num_ok(r.density_g_cm3@)
    &&& crate::elements::parse_elements_spec(r.major_elements_pct_text@) is Ok
}

/// Validates a publish request: succeeds exactly when every required
/// field is non-empty after trimming, both numeric fields parse, and the
/// element text parses; the draft built carries the trimmed and parsed
/// values together with the draft's image.  A failed validation never
/// touches any store.
pub fn parse_publish_request(
    request: &PublishMineralRequest,
    image: crate::drafts::AdminDraft,
) -> (r: Result<NewMineralDraft, PublishError>)
    ensures
        r is Ok <==> request_ok(request),
        r matches Ok(d) ==> {
            &&& d.common_name@ == trim_spec(request.common_name@)
            &&& d.description@ == trim_spec(request.description@)
            &&& d.mineral_family@ == trim_spec(request.mineral_family@)
            &&& d.formula@ == trim_spec(request.formula@)
            &&& d.crystal_system@ == trim_spec(request.crystal_system@)
            &&& d.color@ == trim_spec(request.color@)
            &&& d.streak@ == trim_spec(request.streak@)
            &&& d.luster@ == trim_spec(request.luster@)
            &&& d.notes@ == trim_spec(request.notes@)
            &&& Some(d.hardness_mohs) == parse_decimal_spec(trim_spec(request.hardness_mohs@))
            &&& Some(d.density_g_cm3) == parse_decimal_spec(trim_spec(request.density_g_cm3@))
            &&& Ok::<_, Seq<char>>(d.major_elements_pct@) == crate::elements::parse_elements_spec(
                request.major_elements_pct_text@,
            )
            &&& crate::elements::wf_elements(d.major_elements_pct@)
            &&& d.image_bytes@ == image.image_bytes@
            &&& d.image_ext@ == image.image_ext@
        },
        r matches Err(e) ==> (e matches PublishError::BadRequest(m) && Some(m@)
            == first_publish_error(request)),
{
    let common_name = match required_string(request.common_name.as_str(), "common_name") {
        Ok(v) => v,
        Err(e) => { return Err(e); },
    };
    let description = match required_string(request.description.as_str(), "description") {
        Ok(v) => v,
        Err(e) => { return Err(e); },
    };
    let mineral_family = match required_string(request.mineral_family.as_str(), "mineral_family") {
        Ok(v) => v,
        Err(e) => { return Err(e); },
    };
    let formula = match required_string(request.formula.as_str(), "formula") {
        Ok(v) => v,
        Err(e) => { return Err(e); },
    };
    let crystal_system = match required_string(request.crystal_system.as_str(), "crystal_system") {
        Ok(v) => v,
        Err(e) => { return Err(e); },
    };
    let color = match required_string(request.color.as_str(), "color") {
        Ok(v) => v,
        Err(e) => { return Err(e); },
    };
    let streak = match required_string(request.streak.as_str(), "streak") {
        Ok(v) => v,
        Err(e) => { return Err(e); },
    };
    let luster = match required_string(request.luster.as_str(), "luster") {
        Ok(v) => v,
        Err(e) => { return Err(e); },
    };
    let notes = match required_string(request.notes.as_str(), "notes") {
        Ok(v) => v,
        Err(e) => { return Err(e); },
    };
    let hardness_mohs = match parse_number_field(request.hardness_mohs.as_str(), "hardness_mohs") {
        Ok(v) => v,
        Err(e) => { return Err(e); },
    };
    let density_g_cm3 = match parse_number_field(
        request.density_g_cm3.as_str(),
        "density_g_cm3",
    ) {
        Ok(v) => v,
        Err(e) => { return Err(e); },
    };
    let major_elements_pct = match crate::elements::parse_major_elements(
        request.major_elements_pct_text.as_str(),
    ) {
        Ok(m) => m,
        Err(msg) => { return Err(PublishError::BadRequest(msg)); },
    };
    Ok(NewMineralDraft {
        common_name,
        description,
        mineral_family,
        formula,
        hardness_mohs,
        density_g_cm3,
        crystal_system,
        color,
        streak,
        luster,
        notes,
        major_elements_pct,
        image_bytes: image.image_bytes,
        image_ext: image.image_ext,
    })
}

} // verus!
