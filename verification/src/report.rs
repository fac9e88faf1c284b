//! Derived report metrics over a record's numeric fields and element
//! composition, their localized wording, and the report artifact naming,
//! including the escaping used for text placed into LaTeX sources.

use vstd::prelude::*;

use crate::i18n::Language;
use crate::models::Mineral;
use crate::strutil::{string_from_chars, chars_of, to_string};

verus! {

broadcast use vstd::seq_lib::group_to_multiset_ensures;

/// Hardness classes over the Mohs scale.
#[derive(Debug, Clone, Copy, PartialEq, Eq, Structural)]
pub enum HardnessBand {
    Soft,
    Medium,
    Hard,
    VeryHard,
}

/// Density classes over g/cm3.
#[derive(Debug, Clone, Copy, PartialEq, Eq, Structural)]
pub enum DensityBand {
    Light,
    Moderate,
    Dense,
}

/// Hardness class of a Mohs value in hundredths: below 3 soft, below 6
/// medium, below 7.5 hard, else very hard.
pub open spec fn hardness_band_spec(hundredths: i64) -> HardnessBand {
    if hundredths < 300 {
        HardnessBand::Soft
    } else if hundredths < 600 {
        HardnessBand::Medium
    } else if hundredths < 750 {
        HardnessBand::Hard
    } else {
        HardnessBand::VeryHard
    }
}

/// Density class of a value in hundredths of a g/cm3: below 2.6 light,
/// below 3.2 moderate, else dense.
pub open spec fn density_band_spec(hundredths: i64) -> DensityBand {
    if hundredths < 260 {
        DensityBand::Light
    } else if hundredths < 320 {
        DensityBand::Moderate
    } else {
        DensityBand::Dense
    }
}

/// Classifies a Mohs hardness given in hundredths.
pub fn hardness_band_of(hundredths: i64) -> (r: HardnessBand)
    ensures
        r == hardness_band_spec(hundredths),
{
    if hundredths < 300 {
        HardnessBand::Soft
    } else if hundredths < 600 {
        HardnessBand::Medium
    } else if hundredths < 750 {
        HardnessBand::Hard
    } else {
        HardnessBand::VeryHard
    }
}

/// Classifies a density given in hundredths of a g/cm3.
pub fn density_band_of(hundredths: i64) -> (r: DensityBand)
    ensures
        r == density_band_spec(hundredths),
{
    if hundredths < 260 {
        DensityBand::Light
    } else if hundredths < 320 {
        DensityBand::Moderate
    } else {
        DensityBand::Dense
    }
}

/// The word for an unknown dominant element, per language.
pub open spec fn localized_unknown_spec(language: Language) -> Seq<char> {
    match language {
        Language::En => "Unknown"@,
        Language::Es => "Desconocido"@,
        Language::Cs => "Nezname"@,
        Language::Zh => "未知"@,
        Language::Ar => "غير معروف"@,
        Language::Fr => "Inconnu"@,
        Language::De => "Unbekannt"@,
        Language::Pt => "Desconhecido"@,
        Language::Hi => "Agyat"@,
        Language::Ja => "不明"@,
    }
}

/// The placeholder name shown when a record has no element composition.
pub fn localized_unknown(language: Language) -> (r: &'static str)
    ensures
        r@ == localized_unknown_spec(language),
{
    match language {
        Language::En => "Unknown",
        Language::Es => "Desconocido",
        Language::Cs => "Nezname",
        Language::Zh => "未知",
        Language::Ar => "غير معروف",
        Language::Fr => "Inconnu",
        Language::De => "Unbekannt",
        Language::Pt => "Desconhecido",
        Language::Hi => "Agyat",
        Language::Ja => "不明",
    }
}

/// The localized wording of each hardness class.
pub open spec fn localized_hardness_band_spec(language: Language, band: HardnessBand) -> Seq<
    char,
> {
    match language {
        Language::En => match band {
            HardnessBand::Soft => "soft"@,
            HardnessBand::Medium => "medium"@,
            HardnessBand::Hard => "hard"@,
            HardnessBand::VeryHard => "very hard"@,
        },
        Language::Es => match band {
            HardnessBand::Soft => "blando"@,
            HardnessBand::Medium => "medio"@,
            HardnessBand::Hard => "duro"@,
            HardnessBand::VeryHard => "muy duro"@,
        },
        Language::Cs => match band {
            HardnessBand::Soft => "mekky"@,
            HardnessBand::Medium => "stredni"@,
            HardnessBand::Hard => "tvrdy"@,
            HardnessBand::VeryHard => "velmi tvrdy"@,
        },
        Language::Zh => match band {
            HardnessBand::Soft => "较软"@,
            HardnessBand::Medium => "中等"@,
            HardnessBand::Hard => "较硬"@,
            HardnessBand::VeryHard => "很硬"@,
        },
        Language::Ar => match band {
            HardnessBand::Soft => "لين"@,
            HardnessBand::Medium => "متوسط"@,
            HardnessBand::Hard => "صلب"@,
            HardnessBand::VeryHard => "شديد الصلابة"@,
        },
        Language::Fr => match band {
            HardnessBand::Soft => "tendre"@,
            HardnessBand::Medium => "moyen"@,
            HardnessBand::Hard => "dur"@,
            HardnessBand::VeryHard => "tres dur"@,
        },
        Language::De => match band {
            HardnessBand::Soft => "weich"@,
            HardnessBand::Medium => "mittel"@,
            HardnessBand::Hard => "hart"@,
            HardnessBand::VeryHard => "sehr hart"@,
        },
        Language::Pt => match band {
            HardnessBand::Soft => "macio"@,
            HardnessBand::Medium => "medio"@,
            HardnessBand::Hard => "duro"@,
            HardnessBand::VeryHard => "muito duro"@,
        },
        Language::Hi => match band {
            HardnessBand::Soft => "naram"@,
            HardnessBand::Medium => "madhyam"@,
            HardnessBand::Hard => "kathor"@,
            HardnessBand::VeryHard => "bahut kathor"@,
        },
        Language::Ja => match band {
            HardnessBand::Soft => "軟らかい"@,
            HardnessBand::Medium => "中程度"@,
            HardnessBand::Hard => "硬い"@,
            HardnessBand::VeryHard => "非常に硬い"@,
        },
    }
}

/// The hardness class's wording in the given language.
pub fn localized_hardness_band(language: Language, band: HardnessBand) -> (r: &'static str)
    ensures
        r@ == localized_hardness_band_spec(language, band),
{
    match language {
        Language::En => match band {
            HardnessBand::Soft => "soft",
            HardnessBand::Medium => "medium",
            HardnessBand::Hard => "hard",
            HardnessBand::VeryHard => "very hard",
        },
        Language::Es => match band {
            HardnessBand::Soft => "blando",
            HardnessBand::Medium => "medio",
            HardnessBand::Hard => "duro",
            HardnessBand::VeryHard => "muy duro",
        },
        Language::Cs => match band {
            HardnessBand::Soft => "mekky",
            HardnessBand::Medium => "stredni",
            HardnessBand::Hard => "tvrdy",
            HardnessBand::VeryHard => "velmi tvrdy",
        },
        Language::Zh => match band {
            HardnessBand::Soft => "较软",
            HardnessBand::Medium => "中等",
            HardnessBand::Hard => "较硬",
            HardnessBand::VeryHard => "很硬",
        },
        Language::Ar => match band {
            HardnessBand::Soft => "لين",
            HardnessBand::Medium => "متوسط",
            HardnessBand::Hard => "صلب",
            HardnessBand::VeryHard => "شديد الصلابة",
        },
        Language::Fr => match band {
            HardnessBand::Soft => "tendre",
            HardnessBand::Medium => "moyen",
            HardnessBand::Hard => "dur",
            HardnessBand::VeryHard => "tres dur",
        },
        Language::De => match band {
            HardnessBand::Soft => "weich",
            HardnessBand::Medium => "mittel",
            HardnessBand::Hard => "hart",
            HardnessBand::VeryHard => "sehr hart",
        },
        Language::Pt => match band {
            HardnessBand::Soft => "macio",
            HardnessBand::Medium => "medio",
            HardnessBand::Hard => "duro",
            HardnessBand::VeryHard => "muito duro",
        },
        Language::Hi => match band {
            HardnessBand::Soft => "naram",
            HardnessBand::Medium => "madhyam",
            HardnessBand::Hard => "kathor",
            HardnessBand::VeryHard => "bahut kathor",
        },
        Language::Ja => match band {
            HardnessBand::Soft => "軟らかい",
            HardnessBand::Medium => "中程度",
            HardnessBand::Hard => "硬い",
            HardnessBand::VeryHard => "非常に硬い",
        },
    }
}

/// The localized wording of each density class.
pub open spec fn localized_density_band_spec(language: Language, band: DensityBand) -> Seq<char> {
    match language {
        Language::En => match band {
            DensityBand::Light => "light"@,
            DensityBand::Moderate => "moderate"@,
            DensityBand::Dense => "dense"@,
        },
        Language::Es => match band {
            DensityBand::Light => "ligero"@,
            DensityBand::Moderate => "moderado"@,
            DensityBand::Dense => "denso"@,
        },
        Language::Cs => match band {
            DensityBand::Light => "lehky"@,
            DensityBand::Moderate => "stredni"@,
            DensityBand::Dense => "husty"@,
        },
        Language::Zh => match band {
            DensityBand::Light => "较轻"@,
            DensityBand::Moderate => "中等"@,
            DensityBand::Dense => "致密"@,
        },
        Language::Ar => match band {
            DensityBand::Light => "خفيف"@,
            DensityBand::Moderate => "متوسط"@,
            DensityBand::Dense => "كثيف"@,
        },
        Language::Fr => match band {
            DensityBand::Light => "leger"@,
            DensityBand::Moderate => "modere"@,
            DensityBand::Dense => "dense"@,
        },
        Language::De => match band {
            DensityBand::Light => "leicht"@,
            DensityBand::Moderate => "moderat"@,
            DensityBand::Dense => "dicht"@,
        },
        Language::Pt => match band {
            DensityBand::Light => "leve"@,
            DensityBand::Moderate => "moderado"@,
            DensityBand::Dense => "denso"@,
        },
        Language::Hi => match band {
            DensityBand::Light => "halka"@,
            DensityBand::Moderate => "madhyam"@,
            DensityBand::Dense => "ghan"@,
        },
        Language::Ja => match band {
            DensityBand::Light => "軽い"@,
            DensityBand::Moderate => "中程度"@,
            DensityBand::Dense => "高密度"@,
        },
    }
}

/// The density class's wording in the given language.
pub fn localized_density_band(language: Language, band: DensityBand) -> (r: &'static str)
    ensures
        r@ == localized_density_band_spec(language, band),
{
    match language {
        Language::En => match band {
            DensityBand::Light => "light",
            DensityBand::Moderate => "moderate",
            DensityBand::Dense => "dense",
        },
        Language::Es => match band {
            DensityBand::Light => "ligero",
            DensityBand::Moderate => "moderado",
            DensityBand::Dense => "denso",
        },
        Language::Cs => match band {
            DensityBand::Light => "lehky",
            DensityBand::Moderate => "stredni",
            DensityBand::Dense => "husty",
        },
        Language::Zh => match band {
            DensityBand::Light => "较轻",
            DensityBand::Moderate => "中等",
            DensityBand::Dense => "致密",
        },
        Language::Ar => match band {
            DensityBand::Light => "خفيف",
            DensityBand::Moderate => "متوسط",
            DensityBand::Dense => "كثيف",
        },
        Language::Fr => match band {
            DensityBand::Light => "leger",
            DensityBand::Moderate => "modere",
            DensityBand::Dense => "dense",
        },
        Language::De => match band {
            DensityBand::Light => "leicht",
            DensityBand::Moderate => "moderat",
            DensityBand::Dense => "dicht",
        },
        Language::Pt => match band {
            DensityBand::Light => "leve",
            DensityBand::Moderate => "moderado",
            DensityBand::Dense => "denso",
        },
        Language::Hi => match band {
            DensityBand::Light => "halka",
            DensityBand::Moderate => "madhyam",
            DensityBand::Dense => "ghan",
        },
        Language::Ja => match band {
            DensityBand::Light => "軽い",
            DensityBand::Moderate => "中程度",
            DensityBand::Dense => "高密度",
        },
    }
}

/// One element's share of a record, for display.
pub struct ElementShare {
    pub name: String,
    /// Weight percent in hundredths.
    pub percent: i64,
}

impl View for ElementShare {
    type V = (Seq<char>, i64);

    open spec fn view(&self) -> (Seq<char>, i64) {
        (self.name@, self.percent)
    }
}

/// The shares of a run, each seen through its view.
pub open spec fn share_views(s: Seq<ElementShare>) -> Seq<(Seq<char>, i64)> {
    s.map_values(|e: ElementShare| e@)
}

/// Shares stand largest first.
pub open spec fn sorted_desc(s: Seq<(Seq<char>, i64)>) -> bool {
    forall|i: int, j: int| 0 <= i < j < s.len() ==> s[i].1 >= s[j].1
}

proof fn lemma_share_insert_multiset(s: Seq<(Seq<char>, i64)>, i: int, v: (Seq<char>, i64))
    requires
        0 <= i <= s.len(),
    ensures
        s.insert(i, v).to_multiset() == s.to_multiset().insert(v),
{
    let t = s.insert(i, v);
    assert(t.remove(i) =~= s);
    assert(t[i] == v);
    assert(t.remove(i).to_multiset() =~= t.to_multiset().remove(t[i]));
    assert(t.contains(v)) by {
        assert(t[i] == v);
    }
    assert(t.to_multiset().count(v) > 0);
    assert(t.to_multiset() =~= s.to_multiset().insert(v)) by {
        assert(s.to_multiset() =~= t.to_multiset().remove(v));
        assert forall|x: (Seq<char>, i64)| t.to_multiset().count(x) == s.to_multiset().insert(
            v,
        ).count(x) by {
            if x == v {
                assert(s.to_multiset().count(v) == t.to_multiset().count(v) - 1);
            } else {
                assert(s.to_multiset().count(x) == t.to_multiset().count(x));
            }
        }
    }
}

#[verifier::loop_isolation(false)]
fn insert_share_desc(sorted: &mut Vec<ElementShare>, e: ElementShare)
    requires
        sorted_desc(share_views(old(sorted)@)),
    ensures
        sorted_desc(share_views(final(sorted)@)),
        share_views(final(sorted)@).to_multiset() == share_views(old(sorted)@).to_multiset()
            .insert(e@),
        final(sorted)@.len() == old(sorted)@.len() + 1,
{
    let n = sorted.len();
    let mut j: usize = 0;
    proof {
        assert(share_views(sorted@).len() == n);
    }
    while j < n && sorted[j].percent >= e.percent
        invariant
            j <= n,
            forall|t: int| 0 <= t < j ==> (#[trigger] share_views(sorted@)[t]).1 >= e@.1,
        decreases n - j,
    {
        proof {
            assert(share_views(sorted@)[j as int] == sorted@[j as int]@);
        }
        j += 1;
    }
    let ghost before = share_views(sorted@);
    proof {
        if j < n {
            assert(share_views(sorted@)[j as int] == sorted@[j as int]@);
        }
        lemma_share_insert_multiset(before, j as int, e@);
    }
    let ghost e_view = e@;
    sorted.insert(j, e);
    proof {
        let after = share_views(sorted@);
        assert(after =~= before.insert(j as int, e_view)) by {
            assert(forall|t: int| 0 <= t < after.len() ==> after[t] == #[trigger] sorted@[t]@);
        }
        assert forall|a: int, b: int| 0 <= a < b < after.len() implies after[a].1 >= after[b].1 by {
            if a < j && b < j {
                assert(after[a] == before[a] && after[b] == before[b]);
            } else if a < j && b == j {
                assert(after[a] == before[a]);
            } else if a < j && b > j {
                assert(after[a] == before[a] && after[b] == before[b - 1]);
            } else if a == j && b > j {
                assert(after[b] == before[b - 1]);
                if j < n {
                    assert(before[j as int].1 < e_view.1);
                    if b - 1 > j {
                        assert(before[j as int].1 >= before[b - 1].1);
                    }
                }
            } else {
                assert(after[a] == before[a - 1] && after[b] == before[b - 1]);
            }
        }
    }
}

/// The element shares of a record, largest share first; ties keep their
/// relative order of entry.
pub fn element_breakdown_of(mineral: &Mineral) -> (r: Vec<ElementShare>)
    ensures
        sorted_desc(share_views(r@)),
        share_views(r@).to_multiset() == mineral.major_elements_pct@.to_multiset(),
        r@.len() == mineral.major_elements_pct@.len(),
{
    let n = mineral.major_elements_pct.len();
    let mut out: Vec<ElementShare> = Vec::new();
    let mut i: usize = 0;
    proof {
        assert(share_views(out@) =~= Seq::<(Seq<char>, i64)>::empty());
        assert(share_views(out@).to_multiset() =~= mineral.major_elements_pct@.subrange(
            0,
            0,
        ).to_multiset());
        assert(mineral.major_elements_pct@.subrange(0, 0) =~= Seq::<(Seq<char>, i64)>::empty());
    }
    while i < n
        invariant
            i <= n,
            n == mineral.major_elements_pct@.len(),
            sorted_desc(share_views(out@)),
            out@.len() == i,
            share_views(out@).to_multiset() == mineral.major_elements_pct@.subrange(
                0,
                i as int,
            ).to_multiset(),
        decreases n - i,
    {
        let name = mineral.major_elements_pct.key_at(i).clone();
        let percent = mineral.major_elements_pct.value_at(i);
        let share = ElementShare { name, percent };
        proof {
            let pre = mineral.major_elements_pct@.subrange(0, i as int);
            let post = mineral.major_elements_pct@.subrange(0, i as int + 1);
            assert(post.drop_last() =~= pre);
            assert(post.last() == mineral.major_elements_pct@[i as int]);
            assert(pre.push(mineral.major_elements_pct@[i as int]) =~= post);
            assert(share@ == mineral.major_elements_pct@[i as int]);
        }
        insert_share_desc(&mut out, share);
        i += 1;
    }
    proof {
        assert(mineral.major_elements_pct@.subrange(0, n as int) =~= mineral.major_elements_pct@);
    }
    out
}

/// The dominant element of a breakdown: the first share when one exists,
/// else the localized placeholder with a zero share.
pub fn dominant_element(
    breakdown: &Vec<ElementShare>,
    language: Language,
) -> (r: (String, i64))
    ensures
        breakdown@.len() > 0 ==> r.0@ == breakdown@[0]@.0 && r.1 == breakdown@[0]@.1,
        breakdown@.len() == 0 ==> r.0@ == localized_unknown_spec(language) && r.1 == 0,
{
    if breakdown.len() > 0 {
        (breakdown[0].name.clone(), breakdown[0].percent)
    } else {
        (to_string(localized_unknown(language)), 0)
    }
}

/// What each escaped character becomes in LaTeX source text.
pub open spec fn latex_escape_char(c: char) -> Seq<char> {
    if c == '\\' {
        seq![
            '\\', 't', 'e', 'x', 't', 'b', 'a', 'c', 'k', 's', 'l', 'a', 's', 'h', '\\', '{',
            '\\', '}',
        ]
    } else if c == '&' {
        seq!['\\', '&']
    } else if c == '%' {
        seq!['\\', '%']
    } else if c == '$' {
        seq!['\\', '$']
    } else if c == '#' {
        seq!['\\', '#']
    } else if c == '_' {
        seq!['\\', '_']
    } else if c == '{' {
        seq!['\\', '{']
    } else if c == '}' {
        seq!['\\', '}']
    } else if c == '~' {
        seq!['\\', 't', 'e', 'x', 't', 'a', 's', 'c', 'i', 'i', 't', 'i', 'l', 'd', 'e', '{', '}']
    } else if c == '^' {
        seq![
            '\\', 't', 'e', 'x', 't', 'a', 's', 'c', 'i', 'i', 'c', 'i', 'r', 'c', 'u', 'm', '{',
            '}',
        ]
    } else {
        seq![c]
    }
}

/// The whole text escaped, character by character.
pub open spec fn latex_escape_spec(s: Seq<char>) -> Seq<char>
    decreases s.len(),
{
    if s.len() == 0 {
        Seq::<char>::empty()
    } else {
        latex_escape_spec(s.drop_last()) + latex_escape_char(s.last())
    }
}

fn push_escape_char(out: &mut Vec<char>, c: char)
    ensures
        final(out)@ == old(out)@ + latex_escape_char(c),
{
    if c == '\\' {
        out.push('\\');
        out.push('t');
        out.push('e');
        out.push('x');
        out.push('t');
        out.push('b');
        out.push('a');
        out.push('c');
        out.push('k');
        out.push('s');
        out.push('l');
        out.push('a');
        out.push('s');
        out.push('h');
        out.push('\\');
        out.push('{');
        out.push('\\');
        out.push('}');
    } else if c == '&' || c == '%' || c == '$' || c == '#' || c == '_' || c == '{' || c == '}' {
        out.push('\\');
        out.push(c);
    } else if c == '~' {
        out.push('\\');
        out.push('t');
        out.push('e');
        out.push('x');
        out.push('t');
        out.push('a');
        out.push('s');
        out.push('c');
        out.push('i');
        out.push('i');
        out.push('t');
        out.push('i');
        out.push('l');
        out.push('d');
        out.push('e');
        out.push('{');
        out.push('}');
    } else if c == '^' {
        out.push('\\');
        out.push('t');
        out.push('e');
        out.push('x');
        out.push('t');
        out.push('a');
        out.push('s');
        out.push('c');
        out.push('i');
        out.push('i');
        out.push('c');
        out.push('i');
        out.push('r');
        out.push('c');
        out.push('u');
        out.push('m');
        out.push('{');
        out.push('}');
    } else {
        out.push(c);
    }
    proof {
        assert(out@ =~= old(out)@ + latex_escape_char(c));
    }
}

/// Escapes text for inclusion in a LaTeX source file.
#[verifier::loop_isolation(false)]
pub fn latex_escape(input: &str) -> (r: String)
    ensures
        r@ == latex_escape_spec(input@),
{
    let cs = chars_of(input);
    let n = cs.len();
    let mut out: Vec<char> = Vec::new();
    let mut i: usize = 0;
    proof {
        assert(cs@.subrange(0, 0) =~= Seq::<char>::empty());
    }
    while i < n
        invariant
            i <= n,
            out@ == latex_escape_spec(cs@.subrange(0, i as int)),
        decreases n - i,
    {
        proof {
            let pre = cs@.subrange(0, i as int);
            let post = cs@.subrange(0, i as int + 1);
            assert(post.drop_last() =~= pre);
            assert(post.last() == cs@[i as int]);
        }
        push_escape_char(&mut out, cs[i]);
        i += 1;
    }
    proof {
        assert(cs@.subrange(0, n as int) =~= cs@);
    }
    string_from_chars(&out)
}

/// Bare file name at the end of an image path, when there is one.
pub open spec fn path_seg_start(s: Seq<char>) -> int
    decreases s.len(),
{
    if s.len() == 0 {
        0
    } else if s[s.len() - 1] == '/' {
        s.len() as int
    } else {
        path_seg_start(s.drop_last())
    }
}

proof fn lemma_path_seg_start_range(s: Seq<char>)
    ensures
        0 <= path_seg_start(s) <= s.len(),
    decreases s.len(),
{
    if s.len() > 0 && s[s.len() - 1] != '/' {
        lemma_path_seg_start_range(s.drop_last());
    }
}

proof fn lemma_path_seg_start_cut(s: Seq<char>, k: int)
    requires
        0 <= k <= s.len(),
        forall|t: int| k <= t < s.len() ==> s[t] != '/',
    ensures
        path_seg_start(s) == path_seg_start(s.subrange(0, k)),
    decreases s.len() - k,
{
    if k < s.len() {
        assert(s.drop_last() =~= s.subrange(0, s.len() - 1));
        lemma_path_seg_start_cut(s.subrange(0, s.len() - 1), k);
        assert(s.subrange(0, s.len() - 1).subrange(0, k) =~= s.subrange(0, k));
    } else {
        assert(s.subrange(0, k) =~= s);
    }
}

/// The file name after the last `/` of a path, when it is non-empty.
pub open spec fn image_file_name_spec(path: Option<Seq<char>>) -> Option<Seq<char>> {
    match path {
        Some(p) => {
            let seg = p.subrange(path_seg_start(p), p.len() as int);
            if seg.len() > 0 {
                Some(seg)
            } else {
                None
            }
        },
        None => None,
    }
}

/// Extracts the bare image file name from a record's image path.
pub fn image_file_name(path: &Option<String>) -> (r: Option<String>)
    ensures
        match path {
            Some(p) => match r {
                Some(f) => image_file_name_spec(Some(p@)) == Some(f@),
                None => image_file_name_spec(Some(p@)) is None,
            },
            None => r is None,
        },
{
    match path {
        Some(p) => {
            let cs = chars_of(p.as_str());
            let n = cs.len();
            let mut k: usize = n;
            while k > 0 && cs[k - 1] != '/'
                invariant
                    k <= n,
                    n == cs@.len(),
                    forall|t: int| k <= t < n ==> cs@[t] != '/',
                decreases k,
            {
                k -= 1;
            }
            proof {
                lemma_path_seg_start_cut(cs@, k as int);
                if k > 0 {
                    assert(cs@.subrange(0, k as int)[k - 1] == '/');
                    assert(path_seg_start(cs@.subrange(0, k as int)) == k);
                } else {
                    assert(cs@.subrange(0, 0) =~= Seq::<char>::empty());
                }
                assert(path_seg_start(cs@) == k);
            }
            if k == n {
                return None;
            }
            let seg = crate::strutil::subvec(&cs, k, n);
            Some(string_from_chars(&seg))
        },
        None => None,
    }
}

/// The report files written into a record's folder.
pub struct GeneratedArtifacts {
    pub pdf_path: String,
    pub html_path: String,
}

/// Renders report artifacts for records under its data root; the LaTeX
/// and HTML generation itself happens outside the library.
pub struct PdfGenerator {
    pub minerals_root: String,
}

impl PdfGenerator {
    /// A generator rooted at the record store's directory.
    pub fn new(minerals_root: String) -> (r: PdfGenerator)
        ensures
            r.minerals_root@ == minerals_root@,
    {
        PdfGenerator { minerals_root }
    }
}

/// The public paths of a folder's report artifacts.
pub fn report_artifact_paths(folder_name: &str) -> (r: GeneratedArtifacts)
    ensures
        r.pdf_path@ == "/data/minerals/"@ + folder_name@ + "/report.pdf"@,
        r.html_path@ == "/data/minerals/"@ + folder_name@ + "/report.html"@,
{
    let mut pdf = to_string("/data/minerals/");
    pdf.append(folder_name);
    pdf.append("/report.pdf");
    let mut html = to_string("/data/minerals/");
    html.append(folder_name);
    html.append("/report.html");
    GeneratedArtifacts { pdf_path: pdf, html_path: html }
}

} // verus!
