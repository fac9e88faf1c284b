//! The record data model: minerals in memory, per-language disk records,
//! the folder-name grammar, and the language-fallback file resolution.

use vstd::prelude::*;

use crate::elements::ElementMap;
use crate::strutil::{chars_of, chars_eq, split_on, split_chars, str_eq, to_string};

verus! {

/// One catalog entry, resolved for one language.
#[derive(Debug, Clone)]
pub struct Mineral {
    pub slug: String,
    pub folder_name: String,
    pub common_name: String,
    pub description: String,
    pub mineral_family: String,
    pub formula: String,
    /// Mohs hardness in hundredths.
    pub hardness_mohs: i64,
    /// Density in hundredths of a g/cm3.
    pub density_g_cm3: i64,
    pub crystal_system: String,
    pub color: String,
    pub streak: String,
    pub luster: String,
    pub major_elements_pct: ElementMap,
    pub notes: String,
    pub image_path: Option<String>,
}

/// The per-language, persisted form of a record's fields.
#[derive(Debug, Clone)]
pub struct MineralDiskRecord {
    pub common_name: String,
    pub description: String,
    pub mineral_family: String,
    pub formula: String,
    /// Mohs hardness in hundredths.
    pub hardness_mohs: i64,
    /// Density in hundredths of a g/cm3.
    pub density_g_cm3: i64,
    pub crystal_system: String,
    pub color: String,
    pub streak: String,
    pub luster: String,
    pub major_elements_pct: ElementMap,
    pub notes: String,
    pub image_file: Option<String>,
}

/// Ghost image of a disk record, over character sequences.
pub struct DiskRecordView {
    pub common_name: Seq<char>,
    pub description: Seq<char>,
    pub mineral_family: Seq<char>,
    pub formula: Seq<char>,
    pub hardness_mohs: i64,
    pub density_g_cm3: i64,
    pub crystal_system: Seq<char>,
    pub color: Seq<char>,
    pub streak: Seq<char>,
    pub luster: Seq<char>,
    pub major_elements_pct: Seq<(Seq<char>, i64)>,
    pub notes: Seq<char>,
    pub image_file: Option<Seq<char>>,
}

impl View for MineralDiskRecord {
    type V = DiskRecordView;

    open spec fn view(&self) -> DiskRecordView {
        DiskRecordView {
            common_name: self.common_name@,
            description: self.description@,
            mineral_family: self.mineral_family@,
            formula: self.formula@,
            hardness_mohs: self.hardness_mohs,
            density_g_cm3: self.density_g_cm3,
            crystal_system: self.crystal_system@,
            color: self.color@,
            streak: self.streak@,
            luster: self.luster@,
            major_elements_pct: self.major_elements_pct@,
            notes: self.notes@,
            image_file: match self.image_file {
                Some(ref f) => Some(f@),
                None => None,
            },
        }
    }
}

/// Ghost image of an in-memory mineral.
pub struct MineralView {
    pub slug: Seq<char>,
    pub folder_name: Seq<char>,
    pub common_name: Seq<char>,
    pub description: Seq<char>,
    pub mineral_family: Seq<char>,
    pub formula: Seq<char>,
    pub hardness_mohs: i64,
    pub density_g_cm3: i64,
    pub crystal_system: Seq<char>,
    pub color: Seq<char>,
    pub streak: Seq<char>,
    pub luster: Seq<char>,
    pub major_elements_pct: Seq<(Seq<char>, i64)>,
    pub notes: Seq<char>,
    pub image_path: Option<Seq<char>>,
}

impl View for Mineral {
    type V = MineralView;

    open spec fn view(&self) -> MineralView {
        MineralView {
            slug: self.slug@,
            folder_name: self.folder_name@,
            common_name: self.common_name@,
            description: self.description@,
            mineral_family: self.mineral_family@,
            formula: self.formula@,
            hardness_mohs: self.hardness_mohs,
            density_g_cm3: self.density_g_cm3,
            crystal_system: self.crystal_system@,
            color: self.color@,
            streak: self.streak@,
            luster: self.luster@,
            major_elements_pct: self.major_elements_pct@,
            notes: self.notes@,
            image_path: match self.image_path {
                Some(ref p) => Some(p@),
                None => None,
            },
        }
    }
}

/// Where a published image lives under the public data tree.
pub open spec fn image_path_spec(folder: Seq<char>, file: Seq<char>) -> Seq<char> {
    "/data/minerals/"@ + folder + "/"@ + file
}

impl Mineral {
    /// Lifts a disk record into a catalog entry for `folder_name`: the
    /// folder name doubles as the slug, and a bare image filename is
    /// resolved to its public path.
    pub fn from_disk_record(folder_name: String, record: MineralDiskRecord) -> (r: Mineral)
        ensures
            r.slug@ == folder_name@,
            r.folder_name@ == folder_name@,
            r.common_name@ == record.common_name@,
            r.description@ == record.description@,
            r.mineral_family@ == record.mineral_family@,
            r.formula@ == record.formula@,
            r.hardness_mohs == record.hardness_mohs,
            r.density_g_cm3 == record.density_g_cm3,
            r.crystal_system@ == record.crystal_system@,
            r.color@ == record.color@,
            r.streak@ == record.streak@,
            r.luster@ == record.luster@,
            r.major_elements_pct@ == record.major_elements_pct@,
            r.notes@ == record.notes@,
            match record.image_file {
                Some(f) => r.image_path matches Some(p) && p@ == image_path_spec(
                    folder_name@,
                    f@,
                ),
                None => r.image_path is None,
            },
    {
        let image_path = match record.image_file {
            Some(file) => {
                let mut p = to_string("/data/minerals/");
                p.append(folder_name.as_str());
                p.append("/");
                p.append(file.as_str());
                Some(p)
            },
            None => None,
        };
        Mineral {
            slug: folder_name.clone(),
            folder_name,
            common_name: record.common_name,
            description: record.description,
            mineral_family: record.mineral_family,
            formula: record.formula,
            hardness_mohs: record.hardness_mohs,
            density_g_cm3: record.density_g_cm3,
            crystal_system: record.crystal_system,
            color: record.color,
            streak: record.streak,
            luster: record.luster,
            major_elements_pct: record.major_elements_pct,
            notes: record.notes,
            image_path,
        }
    }

    /// A copy with the same view.
    pub fn duplicate(&self) -> (r: Mineral)
        ensures
            r@ == self@,
    {
        Mineral {
            slug: self.slug.clone(),
            folder_name: self.folder_name.clone(),
            common_name: self.common_name.clone(),
            description: self.description.clone(),
            mineral_family: self.mineral_family.clone(),
            formula: self.formula.clone(),
            hardness_mohs: self.hardness_mohs,
            density_g_cm3: self.density_g_cm3,
            crystal_system: self.crystal_system.clone(),
            color: self.color.clone(),
            streak: self.streak.clone(),
            luster: self.luster.clone(),
            major_elements_pct: self.major_elements_pct.duplicate(),
            notes: self.notes.clone(),
            image_path: match &self.image_path {
                Some(p) => Some(p.clone()),
                None => None,
            },
        }
    }
}

impl MineralDiskRecord {
    /// A copy with the same view.
    pub fn duplicate(&self) -> (r: MineralDiskRecord)
        ensures
            r@ == self@,
    {
        MineralDiskRecord {
            common_name: self.common_name.clone(),
            description: self.description.clone(),
            mineral_family: self.mineral_family.clone(),
            formula: self.formula.clone(),
            hardness_mohs: self.hardness_mohs,
            density_g_cm3: self.density_g_cm3,
            crystal_system: self.crystal_system.clone(),
            color: self.color.clone(),
            streak: self.streak.clone(),
            luster: self.luster.clone(),
            major_elements_pct: self.major_elements_pct.duplicate(),
            notes: self.notes.clone(),
            image_file: match &self.image_file {
                Some(f) => Some(f.clone()),
                None => None,
            },
        }
    }
}

/// The values an operator submits on the publish form, all still text.
pub struct MineralFormData {
    pub draft_id: Option<String>,
    pub common_name: String,
    pub description: String,
    pub suggestion_context: String,
    pub preview_image_data_url: String,
    pub mineral_family: String,
    pub formula: String,
    pub hardness_mohs: String,
    pub density_g_cm3: String,
    pub crystal_system: String,
    pub color: String,
    pub streak: String,
    pub luster: String,
    pub major_elements_pct_text: String,
    pub notes: String,
}

impl Default for MineralFormData {
    /// An empty form.
    fn default() -> (r: MineralFormData)
        ensures
            r.draft_id is None,
            r.common_name@ == Seq::<char>::empty(),
            r.description@ == Seq::<char>::empty(),
            r.suggestion_context@ == Seq::<char>::empty(),
            r.preview_image_data_url@ == Seq::<char>::empty(),
            r.mineral_family@ == Seq::<char>::empty(),
            r.formula@ == Seq::<char>::empty(),
            r.hardness_mohs@ == Seq::<char>::empty(),
            r.density_g_cm3@ == Seq::<char>::empty(),
            r.crystal_system@ == Seq::<char>::empty(),
            r.color@ == Seq::<char>::empty(),
            r.streak@ == Seq::<char>::empty(),
            r.luster@ == Seq::<char>::empty(),
            r.major_elements_pct_text@ == Seq::<char>::empty(),
            r.notes@ == Seq::<char>::empty(),
    {
        MineralFormData {
            draft_id: None,
            common_name: String::new(),
            description: String::new(),
            suggestion_context: String::new(),
            preview_image_data_url: String::new(),
            mineral_family: String::new(),
            formula: String::new(),
            hardness_mohs: String::new(),
            density_g_cm3: String::new(),
            crystal_system: String::new(),
            color: String::new(),
            streak: String::new(),
            luster: String::new(),
            major_elements_pct_text: String::new(),
            notes: String::new(),
        }
    }
}

/// The parameters of a report request.
pub struct ReportRequest {
    pub audience: String,
    pub purpose: String,
    pub site_context: String,
}

impl Default for ReportRequest {
    /// The standing defaults used when a request leaves a field out.
    fn default() -> (r: ReportRequest)
        ensures
            r.audience@ == "technical geologist"@,
            r.purpose@ == "exploration briefing"@,
            r.site_context@ == "pilot drill campaign"@,
    {
        ReportRequest {
            audience: to_string("technical geologist"),
            purpose: to_string("exploration briefing"),
            site_context: to_string("pilot drill campaign"),
        }
    }
}

impl ReportRequest {
    /// A copy with the same view.
    pub fn duplicate(&self) -> (r: ReportRequest)
        ensures
            r.audience@ == self.audience@,
            r.purpose@ == self.purpose@,
            r.site_context@ == self.site_context@,
    {
        ReportRequest {
            audience: self.audience.clone(),
            purpose: self.purpose.clone(),
            site_context: self.site_context.clone(),
        }
    }
}

pub open spec fn is_lower_alnum(c: char) -> bool {
    (97 <= c as int && c as int <= 122) || (48 <= c as int && c as int <= 57)
}

pub open spec fn is_lower_hex(c: char) -> bool {
    (48 <= c as int && c as int <= 57) || (97 <= c as int && c as int <= 102)
}

/// A family slug: dash-separated, non-empty runs of lowercase
/// alphanumerics, with no leading, trailing or doubled dash.
pub open spec fn slug_ok(s: Seq<char>) -> bool {
    &&& s.len() > 0
    &&& s[0] != '-'
    &&& s[s.len() - 1] != '-'
    &&& forall|i: int| 0 <= i < s.len() ==> is_lower_alnum(#[trigger] s[i]) || s[i] == '-'
    &&& forall|i: int| 0 <= i < s.len() - 1 ==> !(#[trigger] s[i] == '-' && s[i + 1] == '-')
}

/// The random-suffix part: `0x` followed by at least three lowercase hex
/// digits.
pub open spec fn folder_id_ok(id: Seq<char>) -> bool {
    &&& id.len() >= 5
    &&& id[0] == '0'
    &&& id[1] == 'x'
    &&& forall|i: int| 2 <= i < id.len() ==> is_lower_hex(#[trigger] id[i])
}

/// The folder-name grammar: `mineral.<family-slug>.0x<hex>`.
pub open spec fn valid_folder_name(s: Seq<char>) -> bool {
    let parts = split_on(s, '.');
    &&& parts.len() == 3
    &&& parts[0] == "mineral"@
    &&& slug_ok(parts[1])
    &&& folder_id_ok(parts[2])
}

fn is_lower_alnum_char(c: char) -> (r: bool)
    ensures
        r == is_lower_alnum(c),
{
    let v = c as u32;
    (97 <= v && v <= 122) || (48 <= v && v <= 57)
}

fn is_lower_hex_char(c: char) -> (r: bool)
    ensures
        r == is_lower_hex(c),
{
    let v = c as u32;
    (48 <= v && v <= 57) || (97 <= v && v <= 102)
}

fn check_slug(s: &Vec<char>) -> (r: bool)
    ensures
        r == slug_ok(s@),
{
    let n = s.len();
    if n == 0 {
        return false;
    }
    if s[0] == '-' || s[n - 1] == '-' {
        return false;
    }
    let mut i: usize = 0;
    while i < n
        invariant
            i <= n,
            n == s@.len(),
            forall|j: int| 0 <= j < i ==> is_lower_alnum(#[trigger] s@[j]) || s@[j] == '-',
            forall|j: int| 0 <= j < i - 1 ==> !(#[trigger] s@[j] == '-' && s@[j + 1] == '-'),
        decreases n - i,
    {
        let c = s[i];
        if !is_lower_alnum_char(c) && c != '-' {
            return false;
        }
        if i > 0 && c == '-' && s[i - 1] == '-' {
            return false;
        }
        i += 1;
    }
    true
}

fn check_folder_id(id: &Vec<char>) -> (r: bool)
    ensures
        r == folder_id_ok(id@),
{
    let n = id.len();
    if n < 5 {
        return false;
    }
    if id[0] != '0' || id[1] != 'x' {
        return false;
    }
    let mut i: usize = 2;
    while i < n
        invariant
            2 <= i <= n,
            n == id@.len(),
            forall|j: int| 2 <= j < i ==> is_lower_hex(#[trigger] id@[j]),
        decreases n - i,
    {
        if !is_lower_hex_char(id[i]) {
            return false;
        }
        i += 1;
    }
    true
}

/// Whether a directory name is a record folder the catalog scan accepts.
pub fn is_valid_mineral_folder_name(name: &str) -> (r: bool)
    ensures
        r == valid_folder_name(name@),
{
    let cs = chars_of(name);
    let parts = split_chars(&cs, '.');
    proof {
        assert(crate::strutil::line_views(parts@).len() == parts@.len());
    }
    if parts.len() != 3 {
        return false;
    }
    let prefix = chars_of("mineral");
    proof {
        assert(crate::strutil::line_views(parts@)[0] == parts@[0]@);
        assert(crate::strutil::line_views(parts@)[1] == parts@[1]@);
        assert(crate::strutil::line_views(parts@)[2] == parts@[2]@);
    }
    if !chars_eq(&parts[0], &prefix) {
        return false;
    }
    if !check_slug(&parts[1]) {
        return false;
    }
    check_folder_id(&parts[2])
}

/// Which metadata file the resolver picked inside a record folder.
#[derive(Debug, Clone, Copy, PartialEq, Eq, Structural)]
pub enum MetadataFile {
    /// `mineral.<requested-language>.json`
    Localized,
    /// `mineral.en.json`, the base language's file
    Base,
    /// `mineral.json`, the legacy canonical file
    Legacy,
}

/// The resolver's fallback chain over the three existence tests: the
/// requested language's file first; then, when the requested language is
/// not the base language, the base file; then the legacy file; else none,
/// and the folder is skipped.
pub fn select_metadata_path(
    lang_code: &str,
    has_localized: bool,
    has_base: bool,
    has_legacy: bool,
) -> (r: Option<MetadataFile>)
    ensures
        has_localized ==> r == Some(MetadataFile::Localized),
        !has_localized && lang_code@ != "en"@ && has_base ==> r == Some(MetadataFile::Base),
        !has_localized && (lang_code@ == "en"@ || !has_base) && has_legacy ==> r == Some(
            MetadataFile::Legacy,
        ),
        !has_localized && (lang_code@ == "en"@ || !has_base) && !has_legacy ==> r is None,
{
    if has_localized {
        return Some(MetadataFile::Localized);
    }
    if !str_eq(lang_code, "en") && has_base {
        return Some(MetadataFile::Base);
    }
    if has_legacy {
        return Some(MetadataFile::Legacy);
    }
    None
}

/// File name of a language's metadata file: `mineral.<code>.json`.
pub fn metadata_file_name(lang_code: &str) -> (r: String)
    ensures
        r@ == "mineral."@ + lang_code@ + ".json"@,
{
    let mut s = to_string("mineral.");
    s.append(lang_code);
    s.append(".json");
    s
}

/// File name of the canonical legacy metadata file.
pub fn legacy_metadata_file_name() -> (r: String)
    ensures
        r@ == "mineral.json"@,
{
    to_string("mineral.json")
}

} // verus!
