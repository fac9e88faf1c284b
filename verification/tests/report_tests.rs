use minerals::elements::parse_major_elements;
use minerals::i18n::Language;
use minerals::models::{Mineral, ReportRequest};
use minerals::report::{
    density_band_of, dominant_element, element_breakdown_of, hardness_band_of, image_file_name,
    latex_escape, localized_density_band, localized_hardness_band, localized_unknown,
    report_artifact_paths, DensityBand, HardnessBand, PdfGenerator,
};

#[test]
fn escapes_special_characters() {
    let raw = r"50% Fe_2O_3 & quartz";
    let escaped = latex_escape(raw);
    assert_eq!(escaped, r"50\% Fe\_2O\_3 \& quartz");
}

#[test]
fn escapes_braces_tildes_and_circumflexes() {
    assert_eq!(latex_escape("a{b}c"), r"a\{b\}c");
    assert_eq!(latex_escape("x~y"), r"x\textasciitilde{}y");
    assert_eq!(latex_escape("x^y"), r"x\textasciicircum{}y");
    assert_eq!(latex_escape("plain text"), "plain text");
}

fn test_mineral() -> Mineral {
    Mineral {
        slug: "mineral.silicate.0xaaaaaa".to_string(),
        folder_name: "mineral.silicate.0xaaaaaa".to_string(),
        common_name: "Test Mineral".to_string(),
        description: "Test description".to_string(),
        mineral_family: "silicate".to_string(),
        formula: "SiO2".to_string(),
        hardness_mohs: 700,
        density_g_cm3: 265,
        crystal_system: "trigonal".to_string(),
        color: "colorless".to_string(),
        streak: "white".to_string(),
        luster: "vitreous".to_string(),
        major_elements_pct: parse_major_elements("Si=46.7\nO=53.3").unwrap(),
        notes: "n/a".to_string(),
        image_path: None,
    }
}

#[test]
fn breakdown_sorts_elements_and_sets_dominant() {
    let mineral = test_mineral();
    let breakdown = element_breakdown_of(&mineral);
    assert_eq!(breakdown.len(), 2);
    assert_eq!(breakdown[0].name, "O");
    assert_eq!(breakdown[0].percent, 5330);
    assert_eq!(breakdown[1].name, "Si");
    let (dominant, pct) = dominant_element(&breakdown, Language::En);
    assert_eq!(dominant, "O");
    assert_eq!(pct, 5330);
    assert_eq!(hardness_band_of(mineral.hardness_mohs), HardnessBand::Hard);
    assert_eq!(localized_hardness_band(Language::En, HardnessBand::Hard), "hard");
}

#[test]
fn empty_composition_gives_the_localized_unknown() {
    let empty: Vec<minerals::report::ElementShare> = Vec::new();
    let (dominant, pct) = dominant_element(&empty, Language::Es);
    assert_eq!(dominant, "Desconocido");
    assert_eq!(pct, 0);
    assert_eq!(localized_unknown(Language::En), "Unknown");
}

#[test]
fn band_boundaries() {
    assert_eq!(hardness_band_of(299), HardnessBand::Soft);
    assert_eq!(hardness_band_of(300), HardnessBand::Medium);
    assert_eq!(hardness_band_of(599), HardnessBand::Medium);
    assert_eq!(hardness_band_of(600), HardnessBand::Hard);
    assert_eq!(hardness_band_of(749), HardnessBand::Hard);
    assert_eq!(hardness_band_of(750), HardnessBand::VeryHard);
    assert_eq!(density_band_of(259), DensityBand::Light);
    assert_eq!(density_band_of(260), DensityBand::Moderate);
    assert_eq!(density_band_of(319), DensityBand::Moderate);
    assert_eq!(density_band_of(320), DensityBand::Dense);
    assert_eq!(localized_density_band(Language::De, DensityBand::Dense), "dicht");
}

#[test]
fn image_file_names_come_from_the_last_segment() {
    assert_eq!(
        image_file_name(&Some("/data/minerals/m/image.png".to_string())),
        Some("image.png".to_string())
    );
    assert_eq!(image_file_name(&Some("bare.png".to_string())), Some("bare.png".to_string()));
    assert_eq!(image_file_name(&Some("ends/with/slash/".to_string())), None);
    assert_eq!(image_file_name(&None), None);
}

#[test]
fn artifact_paths_live_in_the_record_folder() {
    let artifacts = report_artifact_paths("mineral.silicate.0xabc");
    assert_eq!(artifacts.pdf_path, "/data/minerals/mineral.silicate.0xabc/report.pdf");
    assert_eq!(artifacts.html_path, "/data/minerals/mineral.silicate.0xabc/report.html");
    let generator = PdfGenerator::new("data/minerals".to_string());
    assert_eq!(generator.minerals_root, "data/minerals");
}

#[test]
fn report_request_defaults() {
    let request = ReportRequest::default();
    assert_eq!(request.audience, "technical geologist");
    assert_eq!(request.purpose, "exploration briefing");
    assert_eq!(request.site_context, "pilot drill campaign");
}
