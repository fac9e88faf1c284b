use minerals::drafts::AdminDraft;
use minerals::i18n::Language;
use minerals::publish::{
    build_localized_records, bytes_to_hex, compose_folder_name, content_type_from_ext,
    create_unique_folder_name, detect_image_extension, image_file_name_for, non_base_languages,
    parse_number_field, parse_publish_request, required_string, slugify_family,
    translated_or_source, PublishError, PublishMineralRequest, TranslatedFields,
};
use minerals::models::{is_valid_mineral_folder_name, MineralDiskRecord};
use minerals::elements::{parse_major_elements, major_elements_to_text};

fn base_record() -> MineralDiskRecord {
    MineralDiskRecord {
        common_name: "Quartz".to_string(),
        description: "A hard silicate.".to_string(),
        mineral_family: "silicate".to_string(),
        formula: "SiO2".to_string(),
        hardness_mohs: 700,
        density_g_cm3: 265,
        crystal_system: "trigonal".to_string(),
        color: "colorless".to_string(),
        streak: "white".to_string(),
        luster: "vitreous".to_string(),
        major_elements_pct: parse_major_elements("Si=46.70\nO=53.30").unwrap(),
        notes: "n/a".to_string(),
        image_file: Some("image.png".to_string()),
    }
}

fn translated(suffix: &str) -> TranslatedFields {
    TranslatedFields {
        common_name: format!("name-{suffix}"),
        description: format!("desc-{suffix}"),
        mineral_family: format!("family-{suffix}"),
        formula: "SiO2".to_string(),
        crystal_system: format!("system-{suffix}"),
        color: format!("color-{suffix}"),
        streak: format!("streak-{suffix}"),
        luster: format!("luster-{suffix}"),
        notes: format!("notes-{suffix}"),
    }
}

#[test]
fn slugify_examples() {
    assert_eq!(slugify_family("Iron Oxide!!"), "iron-oxide");
    assert_eq!(slugify_family(""), "unknown");
    assert_eq!(slugify_family("!!!"), "unknown");
    assert_eq!(slugify_family("Fe2O3"), "fe2o3");
    assert_eq!(slugify_family("  Native   Copper  "), "native-copper");
}

#[test]
fn folder_names_compose_and_validate() {
    let name = compose_folder_name("iron-oxide", "a1b2c3d4");
    assert_eq!(name, "mineral.iron-oxide.0xa1b2c3d4");
    assert!(is_valid_mineral_folder_name(&name));
    assert!(is_valid_mineral_folder_name("mineral.silicate.0xaaaaaa"));
    assert!(!is_valid_mineral_folder_name("mineral.silicate"));
    assert!(!is_valid_mineral_folder_name("mineral..0xabc"));
    assert!(!is_valid_mineral_folder_name("mineral.sil.0xABC"));
    assert!(!is_valid_mineral_folder_name("mineral.sil.0xab"));
    assert!(!is_valid_mineral_folder_name("rock.sil.0xabc"));
    assert!(!is_valid_mineral_folder_name("mineral.-sil.0xabc"));
    assert!(!is_valid_mineral_folder_name("mineral.si--l.0xabc"));
}

#[test]
fn allocation_never_returns_an_existing_folder() {
    let existing = vec![
        "mineral.silicate.0xaaaa".to_string(),
        "mineral.silicate.0xbbbb".to_string(),
    ];
    let suffixes = vec!["aaaa".to_string(), "bbbb".to_string(), "cccc".to_string()];
    let name = create_unique_folder_name(&existing, "silicate", &suffixes).unwrap();
    assert_eq!(name, "mineral.silicate.0xcccc");
    assert!(!existing.contains(&name));
    assert!(is_valid_mineral_folder_name(&name));
}

#[test]
fn allocation_fails_when_every_candidate_collides() {
    let existing = vec!["mineral.silicate.0xaaaa".to_string()];
    let suffixes = vec!["aaaa".to_string()];
    let err = create_unique_folder_name(&existing, "silicate", &suffixes).unwrap_err();
    match err {
        PublishError::Internal(m) => assert_eq!(m, "failed to allocate unique mineral id"),
        PublishError::BadRequest(_) => panic!("expected an internal error"),
    }
}

#[test]
fn hex_rendering_is_lowercase_two_digits_per_byte() {
    assert_eq!(bytes_to_hex(&vec![0x00u8, 0xff, 0x1a, 0x0b]), "00ff1a0b");
    assert_eq!(bytes_to_hex(&vec![]), "");
}

#[test]
fn required_string_trims_and_rejects_empty() {
    assert_eq!(required_string("  hi  ", "k").unwrap(), "hi");
    let err = required_string(" \t ", "common_name").unwrap_err();
    match err {
        PublishError::BadRequest(m) => assert_eq!(m, "'common_name' is required"),
        PublishError::Internal(_) => panic!("expected a bad request"),
    }
}

#[test]
fn number_field_parses_hundredths_or_names_the_field() {
    assert_eq!(parse_number_field("7.0", "hardness_mohs").unwrap(), 700);
    assert_eq!(parse_number_field(" 2.65 ", "density_g_cm3").unwrap(), 265);
    let err = parse_number_field("hard", "hardness_mohs").unwrap_err();
    match err {
        PublishError::BadRequest(m) => assert_eq!(m, "'hardness_mohs' must be a number"),
        PublishError::Internal(_) => panic!("expected a bad request"),
    }
}

fn full_request() -> PublishMineralRequest {
    PublishMineralRequest {
        draft_id: "abc".to_string(),
        common_name: " Quartz ".to_string(),
        description: "A hard silicate.".to_string(),
        mineral_family: "silicate".to_string(),
        formula: "SiO2".to_string(),
        hardness_mohs: "7.0".to_string(),
        density_g_cm3: "2.65".to_string(),
        crystal_system: "trigonal".to_string(),
        color: "colorless".to_string(),
        streak: "white".to_string(),
        luster: "vitreous".to_string(),
        major_elements_pct_text: "Si=46.70\nO=53.30".to_string(),
        notes: "n/a".to_string(),
    }
}

#[test]
fn publish_request_validates_and_parses() {
    let image = AdminDraft { image_bytes: vec![1, 2, 3], image_ext: "png".to_string() };
    let draft = parse_publish_request(&full_request(), image).unwrap();
    assert_eq!(draft.common_name, "Quartz");
    assert_eq!(draft.hardness_mohs, 700);
    assert_eq!(draft.density_g_cm3, 265);
    assert_eq!(draft.major_elements_pct.get("O"), Some(5330));
    assert_eq!(draft.image_bytes, vec![1, 2, 3]);
    assert_eq!(draft.image_ext, "png");
}

#[test]
fn publish_request_rejects_missing_field() {
    let mut request = full_request();
    request.color = "   ".to_string();
    let image = AdminDraft { image_bytes: vec![1], image_ext: "png".to_string() };
    let err = parse_publish_request(&request, image).unwrap_err();
    match err {
        PublishError::BadRequest(m) => assert_eq!(m, "'color' is required"),
        PublishError::Internal(_) => panic!("expected a bad request"),
    }
}

#[test]
fn publish_request_rejects_bad_elements() {
    let mut request = full_request();
    request.major_elements_pct_text = "Si=oops".to_string();
    let image = AdminDraft { image_bytes: vec![1], image_ext: "png".to_string() };
    let err = parse_publish_request(&request, image).unwrap_err();
    match err {
        PublishError::BadRequest(m) => assert_eq!(m, "invalid percentage for 'Si'"),
        PublishError::Internal(_) => panic!("expected a bad request"),
    }
}

#[test]
fn detect_extension_prefers_the_file_name() {
    assert_eq!(detect_image_extension(Some("photo.JPEG"), None).unwrap(), "jpg");
    assert_eq!(detect_image_extension(Some("a.b.PNG"), None).unwrap(), "png");
    assert_eq!(
        detect_image_extension(Some("photo.bmp"), Some("image/webp")).unwrap(),
        "webp"
    );
    assert_eq!(detect_image_extension(None, Some("image/gif")).unwrap(), "gif");
    let err = detect_image_extension(Some("photo.bmp"), Some("text/plain")).unwrap_err();
    match err {
        PublishError::BadRequest(m) => {
            assert_eq!(m, "unsupported image type; use png, jpg, webp, or gif")
        },
        PublishError::Internal(_) => panic!("expected a bad request"),
    }
    assert!(detect_image_extension(None, None).is_err());
}

#[test]
fn content_types_match_extensions() {
    assert_eq!(content_type_from_ext("png"), "image/png");
    assert_eq!(content_type_from_ext("webp"), "image/webp");
    assert_eq!(content_type_from_ext("gif"), "image/gif");
    assert_eq!(content_type_from_ext("jpg"), "image/jpeg");
    assert_eq!(content_type_from_ext("anything"), "image/jpeg");
    assert_eq!(image_file_name_for("jpg"), "image.jpg");
}

#[test]
fn translated_or_source_keeps_source_on_blank() {
    assert_eq!(translated_or_source("  ".to_string(), "source"), "source");
    assert_eq!(translated_or_source(" Quarz ".to_string(), "source"), "Quarz");
}

#[test]
fn three_failures_of_nine_yield_six_translations() {
    let base = base_record();
    let langs = non_base_languages();
    assert_eq!(langs.len(), 9);
    let mut outcomes: Vec<(Language, Option<TranslatedFields>)> = Vec::new();
    let mut failed_codes: Vec<&'static str> = Vec::new();
    for (i, lang) in langs.iter().enumerate() {
        // let translation fail for three of the nine target languages
        if i % 3 == 0 {
            failed_codes.push(lang.code());
            outcomes.push((*lang, None));
        } else {
            outcomes.push((*lang, Some(translated(lang.code()))));
        }
    }
    let (records, stats) = build_localized_records(&base, &outcomes);
    assert_eq!(stats.translated_count, 6);
    assert_eq!(stats.fallback_lang_codes, failed_codes);
    // one record per language plus the base language's record
    assert_eq!(records.len(), 10);
    assert_eq!(records[0].0, "en");
    assert_eq!(records[0].1.common_name, base.common_name);
    for (i, lang) in langs.iter().enumerate() {
        let (code, record) = &records[i + 1];
        assert_eq!(code, lang.code());
        if i % 3 == 0 {
            // fallback: the base-language values verbatim
            assert_eq!(record.common_name, base.common_name);
            assert_eq!(record.description, base.description);
            assert_eq!(record.notes, base.notes);
        } else {
            assert_eq!(record.common_name, format!("name-{}", lang.code()));
        }
        // numeric fields and composition are copied unchanged either way
        assert_eq!(record.hardness_mohs, base.hardness_mohs);
        assert_eq!(record.density_g_cm3, base.density_g_cm3);
        assert_eq!(
            major_elements_to_text(&record.major_elements_pct),
            major_elements_to_text(&base.major_elements_pct)
        );
    }
}

#[test]
fn blank_translated_field_falls_back_per_field() {
    let base = base_record();
    let mut t = translated("es");
    t.description = "   ".to_string();
    let outcomes = vec![(Language::Es, Some(t))];
    let (records, stats) = build_localized_records(&base, &outcomes);
    assert_eq!(stats.translated_count, 1);
    assert!(stats.fallback_lang_codes.is_empty());
    assert_eq!(records[1].1.common_name, "name-es");
    assert_eq!(records[1].1.description, base.description);
}
