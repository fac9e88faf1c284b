use minerals::catalog::{CatalogCache, MineralCatalog};
use minerals::elements::ElementMap;
use minerals::i18n::Language;
use minerals::models::{
    is_valid_mineral_folder_name, legacy_metadata_file_name, metadata_file_name,
    select_metadata_path, MetadataFile, Mineral, MineralDiskRecord,
};

fn mineral(slug: &str, name: &str) -> Mineral {
    Mineral {
        slug: slug.to_string(),
        folder_name: slug.to_string(),
        common_name: name.to_string(),
        description: "d".to_string(),
        mineral_family: "silicate".to_string(),
        formula: "SiO2".to_string(),
        hardness_mohs: 700,
        density_g_cm3: 265,
        crystal_system: "trigonal".to_string(),
        color: "colorless".to_string(),
        streak: "white".to_string(),
        luster: "vitreous".to_string(),
        major_elements_pct: ElementMap::new(),
        notes: "n".to_string(),
        image_path: None,
    }
}

#[test]
fn resolver_prefers_the_requested_language() {
    // both the localized and the legacy file exist: the localized one wins
    assert_eq!(
        select_metadata_path("es", true, true, true),
        Some(MetadataFile::Localized)
    );
    assert_eq!(
        select_metadata_path("es", true, false, false),
        Some(MetadataFile::Localized)
    );
}

#[test]
fn resolver_falls_back_to_base_before_legacy() {
    // no localized file, but the base-language file exists
    assert_eq!(select_metadata_path("es", false, true, true), Some(MetadataFile::Base));
    assert_eq!(select_metadata_path("es", false, true, false), Some(MetadataFile::Base));
    // only when the base file is missing too does legacy serve
    assert_eq!(select_metadata_path("es", false, false, true), Some(MetadataFile::Legacy));
    // for the base language itself there is no separate base step
    assert_eq!(select_metadata_path("en", false, true, true), Some(MetadataFile::Legacy));
    assert_eq!(select_metadata_path("es", false, false, false), None);
}

#[test]
fn metadata_file_names() {
    assert_eq!(metadata_file_name("es"), "mineral.es.json");
    assert_eq!(legacy_metadata_file_name(), "mineral.json");
}

#[test]
fn catalog_sorts_by_display_name() {
    let minerals = vec![
        mineral("mineral.a.0xaaa", "Quartz"),
        mineral("mineral.b.0xbbb", "Apatite"),
        mineral("mineral.c.0xccc", "Mica"),
    ];
    let catalog = MineralCatalog::new(minerals);
    assert_eq!(catalog.len(), 3);
    assert_eq!(catalog.at(0).common_name, "Apatite");
    assert_eq!(catalog.at(1).common_name, "Mica");
    assert_eq!(catalog.at(2).common_name, "Quartz");
}

#[test]
fn catalog_lookup_by_slug() {
    let catalog = MineralCatalog::new(vec![
        mineral("mineral.a.0xaaa", "Quartz"),
        mineral("mineral.b.0xbbb", "Apatite"),
    ]);
    let found = catalog.get("mineral.a.0xaaa").unwrap();
    assert_eq!(found.common_name, "Quartz");
    assert!(catalog.get("mineral.z.0xzzz").is_none());
}

#[test]
fn cache_reads_are_idempotent_without_invalidation() {
    let mut cache = CatalogCache::new();
    assert!(cache.lookup(Language::Es).is_none());
    let first = cache.get_or_insert(Language::Es, MineralCatalog::new(vec![
        mineral("mineral.a.0xaaa", "Quartz"),
    ]));
    assert_eq!(first.len(), 1);
    // a second read for the same language sees exactly the first insert,
    // even if its own redundant scan found something else
    let second = cache.get_or_insert(Language::Es, MineralCatalog::new(vec![
        mineral("mineral.b.0xbbb", "Apatite"),
        mineral("mineral.c.0xccc", "Mica"),
    ]));
    assert_eq!(second.len(), 1);
    assert_eq!(second.at(0).slug, "mineral.a.0xaaa");
    let cached = cache.lookup(Language::Es).unwrap();
    assert_eq!(cached.len(), 1);
    assert_eq!(cached.at(0).common_name, "Quartz");
    // other languages are unaffected
    assert!(cache.lookup(Language::De).is_none());
}

#[test]
fn publish_is_visible_only_after_invalidation() {
    let mut cache = CatalogCache::new();
    cache.get_or_insert(Language::En, MineralCatalog::new(vec![
        mineral("mineral.old.0xaaa", "Old"),
    ]));
    let new_slug = "mineral.new.0xbbb";
    // before invalidation the cached catalog does not include the new record
    let stale = cache.lookup(Language::En).unwrap();
    assert!(stale.get(new_slug).is_none());
    // a publish invalidates the whole cache ...
    cache.invalidate();
    assert!(cache.lookup(Language::En).is_none());
    assert!(cache.lookup(Language::Ja).is_none());
    // ... and the next read, fed by a fresh scan, includes the new record
    let fresh = cache.get_or_insert(Language::En, MineralCatalog::new(vec![
        mineral("mineral.old.0xaaa", "Old"),
        mineral(new_slug, "New"),
    ]));
    assert!(fresh.get(new_slug).is_some());
}

#[test]
fn from_disk_record_resolves_the_image_path() {
    let record = MineralDiskRecord {
        common_name: "Quartz".to_string(),
        description: "d".to_string(),
        mineral_family: "silicate".to_string(),
        formula: "SiO2".to_string(),
        hardness_mohs: 700,
        density_g_cm3: 265,
        crystal_system: "trigonal".to_string(),
        color: "colorless".to_string(),
        streak: "white".to_string(),
        luster: "vitreous".to_string(),
        major_elements_pct: ElementMap::new(),
        notes: "n".to_string(),
        image_file: Some("image.png".to_string()),
    };
    let m = Mineral::from_disk_record("mineral.silicate.0xabc".to_string(), record);
    assert_eq!(m.slug, "mineral.silicate.0xabc");
    assert_eq!(
        m.image_path,
        Some("/data/minerals/mineral.silicate.0xabc/image.png".to_string())
    );
    assert!(is_valid_mineral_folder_name(&m.folder_name));
}
