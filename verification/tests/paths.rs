use tikclip::paths::{
    config_path, custom_root_from_config, default_root_paths, infer_storage_root_from_db_path,
    is_raw_media_file, resolve_storage_root,
};

#[test]
fn storage_root_is_inferred_from_database_path() {
    assert_eq!(
        infer_storage_root_from_db_path("/home/u/.tikclip/data/app.db").as_deref(),
        Some("/home/u/.tikclip")
    );
    assert_eq!(
        infer_storage_root_from_db_path("/srv/other.db").as_deref(),
        Some("/srv")
    );
    assert_eq!(infer_storage_root_from_db_path("app.db").as_deref(), Some(""));
}

#[test]
fn config_override_must_be_absolute() {
    assert_eq!(config_path("/cfg"), "/cfg/storage_root.json");
    assert_eq!(custom_root_from_config(Some("  /data/x ")).as_deref(), Some("/data/x"));
    assert_eq!(custom_root_from_config(Some("relative")), None);
    assert_eq!(custom_root_from_config(None), None);
}

#[test]
fn default_roots_and_migration() {
    let p = default_root_paths("/home/u", "/home/u/.local/share");
    assert_eq!(p.new_root, "/home/u/.tikclip");
    assert_eq!(p.new_db, "/home/u/.tikclip/data/app.db");
    assert_eq!(p.legacy_root, "/home/u/.local/share/TikTokApp");

    let migrate = resolve_storage_root(None, "/home/u", "/app", false, true);
    assert_eq!(migrate.root, "/home/u/.tikclip");
    assert_eq!(migrate.migrate_from.as_deref(), Some("/app/TikTokApp"));
    let fresh = resolve_storage_root(None, "/home/u", "/app", true, true);
    assert_eq!(fresh.migrate_from, None);
    let custom = resolve_storage_root(Some("/mnt/d"), "/home/u", "/app", false, true);
    assert_eq!(custom.root, "/mnt/d");
    assert_eq!(custom.migrate_from, None);
}

#[test]
fn raw_media_extensions() {
    assert!(is_raw_media_file("/a/b.MKV"));
    assert!(!is_raw_media_file("/a/b.json"));
    assert!(!is_raw_media_file("/a/mp4"));
}
