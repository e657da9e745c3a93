use imgrepo::{
    AppConfig, ContentStore, DownloadParams, FsOutcomes, ImageMeta, RepoError, UploadField,
    delete_image, download_image, is_hash_like, upload_image,
};

fn test_config() -> AppConfig {
    AppConfig {
        data_dir: String::from("data"),
        max_size_mb: 20,
        tokens: vec![String::from("admin-token")],
        blacklist: vec![String::from("10.0.0.66")],
        images: Vec::new(),
        thumbnail_pixels: Some(50000),
    }
}

fn all_ok() -> FsOutcomes {
    FsOutcomes { write_ok: true, rename_ok: true, thumb_ok: true, persist_ok: true }
}

fn upload_fields(name: &str, bytes: &[u8]) -> Vec<UploadField> {
    vec![
        UploadField::Text { field: String::from("name"), value: String::from(name) },
        UploadField::Text { field: String::from("desc"), value: String::from("a test image") },
        UploadField::File { data: bytes.to_vec() },
    ]
}

fn do_upload(
    cfg: &mut AppConfig,
    store: &mut ContentStore,
    name: &str,
    bytes: &[u8],
    fs: FsOutcomes,
) -> Result<ImageMeta, RepoError> {
    let ip = String::from("192.168.1.5");
    let token = String::from("admin-token");
    upload_image(cfg, store, &ip, Some(&token), &upload_fields(name, bytes), fs)
}

fn count_of(v: &Vec<String>, x: &str) -> usize {
    v.iter().filter(|s| s.as_str() == x).count()
}

#[test]
fn upload_identical_bytes_dedups() {
    let mut cfg = test_config();
    let mut store = ContentStore::new();
    let bytes = b"the very same image bytes";
    let m1 = do_upload(&mut cfg, &mut store, "a.png", bytes, all_ok()).unwrap();
    let m2 = do_upload(&mut cfg, &mut store, "b.png", bytes, all_ok()).unwrap();
    assert_eq!(m1.hash, m2.hash);
    assert_eq!(cfg.images.len(), 2);
    assert_eq!(count_of(&store.originals, m1.hash.as_str()), 1);
    assert_eq!(store.staging.len(), 0);
}

#[test]
fn upload_returns_hash_shaped_identifier() {
    let mut cfg = test_config();
    let mut store = ContentStore::new();
    let m = do_upload(&mut cfg, &mut store, "a.png", b"some bytes", all_ok()).unwrap();
    assert_eq!(m.hash.len(), 64);
    assert!(m.hash.chars().all(|c| c.is_ascii_hexdigit() && !c.is_ascii_uppercase()));
    assert!(is_hash_like(&m.hash));
    assert_eq!(m.name, "a.png");
    assert_eq!(m.desc, "a test image");
}

#[test]
fn upload_without_file_part_is_bad_request() {
    let mut cfg = test_config();
    let mut store = ContentStore::new();
    let ip = String::from("192.168.1.5");
    let token = String::from("admin-token");
    let fields = vec![UploadField::Text {
        field: String::from("name"),
        value: String::from("a.png"),
    }];
    let r = upload_image(&mut cfg, &mut store, &ip, Some(&token), &fields, all_ok());
    assert_eq!(r.unwrap_err(), RepoError::BadRequest);
    assert_eq!(cfg.images.len(), 0);
    assert_eq!(store.staging.len(), 0);
    assert_eq!(store.originals.len(), 0);
}

#[test]
fn upload_without_name_is_bad_request() {
    let mut cfg = test_config();
    let mut store = ContentStore::new();
    let ip = String::from("192.168.1.5");
    let token = String::from("admin-token");
    let fields = vec![UploadField::File { data: b"payload".to_vec() }];
    let r = upload_image(&mut cfg, &mut store, &ip, Some(&token), &fields, all_ok());
    assert_eq!(r.unwrap_err(), RepoError::BadRequest);
    assert_eq!(store.staging.len(), 0);
}

#[test]
fn upload_from_blacklisted_address_is_forbidden() {
    let mut cfg = test_config();
    let mut store = ContentStore::new();
    let ip = String::from("10.0.0.66");
    let token = String::from("admin-token");
    let fields = upload_fields("a.png", b"payload");
    let r = upload_image(&mut cfg, &mut store, &ip, Some(&token), &fields, all_ok());
    assert_eq!(r.unwrap_err(), RepoError::Forbidden);
    assert_eq!(cfg.images.len(), 0);
}

#[test]
fn upload_with_bad_or_missing_token_is_unauthorized() {
    let mut cfg = test_config();
    let mut store = ContentStore::new();
    let ip = String::from("192.168.1.5");
    let wrong = String::from("not-the-token");
    let fields = upload_fields("a.png", b"payload");
    let r = upload_image(&mut cfg, &mut store, &ip, Some(&wrong), &fields, all_ok());
    assert_eq!(r.unwrap_err(), RepoError::Unauthorized);
    let r = upload_image(&mut cfg, &mut store, &ip, None, &fields, all_ok());
    assert_eq!(r.unwrap_err(), RepoError::Unauthorized);
}

#[test]
fn staging_is_clean_after_write_failure() {
    let mut cfg = test_config();
    let mut store = ContentStore::new();
    let fs = FsOutcomes { write_ok: false, rename_ok: true, thumb_ok: true, persist_ok: true };
    let r = do_upload(&mut cfg, &mut store, "a.png", b"payload", fs);
    assert_eq!(r.unwrap_err(), RepoError::InternalError);
    assert_eq!(store.staging.len(), 0);
    assert_eq!(store.originals.len(), 0);
    assert_eq!(cfg.images.len(), 0);
}

#[test]
fn staging_is_clean_after_rename_failure() {
    let mut cfg = test_config();
    let mut store = ContentStore::new();
    let fs = FsOutcomes { write_ok: true, rename_ok: false, thumb_ok: true, persist_ok: true };
    let r = do_upload(&mut cfg, &mut store, "a.png", b"payload", fs);
    assert_eq!(r.unwrap_err(), RepoError::InternalError);
    assert_eq!(store.staging.len(), 0);
    assert_eq!(store.originals.len(), 0);
    assert_eq!(cfg.images.len(), 0);
}

#[test]
fn persist_failure_reports_error_but_keeps_commit() {
    let mut cfg = test_config();
    let mut store = ContentStore::new();
    let fs = FsOutcomes { write_ok: true, rename_ok: true, thumb_ok: true, persist_ok: false };
    let r = do_upload(&mut cfg, &mut store, "a.png", b"payload", fs);
    assert_eq!(r.unwrap_err(), RepoError::InternalError);
    assert_eq!(cfg.images.len(), 1);
    assert_eq!(store.originals.len(), 1);
    assert_eq!(store.staging.len(), 0);
}

#[test]
fn thumbnail_failure_does_not_fail_upload() {
    let mut cfg = test_config();
    let mut store = ContentStore::new();
    let fs = FsOutcomes { write_ok: true, rename_ok: true, thumb_ok: false, persist_ok: true };
    let m = do_upload(&mut cfg, &mut store, "a.png", b"payload", fs).unwrap();
    assert!(store.has_original(&m.hash));
    assert!(!store.has_thumb(&m.hash));
}

#[test]
fn no_thumbnail_without_pixel_budget() {
    let mut cfg = test_config();
    cfg.thumbnail_pixels = None;
    let mut store = ContentStore::new();
    let m = do_upload(&mut cfg, &mut store, "a.png", b"payload", all_ok()).unwrap();
    assert!(store.has_original(&m.hash));
    assert!(!store.has_thumb(&m.hash));
}

#[test]
fn every_record_has_a_stored_original() {
    let mut cfg = test_config();
    let mut store = ContentStore::new();
    do_upload(&mut cfg, &mut store, "a.png", b"one", all_ok()).unwrap();
    do_upload(&mut cfg, &mut store, "b.png", b"two", all_ok()).unwrap();
    do_upload(&mut cfg, &mut store, "c.png", b"one", all_ok()).unwrap();
    for rec in &cfg.images {
        assert!(store.has_original(&rec.hash));
    }
}

#[test]
fn download_by_hash_identifier_without_name_match() {
    let mut cfg = test_config();
    let mut store = ContentStore::new();
    let m = do_upload(&mut cfg, &mut store, "a.png", b"payload", all_ok()).unwrap();
    let ip = String::from("192.168.1.5");
    let params = DownloadParams { thumb: None };
    let plan = download_image(&cfg, &store, &ip, &m.hash, &params).unwrap();
    assert_eq!(plan.hash, m.hash);
    assert!(!plan.thumb);
    assert_eq!(plan.path, format!("data/images/{}", m.hash));
}

#[test]
fn download_prefers_name_match_over_hash() {
    let mut cfg = test_config();
    let mut store = ContentStore::new();
    let m = do_upload(&mut cfg, &mut store, "a.png", b"payload", all_ok()).unwrap();
    let ip = String::from("192.168.1.5");
    let params = DownloadParams { thumb: Some(true) };
    let id = String::from("a.png");
    let plan = download_image(&cfg, &store, &ip, &id, &params).unwrap();
    assert_eq!(plan.hash, m.hash);
    assert!(plan.thumb);
    assert_eq!(plan.path, format!("data/thumbs/{}", m.hash));
}

#[test]
fn download_of_unknown_identifier_is_not_found() {
    let cfg = test_config();
    let store = ContentStore::new();
    let ip = String::from("192.168.1.5");
    let params = DownloadParams { thumb: None };
    let id = String::from("nothing-here");
    let r = download_image(&cfg, &store, &ip, &id, &params);
    assert_eq!(r.unwrap_err(), RepoError::NotFound);
}

#[test]
fn download_of_missing_thumbnail_has_no_fallback() {
    let mut cfg = test_config();
    let mut store = ContentStore::new();
    let fs = FsOutcomes { write_ok: true, rename_ok: true, thumb_ok: false, persist_ok: true };
    let m = do_upload(&mut cfg, &mut store, "a.png", b"payload", fs).unwrap();
    let ip = String::from("192.168.1.5");
    let params = DownloadParams { thumb: Some(true) };
    let id = String::from("a.png");
    let r = download_image(&cfg, &store, &ip, &id, &params);
    assert_eq!(r.unwrap_err(), RepoError::NotFound);
    assert!(store.has_original(&m.hash));
}

#[test]
fn delete_keeps_shared_file_until_last_reference_goes() {
    let mut cfg = test_config();
    let mut store = ContentStore::new();
    let bytes = b"shared content";
    let m1 = do_upload(&mut cfg, &mut store, "a.png", bytes, all_ok()).unwrap();
    let m2 = do_upload(&mut cfg, &mut store, "b.png", bytes, all_ok()).unwrap();
    assert_eq!(m1.hash, m2.hash);
    let ip = String::from("192.168.1.5");
    let token = String::from("admin-token");
    let name_a = String::from("a.png");
    delete_image(&mut cfg, &mut store, &ip, Some(&token), &name_a, true).unwrap();
    assert!(store.has_original(&m1.hash));
    assert!(store.has_thumb(&m1.hash));
    let name_b = String::from("b.png");
    delete_image(&mut cfg, &mut store, &ip, Some(&token), &name_b, true).unwrap();
    assert!(!store.has_original(&m1.hash));
    assert!(!store.has_thumb(&m1.hash));
}

#[test]
fn delete_last_reference_removes_files_and_second_delete_is_not_found() {
    let mut cfg = test_config();
    let mut store = ContentStore::new();
    let m = do_upload(&mut cfg, &mut store, "only.png", b"lonely bytes", all_ok()).unwrap();
    let ip = String::from("192.168.1.5");
    let token = String::from("admin-token");
    let name = String::from("only.png");
    delete_image(&mut cfg, &mut store, &ip, Some(&token), &name, true).unwrap();
    assert!(!store.has_original(&m.hash));
    assert!(!store.has_thumb(&m.hash));
    assert_eq!(cfg.images.len(), 0);
    let r = delete_image(&mut cfg, &mut store, &ip, Some(&token), &name, true);
    assert_eq!(r.unwrap_err(), RepoError::NotFound);
}

#[test]
fn delete_requires_authorization() {
    let mut cfg = test_config();
    let mut store = ContentStore::new();
    do_upload(&mut cfg, &mut store, "a.png", b"payload", all_ok()).unwrap();
    let name = String::from("a.png");
    let bad_ip = String::from("10.0.0.66");
    let token = String::from("admin-token");
    let r = delete_image(&mut cfg, &mut store, &bad_ip, Some(&token), &name, true);
    assert_eq!(r.unwrap_err(), RepoError::Forbidden);
    let ip = String::from("192.168.1.5");
    let r = delete_image(&mut cfg, &mut store, &ip, None, &name, true);
    assert_eq!(r.unwrap_err(), RepoError::Unauthorized);
    assert_eq!(cfg.images.len(), 1);
}
