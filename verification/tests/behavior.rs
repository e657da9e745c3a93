use imgrepo::{
    TempFileGuard,
    AppConfig, ContentStore, FsOutcomes, ImageMeta, ListParams, RepoError, ScannedForm,
    UploadField, check_token, generate_token, list_images, scan_fields, thumb_dims, upload_image,
};

fn record(name: &str, hash: &str, created_at: i64) -> ImageMeta {
    ImageMeta {
        name: String::from(name),
        desc: String::new(),
        hash: String::from(hash),
        created_at,
    }
}

fn indexed_config(n: usize) -> AppConfig {
    let mut images = Vec::new();
    for k in 0..n {
        images.push(record(&format!("img-{}", k), &format!("hash-{}", k), k as i64));
    }
    AppConfig {
        data_dir: String::from("data"),
        max_size_mb: 20,
        tokens: Vec::new(),
        blacklist: Vec::new(),
        images,
        thumbnail_pixels: Some(50000),
    }
}

#[test]
fn first_page_holds_newest_records_in_descending_order() {
    let cfg = indexed_config(5);
    let page = list_images(&cfg.images, &ListParams { page: Some(1), page_size: Some(2) });
    assert_eq!(page.total, 5);
    assert_eq!(page.page, 1);
    assert_eq!(page.page_size, 2);
    assert_eq!(page.data.len(), 2);
    assert_eq!(page.data[0].name, "img-4");
    assert_eq!(page.data[1].name, "img-3");
}

#[test]
fn pages_partition_the_index_without_gaps_or_overlaps() {
    let cfg = indexed_config(7);
    let mut seen: Vec<String> = Vec::new();
    for p in 1..=4usize {
        let page = list_images(&cfg.images, &ListParams { page: Some(p), page_size: Some(3) });
        for rec in &page.data {
            assert!(!seen.contains(&rec.name));
            seen.push(rec.name.clone());
        }
    }
    assert_eq!(seen.len(), 7);
    for k in 0..7usize {
        assert_eq!(seen[k], format!("img-{}", 6 - k));
    }
}

#[test]
fn list_defaults_and_clamping() {
    let cfg = indexed_config(3);
    let page = list_images(&cfg.images, &ListParams { page: None, page_size: None });
    assert_eq!(page.page, 1);
    assert_eq!(page.page_size, 20);
    assert_eq!(page.data.len(), 3);
    let page = list_images(&cfg.images, &ListParams { page: Some(0), page_size: Some(0) });
    assert_eq!(page.page, 1);
    assert_eq!(page.page_size, 1);
    let page = list_images(&cfg.images, &ListParams { page: Some(2), page_size: Some(1000) });
    assert_eq!(page.page_size, 100);
    assert_eq!(page.data.len(), 0);
}

#[test]
fn list_beyond_the_end_is_empty() {
    let cfg = indexed_config(4);
    let page = list_images(&cfg.images, &ListParams { page: Some(3), page_size: Some(2) });
    assert_eq!(page.total, 4);
    assert_eq!(page.data.len(), 0);
}

#[test]
fn thumb_dims_halves_a_square_at_quarter_budget() {
    assert_eq!(thumb_dims(100, 100, 2500), (50, 50));
}

#[test]
fn thumb_dims_never_upscales() {
    assert_eq!(thumb_dims(10, 10, 50000), (10, 10));
    assert_eq!(thumb_dims(0, 0, 50000), (0, 0));
}

#[test]
fn thumb_dims_keeps_aspect_on_wide_image() {
    // 1920x1080 at a 50000 pixel budget: floor(sqrt(1920*50000/1080)) by
    // floor(sqrt(1080*50000/1920)).
    assert_eq!(thumb_dims(1920, 1080, 50000), (298, 167));
}

#[test]
fn generated_token_is_accepted_afterwards() {
    let mut cfg = indexed_config(0);
    let t = generate_token(&mut cfg);
    assert_eq!(t.len(), 32);
    assert!(t.chars().all(|c| c.is_ascii_alphanumeric()));
    assert!(cfg.tokens.iter().any(|x| x == &t));
    assert!(check_token(&cfg, Some(&t)).is_ok());
    assert!(check_token(&cfg, Some(&String::from("other"))).is_err());
}

#[test]
fn scan_fields_takes_the_last_occurrence() {
    let fields = vec![
        UploadField::Text { field: String::from("name"), value: String::from("first") },
        UploadField::Text { field: String::from("desc"), value: String::from("d1") },
        UploadField::Text { field: String::from("name"), value: String::from("second") },
        UploadField::Text { field: String::from("other"), value: String::from("ignored") },
        UploadField::File { data: vec![1, 2, 3] },
    ];
    let ScannedForm { name, desc, file_bytes } = scan_fields(&fields);
    assert_eq!(name.unwrap(), "second");
    assert_eq!(desc, "d1");
    assert_eq!(file_bytes.unwrap(), vec![1, 2, 3]);
}

#[test]
fn duplicate_names_resolve_and_delete_first_match() {
    let mut cfg = indexed_config(0);
    cfg.images.push(record("dup", "hash-first", 1));
    cfg.images.push(record("dup", "hash-second", 2));
    let id = String::from("dup");
    let h = imgrepo::resolve_identifier(&cfg.images, &id).unwrap();
    assert_eq!(h, "hash-first");
    let cleanup = imgrepo::delete_record(&mut cfg, &id).unwrap();
    assert_eq!(cleanup.hash, "hash-first");
    assert!(cleanup.remove_files);
    assert_eq!(cfg.images.len(), 1);
    assert_eq!(cfg.images[0].hash, "hash-second");
}

#[test]
fn temp_file_guard_discards_unless_persisted() {
    let mut store = ContentStore::new();
    let name = String::from("staging-entry");
    let mut guard = TempFileGuard::new(name.clone());
    assert_eq!(guard.path.as_deref(), Some("staging-entry"));
    store.stage_put(&name);
    assert!(store.has_staging(&name));
    guard.discard(&mut store);
    assert!(!store.has_staging(&name));
    assert!(guard.path.is_none());

    let mut guard = TempFileGuard::new(name.clone());
    store.stage_put(&name);
    guard.persist();
    guard.discard(&mut store);
    assert!(store.has_staging(&name));
}

#[test]
fn error_status_codes() {
    assert_eq!(RepoError::Forbidden.status_code(), 403);
    assert_eq!(RepoError::Unauthorized.status_code(), 401);
    assert_eq!(RepoError::BadRequest.status_code(), 400);
    assert_eq!(RepoError::NotFound.status_code(), 404);
    assert_eq!(RepoError::InternalError.status_code(), 500);
}

#[test]
fn default_config_directories() {
    let cfg = AppConfig::default();
    assert_eq!(cfg.images_dir(), "data/images");
    assert_eq!(cfg.thumbs_dir(), "data/thumbs");
    assert_eq!(cfg.temp_dir(), "data/temp");
    assert_eq!(cfg.logs_dir(), "data/logs");
    assert_eq!(cfg.max_size_mb, 20);
    assert_eq!(cfg.thumbnail_pixels, Some(50000));
}

#[test]
fn different_bytes_store_different_originals() {
    let mut cfg = indexed_config(0);
    cfg.tokens.push(String::from("tk"));
    let mut store = ContentStore::new();
    let ip = String::from("127.0.0.1");
    let tk = String::from("tk");
    let fs = FsOutcomes { write_ok: true, rename_ok: true, thumb_ok: true, persist_ok: true };
    let f1 = vec![
        UploadField::Text { field: String::from("name"), value: String::from("x") },
        UploadField::File { data: b"one".to_vec() },
    ];
    let f2 = vec![
        UploadField::Text { field: String::from("name"), value: String::from("y") },
        UploadField::File { data: b"two".to_vec() },
    ];
    let m1 = upload_image(&mut cfg, &mut store, &ip, Some(&tk), &f1, fs).unwrap();
    let m2 = upload_image(&mut cfg, &mut store, &ip, Some(&tk), &f2, fs).unwrap();
    assert_ne!(m1.hash, m2.hash);
    assert_eq!(store.originals.len(), 2);
}
