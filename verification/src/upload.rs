use vstd::prelude::*;

use crate::config::AppConfig;
use crate::config::cfg_same_but_images;
use crate::config::spec_blacklisted;
use crate::config::spec_token_ok;
use crate::errors::RepoError;
use crate::externals::fresh_staging_name;
use crate::externals::now_timestamp;
use crate::externals::sha256_hex;
use crate::externals::sha256_hex_of;
use crate::meta::ImageMeta;
use crate::store::ContentStore;
use crate::store::TempFileGuard;
use crate::store::spec_integrity;
use crate::strutil::contains_str;
use crate::strutil::seq_has_str;

verus! {

/// One part of a multipart upload request, as the transport hands it in:
/// a text field with its name, or the binary `file` part.
#[derive(Debug)]
pub enum UploadField {
    Text { field: String, value: String },
    File { data: Vec<u8> },
}

/// What a scan of the request parts yields: the last `name` text field,
/// the last `desc` text field (empty when absent), and the last file part.
pub ghost struct ScannedView {
    pub name: Option<Seq<char>>,
    pub desc: Seq<char>,
    pub file: Option<Seq<u8>>,
}

/// Folds the request parts in order; a later part under the same field
/// name wins.
pub open spec fn spec_scan(fields: Seq<UploadField>) -> ScannedView
    decreases fields.len(),
{
    if fields.len() == 0 {
        ScannedView { name: None, desc: Seq::empty(), file: None }
    } else {
        let prev = spec_scan(fields.drop_last());
        match fields.last() {
            UploadField::Text { field, value } => {
                if field@ == "name"@ {
                    ScannedView { name: Some(value@), desc: prev.desc, file: prev.file }
                } else if field@ == "desc"@ {
                    ScannedView { name: prev.name, desc: value@, file: prev.file }
                } else {
                    prev
                }
            },
            UploadField::File { data } => {
                ScannedView { name: prev.name, desc: prev.desc, file: Some(data@) }
            },
        }
    }
}

/// The scan's executable result.
#[derive(Debug)]
pub struct ScannedForm {
    pub name: Option<String>,
    pub desc: String,
    pub file_bytes: Option<Vec<u8>>,
}

/// Walks the request parts and keeps the `name`, `desc` and file parts.
pub fn scan_fields(fields: &Vec<UploadField>) -> (r: ScannedForm)
    ensures
        (r.name matches Some(s) ==> spec_scan(fields@).name == Some(s@)),
        (r.name is None ==> spec_scan(fields@).name is None),
        r.desc@ == spec_scan(fields@).desc,
        (r.file_bytes matches Some(b) ==> spec_scan(fields@).file == Some(b@)),
        (r.file_bytes is None ==> spec_scan(fields@).file is None),
{
    let key_name = String::from_str("name");
    let key_desc = String::from_str("desc");
    let mut name: Option<String> = None;
    let mut desc: String = String::new();
    let mut file_bytes: Option<Vec<u8>> = None;
    let n: usize = fields.len();
    for i in 0..n
        invariant
            n == fields@.len(),
            key_name@ == "name"@,
            key_desc@ == "desc"@,
            (name matches Some(s) ==> spec_scan(fields@.take(i as int)).name == Some(s@)),
            (name is None ==> spec_scan(fields@.take(i as int)).name is None),
            desc@ == spec_scan(fields@.take(i as int)).desc,
            (file_bytes matches Some(b) ==> spec_scan(fields@.take(i as int)).file == Some(b@)),
            (file_bytes is None ==> spec_scan(fields@.take(i as int)).file is None),
    {
        proof {
            assert(fields@.take(i as int + 1).drop_last() =~= fields@.take(i as int));
            assert(fields@.take(i as int + 1).last() == fields@[i as int]);
        }
        match &fields[i] {
            UploadField::Text { field, value } => {
                if field.eq(&key_name) {
                    name = Some(value.clone());
                } else if field.eq(&key_desc) {
                    desc = value.clone();
                }
            },
            UploadField::File { data } => {
                let copy = data.clone();
                proof {
                    assert(copy@ =~= data@);
                }
                file_bytes = Some(copy);
            },
        }
    }
    proof {
        assert(fields@.take(n as int) =~= fields@);
    }
    ScannedForm { name, desc, file_bytes }
}

/// What the filesystem reported at each step of one upload: whether the
/// staging write went through, whether the commit move went through,
/// whether thumbnail derivation went through, and whether the final
/// persist of the index went through.
#[derive(Clone, Copy)]
pub struct FsOutcomes {
    pub write_ok: bool,
    pub rename_ok: bool,
    pub thumb_ok: bool,
    pub persist_ok: bool,
}

/// `i1` is `i0` with one record of the given fields appended.
pub open spec fn images_appended(
    i0: Seq<ImageMeta>,
    i1: Seq<ImageMeta>,
    name: Seq<char>,
    desc: Seq<char>,
    hash: Seq<char>,
) -> bool {
    &&& i1.len() == i0.len() + 1
    &&& i1.subrange(0, i0.len() as int) == i0
    &&& i1.last().name@ == name
    &&& i1.last().desc@ == desc
    &&& i1.last().hash@ == hash
}

/// `s1` is `s0` with one entry of view `h` appended.
pub open spec fn names_extended(s0: Seq<String>, s1: Seq<String>, h: Seq<char>) -> bool {
    &&& s1.len() == s0.len() + 1
    &&& s1.subrange(0, s0.len() as int) == s0
    &&& s1.last()@ == h
}

/// `s1` holds `h`: unchanged when it already did, else extended by it.
pub open spec fn names_added(s0: Seq<String>, s1: Seq<String>, h: Seq<char>) -> bool {
    if seq_has_str(s0, h) {
        s1 == s0
    } else {
        names_extended(s0, s1, h)
    }
}

/// The store and index are exactly as the upload pipeline leaves them on
/// the path that accepted the file with hash `h`: dedup kept the store as
/// it was; a first commit added the original, and the thumbnail exactly
/// when a pixel budget was set and derivation succeeded. In both cases
/// one record was appended.
pub open spec fn spec_upload_accepted(
    cfg0: AppConfig,
    st0: ContentStore,
    cfg1: AppConfig,
    st1: ContentStore,
    name: Seq<char>,
    desc: Seq<char>,
    h: Seq<char>,
    fs: FsOutcomes,
) -> bool {
    &&& images_appended(cfg0.images@, cfg1.images@, name, desc, h)
    &&& (if seq_has_str(st0.originals@, h) {
        st1.originals == st0.originals && st1.thumbs == st0.thumbs
    } else {
        names_extended(st0.originals@, st1.originals@, h) && (if cfg0.thumbnail_pixels is Some
            && fs.thumb_ok {
            names_added(st0.thumbs@, st1.thumbs@, h)
        } else {
            st1.thumbs == st0.thumbs
        })
    })
}

/// The upload pipeline, run against the store model: authorization, part
/// scan, staging under a scoped deletion guard, content hashing, the
/// dedup decision at the commit move, thumbnail derivation off the
/// critical path, and the metadata append with its persist step. The
/// `fs` outcomes are what the filesystem reported at each step; the
/// contract says what state every combination leaves behind — in
/// particular, the staging directory is exactly as it was, whichever
/// exit is taken.
pub fn upload_image(
    cfg: &mut AppConfig,
    store: &mut ContentStore,
    ip: &String,
    token: Option<&String>,
    fields: &Vec<UploadField>,
    fs: FsOutcomes,
) -> (r: Result<ImageMeta, RepoError>)
    requires
        old(store).wf(),
    ensures
        final(store).staging@ == old(store).staging@,
        final(store).wf(),
        cfg_same_but_images(*old(cfg), *final(cfg)),
        spec_integrity(old(cfg).images@, old(store).originals@) ==> spec_integrity(
            final(cfg).images@,
            final(store).originals@,
        ),
        spec_blacklisted(*old(cfg), ip@) ==> r == Err::<ImageMeta, RepoError>(RepoError::Forbidden)
            && final(cfg).images == old(cfg).images && *final(store) == *old(store),
        (!spec_blacklisted(*old(cfg), ip@) && !spec_token_ok(*old(cfg), token)) ==> r == Err::<
            ImageMeta,
            RepoError,
        >(RepoError::Unauthorized) && final(cfg).images == old(cfg).images && *final(store)
            == *old(store),
        (!spec_blacklisted(*old(cfg), ip@) && spec_token_ok(*old(cfg), token)) ==> {
            let sv = spec_scan(fields@);
            &&& (sv.file is Some && !fs.write_ok) ==> (r == Err::<ImageMeta, RepoError>(
                RepoError::InternalError,
            ) && final(cfg).images == old(cfg).images && final(store).originals == old(
                store,
            ).originals && final(store).thumbs == old(store).thumbs)
            &&& ((sv.file is None || fs.write_ok) && (sv.name is None || sv.file is None)) ==> (r
                == Err::<ImageMeta, RepoError>(RepoError::BadRequest) && final(cfg).images == old(
                cfg,
            ).images && final(store).originals == old(store).originals && final(store).thumbs
                == old(store).thumbs)
            &&& (sv.name is Some && sv.file is Some && fs.write_ok) ==> {
                let h = sha256_hex_of(sv.file.unwrap());
                if !seq_has_str(old(store).originals@, h) && !fs.rename_ok {
                    r == Err::<ImageMeta, RepoError>(RepoError::InternalError) && final(cfg).images
                        == old(cfg).images && final(store).originals == old(store).originals
                        && final(store).thumbs == old(store).thumbs
                } else {
                    spec_upload_accepted(
                        *old(cfg),
                        *old(store),
                        *final(cfg),
                        *final(store),
                        sv.name.unwrap(),
                        sv.desc,
                        h,
                        fs,
                    ) && r == (if fs.persist_ok {
                        Ok::<ImageMeta, RepoError>(final(cfg).images@.last())
                    } else {
                        Err::<ImageMeta, RepoError>(RepoError::InternalError)
                    })
                }
            }
        },
{
    if contains_str(&cfg.blacklist, ip) {
        return Err(RepoError::Forbidden);
    }
    let token_ok = match token {
        Some(t) => contains_str(&cfg.tokens, t),
        None => false,
    };
    if !token_ok {
        return Err(RepoError::Unauthorized);
    }

    let ScannedForm { name: name_opt, desc, file_bytes } = scan_fields(fields);

    let staging_name = fresh_staging_name();
    let mut guard = TempFileGuard::new(staging_name.clone());
    let mut staged = false;

    let mut file_hash: Option<String> = None;
    if let Some(bytes) = &file_bytes {
        store.stage_put(&staging_name);
        staged = true;
        if !fs.write_ok {
            guard.discard(store);
            proof {
                assert(store.staging@ =~= old(store).staging@);
            }
            return Err(RepoError::InternalError);
        }
        file_hash = Some(sha256_hex(bytes));
    }

    let name = match name_opt {
        Some(n) => n,
        None => {
            if staged {
                guard.discard(store);
                proof {
                    assert(store.staging@ =~= old(store).staging@);
                }
            }
            return Err(RepoError::BadRequest);
        },
    };
    let hash = match file_hash {
        Some(h) => h,
        None => {
            return Err(RepoError::BadRequest);
        },
    };

    if store.has_original(&hash) {
        guard.discard(store);
        proof {
            assert(store.staging@ =~= old(store).staging@);
        }
    } else {
        if !fs.rename_ok {
            guard.discard(store);
            proof {
                assert(store.staging@ =~= old(store).staging@);
            }
            return Err(RepoError::InternalError);
        }
        store.commit(&staging_name, &hash);
        proof {
            assert(store.staging@ =~= old(store).staging@);
        }
        guard.persist();
        if cfg.thumbnail_pixels.is_some() {
            if fs.thumb_ok {
                store.put_thumb(&hash);
            }
        }
    }

    let meta = ImageMeta { name, desc, hash, created_at: now_timestamp() };
    cfg.images.push(meta.clone());
    proof {
        assert(cfg.images@.subrange(0, old(cfg).images@.len() as int) =~= old(cfg).images@);
        if spec_integrity(old(cfg).images@, old(store).originals@) {
            assert forall|i: int| 0 <= i < cfg.images@.len() implies seq_has_str(
                store.originals@,
                #[trigger] cfg.images@[i].hash@,
            ) by {
                if i < old(cfg).images@.len() {
                    let g = old(cfg).images@[i].hash@;
                    let j = choose|j: int|
                        0 <= j < old(store).originals@.len() && old(store).originals@[j]@ == g;
                    assert(store.originals@[j]@ == g);
                } else {
                    assert(cfg.images@[i].hash@ == meta.hash@);
                    if seq_has_str(old(store).originals@, meta.hash@) {
                        let j = choose|j: int|
                            0 <= j < old(store).originals@.len() && old(store).originals@[j]@
                                == meta.hash@;
                        assert(store.originals@[j]@ == meta.hash@);
                    } else {
                        assert(store.originals@.last()@ == meta.hash@);
                    }
                }
            }
        }
    }
    proof {
        if !seq_has_str(old(store).originals@, meta.hash@) {
            assert(store.originals@.subrange(0, old(store).originals@.len() as int) =~= old(
                store,
            ).originals@);
            if !seq_has_str(old(store).thumbs@, meta.hash@) && store.thumbs@.len() == old(
                store,
            ).thumbs@.len() + 1 {
                assert(store.thumbs@.subrange(0, old(store).thumbs@.len() as int) =~= old(
                    store,
                ).thumbs@);
            }
        }
    }
    if !fs.persist_ok {
        return Err(RepoError::InternalError);
    }
    Ok(meta)
}

} // verus!
