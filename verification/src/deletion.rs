use vstd::prelude::*;

use crate::config::AppConfig;
use crate::config::cfg_same_but_images;
use crate::config::check_ip;
use crate::config::check_token;
use crate::config::spec_blacklisted;
use crate::config::spec_token_ok;
use crate::errors::RepoError;
use crate::meta::ImageMeta;
use crate::meta::any_hash;
use crate::meta::find_name;
use crate::meta::first_name_index;
use crate::meta::lemma_first_name_index_is_match;
use crate::meta::seq_has_hash;
use crate::store::ContentStore;
use crate::store::spec_integrity;
use crate::strutil::seq_has_str;

verus! {

/// What a successful record removal asks of the filesystem: the record's
/// hash, and whether its original and thumbnail must be removed because
/// no remaining record references that hash.
#[derive(Debug)]
pub struct DeleteCleanup {
    pub hash: String,
    pub remove_files: bool,
}

/// The index after deleting `name`: the record list with its first record
/// of that name taken out, paired with the record that was taken.
pub open spec fn spec_delete_records(images: Seq<ImageMeta>, name: Seq<char>) -> Option<
    (Seq<ImageMeta>, ImageMeta),
> {
    match first_name_index(images, name) {
        None => None,
        Some(i) => Some((images.remove(i), images[i])),
    }
}

/// Removes the first record named `name@` from the index and reports
/// whether the record's files are now unreferenced.
pub fn delete_record(cfg: &mut AppConfig, name: &String) -> (r: Result<DeleteCleanup, RepoError>)
    ensures
        cfg_same_but_images(*old(cfg), *final(cfg)),
        match spec_delete_records(old(cfg).images@, name@) {
            None => r == Err::<DeleteCleanup, RepoError>(RepoError::NotFound) && final(cfg).images
                == old(cfg).images,
            Some((remaining, removed)) => r matches Ok(c) && final(cfg).images@ == remaining
                && c.hash@ == removed.hash@ && (c.remove_files <==> !seq_has_hash(
                remaining,
                removed.hash@,
            )),
        },
{
    proof {
        lemma_first_name_index_is_match(cfg.images@, name@);
    }
    let idx = match find_name(&cfg.images, name) {
        Some(i) => i,
        None => {
            return Err(RepoError::NotFound);
        },
    };
    let removed = cfg.images.remove(idx);
    let still_used = any_hash(&cfg.images, &removed.hash);
    Ok(DeleteCleanup { hash: removed.hash, remove_files: !still_used })
}

/// The whole deletion path against the store: authorization, index
/// removal, reference-counted file reclamation, and the persist step
/// (`persist_ok` is what the durable write of the index reported; on
/// failure the in-memory removal stands and `InternalError` is returned).
pub fn delete_image(
    cfg: &mut AppConfig,
    store: &mut ContentStore,
    ip: &String,
    token: Option<&String>,
    name: &String,
    persist_ok: bool,
) -> (r: Result<(), RepoError>)
    requires
        old(store).wf(),
    ensures
        final(store).wf(),
        final(store).staging == old(store).staging,
        cfg_same_but_images(*old(cfg), *final(cfg)),
        spec_blacklisted(*old(cfg), ip@) ==> r == Err::<(), RepoError>(RepoError::Forbidden)
            && final(cfg).images == old(cfg).images && *final(store) == *old(store),
        (!spec_blacklisted(*old(cfg), ip@) && !spec_token_ok(*old(cfg), token)) ==> r == Err::<
            (),
            RepoError,
        >(RepoError::Unauthorized) && final(cfg).images == old(cfg).images && *final(store)
            == *old(store),
        (!spec_blacklisted(*old(cfg), ip@) && spec_token_ok(*old(cfg), token)) ==> match
            spec_delete_records(old(cfg).images@, name@) {
            None => r == Err::<(), RepoError>(RepoError::NotFound) && final(cfg).images == old(
                cfg,
            ).images && *final(store) == *old(store),
            Some((remaining, removed)) => {
                &&& final(cfg).images@ == remaining
                &&& (if seq_has_hash(remaining, removed.hash@) {
                    *final(store) == *old(store)
                } else {
                    &&& !seq_has_str(final(store).originals@, removed.hash@)
                    &&& !seq_has_str(final(store).thumbs@, removed.hash@)
                    &&& (forall|g: Seq<char>|
                        g != removed.hash@ ==> (seq_has_str(final(store).originals@, g)
                            <==> seq_has_str(old(store).originals@, g)))
                    &&& (forall|g: Seq<char>|
                        g != removed.hash@ ==> (seq_has_str(final(store).thumbs@, g)
                            <==> seq_has_str(old(store).thumbs@, g)))
                })
                &&& r == (if persist_ok {
                    Ok::<(), RepoError>(())
                } else {
                    Err::<(), RepoError>(RepoError::InternalError)
                })
            },
        },
        spec_integrity(old(cfg).images@, old(store).originals@) ==> spec_integrity(
            final(cfg).images@,
            final(store).originals@,
        ),
{
    check_ip(cfg, ip)?;
    check_token(cfg, token)?;
    let cleanup = delete_record(cfg, name)?;
    if cleanup.remove_files {
        store.remove_original(&cleanup.hash);
        store.remove_thumb(&cleanup.hash);
        proof {
            lemma_remove_str_preserves_others(old(store).originals@, cleanup.hash@);
            lemma_remove_str_preserves_others(old(store).thumbs@, cleanup.hash@);
        }
    }
    proof {
        lemma_delete_integrity(
            old(cfg).images@,
            old(store).originals@,
            final(cfg).images@,
            final(store).originals@,
            name@,
        );
    }
    if persist_ok {
        Ok(())
    } else {
        Err(RepoError::InternalError)
    }
}

/// Removing the first occurrence of one view keeps every other view's
/// presence unchanged.
proof fn lemma_remove_str_preserves_others(s: Seq<String>, x: Seq<char>)
    ensures
        match crate::strutil::first_str_index(s, x) {
            Some(i) => 0 <= i < s.len() && s[i]@ == x && (forall|g: Seq<char>|
                g != x ==> (seq_has_str(s.remove(i), g) <==> seq_has_str(s, g))),
            None => true,
        },
    decreases s.len(),
{
    if let Some(i) = crate::strutil::first_str_index(s, x) {
        lemma_first_str_index_bounds(s, x);
        assert forall|g: Seq<char>| g != x implies (seq_has_str(s.remove(i), g) <==> seq_has_str(
            s,
            g,
        )) by {
            if seq_has_str(s, g) {
                crate::strutil::lemma_remove_keeps_others(s, i, g);
            }
            if seq_has_str(s.remove(i), g) {
                let j = choose|j: int| 0 <= j < s.remove(i).len() && s.remove(i)[j]@ == g;
                if j < i {
                    assert(s[j]@ == g);
                } else {
                    assert(s[j + 1]@ == g);
                }
            }
        }
    }
}

proof fn lemma_first_str_index_bounds(s: Seq<String>, x: Seq<char>)
    ensures
        match crate::strutil::first_str_index(s, x) {
            Some(i) => 0 <= i < s.len() && s[i]@ == x,
            None => true,
        },
    decreases s.len(),
{
    if s.len() != 0 && s[0]@ != x {
        lemma_first_str_index_bounds(s.drop_first(), x);
        if let Some(i) = crate::strutil::first_str_index(s.drop_first(), x) {
            assert(s[i + 1] == s.drop_first()[i]);
        }
    }
}

/// Deleting a record preserves referential integrity: files are removed
/// only when no remaining record references them.
proof fn lemma_delete_integrity(
    images0: Seq<ImageMeta>,
    originals0: Seq<String>,
    images1: Seq<ImageMeta>,
    originals1: Seq<String>,
    name: Seq<char>,
)
    requires
        spec_integrity(images0, originals0) ==> match spec_delete_records(images0, name) {
            None => images1 == images0 && originals1 == originals0,
            Some((remaining, removed)) => images1 == remaining && (if seq_has_hash(
                remaining,
                removed.hash@,
            ) {
                originals1 == originals0
            } else {
                forall|g: Seq<char>|
                    g != removed.hash@ ==> (seq_has_str(originals1, g) <==> seq_has_str(
                        originals0,
                        g,
                    ))
            }),
        },
    ensures
        spec_integrity(images0, originals0) ==> spec_integrity(images1, originals1),
{
    if spec_integrity(images0, originals0) {
        match spec_delete_records(images0, name) {
            None => {},
            Some((remaining, removed)) => {
                assert forall|i: int| 0 <= i < images1.len() implies seq_has_str(
                    originals1,
                    #[trigger] images1[i].hash@,
                ) by {
                    let idx = first_name_index(images0, name).unwrap();
                    lemma_first_name_bounds(images0, name);
                    let orig_i: int = if i < idx {
                        i
                    } else {
                        i + 1
                    };
                    assert(images1[i] == images0[orig_i]);
                    assert(seq_has_str(originals0, images1[i].hash@));
                    if seq_has_hash(remaining, removed.hash@) {
                    } else {
                        assert(images1[i].hash@ != removed.hash@) by {
                            if images1[i].hash@ == removed.hash@ {
                                assert(seq_has_hash(remaining, removed.hash@));
                            }
                        }
                    }
                }
            },
        }
    }
}

proof fn lemma_first_name_bounds(s: Seq<ImageMeta>, x: Seq<char>)
    ensures
        match first_name_index(s, x) {
            Some(i) => 0 <= i < s.len(),
            None => true,
        },
    decreases s.len(),
{
    if s.len() != 0 && s[0].name@ != x {
        lemma_first_name_bounds(s.drop_first(), x);
    }
}

} // verus!
