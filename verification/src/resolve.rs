use vstd::prelude::*;

use crate::config::AppConfig;
use crate::config::spec_blacklisted;
use crate::config::check_ip;
use crate::errors::RepoError;
use crate::meta::ImageMeta;
use crate::meta::find_name;
use crate::meta::first_name_index;
use crate::meta::lemma_first_name_index_is_match;
use crate::store::ContentStore;
use crate::strutil::path_join;
use crate::strutil::seq_has_str;

verus! {

/// A hexadecimal digit of either case.
pub open spec fn is_hex_digit(c: char) -> bool {
    (('0' as u32) <= (c as u32) <= ('9' as u32)) || (('a' as u32) <= (c as u32) <= ('f' as u32))
        || (('A' as u32) <= (c as u32) <= ('F' as u32))
}

/// The identifier has the exact shape of a content hash: 64 hex digits.
pub open spec fn spec_hash_like(id: Seq<char>) -> bool {
    id.len() == 64 && (forall|i: int| 0 <= i < id.len() ==> is_hex_digit(#[trigger] id[i]))
}

/// Whether `id` is 64 hex digits, and so usable directly as a hash.
pub fn is_hash_like(id: &String) -> (r: bool)
    ensures
        r == spec_hash_like(id@),
{
    let s = id.as_str();
    let n: usize = s.unicode_len();
    if n != 64 {
        return false;
    }
    for i in 0..n
        invariant
            n == 64,
            n == s@.len(),
            s@ == id@,
            forall|j: int| 0 <= j < i ==> is_hex_digit(#[trigger] s@[j]),
    {
        let c = s.get_char(i);
        let code: u32 = c as u32;
        let is_digit = (('0' as u32) <= code && code <= ('9' as u32)) || (('a' as u32) <= code
            && code <= ('f' as u32)) || (('A' as u32) <= code && code <= ('F' as u32));
        if !is_digit {
            return false;
        }
    }
    true
}

/// The hash an identifier stands for: the hash of the first record with
/// that name, or the identifier itself when it has the shape of a hash.
pub open spec fn spec_resolve(images: Seq<ImageMeta>, id: Seq<char>) -> Option<Seq<char>> {
    match first_name_index(images, id) {
        Some(i) => Some(images[i].hash@),
        None => if spec_hash_like(id) {
            Some(id)
        } else {
            None
        },
    }
}

/// Resolves an identifier to a content hash, name matches first.
pub fn resolve_identifier(images: &Vec<ImageMeta>, id: &String) -> (r: Option<String>)
    ensures
        match r {
            Some(h) => spec_resolve(images@, id@) == Some(h@),
            None => spec_resolve(images@, id@) == None::<Seq<char>>,
        },
{
    proof {
        lemma_first_name_index_is_match(images@, id@);
    }
    match find_name(images, id) {
        Some(i) => Some(images[i].hash.clone()),
        None => {
            if is_hash_like(id) {
                Some(id.clone())
            } else {
                None
            }
        },
    }
}

/// Where a download request is served from: the resolved hash, whether
/// the thumbnail was asked for, and the file path to read.
#[derive(Debug)]
pub struct DownloadParams {
    pub thumb: Option<bool>,
}

#[derive(Debug)]
pub struct DownloadPlan {
    pub hash: String,
    pub thumb: bool,
    pub path: String,
}

/// The path a plan must point to.
pub open spec fn spec_plan_path(cfg: AppConfig, thumb: bool, hash: Seq<char>) -> Seq<char> {
    if thumb {
        cfg.data_dir@ + "/thumbs"@ + "/"@ + hash
    } else {
        cfg.data_dir@ + "/images"@ + "/"@ + hash
    }
}

/// Resolves a download request to the file to serve. Whether that file is
/// actually on disk is the caller's check; an absent file is `NotFound`.
pub fn resolve_download(cfg: &AppConfig, ip: &String, id: &String, params: &DownloadParams) -> (r:
    Result<DownloadPlan, RepoError>)
    ensures
        spec_blacklisted(*cfg, ip@) ==> r == Err::<DownloadPlan, RepoError>(RepoError::Forbidden),
        !spec_blacklisted(*cfg, ip@) && spec_resolve(cfg.images@, id@) is None ==> r == Err::<
            DownloadPlan,
            RepoError,
        >(RepoError::NotFound),
        (!spec_blacklisted(*cfg, ip@) && spec_resolve(cfg.images@, id@) is Some) ==> {
            let h = spec_resolve(cfg.images@, id@).unwrap();
            r matches Ok(plan) && plan.hash@ == h && plan.thumb == (params.thumb == Some(true))
                && plan.path@ == spec_plan_path(*cfg, plan.thumb, h)
        },
{
    check_ip(cfg, ip)?;
    let hash = match resolve_identifier(&cfg.images, id) {
        Some(h) => h,
        None => {
            return Err(RepoError::NotFound);
        },
    };
    let thumb = match params.thumb {
        Some(b) => b,
        None => false,
    };
    let dir = if thumb {
        cfg.thumbs_dir()
    } else {
        cfg.images_dir()
    };
    let path = path_join(&dir, &hash);
    Ok(DownloadPlan { hash, thumb, path })
}

/// The full retrieval decision against the store: resolves the identifier
/// and fails `NotFound` when the wanted file is not in the store, with no
/// fallback from a missing thumbnail to the original.
pub fn download_image(
    cfg: &AppConfig,
    store: &ContentStore,
    ip: &String,
    id: &String,
    params: &DownloadParams,
) -> (r: Result<DownloadPlan, RepoError>)
    ensures
        spec_blacklisted(*cfg, ip@) ==> r == Err::<DownloadPlan, RepoError>(RepoError::Forbidden),
        !spec_blacklisted(*cfg, ip@) && spec_resolve(cfg.images@, id@) is None ==> r == Err::<
            DownloadPlan,
            RepoError,
        >(RepoError::NotFound),
        (!spec_blacklisted(*cfg, ip@) && spec_resolve(cfg.images@, id@) is Some) ==> {
            let h = spec_resolve(cfg.images@, id@).unwrap();
            let thumb = params.thumb == Some(true);
            let present = if thumb {
                seq_has_str(store.thumbs@, h)
            } else {
                seq_has_str(store.originals@, h)
            };
            if present {
                r matches Ok(plan) && plan.hash@ == h && plan.thumb == thumb && plan.path@
                    == spec_plan_path(*cfg, thumb, h)
            } else {
                r == Err::<DownloadPlan, RepoError>(RepoError::NotFound)
            }
        },
{
    let plan = resolve_download(cfg, ip, id, params)?;
    let present = if plan.thumb {
        store.has_thumb(&plan.hash)
    } else {
        store.has_original(&plan.hash)
    };
    if present {
        Ok(plan)
    } else {
        Err(RepoError::NotFound)
    }
}

} // verus!
