use vstd::prelude::*;

use crate::errors::RepoError;
use crate::meta::ImageMeta;
use crate::strutil::contains_str;
use crate::strutil::seq_has_str;

verus! {

/// The whole repository state that is persisted between runs: storage root,
/// upload size limit, admin tokens, blacklisted addresses, the ordered
/// record list, and the optional thumbnail pixel budget.
#[derive(Debug)]
pub struct AppConfig {
    pub data_dir: String,
    pub max_size_mb: usize,
    pub tokens: Vec<String>,
    pub blacklist: Vec<String>,
    pub images: Vec<ImageMeta>,
    pub thumbnail_pixels: Option<u32>,
}

impl Clone for AppConfig {
    fn clone(&self) -> (r: Self)
        ensures
            r.data_dir@ == self.data_dir@,
            r.max_size_mb == self.max_size_mb,
            r.tokens@ == self.tokens@,
            r.blacklist@ == self.blacklist@,
            r.images@ == self.images@,
            r.thumbnail_pixels == self.thumbnail_pixels,
    {
        let tokens = self.tokens.clone();
        let blacklist = self.blacklist.clone();
        let images = self.images.clone();
        proof {
            assert(tokens@ =~= self.tokens@);
            assert(blacklist@ =~= self.blacklist@);
            assert(images@ =~= self.images@);
        }
        AppConfig {
            data_dir: self.data_dir.clone(),
            max_size_mb: self.max_size_mb,
            tokens,
            blacklist,
            images,
            thumbnail_pixels: self.thumbnail_pixels,
        }
    }
}

impl Default for AppConfig {
    fn default() -> (r: Self)
        ensures
            r.data_dir@ == "data"@,
            r.max_size_mb == 20,
            r.tokens@.len() == 0,
            r.blacklist@.len() == 0,
            r.images@.len() == 0,
            r.thumbnail_pixels == Some(50000u32),
    {
        AppConfig {
            data_dir: String::from_str("data"),
            max_size_mb: 20,
            tokens: Vec::new(),
            blacklist: Vec::new(),
            images: Vec::new(),
            thumbnail_pixels: Some(50000),
        }
    }
}

impl AppConfig {
    /// Directory of the committed, hash-named originals.
    pub fn images_dir(&self) -> (r: String)
        ensures
            r@ == self.data_dir@ + "/images"@,
    {
        let mut s = self.data_dir.clone();
        s.append("/images");
        s
    }

    /// Directory of the derived thumbnails.
    pub fn thumbs_dir(&self) -> (r: String)
        ensures
            r@ == self.data_dir@ + "/thumbs"@,
    {
        let mut s = self.data_dir.clone();
        s.append("/thumbs");
        s
    }

    /// Scratch directory for uploads in progress.
    pub fn temp_dir(&self) -> (r: String)
        ensures
            r@ == self.data_dir@ + "/temp"@,
    {
        let mut s = self.data_dir.clone();
        s.append("/temp");
        s
    }

    /// Directory for log files.
    pub fn logs_dir(&self) -> (r: String)
        ensures
            r@ == self.data_dir@ + "/logs"@,
    {
        let mut s = self.data_dir.clone();
        s.append("/logs");
        s
    }
}

/// Both states agree on everything but the record list.
pub open spec fn cfg_same_but_images(a: AppConfig, b: AppConfig) -> bool {
    b.data_dir == a.data_dir && b.max_size_mb == a.max_size_mb && b.tokens == a.tokens
        && b.blacklist == a.blacklist && b.thumbnail_pixels == a.thumbnail_pixels
}

/// The caller's address is on the blacklist.
pub open spec fn spec_blacklisted(cfg: AppConfig, ip: Seq<char>) -> bool {
    seq_has_str(cfg.blacklist@, ip)
}

/// A token was sent and is in the token set.
pub open spec fn spec_token_ok(cfg: AppConfig, token: Option<&String>) -> bool {
    match token {
        Some(t) => seq_has_str(cfg.tokens@, t@),
        None => false,
    }
}

/// Rejects a blacklisted caller address.
pub fn check_ip(cfg: &AppConfig, ip: &String) -> (r: Result<(), RepoError>)
    ensures
        r == if spec_blacklisted(*cfg, ip@) {
            Err::<(), RepoError>(RepoError::Forbidden)
        } else {
            Ok::<(), RepoError>(())
        },
{
    if contains_str(&cfg.blacklist, ip) {
        Err(RepoError::Forbidden)
    } else {
        Ok(())
    }
}

/// Rejects a missing token or one outside the token set.
pub fn check_token(cfg: &AppConfig, token: Option<&String>) -> (r: Result<(), RepoError>)
    ensures
        r == if spec_token_ok(*cfg, token) {
            Ok::<(), RepoError>(())
        } else {
            Err::<(), RepoError>(RepoError::Unauthorized)
        },
{
    match token {
        Some(t) => {
            if contains_str(&cfg.tokens, t) {
                Ok(())
            } else {
                Err(RepoError::Unauthorized)
            }
        },
        None => Err(RepoError::Unauthorized),
    }
}

} // verus!
