use vstd::prelude::*;

mod config;
mod deletion;
mod errors;
mod externals;
mod laws;
mod listing;
mod meta;
mod resolve;
mod store;
mod strutil;
mod thumb;
mod token;
mod upload;

pub use config::AppConfig;
pub use config::check_ip;
pub use config::check_token;
pub use deletion::DeleteCleanup;
pub use deletion::delete_image;
pub use deletion::delete_record;
pub use errors::RepoError;
pub use laws::lemma_delete_dedup_awareness;
pub use laws::lemma_pagination_partition;
pub use laws::lemma_upload_idempotent;
pub use meta::ImageMeta;
pub use meta::find_name;
pub use listing::ListPage;
pub use listing::ListParams;
pub use listing::list_images;
pub use resolve::DownloadParams;
pub use resolve::DownloadPlan;
pub use resolve::download_image;
pub use resolve::is_hash_like;
pub use resolve::resolve_download;
pub use resolve::resolve_identifier;
pub use store::ContentStore;
pub use store::TempFileGuard;
pub use thumb::thumb_dims;
pub use token::generate_token;
pub use upload::FsOutcomes;
pub use upload::ScannedForm;
pub use upload::UploadField;
pub use upload::scan_fields;
pub use upload::upload_image;
pub use laws::lemma_first_page_newest;
pub use strutil::contains_str;
pub use strutil::find_str;
pub use strutil::path_join;
