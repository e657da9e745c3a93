use vstd::prelude::*;

use crate::strutil::contains_str;
use crate::strutil::first_str_index;
use crate::strutil::lemma_no_dup_remove;
use crate::strutil::no_dup_str;
use crate::strutil::remove_first_str;
use crate::strutil::remove_last_str;
use crate::strutil::seq_has_str;

verus! {

/// Referential integrity: every record's hash has a committed original.
/// The reverse is not required; unreferenced originals are normal under
/// dedup.
pub open spec fn spec_integrity(images: Seq<crate::meta::ImageMeta>, originals: Seq<String>) -> bool {
    forall|i: int| 0 <= i < images.len() ==> seq_has_str(originals, #[trigger] images[i].hash@)
}

/// Scoped deletion guard for a staging file. While `path` is `Some`, the
/// file it names must be deleted when the upload is over, whichever exit
/// path is taken; `persist` stands the guard down after a successful
/// commit has moved the file into the store.
#[derive(Debug)]
pub struct TempFileGuard {
    pub path: Option<String>,
}

impl TempFileGuard {
    pub fn new(path: String) -> (r: Self)
        ensures
            r.path == Some(path),
    {
        TempFileGuard { path: Some(path) }
    }

    /// The file was moved into the store or is otherwise no longer the
    /// guard's to delete.
    pub fn persist(&mut self)
        ensures
            final(self).path is None,
    {
        self.path = None;
    }

    /// Fires the guard against the store model: the staging file it still
    /// owns — the latest entry under its name — is removed, and the guard
    /// is disarmed.
    pub fn discard(&mut self, store: &mut ContentStore)
        ensures
            final(self).path is None,
            final(store).originals == old(store).originals,
            final(store).thumbs == old(store).thumbs,
            old(self).path is None ==> final(store).staging == old(store).staging,
            (old(self).path matches Some(p) && old(store).staging@.len() > 0
                && old(store).staging@.last()@ == p@) ==> final(store).staging@
                == old(store).staging@.drop_last(),
            (old(self).path matches Some(p) && !seq_has_str(old(store).staging@, p@))
                ==> final(store).staging@ == old(store).staging@,
            final(store).staging@.len() <= old(store).staging@.len(),
    {
        if let Some(p) = &self.path {
            remove_last_str(&mut store.staging, p);
        }
        self.path = None;
    }
}

/// The store's directory state: the names of the files in the images,
/// thumbnails and staging directories. The upload and deletion pipelines
/// are verified against this state; the process around the library mirrors
/// every transition onto the real directories.
#[derive(Debug)]
pub struct ContentStore {
    pub originals: Vec<String>,
    pub thumbs: Vec<String>,
    pub staging: Vec<String>,
}

impl ContentStore {
    /// Directories hold each file name at most once.
    pub open spec fn wf(&self) -> bool {
        no_dup_str(self.originals@) && no_dup_str(self.thumbs@)
    }

    pub fn new() -> (r: Self)
        ensures
            r.originals@.len() == 0,
            r.thumbs@.len() == 0,
            r.staging@.len() == 0,
            r.wf(),
    {
        ContentStore { originals: Vec::new(), thumbs: Vec::new(), staging: Vec::new() }
    }

    /// A committed original for `h@` is present.
    pub fn has_original(&self, h: &String) -> (r: bool)
        ensures
            r == seq_has_str(self.originals@, h@),
    {
        contains_str(&self.originals, h)
    }

    /// A thumbnail for `h@` is present.
    pub fn has_thumb(&self, h: &String) -> (r: bool)
        ensures
            r == seq_has_str(self.thumbs@, h@),
    {
        contains_str(&self.thumbs, h)
    }

    /// A staging file named `name@` is present.
    pub fn has_staging(&self, name: &String) -> (r: bool)
        ensures
            r == seq_has_str(self.staging@, name@),
    {
        contains_str(&self.staging, name)
    }

    /// A staging file is written.
    pub fn stage_put(&mut self, name: &String)
        ensures
            final(self).staging@ == old(self).staging@.push(*name),
            final(self).originals == old(self).originals,
            final(self).thumbs == old(self).thumbs,
    {
        self.staging.push(name.clone());
    }

    /// The atomic move of a staging file to its hash-named place in the
    /// images directory: the first commit of this content. The staging
    /// entry moved is the latest one under its name.
    pub fn commit(&mut self, staging_name: &String, hash: &String)
        requires
            !seq_has_str(old(self).originals@, hash@),
        ensures
            final(self).originals@ == old(self).originals@.push(*hash),
            final(self).thumbs == old(self).thumbs,
            (old(self).staging@.len() > 0 && old(self).staging@.last()@ == staging_name@)
                ==> final(self).staging@ == old(self).staging@.drop_last(),
            !seq_has_str(old(self).staging@, staging_name@) ==> final(self).staging@
                == old(self).staging@,
            final(self).staging@.len() <= old(self).staging@.len(),
            old(self).wf() ==> final(self).wf(),
    {
        proof {
            if old(self).wf() {
                let s = old(self).originals@.push(*hash);
                assert(forall|p: int| 0 <= p < s.len() - 1 ==> s[p] == old(self).originals@[p]);
                assert(no_dup_str(s));
            }
        }
        remove_last_str(&mut self.staging, staging_name);
        self.originals.push(hash.clone());
    }

    /// A thumbnail for `hash@` is written; writing over one that is
    /// already there leaves a single file.
    pub fn put_thumb(&mut self, hash: &String)
        ensures
            final(self).originals == old(self).originals,
            final(self).staging == old(self).staging,
            final(self).thumbs@ == if seq_has_str(old(self).thumbs@, hash@) {
                old(self).thumbs@
            } else {
                old(self).thumbs@.push(*hash)
            },
            old(self).wf() ==> final(self).wf(),
    {
        if !contains_str(&self.thumbs, hash) {
            proof {
                if old(self).wf() {
                    let s = old(self).thumbs@.push(*hash);
                    assert(forall|p: int| 0 <= p < s.len() - 1 ==> s[p] == old(self).thumbs@[p]);
                    assert(no_dup_str(s));
                }
            }
            self.thumbs.push(hash.clone());
        }
    }

    /// Best-effort removal of the original for `hash@`, if it is there.
    pub fn remove_original(&mut self, hash: &String)
        ensures
            final(self).thumbs == old(self).thumbs,
            final(self).staging == old(self).staging,
            match first_str_index(old(self).originals@, hash@) {
                Some(i) => final(self).originals@ == old(self).originals@.remove(i),
                None => final(self).originals@ == old(self).originals@,
            },
            !seq_has_str(final(self).originals@, hash@) || !old(self).wf(),
            old(self).wf() ==> final(self).wf(),
    {
        proof {
            if old(self).wf() {
                match first_str_index(old(self).originals@, hash@) {
                    Some(i) => {
                        lemma_removed_unique(old(self).originals@, hash@);
                    },
                    None => {
                        lemma_first_index_none_means_absent(old(self).originals@, hash@);
                    },
                }
            }
        }
        remove_first_str(&mut self.originals, hash);
        proof {
            if old(self).wf() {
                if let Some(i) = first_str_index(old(self).originals@, hash@) {
                    lemma_no_dup_remove(old(self).originals@, i);
                }
            }
        }
    }

    /// Best-effort removal of the thumbnail for `hash@`, if it is there.
    pub fn remove_thumb(&mut self, hash: &String)
        ensures
            final(self).originals == old(self).originals,
            final(self).staging == old(self).staging,
            match first_str_index(old(self).thumbs@, hash@) {
                Some(i) => final(self).thumbs@ == old(self).thumbs@.remove(i),
                None => final(self).thumbs@ == old(self).thumbs@,
            },
            !seq_has_str(final(self).thumbs@, hash@) || !old(self).wf(),
            old(self).wf() ==> final(self).wf(),
    {
        proof {
            if old(self).wf() {
                match first_str_index(old(self).thumbs@, hash@) {
                    Some(i) => {
                        lemma_removed_unique(old(self).thumbs@, hash@);
                    },
                    None => {
                        lemma_first_index_none_means_absent(old(self).thumbs@, hash@);
                    },
                }
            }
        }
        remove_first_str(&mut self.thumbs, hash);
        proof {
            if old(self).wf() {
                if let Some(i) = first_str_index(old(self).thumbs@, hash@) {
                    lemma_no_dup_remove(old(self).thumbs@, i);
                }
            }
        }
    }
}

/// When a sequence holds no duplicates, removing the first occurrence of a
/// view leaves no occurrence of it.
proof fn lemma_removed_unique(s: Seq<String>, x: Seq<char>)
    requires
        no_dup_str(s),
        first_str_index(s, x) matches Some(i),
    ensures
        (first_str_index(s, x) matches Some(i) ==> 0 <= i < s.len() && s[i]@ == x
            && !seq_has_str(s.remove(i), x)),
    decreases s.len(),
{
    let i = first_str_index(s, x).unwrap();
    lemma_first_index_is_first(s, x);
    if seq_has_str(s.remove(i), x) {
        let j = choose|j: int| 0 <= j < s.remove(i).len() && s.remove(i)[j]@ == x;
        if j < i {
            assert(s[j]@ == x);
        } else {
            assert(s[j + 1]@ == x);
        }
    }
}

/// What `first_str_index` points to is a match, preceded by no match.
proof fn lemma_first_index_is_first(s: Seq<String>, x: Seq<char>)
    ensures
        match first_str_index(s, x) {
            Some(i) => 0 <= i < s.len() && s[i]@ == x && (forall|j: int|
                0 <= j < i ==> s[j]@ != x),
            None => true,
        },
    decreases s.len(),
{
    if s.len() != 0 && s[0]@ != x {
        lemma_first_index_is_first(s.drop_first(), x);
        if let Some(i) = first_str_index(s.drop_first(), x) {
            assert(s[i + 1] == s.drop_first()[i]);
            assert(forall|j: int| 1 <= j < i + 1 ==> s[j] == s.drop_first()[j - 1]);
        }
    }
}

proof fn lemma_first_index_none_means_absent(s: Seq<String>, x: Seq<char>)
    requires
        first_str_index(s, x) == None::<int>,
    ensures
        !seq_has_str(s, x),
    decreases s.len(),
{
    if s.len() != 0 {
        lemma_first_index_none_means_absent(s.drop_first(), x);
        if seq_has_str(s, x) {
            let j = choose|j: int| 0 <= j < s.len() && s[j]@ == x;
            assert(j > 0);
            assert(s.drop_first()[j - 1]@ == x);
        }
    }
}

} // verus!
