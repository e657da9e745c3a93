use vstd::prelude::*;

verus! {

/// One stored image: a logical name chosen by the uploader, a free-form
/// description, the lowercase hex digest of the file's bytes, and the
/// creation time as a Unix timestamp in seconds.
#[derive(Debug)]
pub struct ImageMeta {
    pub name: String,
    pub desc: String,
    pub hash: String,
    pub created_at: i64,
}

impl Clone for ImageMeta {
    fn clone(&self) -> (r: Self)
        ensures
            r == *self,
    {
        ImageMeta {
            name: self.name.clone(),
            desc: self.desc.clone(),
            hash: self.hash.clone(),
            created_at: self.created_at,
        }
    }
}

/// `x` occurs among the record names of `s`.
pub open spec fn seq_has_name(s: Seq<ImageMeta>, x: Seq<char>) -> bool {
    exists|i: int| 0 <= i < s.len() && s[i].name@ == x
}

/// Some record in `s` carries content hash `h`.
pub open spec fn seq_has_hash(s: Seq<ImageMeta>, h: Seq<char>) -> bool {
    exists|i: int| 0 <= i < s.len() && s[i].hash@ == h
}

/// Index of the first record in `s` named `x`, if any.
pub open spec fn first_name_index(s: Seq<ImageMeta>, x: Seq<char>) -> Option<int>
    decreases s.len(),
{
    if s.len() == 0 {
        None
    } else if s[0].name@ == x {
        Some(0int)
    } else {
        match first_name_index(s.drop_first(), x) {
            None => None,
            Some(i) => Some(i + 1),
        }
    }
}

pub proof fn lemma_first_name_index(s: Seq<ImageMeta>, x: Seq<char>, i: int)
    requires
        0 <= i < s.len(),
        s[i].name@ == x,
        forall|j: int| 0 <= j < i ==> s[j].name@ != x,
    ensures
        first_name_index(s, x) == Some(i),
    decreases s.len(),
{
    if s[0].name@ != x {
        assert(s.drop_first()[i - 1].name@ == x);
        lemma_first_name_index(s.drop_first(), x, i - 1);
    }
}

pub proof fn lemma_first_name_index_none(s: Seq<ImageMeta>, x: Seq<char>)
    requires
        !seq_has_name(s, x),
    ensures
        first_name_index(s, x) == None::<int>,
    decreases s.len(),
{
    if s.len() != 0 {
        assert(s[0].name@ != x);
        assert(!seq_has_name(s.drop_first(), x)) by {
            if seq_has_name(s.drop_first(), x) {
                let j = choose|j: int|
                    0 <= j < s.drop_first().len() && s.drop_first()[j].name@ == x;
                assert(s[j + 1].name@ == x);
            }
        }
        lemma_first_name_index_none(s.drop_first(), x);
    }
}

/// What `first_name_index` returns is a position of `x`, and the first one.
pub proof fn lemma_first_name_index_is_match(s: Seq<ImageMeta>, x: Seq<char>)
    ensures
        match first_name_index(s, x) {
            Some(i) => 0 <= i < s.len() && s[i].name@ == x && (forall|j: int|
                0 <= j < i ==> s[j].name@ != x),
            None => !seq_has_name(s, x),
        },
    decreases s.len(),
{
    if s.len() != 0 && s[0].name@ != x {
        lemma_first_name_index_is_match(s.drop_first(), x);
        match first_name_index(s.drop_first(), x) {
            Some(i) => {
                assert(s[i + 1] == s.drop_first()[i]);
                assert(forall|j: int| 0 <= j < i + 1 ==> {
                    j == 0 || s[j] == s.drop_first()[j - 1]
                });
            },
            None => {
                if seq_has_name(s, x) {
                    let j = choose|j: int| 0 <= j < s.len() && s[j].name@ == x;
                    assert(s.drop_first()[j - 1].name@ == x);
                }
            },
        }
    }
}

/// Whether any record in `v` carries content hash `h@`.
pub fn any_hash(v: &Vec<ImageMeta>, h: &String) -> (r: bool)
    ensures
        r == seq_has_hash(v@, h@),
{
    let n: usize = v.len();
    for i in 0..n
        invariant
            n == v@.len(),
            forall|j: int| 0 <= j < i ==> v@[j].hash@ != h@,
    {
        if v[i].hash.eq(h) {
            return true;
        }
    }
    false
}

/// Position of the first record in `v` named `x@`.
pub fn find_name(v: &Vec<ImageMeta>, x: &String) -> (r: Option<usize>)
    ensures
        r matches Some(i) ==> first_name_index(v@, x@) == Some(i as int),
        r is None ==> first_name_index(v@, x@) == None::<int>,
{
    let n: usize = v.len();
    for i in 0..n
        invariant
            n == v@.len(),
            forall|j: int| 0 <= j < i ==> v@[j].name@ != x@,
    {
        if v[i].name.eq(x) {
            proof {
                lemma_first_name_index(v@, x@, i as int);
            }
            return Some(i);
        }
    }
    proof {
        lemma_first_name_index_none(v@, x@);
    }
    None
}

} // verus!
