use vstd::prelude::*;

use crate::config::AppConfig;
use crate::externals::sha256_hex_of;
use crate::listing::spec_list_data;
use crate::listing::spec_skip;
use crate::meta::ImageMeta;
use crate::meta::first_name_index;
use crate::meta::lemma_first_name_index;
use crate::meta::seq_has_hash;
use crate::deletion::spec_delete_records;
use crate::store::ContentStore;
use crate::strutil::count_str;
use crate::strutil::lemma_count_str_positive;
use crate::strutil::lemma_no_dup_count;
use crate::strutil::seq_has_str;
use crate::upload::FsOutcomes;
use crate::upload::spec_upload_accepted;

verus! {

/// Appending one string adds one to the count of its view and nothing to
/// any other view's count.
proof fn lemma_count_push(s: Seq<String>, w: String, x: Seq<char>)
    ensures
        count_str(s.push(w), x) == count_str(s, x) + (if w@ == x {
            1int
        } else {
            0int
        }),
    decreases s.len(),
{
    if s.len() == 0 {
        assert(s.push(w).drop_first() =~= s);
    } else {
        assert(s.push(w).drop_first() =~= s.drop_first().push(w));
        lemma_count_push(s.drop_first(), w, x);
    }
}

/// Idempotence of upload: two accepted uploads of the same bytes — under
/// any names and descriptions — append two records carrying one and the
/// same content hash, the second upload adds no file to the images
/// directory, and exactly one stored original carries that hash.
pub proof fn lemma_upload_idempotent(
    c0: AppConfig,
    s0: ContentStore,
    c1: AppConfig,
    s1: ContentStore,
    c2: AppConfig,
    s2: ContentStore,
    n1: Seq<char>,
    d1: Seq<char>,
    n2: Seq<char>,
    d2: Seq<char>,
    bytes: Seq<u8>,
    fs1: FsOutcomes,
    fs2: FsOutcomes,
)
    requires
        s0.wf(),
        s1.wf(),
        spec_upload_accepted(c0, s0, c1, s1, n1, d1, sha256_hex_of(bytes), fs1),
        spec_upload_accepted(c1, s1, c2, s2, n2, d2, sha256_hex_of(bytes), fs2),
    ensures
        c1.images@.last().hash@ == c2.images@.last().hash@,
        s2.originals@ == s1.originals@,
        count_str(s2.originals@, sha256_hex_of(bytes)) == 1,
{
    let h = sha256_hex_of(bytes);
    if seq_has_str(s0.originals@, h) {
        lemma_no_dup_count(s0.originals@, h);
    } else {
        let pushed = s0.originals@.push(s1.originals@.last());
        assert(s1.originals@ =~= pushed);
        lemma_count_push(s0.originals@, s1.originals@.last(), h);
        lemma_count_str_positive(s0.originals@, h);
        assert(s1.originals@[s0.originals@.len() as int]@ == h);
        assert(seq_has_str(s1.originals@, h));
    }
    assert(seq_has_str(s1.originals@, h));
}

/// Deletion dedup-awareness: with exactly the records at `ia` and `ib`
/// referencing hash `H`, and each found first under its own name,
/// deleting the record named `na` still leaves `H` referenced (so its
/// files stay), and deleting the record named `nb` afterwards leaves `H`
/// unreferenced (so its files go).
pub proof fn lemma_delete_dedup_awareness(
    images: Seq<ImageMeta>,
    ia: int,
    ib: int,
    na: Seq<char>,
    nb: Seq<char>,
)
    requires
        0 <= ia < images.len(),
        0 <= ib < images.len(),
        ia != ib,
        images[ia].hash@ == images[ib].hash@,
        images[ia].name@ == na,
        images[ib].name@ == nb,
        first_name_index(images, na) == Some(ia),
        forall|k: int|
            0 <= k < images.len() ==> ((#[trigger] images[k].hash@) == images[ia].hash@ ==> (k
                == ia || k == ib)),
        forall|k: int| 0 <= k < images.len() ==> ((#[trigger] images[k].name@) == nb ==> k == ib),
    ensures
        spec_delete_records(images, na) matches Some((rem, removed)) && {
            let (rem, removed) = spec_delete_records(images, na).unwrap();
            &&& removed.hash@ == images[ia].hash@
            &&& seq_has_hash(rem, removed.hash@)
            &&& spec_delete_records(rem, nb) matches Some((rem2, removed2)) && {
                let (rem2, removed2) = spec_delete_records(rem, nb).unwrap();
                removed2.hash@ == images[ia].hash@ && !seq_has_hash(rem2, images[ia].hash@)
            }
        },
{
    let h = images[ia].hash@;
    let rem = images.remove(ia);
    let ibr: int = if ib < ia {
        ib
    } else {
        ib - 1
    };
    assert(rem[ibr] == images[ib]);
    assert(seq_has_hash(rem, h));
    assert(forall|j: int| 0 <= j < rem.len() ==> #[trigger] rem[j] == (if j < ia {
        images[j]
    } else {
        images[j + 1]
    }));
    assert(forall|j: int| 0 <= j < ibr ==> rem[j].name@ != nb);
    lemma_first_name_index(rem, nb, ibr);
    let rem2 = rem.remove(ibr);
    assert(forall|j: int| 0 <= j < rem2.len() ==> #[trigger] rem2[j] == (if j < ibr {
        rem[j]
    } else {
        rem[j + 1]
    }));
    assert(!seq_has_hash(rem2, h)) by {
        if seq_has_hash(rem2, h) {
            let j = choose|j: int| 0 <= j < rem2.len() && rem2[j].hash@ == h;
            let jr: int = if j < ibr {
                j
            } else {
                j + 1
            };
            let ji: int = if jr < ia {
                jr
            } else {
                jr + 1
            };
            assert(rem2[j] == images[ji]);
        }
    }
}

/// The first page of size `k` holds the newest records: its `j`-th entry
/// is the record inserted `j`-th from the end — descending creation
/// order, for an index appended to in creation order.
pub proof fn lemma_first_page_newest(images: Seq<ImageMeta>, k: int, j: int)
    requires
        1 <= k,
        0 <= j < k,
        j < images.len(),
    ensures
        spec_list_data(images, 1, k)[j] == images[images.len() - 1 - j],
{
    assert(spec_skip(1, k, images.len() as int) == 0);
    assert(spec_list_data(images, 1, k)[j] == images.reverse()[j]);
}

/// Pagination partitions: with a fixed page size, the `i`-th newest
/// record lies on page `i / ps + 1` at offset `i % ps`, and on no other
/// page — pages cover the reversed index exactly once, with no gaps and
/// no overlaps.
pub proof fn lemma_pagination_partition(images: Seq<ImageMeta>, ps: int, p: int, i: int)
    requires
        1 <= ps,
        1 <= p,
        0 <= i < images.len(),
    ensures
        p == i / ps + 1 ==> {
            let data = spec_list_data(images, p, ps);
            0 <= i - (p - 1) * ps < data.len() && data[i - (p - 1) * ps] == images.reverse()[i]
        },
        p != i / ps + 1 ==> {
            let data = spec_list_data(images, p, ps);
            let skip = spec_skip(p, ps, images.len() as int);
            !(skip <= i < skip + data.len())
        },
{
    let total = images.len() as int;
    vstd::arithmetic::div_mod::lemma_fundamental_div_mod(i, ps);
    vstd::arithmetic::div_mod::lemma_mod_division_less_than_divisor(i, ps);
    let q = i / ps;
    assert(i == ps * q + i % ps);
    if p == q + 1 {
        assert((p - 1) * ps == ps * q) by (nonlinear_arith)
            requires
                p == q + 1,
        ;
        assert((p - 1) * ps <= i < (p - 1) * ps + ps);
        assert(spec_skip(p, ps, total) == (p - 1) * ps);
    } else {
        let skip = spec_skip(p, ps, total);
        if (p - 1) * ps > total {
        } else {
            assert((p - 1) * ps == ps * (p - 1)) by (nonlinear_arith);
            if p < q + 1 {
                assert(ps * (p - 1) + ps <= ps * q) by (nonlinear_arith)
                    requires
                        p <= q,
                        ps >= 1,
                ;
                assert(skip + ps <= i);
            } else {
                assert(ps * q + ps <= ps * (p - 1)) by (nonlinear_arith)
                    requires
                        q < p - 1,
                        ps >= 1,
                ;
                assert(i < skip);
            }
        }
    }
}

} // verus!
