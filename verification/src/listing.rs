use vstd::prelude::*;

use crate::meta::ImageMeta;

verus! {

/// Page selection as it arrives from the caller; both parts are optional.
#[derive(Debug)]
pub struct ListParams {
    pub page: Option<usize>,
    pub page_size: Option<usize>,
}

/// One page of the listing: the record count of the whole index, the page
/// number and size actually used, and the records of the page.
#[derive(Debug)]
pub struct ListPage {
    pub total: usize,
    pub page: usize,
    pub page_size: usize,
    pub data: Vec<ImageMeta>,
}

/// The page number used: the given one, at least 1; 1 when absent.
pub open spec fn spec_page_num(p: Option<usize>) -> int {
    match p {
        Some(n) => if n >= 1 {
            n as int
        } else {
            1
        },
        None => 1,
    }
}

/// The page size used: the given one clamped to [1, 100]; 20 when absent.
pub open spec fn spec_page_size(p: Option<usize>) -> int {
    match p {
        Some(n) => if n < 1 {
            1
        } else if n > 100 {
            100
        } else {
            n as int
        },
        None => 20,
    }
}

/// How many leading records of the reversed index the page skips,
/// capped at the index length.
pub open spec fn spec_skip(page: int, size: int, total: int) -> int {
    if (page - 1) * size > total {
        total
    } else {
        (page - 1) * size
    }
}

/// The records of the page: newest first, `skip` of them passed over,
/// at most `size` of them taken.
pub open spec fn spec_list_data(images: Seq<ImageMeta>, page: int, size: int) -> Seq<ImageMeta> {
    let total = images.len() as int;
    let skip = spec_skip(page, size, total);
    let end = if skip + size > total {
        total
    } else {
        skip + size
    };
    images.reverse().subrange(skip, end)
}

/// Builds one page of the listing, newest records first.
pub fn list_images(images: &Vec<ImageMeta>, params: &ListParams) -> (r: ListPage)
    ensures
        r.total == images@.len(),
        r.page == spec_page_num(params.page),
        r.page_size == spec_page_size(params.page_size),
        r.data@ == spec_list_data(images@, r.page as int, r.page_size as int),
{
    let page: usize = match params.page {
        Some(n) => if n >= 1 {
            n
        } else {
            1
        },
        None => 1,
    };
    let page_size: usize = match params.page_size {
        Some(n) => if n < 1 {
            1
        } else if n > 100 {
            100
        } else {
            n
        },
        None => 20,
    };
    let total: usize = images.len();
    let skip: usize = match (page - 1).checked_mul(page_size) {
        Some(s) => if s > total {
            total
        } else {
            s
        },
        None => total,
    };
    assert(skip == spec_skip(page as int, page_size as int, total as int));
    let count: usize = if total - skip < page_size {
        total - skip
    } else {
        page_size
    };
    let mut data: Vec<ImageMeta> = Vec::new();
    let mut k: usize = 0;
    while k < count
        invariant
            count <= total - skip,
            skip + count <= total,
            count <= page_size,
            k <= count,
            total == images@.len(),
            data@.len() == k,
            forall|j: int| 0 <= j < k ==> data@[j] == images@[total - 1 - skip - j],
        decreases count - k,
    {
        data.push(images[total - 1 - skip - k].clone());
        k += 1;
    }
    proof {
        let ghost spec_data = spec_list_data(images@, page as int, page_size as int);
        assert(spec_data.len() == count);
        assert(forall|j: int| 0 <= j < count ==> spec_data[j] == images@.reverse()[skip + j]);
        assert(data@ =~= spec_data);
    }
    ListPage { total, page, page_size, data }
}

} // verus!
