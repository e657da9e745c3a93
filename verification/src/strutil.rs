use vstd::prelude::*;

verus! {

/// `x` occurs among the views of the strings in `s`.
pub open spec fn seq_has_str(s: Seq<String>, x: Seq<char>) -> bool {
    exists|i: int| 0 <= i < s.len() && s[i]@ == x
}

/// How many strings in `s` have view `x`.
pub open spec fn count_str(s: Seq<String>, x: Seq<char>) -> int
    decreases s.len(),
{
    if s.len() == 0 {
        0
    } else {
        (if s[0]@ == x { 1int } else { 0int }) + count_str(s.drop_first(), x)
    }
}

/// Index of the first string in `s` with view `x`, if any.
pub open spec fn first_str_index(s: Seq<String>, x: Seq<char>) -> Option<int>
    decreases s.len(),
{
    if s.len() == 0 {
        None
    } else if s[0]@ == x {
        Some(0int)
    } else {
        match first_str_index(s.drop_first(), x) {
            None => None,
            Some(i) => Some(i + 1),
        }
    }
}

/// No two strings in `s` share a view.
pub open spec fn no_dup_str(s: Seq<String>) -> bool {
    forall|i: int, j: int| 0 <= i < j < s.len() ==> s[i]@ != s[j]@
}

pub proof fn lemma_count_str_positive(s: Seq<String>, x: Seq<char>)
    ensures
        count_str(s, x) >= 0,
        seq_has_str(s, x) <==> count_str(s, x) > 0,
    decreases s.len(),
{
    if s.len() != 0 {
        lemma_count_str_positive(s.drop_first(), x);
        if seq_has_str(s, x) {
            let i = choose|i: int| 0 <= i < s.len() && s[i]@ == x;
            if i > 0 {
                assert(s.drop_first()[i - 1]@ == x);
            }
        }
        if seq_has_str(s.drop_first(), x) {
            let i = choose|i: int| 0 <= i < s.drop_first().len() && s.drop_first()[i]@ == x;
            assert(s[i + 1]@ == x);
        }
    }
}

pub proof fn lemma_no_dup_count(s: Seq<String>, x: Seq<char>)
    requires
        no_dup_str(s),
        seq_has_str(s, x),
    ensures
        count_str(s, x) == 1,
    decreases s.len(),
{
    let i = choose|i: int| 0 <= i < s.len() && s[i]@ == x;
    if s[0]@ == x {
        assert(!seq_has_str(s.drop_first(), x)) by {
            if seq_has_str(s.drop_first(), x) {
                let j = choose|j: int| 0 <= j < s.drop_first().len() && s.drop_first()[j]@ == x;
                assert(s[j + 1]@ == x);
            }
        }
        lemma_count_str_positive(s.drop_first(), x);
    } else {
        assert(s.drop_first()[i - 1]@ == x);
        assert(no_dup_str(s.drop_first())) by {
            assert(forall|p: int, q: int|
                0 <= p < q < s.drop_first().len() ==> s.drop_first()[p]@ == s[p + 1]@
                    && s.drop_first()[q]@ == s[q + 1]@);
        }
        lemma_no_dup_count(s.drop_first(), x);
    }
}

/// Whether `v` holds a string with view `x@`.
pub fn contains_str(v: &Vec<String>, x: &String) -> (r: bool)
    ensures
        r == seq_has_str(v@, x@),
{
    let n: usize = v.len();
    for i in 0..n
        invariant
            n == v@.len(),
            forall|j: int| 0 <= j < i ==> v@[j]@ != x@,
    {
        if v[i].eq(x) {
            return true;
        }
    }
    false
}

/// Position of the first string in `v` with view `x@`.
pub fn find_str(v: &Vec<String>, x: &String) -> (r: Option<usize>)
    ensures
        match r {
            Some(i) => 0 <= i < v@.len() && v@[i as int]@ == x@ && (forall|j: int|
                0 <= j < i ==> v@[j]@ != x@),
            None => !seq_has_str(v@, x@),
        },
{
    let n: usize = v.len();
    for i in 0..n
        invariant
            n == v@.len(),
            forall|j: int| 0 <= j < i ==> v@[j]@ != x@,
    {
        if v[i].eq(x) {
            return Some(i);
        }
    }
    None
}

/// Relates a first-match characterization to `first_str_index`.
pub proof fn lemma_first_str_index(s: Seq<String>, x: Seq<char>, i: int)
    requires
        0 <= i < s.len(),
        s[i]@ == x,
        forall|j: int| 0 <= j < i ==> s[j]@ != x,
    ensures
        first_str_index(s, x) == Some(i),
    decreases s.len(),
{
    if s[0]@ != x {
        assert(forall|j: int| 0 <= j < i - 1 ==> s.drop_first()[j]@ == s[j + 1]@);
        assert(s.drop_first()[i - 1]@ == x);
        lemma_first_str_index(s.drop_first(), x, i - 1);
    }
}

pub proof fn lemma_first_str_index_none(s: Seq<String>, x: Seq<char>)
    requires
        !seq_has_str(s, x),
    ensures
        first_str_index(s, x) == None::<int>,
    decreases s.len(),
{
    if s.len() != 0 {
        assert(s[0]@ != x);
        assert(!seq_has_str(s.drop_first(), x)) by {
            if seq_has_str(s.drop_first(), x) {
                let j = choose|j: int| 0 <= j < s.drop_first().len() && s.drop_first()[j]@ == x;
                assert(s[j + 1]@ == x);
            }
        }
        lemma_first_str_index_none(s.drop_first(), x);
    }
}

/// Removes the first string with view `x@` from `v`, if one is there.
pub fn remove_first_str(v: &mut Vec<String>, x: &String)
    ensures
        match first_str_index(old(v)@, x@) {
            Some(i) => final(v)@ == old(v)@.remove(i),
            None => final(v)@ == old(v)@,
        },
{
    let idx = find_str(v, x);
    proof {
        match idx {
            Some(i) => lemma_first_str_index(v@, x@, i as int),
            None => lemma_first_str_index_none(v@, x@),
        }
    }
    if let Some(i) = idx {
        v.remove(i);
    }
}

/// Removing one string keeps every string of a different view present.
pub proof fn lemma_remove_keeps_others(s: Seq<String>, i: int, g: Seq<char>)
    requires
        0 <= i < s.len(),
        seq_has_str(s, g),
        s[i]@ != g,
    ensures
        seq_has_str(s.remove(i), g),
{
    let j = choose|j: int| 0 <= j < s.len() && s[j]@ == g;
    if j < i {
        assert(s.remove(i)[j]@ == g);
    } else {
        assert(s.remove(i)[j - 1]@ == g);
    }
}

/// Removes the last string with view `x@` from `v`, if one is there.
/// A staging directory is cleaned this way: the entry this request wrote
/// is the latest one under its name.
pub fn remove_last_str(v: &mut Vec<String>, x: &String)
    ensures
        (old(v)@.len() > 0 && old(v)@.last()@ == x@) ==> final(v)@ == old(v)@.drop_last(),
        !seq_has_str(old(v)@, x@) ==> final(v)@ == old(v)@,
        final(v)@.len() <= old(v)@.len(),
{
    let n: usize = v.len();
    let mut i: usize = n;
    while i > 0
        invariant
            n == old(v)@.len(),
            v@ == old(v)@,
            i <= n,
            forall|j: int| i <= j < n ==> v@[j]@ != x@,
        decreases i,
    {
        i = i - 1;
        if v[i].eq(x) {
            v.remove(i);
            proof {
                if i + 1 == n {
                    assert(old(v)@.remove(n - 1) =~= old(v)@.drop_last());
                }
            }
            return;
        }
    }
}

/// Removing an element cannot introduce a duplicate view.
pub proof fn lemma_no_dup_remove(s: Seq<String>, i: int)
    requires
        no_dup_str(s),
        0 <= i < s.len(),
    ensures
        no_dup_str(s.remove(i)),
{
    assert(forall|p: int| 0 <= p < s.remove(i).len() ==> #[trigger] s.remove(i)[p] == (if p < i {
        s[p]
    } else {
        s[p + 1]
    }));
}

/// `dir` and `name` joined by a single separator.
pub fn path_join(dir: &String, name: &String) -> (r: String)
    ensures
        r@ == dir@ + "/"@ + name@,
{
    let mut s = dir.clone();
    s.append("/");
    s.append(name.as_str());
    s
}

} // verus!
