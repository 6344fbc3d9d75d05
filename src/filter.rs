use vstd::prelude::*;

use crate::outside::{lower_of, lowercase_chars};

verus! {

/// A case-insensitive name filter for browsing node kinds.
#[derive(Clone, Debug)]
pub struct NodeFilter {
    pub name: String,
}

/// Does `needle` occur in `hay` as a contiguous run.
pub open spec fn is_infix(hay: Seq<char>, needle: Seq<char>) -> bool {
    exists|i: int| 0 <= i && i + needle.len() <= hay.len() && #[trigger] hay.subrange(i, i + needle.len()) == needle
}

/// Does `needle` occur in `hay` as a contiguous run.
pub fn contains_chars(hay: &Vec<char>, needle: &Vec<char>) -> (r: bool)
    ensures
        r == is_infix(hay@, needle@),
{
    let n = needle.len();
    let hl = hay.len();
    if n > hl {
        return false;
    }
    let mut i: usize = 0;
    while i <= hl - n
        invariant
            n == needle@.len(),
            n <= hay@.len(),
            hl == hay@.len(),
            i <= hay@.len() - n + 1,
            forall|k: int| 0 <= k < i ==> #[trigger] hay@.subrange(k, k + n) != needle@,
        decreases hay@.len() + 1 - i,
    {
        let mut j: usize = 0;
        let mut same = true;
        while j < n
            invariant
                n == needle@.len(),
                n <= hay@.len(),
                hl == hay@.len(),
                i + n <= hay@.len(),
                j <= n,
                same == (forall|m: int| 0 <= m < j ==> hay@[i + m] == needle@[m]),
            decreases n - j,
        {
            assert(i + j < hl);
            let k: usize = i + j;
            if hay[k] != needle[j] {
                same = false;
            }
            j = j + 1;
        }
        if same {
            assert(hay@.subrange(i as int, i + n) =~= needle@);
            return true;
        }
        assert(hay@.subrange(i as int, i + n) != needle@) by {
            let m = choose|m: int| 0 <= m < n && hay@[i + m] != needle@[m];
            assert(hay@.subrange(i as int, i + n)[m] != needle@[m]);
        }
        i = i + 1;
    }
    false
}

impl NodeFilter {
    /// Does `name` contain the filter text, ignoring case.
    pub fn matches(&self, name: &str) -> (r: bool)
        ensures
            r == is_infix(lower_of(name@), lower_of(self.name@)),
    {
        let hay = lowercase_chars(name);
        let needle = lowercase_chars(self.name.as_str());
        contains_chars(&hay, &needle)
    }
}

} // verus!
