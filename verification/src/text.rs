//! Small string helpers shared by the id and wire handling.

use vstd::prelude::*;

verus! {

/// String-slice equality, pinned to the views.
pub fn str_eq(a: &str, b: &str) -> (r: bool)
    ensures
        r == (a@ == b@),
{
    let sa = String::from_str(a);
    let sb = String::from_str(b);
    sa == sb
}

/// Whether a `::` separator starts at position `i`.
pub open spec fn sep_at(s: Seq<char>, i: int) -> bool {
    i + 2 <= s.len() && s[i] == ':' && s[i + 1] == ':'
}

/// The position of the first `::` at or after `i`, or the length when none
/// follows. Matches are found left to right and do not overlap a match
/// already skipped past.
pub open spec fn first_sep_from(s: Seq<char>, i: int) -> int
    decreases s.len() - i,
    when 0 <= i <= s.len()
{
    if i + 2 > s.len() {
        s.len() as int
    } else if s[i] == ':' && s[i + 1] == ':' {
        i
    } else {
        first_sep_from(s, i + 1)
    }
}

/// What `first_sep_from` returns: the first separator position in range, or
/// the length when the tail holds none.
pub proof fn lemma_first_sep_from(s: Seq<char>, i: int)
    requires
        0 <= i <= s.len(),
    ensures
        ({
            let r = first_sep_from(s, i);
            &&& i <= r <= s.len()
            &&& r < s.len() ==> sep_at(s, r)
            &&& forall|j: int| i <= j < r ==> !sep_at(s, j)
        }),
    decreases s.len() - i,
{
    if i + 2 > s.len() {
    } else if s[i] == ':' && s[i + 1] == ':' {
    } else {
        lemma_first_sep_from(s, i + 1);
    }
}

/// The position of the first `::` at or after `from`, or the length when
/// none follows.
pub fn find_sep(s: &str, from: usize) -> (r: usize)
    requires
        from <= s@.len(),
    ensures
        r == first_sep_from(s@, from as int),
{
    let n = s.unicode_len();
    let mut i = from;
    while i < n && i + 1 < n
        invariant
            n == s@.len(),
            from <= i <= n,
            first_sep_from(s@, from as int) == first_sep_from(s@, i as int),
        decreases n - i,
    {
        if s.get_char(i) == ':' && s.get_char(i + 1) == ':' {
            return i;
        }
        i = i + 1;
    }
    n
}

/// The leaf segment of a command id: what stands between the second `::`
/// and the following `::` or the end. Ids with fewer than two separators
/// have none.
pub open spec fn leaf_of(s: Seq<char>) -> Option<Seq<char>> {
    let p1 = first_sep_from(s, 0);
    if p1 == s.len() {
        None
    } else {
        let p2 = first_sep_from(s, p1 + 2);
        if p2 == s.len() {
            None
        } else {
            let p3 = first_sep_from(s, p2 + 2);
            Some(s.subrange(p2 + 2, p3))
        }
    }
}

/// The leaf segment of a command id, if it has one.
pub fn command_leaf(s: &str) -> (r: Option<String>)
    ensures
        match r {
            Some(l) => leaf_of(s@) == Some(l@),
            None => leaf_of(s@) is None,
        },
{
    let n = s.unicode_len();
    let p1 = find_sep(s, 0);
    if p1 == n {
        return None;
    }
    proof {
        lemma_first_sep_from(s@, 0);
    }
    let p2 = find_sep(s, p1 + 2);
    if p2 == n {
        return None;
    }
    proof {
        lemma_first_sep_from(s@, p1 + 2);
    }
    let p3 = find_sep(s, p2 + 2);
    proof {
        lemma_first_sep_from(s@, p2 + 2);
    }
    let sub = s.substring_char(p2 + 2, p3);
    Some(String::from_str(sub))
}

} // verus!
