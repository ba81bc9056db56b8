//! Splitting text on a delimiter, the way `str::split` and
//! `str::split_once` do, over the characters of a string.
use vstd::prelude::*;

verus! {

/// `pat` occurs in `s` starting at position `i`.
pub open spec fn occurs_at(s: Seq<char>, pat: Seq<char>, i: int) -> bool {
    0 <= i && i + pat.len() <= s.len() && s.subrange(i, i + pat.len()) == pat
}

/// Position of the first occurrence of `pat` in `s` at or after `pos`.
pub open spec fn first_from(s: Seq<char>, pat: Seq<char>, pos: int) -> Option<int>
    decreases s.len() + 1 - pos,
{
    if pos < 0 || pos + pat.len() > s.len() {
        None
    } else if occurs_at(s, pat, pos) {
        Some(pos)
    } else {
        first_from(s, pat, pos + 1)
    }
}

/// A position found by `first_from` is an occurrence at or after `pos`, and
/// no occurrence lies between the two.
pub proof fn lemma_first_from(s: Seq<char>, pat: Seq<char>, pos: int)
    requires
        0 <= pos,
    ensures
        first_from(s, pat, pos) matches Some(i) ==> pos <= i && occurs_at(s, pat, i)
            && forall|j: int| pos <= j < i ==> !occurs_at(s, pat, j),
        first_from(s, pat, pos) is None ==> forall|j: int| pos <= j ==> !occurs_at(s, pat, j),
    decreases s.len() + 1 - pos,
{
    if pos < 0 || pos + pat.len() > s.len() {
    } else if occurs_at(s, pat, pos) {
    } else {
        lemma_first_from(s, pat, pos + 1);
    }
}

/// `s` holds `pat` somewhere.
pub open spec fn contains_spec(s: Seq<char>, pat: Seq<char>) -> bool {
    first_from(s, pat, 0) is Some
}

/// The text before and after the first occurrence of `pat`, if any.
pub open spec fn split_once_spec(s: Seq<char>, pat: Seq<char>) -> Option<(Seq<char>, Seq<char>)> {
    match first_from(s, pat, 0) {
        Some(i) => Some((s.subrange(0, i), s.subrange(i + pat.len(), s.len() as int))),
        None => None,
    }
}

/// The pieces of `s` between occurrences of a non-empty `pat`, scanning left
/// to right: the current piece starts at `start` and `pos` is the next
/// position at which an occurrence may begin.
pub open spec fn split_scan(s: Seq<char>, pat: Seq<char>, start: int, pos: int) -> Seq<Seq<char>>
    decreases s.len() - pos,
{
    if pat.len() == 0 || pos < 0 || pos + pat.len() > s.len() {
        seq![s.subrange(start, s.len() as int)]
    } else if occurs_at(s, pat, pos) {
        seq![s.subrange(start, pos)] + split_scan(s, pat, pos + pat.len(), pos + pat.len())
    } else {
        split_scan(s, pat, start, pos + 1)
    }
}

/// The pieces of `s` between the occurrences of `pat`.
pub open spec fn split_spec(s: Seq<char>, pat: Seq<char>) -> Seq<Seq<char>> {
    split_scan(s, pat, 0, 0)
}

/// Views of a sequence of strings.
pub open spec fn views(v: Seq<String>) -> Seq<Seq<char>> {
    v.map_values(|x: String| x@)
}

/// The characters of `s`, one element each.
pub fn chars_of(s: &str) -> (r: Vec<char>)
    ensures
        r@ == s@,
{
    let n = s.unicode_len();
    let mut r: Vec<char> = Vec::new();
    let mut i: usize = 0;
    while i < n
        invariant
            n == s@.len(),
            i <= n,
            r@ == s@.subrange(0, i as int),
        decreases n - i,
    {
        r.push(s.get_char(i));
        i = i + 1;
    }
    assert(r@ =~= s@);
    r
}

/// Whether `pat` occurs in `s` at position `i`.
pub fn matches_at(s: &Vec<char>, pat: &Vec<char>, i: usize) -> (r: bool)
    ensures
        r == occurs_at(s@, pat@, i as int),
{
    let n = s.len();
    if i > n || pat.len() > n - i {
        return false;
    }
    let mut k: usize = 0;
    while k < pat.len()
        invariant
            n == s@.len(),
            i + pat@.len() <= s@.len(),
            k <= pat@.len(),
            s@.subrange(i as int, i + k) == pat@.subrange(0, k as int),
        decreases pat@.len() - k,
    {
        if s[i + k] != pat[k] {
            assert(s@.subrange(i as int, i + pat@.len())[k as int] != pat@[k as int]);
            return false;
        }
        assert(s@.subrange(i as int, i + k + 1) =~= s@.subrange(i as int, i + k).push(s@[i + k]));
        assert(pat@.subrange(0, k + 1) =~= pat@.subrange(0, k as int).push(pat@[k as int]));
        k = k + 1;
    }
    assert(pat@.subrange(0, pat@.len() as int) =~= pat@);
    true
}

/// Position of the first occurrence of `pat` in `s` at or after `pos`.
pub fn find_from(s: &Vec<char>, pat: &Vec<char>, pos: usize) -> (r: Option<usize>)
    ensures
        r is None ==> first_from(s@, pat@, pos as int) is None,
        r matches Some(p) ==> first_from(s@, pat@, pos as int) == Some(p as int),
{
    let mut p: usize = pos;
    while p <= s.len() && pat.len() <= s.len() - p
        invariant
            pos <= p,
            first_from(s@, pat@, pos as int) == first_from(s@, pat@, p as int),
        decreases s@.len() - p,
    {
        if matches_at(s, pat, p) {
            return Some(p);
        }
        assert(pat@.len() > 0) by {
            if pat@.len() == 0 {
                assert(s@.subrange(p as int, p as int) =~= pat@);
            }
        }
        p = p + 1;
    }
    None
}

/// Whether `pat` occurs anywhere in `s`.
pub fn contains(s: &str, pat: &str) -> (r: bool)
    ensures
        r == contains_spec(s@, pat@),
{
    let cs = chars_of(s);
    let ps = chars_of(pat);
    find_from(&cs, &ps, 0).is_some()
}

/// The text before and after the first occurrence of `pat`.
pub fn split_once(s: &str, pat: &str) -> (r: Option<(String, String)>)
    ensures
        match split_once_spec(s@, pat@) {
            Some((a, b)) => r matches Some((x, y)) && x@ == a && y@ == b,
            None => r is None,
        },
{
    let cs = chars_of(s);
    let ps = chars_of(pat);
    proof {
        lemma_first_from(s@, pat@, 0);
    }
    match find_from(&cs, &ps, 0) {
        Some(i) => {
            let before = String::from_str(s.substring_char(0, i));
            let n = cs.len();
            let after = String::from_str(s.substring_char(i + ps.len(), n));
            Some((before, after))
        },
        None => None,
    }
}

/// The pieces of `s` between the occurrences of a non-empty `pat`.
pub fn split(s: &str, pat: &str) -> (r: Vec<String>)
    requires
        pat@.len() > 0,
    ensures
        views(r@) == split_spec(s@, pat@),
{
    let cs = chars_of(s);
    let ps = chars_of(pat);
    let n = cs.len();
    let mut pieces: Vec<String> = Vec::new();
    let mut start: usize = 0;
    let mut pos: usize = 0;
    while pos <= n && ps.len() <= n - pos
        invariant
            n == s@.len(),
            cs@ == s@,
            ps@ == pat@,
            ps@.len() > 0,
            start <= pos <= n,
            views(pieces@) + split_scan(s@, pat@, start as int, pos as int) == split_spec(s@, pat@),
        decreases n - pos,
    {
        if matches_at(&cs, &ps, pos) {
            let piece = String::from_str(s.substring_char(start, pos));
            proof {
                assert(views(pieces@.push(piece)) =~= views(pieces@).push(piece@));
                assert(views(pieces@).push(piece@) + split_scan(s@, pat@, (pos + pat@.len()) as int, (pos + pat@.len()) as int)
                    =~= views(pieces@) + split_scan(s@, pat@, start as int, pos as int));
            }
            pieces.push(piece);
            pos = pos + ps.len();
            start = pos;
        } else {
            pos = pos + 1;
        }
    }
    let last = String::from_str(s.substring_char(start, n));
    proof {
        assert(views(pieces@.push(last)) =~= views(pieces@) + seq![last@]);
    }
    pieces.push(last);
    pieces
}

} // verus!
