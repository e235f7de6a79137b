//! Verified string helpers: path components, substring search and
//! character replacement, each pinned to a spec function over sequences of
//! characters.

use vstd::prelude::*;

verus! {

/// Relies on std's `String::push`: appends exactly one character.
#[verifier::external_body]
pub fn push_char(s: &mut String, c: char)
    ensures
        final(s)@ == old(s)@.push(c),
{
    s.push(c);
}

/// `s` with every occurrence of `from` replaced by `to`.
pub open spec fn spec_replace_char(s: Seq<char>, from: char, to: char) -> Seq<char> {
    s.map_values(|c: char| if c == from { to } else { c })
}

pub fn replace_char(s: &str, from: char, to: char) -> (r: String)
    ensures
        r@ == spec_replace_char(s@, from, to),
{
    let n: usize = s.unicode_len();
    let mut out = String::new();
    let mut i: usize = 0;
    while i < n
        invariant
            i <= n,
            n == s@.len(),
            out@ == spec_replace_char(s@.take(i as int), from, to),
        decreases n - i,
    {
        let c = s.get_char(i);
        let d = if c == from {
            to
        } else {
            c
        };
        push_char(&mut out, d);
        proof {
            assert(s@.take(i + 1 as int).map_values(|c: char| if c == from { to } else { c })
                =~= s@.take(i as int).map_values(|c: char| if c == from { to } else { c }).push(
                if s@[i as int] == from {
                    to
                } else {
                    s@[i as int]
                },
            ));
        }
        i = i + 1;
    }
    proof {
        assert(s@.take(n as int) =~= s@);
    }
    out
}

} // verus!

verus! {

/// A path with its trailing separators removed.
pub open spec fn spec_rstrip_slash(s: Seq<char>) -> Seq<char>
    decreases s.len(),
{
    if s.len() > 0 && s.last() == '/' {
        spec_rstrip_slash(s.drop_last())
    } else {
        s
    }
}

/// The characters after the last separator.
pub open spec fn spec_last_component(s: Seq<char>) -> Seq<char>
    decreases s.len(),
{
    if s.len() == 0 {
        s
    } else if s.last() == '/' {
        Seq::empty()
    } else {
        spec_last_component(s.drop_last()).push(s.last())
    }
}

/// The file-name component of a path: the last component once trailing
/// separators are dropped; absent when that component is empty or names
/// the current or parent directory.
pub open spec fn spec_file_name(s: Seq<char>) -> Option<Seq<char>> {
    let c = spec_last_component(spec_rstrip_slash(s));
    if c.len() == 0 || c == "."@ || c == ".."@ {
        None
    } else {
        Some(c)
    }
}

/// A region free of separators that starts at a boundary is the last
/// component.
proof fn lemma_last_component_range(t: Seq<char>, j: int)
    requires
        0 <= j <= t.len(),
        forall|i: int| j <= i < t.len() ==> t[i] != '/',
        j == 0 || t[j - 1] == '/',
    ensures
        spec_last_component(t) == t.subrange(j, t.len() as int),
    decreases t.len(),
{
    if t.len() == j {
        if j == 0 {
            assert(t.subrange(0, 0) =~= t);
        } else {
            assert(t.last() == '/');
            assert(t.subrange(j, t.len() as int) =~= Seq::<char>::empty());
        }
    } else {
        assert(t.last() != '/');
        lemma_last_component_range(t.drop_last(), j);
        assert(t.drop_last().subrange(j, t.drop_last().len() as int).push(t.last()) =~= t.subrange(
            j,
            t.len() as int,
        ));
    }
}

/// The file-name component of a path, under the library's path model:
/// components separated by `/`, trailing separators ignored.
#[verifier::loop_isolation(false)]
#[verifier::rlimit(50)]
pub fn file_name(path: &str) -> (r: Option<String>)
    ensures
        r matches Some(f) ==> spec_file_name(path@) == Some(f@),
        r is None <==> spec_file_name(path@) is None,
{
    let n = path.unicode_len();
    proof {
        assert(path@.take(n as int) =~= path@);
    }
    let mut end: usize = n;
    while end > 0 && path.get_char(end - 1) == '/'
        invariant
            end <= n,
            n == path@.len(),
            spec_rstrip_slash(path@) == spec_rstrip_slash(path@.take(end as int)),
            forall|i: int| end <= i < n ==> path@[i] == '/',
        decreases end,
    {
        proof {
            assert(path@.take(end as int).last() == '/');
            assert(path@.take(end as int).drop_last() =~= path@.take(end - 1));
        }
        end = end - 1;
    }
    proof {
        assert(spec_rstrip_slash(path@.take(end as int)) == path@.take(end as int));
    }
    if end == 0 {
        proof {
            assert(path@.take(0) =~= Seq::<char>::empty());
        }
        return None;
    }
    let mut start: usize = end;
    while start > 0 && path.get_char(start - 1) != '/'
        invariant
            start <= end,
            end <= n,
            n == path@.len(),
            forall|i: int| start <= i < end ==> path@.take(end as int)[i] != '/',
        decreases start,
    {
        start = start - 1;
    }
    proof {
        lemma_last_component_range(path@.take(end as int), start as int);
        assert(path@.take(end as int).subrange(start as int, end as int) =~= path@.subrange(
            start as int,
            end as int,
        ));
    }
    let comp = path.substring_char(start, end);
    let dot = String::from_str(".");
    let dotdot = String::from_str("..");
    let owned = comp.to_owned();
    if owned == dot || owned == dotdot {
        None
    } else {
        proof {
            assert(comp@.len() > 0);
        }
        Some(owned)
    }
}

} // verus!

verus! {

/// Whether `pat` occurs in `s` at position `i`.
pub open spec fn spec_matches_at(s: Seq<char>, pat: Seq<char>, i: int) -> bool {
    0 <= i && i + pat.len() <= s.len() && s.subrange(i, i + pat.len() as int) == pat
}

/// Whether `pat` occurs anywhere in `s`.
pub open spec fn spec_contains_seq(s: Seq<char>, pat: Seq<char>) -> bool {
    exists|i: int| spec_matches_at(s, pat, i)
}

/// The first occurrence of `pat` in `s` at or after `i`.
pub open spec fn spec_first_match_from(s: Seq<char>, pat: Seq<char>, i: int) -> Option<int>
    decreases s.len() - i,
{
    if i < 0 || i + pat.len() > s.len() {
        None
    } else if pat.len() == 0 {
        Some(i)
    } else if s.subrange(i, i + pat.len() as int) == pat {
        Some(i)
    } else {
        spec_first_match_from(s, pat, i + 1)
    }
}

/// The first occurrence of `pat` in `s`.
pub open spec fn spec_first_match(s: Seq<char>, pat: Seq<char>) -> Option<int> {
    spec_first_match_from(s, pat, 0)
}

/// The first match from `i` is the leftmost match at or after `i`, and it
/// exists exactly when any match at or after `i` exists.
pub proof fn lemma_first_match_from(s: Seq<char>, pat: Seq<char>, i: int)
    requires
        i >= 0,
    ensures
        spec_first_match_from(s, pat, i) matches Some(j) ==> i <= j && spec_matches_at(s, pat, j)
            && forall|k: int| i <= k < j ==> !spec_matches_at(s, pat, k),
        spec_first_match_from(s, pat, i) is None ==> forall|k: int|
            k >= i ==> !spec_matches_at(s, pat, k),
    decreases s.len() - i,
{
    if i + pat.len() > s.len() {
        assert forall|k: int| k >= i implies !spec_matches_at(s, pat, k) by {}
    } else if pat.len() == 0 {
        assert(s.subrange(i, i + pat.len() as int) =~= pat);
    } else if s.subrange(i, i + pat.len() as int) == pat {
    } else {
        lemma_first_match_from(s, pat, i + 1);
    }
}

/// The first occurrence of `pat` in `s`, by character position.
#[verifier::loop_isolation(false)]
#[verifier::rlimit(50)]
pub fn index_of(s: &str, pat: &str) -> (r: Option<usize>)
    ensures
        r matches Some(j) ==> spec_first_match(s@, pat@) == Some(j as int),
        r is None <==> spec_first_match(s@, pat@) is None,
{
    let n = s.unicode_len();
    let m = pat.unicode_len();
    if m > n {
        proof {
            assert(spec_first_match_from(s@, pat@, 0) is None);
        }
        return None;
    }
    if m == 0 {
        proof {
            assert(s@.subrange(0, 0) =~= pat@);
        }
        return Some(0);
    }
    let mut i: usize = 0;
    while i <= n - m
        invariant
            i <= n,
            n == s@.len(),
            m == pat@.len(),
            1 <= m <= n,
            spec_first_match(s@, pat@) == spec_first_match_from(s@, pat@, i as int),
        decreases n - i,
    {
        let mut k: usize = 0;
        let mut matched = true;
        while k < m && matched
            invariant
                k <= m,
                i + m <= n,
                matched ==> forall|t: int| 0 <= t < k ==> s@[i + t] == pat@[t],
                !matched ==> !spec_matches_at(s@, pat@, i as int),
            decreases m - k + if matched {
                1int
            } else {
                0int
            },
        {
            if s.get_char(i + k) == pat.get_char(k) {
                k = k + 1;
            } else {
                proof {
                    if spec_matches_at(s@, pat@, i as int) {
                        assert(s@.subrange(i as int, i + m as int)[k as int] == pat@[k as int]);
                    }
                }
                matched = false;
            }
        }
        if matched {
            proof {
                assert(s@.subrange(i as int, i + m as int) =~= pat@);
                assert(spec_first_match_from(s@, pat@, i as int) == Some(i as int));
            }
            return Some(i);
        }
        proof {
            assert(spec_first_match_from(s@, pat@, i as int) == spec_first_match_from(
                s@,
                pat@,
                i + 1,
            ));
        }
        i = i + 1;
    }
    proof {
        assert(spec_first_match_from(s@, pat@, i as int) is None);
    }
    None
}

/// Whether `pat` occurs anywhere in `s`.
pub fn contains_sub(s: &str, pat: &str) -> (r: bool)
    ensures
        r == spec_contains_seq(s@, pat@),
{
    let r = index_of(s, pat);
    proof {
        lemma_first_match_from(s@, pat@, 0);
        if spec_contains_seq(s@, pat@) {
            let j = choose|i: int| spec_matches_at(s@, pat@, i);
            assert(j >= 0);
        }
    }
    match r {
        Some(_) => true,
        None => false,
    }
}

} // verus!

verus! {

/// The parent of a path: everything before the last component, without the
/// separator.  Absent when the path has no separator left of its last
/// component.
pub open spec fn spec_parent(s: Seq<char>) -> Option<Seq<char>> {
    let t = spec_rstrip_slash(s);
    let c = spec_last_component(t);
    if t.len() == 0 || c.len() == t.len() {
        None
    } else {
        Some(t.take(t.len() - c.len() - 1))
    }
}

/// The parent of a path, under the library's path model.
#[verifier::loop_isolation(false)]
#[verifier::rlimit(50)]
pub fn parent_dir(path: &str) -> (r: Option<String>)
    ensures
        r matches Some(p) ==> spec_parent(path@) == Some(p@),
        r is None <==> spec_parent(path@) is None,
{
    let n = path.unicode_len();
    proof {
        assert(path@.take(n as int) =~= path@);
    }
    let mut end: usize = n;
    while end > 0 && path.get_char(end - 1) == '/'
        invariant
            end <= n,
            n == path@.len(),
            spec_rstrip_slash(path@) == spec_rstrip_slash(path@.take(end as int)),
        decreases end,
    {
        proof {
            assert(path@.take(end as int).last() == '/');
            assert(path@.take(end as int).drop_last() =~= path@.take(end - 1));
        }
        end = end - 1;
    }
    proof {
        assert(spec_rstrip_slash(path@.take(end as int)) == path@.take(end as int));
    }
    if end == 0 {
        proof {
            assert(path@.take(0) =~= Seq::<char>::empty());
        }
        return None;
    }
    let mut start: usize = end;
    while start > 0 && path.get_char(start - 1) != '/'
        invariant
            start <= end,
            end <= n,
            n == path@.len(),
            forall|i: int| start <= i < end ==> path@.take(end as int)[i] != '/',
        decreases start,
    {
        start = start - 1;
    }
    proof {
        lemma_last_component_range(path@.take(end as int), start as int);
    }
    if start == 0 {
        None
    } else {
        let p = path.substring_char(0, start - 1);
        proof {
            assert(p@ =~= path@.take(end as int).take(start - 1));
        }
        Some(p.to_owned())
    }
}

} // verus!
