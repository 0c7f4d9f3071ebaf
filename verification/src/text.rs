//! String predicates and operations the discovery logic is built on:
//! substring containment, suffix tests and segment substitution.

use vstd::prelude::*;

verus! {

/// The pattern `pat` occurs in `hay` starting at position `i`.
pub open spec fn is_match_at(hay: Seq<char>, pat: Seq<char>, i: int) -> bool {
    0 <= i && i + pat.len() <= hay.len() && hay.subrange(i, i + pat.len()) == pat
}

/// The pattern `pat` occurs somewhere in `hay`.
pub open spec fn contains_seq(hay: Seq<char>, pat: Seq<char>) -> bool {
    exists|i: int| is_match_at(hay, pat, i)
}

/// `s` ends with `suffix`.
pub open spec fn ends_with_seq(s: Seq<char>, suffix: Seq<char>) -> bool {
    s.len() >= suffix.len() && s.subrange(s.len() - suffix.len(), s.len() as int) == suffix
}

/// Every occurrence of `from` in `s` replaced by `to`, scanning left to
/// right without revisiting replaced text. An empty `from` leaves `s`
/// unchanged.
pub open spec fn replace_seq(s: Seq<char>, from: Seq<char>, to: Seq<char>) -> Seq<char>
    decreases s.len(),
{
    if from.len() == 0 || s.len() < from.len() {
        s
    } else if s.subrange(0, from.len() as int) == from {
        to + replace_seq(s.skip(from.len() as int), from, to)
    } else {
        seq![s[0]] + replace_seq(s.skip(1), from, to)
    }
}

/// Relies on `String::push`: appends the given character to the end of
/// the string.
pub assume_specification[ String::push ](s: &mut String, c: char)
    ensures
        final(s)@ == old(s)@.push(c),
;

/// Whether `pat` occurs in `hay` at position `i`.
pub fn match_at(hay: &str, pat: &str, i: usize) -> (r: bool)
    requires
        i + pat@.len() <= hay@.len(),
    ensures
        r == is_match_at(hay@, pat@, i as int),
{
    let pat_len = pat.unicode_len();
    let hay_len = hay.unicode_len();
    let mut j: usize = 0;
    while j < pat_len
        invariant
            pat_len == pat@.len(),
            hay_len == hay@.len(),
            i + pat@.len() <= hay@.len(),
            0 <= j <= pat_len,
            forall|k: int| 0 <= k < j ==> hay@[i + k] == pat@[k],
        decreases pat_len - j,
    {
        if hay.get_char(i + j) != pat.get_char(j) {
            assert(hay@.subrange(i as int, i + pat@.len())[j as int] != pat@[j as int]);
            return false;
        }
        j = j + 1;
    }
    assert(hay@.subrange(i as int, i + pat@.len()) =~= pat@);
    true
}

/// Whether `pat` occurs anywhere in `hay`.
pub fn str_contains(hay: &str, pat: &str) -> (r: bool)
    ensures
        r == contains_seq(hay@, pat@),
{
    let hay_len = hay.unicode_len();
    let pat_len = pat.unicode_len();
    if pat_len > hay_len {
        assert(forall|k: int| !is_match_at(hay@, pat@, k));
        return false;
    }
    if pat_len == 0 {
        assert(is_match_at(hay@, pat@, 0)) by {
            assert(hay@.subrange(0, 0) =~= pat@);
        }
        return true;
    }
    let last = hay_len - pat_len;
    let mut i: usize = 0;
    while i <= last
        invariant
            hay_len == hay@.len(),
            pat_len == pat@.len(),
            pat_len <= hay_len,
            last == hay_len - pat_len,
            pat_len >= 1,
            0 <= i <= last + 1,
            forall|k: int| 0 <= k < i ==> !is_match_at(hay@, pat@, k),
        decreases last + 1 - i,
    {
        if match_at(hay, pat, i) {
            return true;
        }
        i = i + 1;
    }
    assert(forall|k: int| i <= k ==> !is_match_at(hay@, pat@, k));
    false
}

/// Whether `s` ends with `suffix`.
pub fn str_ends_with(s: &str, suffix: &str) -> (r: bool)
    ensures
        r == ends_with_seq(s@, suffix@),
{
    let s_len = s.unicode_len();
    let suffix_len = suffix.unicode_len();
    if suffix_len > s_len {
        return false;
    }
    match_at(s, suffix, s_len - suffix_len)
}

/// Every occurrence of `from` in `s` replaced by `to`, scanning left to
/// right.
pub fn str_replace(s: &str, from: &str, to: &str) -> (r: String)
    ensures
        r@ == replace_seq(s@, from@, to@),
{
    let s_len = s.unicode_len();
    let from_len = from.unicode_len();
    if from_len == 0 {
        return s.to_owned();
    }
    let mut out = String::new();
    let mut i: usize = 0;
    proof {
        assert(s@.skip(0) =~= s@);
        assert(out@ + replace_seq(s@, from@, to@) =~= replace_seq(s@, from@, to@));
    }
    while i < s_len
        invariant
            s_len == s@.len(),
            from_len == from@.len(),
            from_len >= 1,
            0 <= i <= s_len,
            replace_seq(s@, from@, to@) == out@ + replace_seq(s@.skip(i as int), from@, to@),
        decreases s_len - i,
    {
        let ghost rest = s@.skip(i as int);
        if from_len <= s_len - i && match_at(s, from, i) {
            proof {
                assert(rest.subrange(0, from@.len() as int) =~= s@.subrange(
                    i as int,
                    i + from@.len(),
                ));
                assert(rest.skip(from@.len() as int) =~= s@.skip(i + from@.len()));
            }
            let ghost out_prev = out@;
            out.append(to);
            proof {
                assert(out@ + replace_seq(s@.skip(i + from@.len()), from@, to@) =~= out_prev
                    + replace_seq(rest, from@, to@));
            }
            i = i + from_len;
        } else {
            proof {
                if rest.len() >= from@.len() && rest.subrange(0, from@.len() as int) == from@ {
                    assert(rest.subrange(0, from@.len() as int) =~= s@.subrange(
                        i as int,
                        i + from@.len(),
                    ));
                    assert(is_match_at(s@, from@, i as int));
                    assert(false);
                }
                assert(replace_seq(rest, from@, to@) =~= seq![rest[0]] + replace_seq(
                    rest.skip(1),
                    from@,
                    to@,
                ));
                assert(rest.skip(1) =~= s@.skip(i + 1));
            }
            let c = s.get_char(i);
            let ghost out_prev = out@;
            out.push(c);
            proof {
                assert(out@ + replace_seq(s@.skip(i + 1), from@, to@) =~= out_prev + replace_seq(
                    rest,
                    from@,
                    to@,
                ));
            }
            i = i + 1;
        }
    }
    proof {
        assert(s@.skip(i as int) =~= Seq::<char>::empty());
        assert(out@ + replace_seq(s@.skip(i as int), from@, to@) =~= out@);
    }
    out
}

} // verus!
