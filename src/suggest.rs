//! Suggestions offered while typing an answer to a text prompt.

use vstd::prelude::*;

use crate::outside::{lower_of, lowercase};
use crate::store::texts;

verus! {

/// `needle` occurs in `hay` as a run of consecutive characters.
pub open spec fn is_infix(needle: Seq<char>, hay: Seq<char>) -> bool {
    exists|i: int| 0 <= i && i + needle.len() <= hay.len() && #[trigger] hay.subrange(i, i + needle.len()) == needle
}

/// Whether `needle` occurs in `hay` as a run of consecutive characters.
pub fn contains_text(hay: &str, needle: &str) -> (r: bool)
    ensures
        r == is_infix(needle@, hay@),
{
    let h = hay.unicode_len();
    let n = needle.unicode_len();
    if n > h {
        return false;
    }
    let mut i: usize = 0;
    while i <= h - n
        invariant
            h == hay@.len(),
            n == needle@.len(),
            n <= h,
            i <= h - n + 1,
            forall|k: int| 0 <= k < i ==> #[trigger] hay@.subrange(k, k + n) != needle@,
        decreases h - n + 1 - i,
    {
        let mut j: usize = 0;
        while j < n && hay.get_char(i + j) == needle.get_char(j)
            invariant
                h == hay@.len(),
                n == needle@.len(),
                i + n <= h,
                j <= n,
                forall|l: int| 0 <= l < j ==> hay@[i + l] == #[trigger] needle@[l],
            decreases n - j,
        {
            j = j + 1;
        }
        if j == n {
            assert(hay@.subrange(i as int, i + n) =~= needle@);
            return true;
        }
        assert(hay@.subrange(i as int, i + n)[j as int] != needle@[j as int]);
        i = i + 1;
    }
    assert forall|k: int| 0 <= k && k + n <= h implies #[trigger] hay@.subrange(k, k + n) != needle@ by {
        assert(k < i);
    }
    false
}

/// Whether a candidate is suggested for the typed input: the input, in lower
/// case, occurs in the candidate in lower case.
pub open spec fn suggests(input: Seq<char>, candidate: Seq<char>) -> bool {
    is_infix(lower_of(input), lower_of(candidate))
}

/// The candidates suggested for the typed input, in their order.
pub open spec fn suggested(candidates: Seq<Seq<char>>, input: Seq<char>) -> Seq<Seq<char>>
    decreases candidates.len(),
{
    if candidates.len() == 0 {
        Seq::empty()
    } else {
        let prev = suggested(candidates.drop_last(), input);
        if suggests(input, candidates.last()) {
            prev.push(candidates.last())
        } else {
            prev
        }
    }
}

/// Whether a candidate, already in lower case, matches an input already in
/// lower case.
pub fn matches_folded(folded_input: &str, folded_candidate: &str) -> (r: bool)
    ensures
        r == is_infix(folded_input@, folded_candidate@),
{
    contains_text(folded_candidate, folded_input)
}

/// The candidates whose lower-case form holds the input's lower-case form, in
/// their order.
pub fn suggestions_for(candidates: &Vec<String>, input: &str) -> (r: Vec<String>)
    ensures
        texts(r@) == suggested(texts(candidates@), input@),
{
    let folded_input = lowercase(input);
    let mut out: Vec<String> = Vec::new();
    let mut i: usize = 0;
    let ghost cs = texts(candidates@);
    assert(cs.subrange(0, 0) =~= Seq::<Seq<char>>::empty());
    assert(texts(out@) =~= Seq::<Seq<char>>::empty());
    while i < candidates.len()
        invariant
            i <= candidates@.len(),
            cs == texts(candidates@),
            folded_input@ == lower_of(input@),
            texts(out@) == suggested(cs.subrange(0, i as int), input@),
        decreases candidates.len() - i,
    {
        assert(cs.subrange(0, i + 1).drop_last() =~= cs.subrange(0, i as int));
        assert(cs.subrange(0, i + 1).last() == candidates@[i as int]@);
        let folded = lowercase(candidates[i].as_str());
        if matches_folded(folded_input.as_str(), folded.as_str()) {
            let ghost before = out@;
            out.push(candidates[i].clone());
            assert(texts(out@) =~= texts(before).push(candidates@[i as int]@));
        }
        i = i + 1;
    }
    assert(cs.subrange(0, candidates@.len() as int) =~= cs);
    out
}

} // verus!
