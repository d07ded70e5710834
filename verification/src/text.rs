//! Searching in text, character by character.

use vstd::prelude::*;

verus! {

/// `pat` stands in `text` at position `at`.
pub open spec fn occurs_at(text: Seq<char>, pat: Seq<char>, at: int) -> bool {
    &&& 0 <= at
    &&& at + pat.len() <= text.len()
    &&& text.subrange(at, at + pat.len()) == pat
}

/// `pat` stands somewhere in `text`.
pub open spec fn occurs(text: Seq<char>, pat: Seq<char>) -> bool {
    exists|at: int| occurs_at(text, pat, at)
}

/// `at` is the leftmost position at which `pat` stands in `text`.
pub open spec fn is_first_occurrence(text: Seq<char>, pat: Seq<char>, at: int) -> bool {
    &&& occurs_at(text, pat, at)
    &&& forall|before: int| 0 <= before < at ==> !occurs_at(text, pat, before)
}

/// The leftmost position at which `pat` stands in `text`, if there is one.
pub open spec fn first_occurrence(text: Seq<char>, pat: Seq<char>) -> Option<int> {
    if occurs(text, pat) {
        Some(choose|at: int| is_first_occurrence(text, pat, at))
    } else {
        None
    }
}

/// A leftmost occurrence is the one that `first_occurrence` names.
pub proof fn lemma_first_occurrence_is_unique(text: Seq<char>, pat: Seq<char>, at: int)
    requires
        is_first_occurrence(text, pat, at),
    ensures
        first_occurrence(text, pat) == Some(at),
{
    assert(occurs_at(text, pat, at));
    let chosen = choose|c: int| is_first_occurrence(text, pat, c);
    assert(is_first_occurrence(text, pat, chosen));
    if chosen < at {
        assert(!occurs_at(text, pat, chosen));
    }
    if at < chosen {
        assert(!occurs_at(text, pat, at));
    }
}

/// The characters of `s`, in order.
pub fn chars_of(s: &str) -> (chars: Vec<char>)
    ensures
        chars@ == s@,
{
    let mut chars: Vec<char> = Vec::new();
    for c in it: s.chars()
        invariant
            it.seq() == s@,
            chars@ == it.seq().take(it.index() as int),
    {
        chars.push(c);
        assert(it.seq().take(it.index() + 1) =~= it.seq().take(it.index() as int).push(c));
    }
    assert(chars@ =~= s@);
    chars
}

/// Whether two texts hold the same characters.
pub fn same_text(a: &Vec<char>, b: &Vec<char>) -> (same: bool)
    ensures
        same == (a@ == b@),
{
    if a.len() != b.len() {
        return false;
    }
    let mut i: usize = 0;
    while i < a.len()
        invariant
            i <= a.len(),
            a.len() == b.len(),
            forall|j: int| 0 <= j < i ==> a[j] == b[j],
        decreases a.len() - i,
    {
        if a[i] != b[i] {
            return false;
        }
        i += 1;
    }
    assert(a@ =~= b@);
    true
}

/// Whether `pat` stands in `text` at position `at`.
pub fn matches_at(text: &Vec<char>, pat: &Vec<char>, at: usize) -> (hit: bool)
    requires
        at + pat.len() <= text.len(),
    ensures
        hit == occurs_at(text@, pat@, at as int),
{
    let mut k: usize = 0;
    while k < pat.len()
        invariant
            k <= pat.len(),
            at + pat.len() <= text.len(),
            forall|j: int| 0 <= j < k ==> text[at + j] == pat[j],
        decreases pat.len() - k,
    {
        if text[at + k] != pat[k] {
            assert(text@.subrange(at as int, at + pat.len())[k as int] != pat@[k as int]);
            return false;
        }
        k += 1;
    }
    assert(text@.subrange(at as int, at + pat.len()) =~= pat@);
    true
}

/// The leftmost position at which `pat` stands in `text`.
pub fn find(text: &Vec<char>, pat: &Vec<char>) -> (found: Option<usize>)
    ensures
        match found {
            Some(at) => is_first_occurrence(text@, pat@, at as int) && first_occurrence(
                text@,
                pat@,
            ) == Some(at as int),
            None => !occurs(text@, pat@) && first_occurrence(text@, pat@) is None,
        },
{
    if pat.len() > text.len() {
        assert forall|at: int| !occurs_at(text@, pat@, at) by {}
        return None;
    }
    let last: usize = text.len() - pat.len();
    let mut at: usize = 0;
    while at < last
        invariant
            at <= last,
            last == text.len() - pat.len(),
            pat.len() <= text.len(),
            forall|before: int| 0 <= before < at ==> !occurs_at(text@, pat@, before),
        decreases last - at,
    {
        if matches_at(text, pat, at) {
            proof {
                lemma_first_occurrence_is_unique(text@, pat@, at as int);
            }
            return Some(at);
        }
        at += 1;
    }
    if matches_at(text, pat, last) {
        proof {
            lemma_first_occurrence_is_unique(text@, pat@, last as int);
        }
        return Some(last);
    }
    assert forall|at: int| !occurs_at(text@, pat@, at) by {}
    None
}

/// Whether `pat` stands somewhere in `text`.
pub fn contains(text: &Vec<char>, pat: &Vec<char>) -> (hit: bool)
    ensures
        hit == occurs(text@, pat@),
{
    find(text, pat).is_some()
}

/// The characters of `text` from position `from` on.
pub fn tail_from(text: &Vec<char>, from: usize) -> (tail: Vec<char>)
    requires
        from <= text.len(),
    ensures
        tail@ == text@.skip(from as int),
{
    let mut tail: Vec<char> = Vec::new();
    let mut i: usize = from;
    while i < text.len()
        invariant
            from <= i <= text.len(),
            tail@ == text@.subrange(from as int, i as int),
        decreases text.len() - i,
    {
        tail.push(text[i]);
        assert(text@.subrange(from as int, i + 1) =~= text@.subrange(from as int, i as int).push(
            text[i as int],
        ));
        i += 1;
    }
    assert(tail@ =~= text@.skip(from as int));
    tail
}

} // verus!
