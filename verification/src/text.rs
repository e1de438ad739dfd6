//! Character-level text operations.
//!
//! Every contract in this crate speaks of a string through its view, a
//! `Seq<char>`. The executable functions here work on `Vec<char>` and are the
//! only place where strings are taken apart or put together.

use vstd::prelude::*;

verus! {

/// The views of a sequence of strings.
pub open spec fn texts(v: Seq<String>) -> Seq<Seq<char>> {
    Seq::new(v.len(), |i: int| v[i]@)
}

/// The views of a sequence of character vectors.
pub open spec fn rows(v: Seq<Vec<char>>) -> Seq<Seq<char>> {
    Seq::new(v.len(), |i: int| v[i]@)
}

/// `pat` stands in `s` at index `i`.
pub open spec fn occurs_at(s: Seq<char>, pat: Seq<char>, i: int) -> bool {
    0 <= i && i + pat.len() <= s.len() && s.subrange(i, i + pat.len()) == pat
}

/// `pat` is a substring of `s`. The empty text is a substring of every text.
pub open spec fn contains_text(s: Seq<char>, pat: Seq<char>) -> bool {
    exists|i: int| occurs_at(s, pat, i)
}

/// The least index at or after `from` where `pat` stands in `s`, or `-1`.
pub open spec fn first_match(s: Seq<char>, pat: Seq<char>, from: int) -> int
    decreases s.len() + 1 - from,
{
    if from < 0 || from + pat.len() > s.len() {
        -1
    } else if occurs_at(s, pat, from) {
        from
    } else {
        first_match(s, pat, from + 1)
    }
}

/// The pieces of `s` from index `from` on, cut at each occurrence of `pat`,
/// scanning left to right and resuming behind each occurrence.
pub open spec fn split_from(s: Seq<char>, pat: Seq<char>, from: int) -> Seq<Seq<char>>
    decreases s.len() - from,
{
    let i = first_match(s, pat, from);
    if pat.len() == 0 || i < from || i + pat.len() > s.len() {
        seq![s.subrange(from, s.len() as int)]
    } else {
        seq![s.subrange(from, i)] + split_from(s, pat, i + pat.len())
    }
}

/// The pieces of `s` between the occurrences of a non-empty separator `pat`.
/// A text without the separator is one piece; pieces may be empty.
pub open spec fn split_text(s: Seq<char>, pat: Seq<char>) -> Seq<Seq<char>>
    recommends
        pat.len() > 0,
{
    split_from(s, pat, 0)
}

/// `parts` without its empty members, order kept.
pub open spec fn without_empty(parts: Seq<Seq<char>>) -> Seq<Seq<char>> {
    parts.filter(|p: Seq<char>| p.len() > 0)
}

/// What `first_match` returns is the first occurrence, and `-1` means none.
pub proof fn lemma_first_match(s: Seq<char>, pat: Seq<char>, from: int)
    requires
        0 <= from,
    ensures
        ({
            let r = first_match(s, pat, from);
            &&& r == -1 || (from <= r && occurs_at(s, pat, r))
            &&& forall|j: int| from <= j && (j < r || r == -1) ==> !occurs_at(s, pat, j)
        }),
    decreases s.len() + 1 - from,
{
    if from + pat.len() > s.len() {
    } else if occurs_at(s, pat, from) {
    } else {
        lemma_first_match(s, pat, from + 1);
    }
}

/// A position with no occurrence before it, from `from` on, is the first match.
pub proof fn lemma_first_match_is(s: Seq<char>, pat: Seq<char>, from: int, at: int)
    requires
        0 <= from <= at,
        occurs_at(s, pat, at),
        forall|j: int| from <= j < at ==> !occurs_at(s, pat, j),
    ensures
        first_match(s, pat, from) == at,
{
    lemma_first_match(s, pat, from);
}

/// With no occurrence from `from` on there is no match.
pub proof fn lemma_first_match_none(s: Seq<char>, pat: Seq<char>, from: int)
    requires
        0 <= from,
        forall|j: int| from <= j ==> !occurs_at(s, pat, j),
    ensures
        first_match(s, pat, from) == -1,
{
    lemma_first_match(s, pat, from);
}

/// Appending one piece to a list of pieces appends it, or nothing, to the
/// list without its empty members.
pub proof fn lemma_without_empty_push(parts: Seq<Seq<char>>, p: Seq<char>)
    ensures
        without_empty(parts.push(p)) == if p.len() > 0 {
            without_empty(parts).push(p)
        } else {
            without_empty(parts)
        },
{
    reveal(Seq::filter);
    assert(parts.push(p).drop_last() == parts);
}

/// The characters of `s`, in order.
pub fn chars_of(s: &str) -> (out: Vec<char>)
    ensures
        out@ == s@,
{
    broadcast use vstd::string::group_string_axioms;

    let mut out: Vec<char> = Vec::new();
    for c in it: s.chars()
        invariant
            it.seq() == s@,
            out@ == it.seq().take(it.index()),
    {
        out.push(c);
    }
    out
}

/// `String::from_iter` over the characters of `chars`: the string made of
/// exactly these characters, in this order.
#[verifier::external_body]
pub(crate) fn string_of(chars: &Vec<char>) -> (out: String)
    ensures
        out@ == chars@,
{
    String::from_iter(chars.iter())
}

/// Whether two character vectors hold the same text.
pub fn same_text(a: &Vec<char>, b: &Vec<char>) -> (r: bool)
    ensures
        r == (a@ == b@),
{
    if a.len() != b.len() {
        return false;
    }
    let mut k: usize = 0;
    while k < a.len()
        invariant
            a.len() == b.len(),
            k <= a.len(),
            forall|j: int| 0 <= j < k ==> a@[j] == b@[j],
        decreases a.len() - k,
    {
        if a[k] != b[k] {
            return false;
        }
        k += 1;
    }
    assert(a@ =~= b@);
    true
}

/// Whether `pat` stands in `s` at index `i`.
pub fn stands_at(s: &Vec<char>, pat: &Vec<char>, i: usize) -> (r: bool)
    ensures
        r == occurs_at(s@, pat@, i as int),
{
    if pat.len() > s.len() || i > s.len() - pat.len() {
        return false;
    }
    let mut k: usize = 0;
    while k < pat.len()
        invariant
            k <= pat.len(),
            i + pat.len() <= s.len(),
            forall|j: int| 0 <= j < k ==> s@[i + j] == pat@[j],
        decreases pat.len() - k,
    {
        if s[i + k] != pat[k] {
            assert(s@.subrange(i as int, i + pat.len())[k as int] == s@[i + k]);
            return false;
        }
        k += 1;
    }
    assert(s@.subrange(i as int, i + pat.len()) =~= pat@);
    true
}

/// Whether `pat` is a substring of `s`.
pub fn has_text(s: &Vec<char>, pat: &Vec<char>) -> (r: bool)
    ensures
        r == contains_text(s@, pat@),
{
    let mut i: usize = 0;
    while i < s.len()
        invariant
            i <= s.len(),
            forall|j: int| 0 <= j < i ==> !occurs_at(s@, pat@, j),
        decreases s.len() - i,
    {
        if stands_at(s, pat, i) {
            return true;
        }
        i += 1;
    }
    stands_at(s, pat, i)
}

/// Cuts `s` at each occurrence of the non-empty separator `pat`.
pub fn split(s: &Vec<char>, pat: &Vec<char>) -> (out: Vec<Vec<char>>)
    requires
        pat@.len() > 0,
    ensures
        rows(out@) == split_text(s@, pat@),
{
    let mut out: Vec<Vec<char>> = Vec::new();
    let mut cur: Vec<char> = Vec::new();
    let mut start: usize = 0;
    let mut i: usize = 0;
    assert(rows(out@) + split_from(s@, pat@, 0) =~= split_from(s@, pat@, 0));
    while i < s.len()
        invariant
            pat@.len() > 0,
            start <= i <= s.len(),
            cur@ == s@.subrange(start as int, i as int),
            forall|j: int| start <= j < i ==> !occurs_at(s@, pat@, j),
            split_text(s@, pat@) == rows(out@) + split_from(s@, pat@, start as int),
        decreases s.len() - i,
    {
        if stands_at(s, pat, i) {
            proof {
                lemma_first_match_is(s@, pat@, start as int, i as int);
                let done = rows(out@);
                let piece = s@.subrange(start as int, i as int);
                assert(rows(out@.push(cur)) =~= done.push(piece));
                assert(done + (seq![piece] + split_from(s@, pat@, i + pat@.len()))
                    =~= done.push(piece) + split_from(s@, pat@, i + pat@.len()));
            }
            out.push(cur);
            cur = Vec::new();
            i += pat.len();
            start = i;
        } else {
            cur.push(s[i]);
            i += 1;
            assert(cur@ =~= s@.subrange(start as int, i as int));
        }
    }
    proof {
        lemma_first_match_none(s@, pat@, start as int);
        let done = rows(out@);
        let piece = s@.subrange(start as int, s@.len() as int);
        assert(rows(out@.push(cur)) =~= done.push(piece));
        assert(done + seq![piece] =~= done.push(piece));
    }
    out.push(cur);
    out
}

/// The texts of `parts` in a row, with `sep` between any two.
pub open spec fn joined(parts: Seq<Seq<char>>, sep: Seq<char>) -> Seq<char>
    decreases parts.len(),
{
    if parts.len() == 0 {
        Seq::empty()
    } else if parts.len() == 1 {
        parts[0]
    } else {
        joined(parts.drop_last(), sep) + sep + parts.last()
    }
}

/// `s` with every occurrence of the non-empty text `pat` replaced by `to`,
/// occurrences taken from left to right.
pub open spec fn replaced(s: Seq<char>, pat: Seq<char>, to: Seq<char>) -> Seq<char>
    recommends
        pat.len() > 0,
{
    joined(split_text(s, pat), to)
}

/// Appends the characters of `more` to `out`.
pub fn extend_chars(out: &mut Vec<char>, more: &Vec<char>)
    ensures
        final(out)@ == old(out)@ + more@,
{
    let ghost head = out@;
    let mut k: usize = 0;
    assert(out@ =~= head + more@.take(0));
    while k < more.len()
        invariant
            k <= more.len(),
            out@ == head + more@.take(k as int),
        decreases more.len() - k,
    {
        out.push(more[k]);
        k += 1;
        assert(out@ =~= head + more@.take(k as int));
    }
    assert(more@.take(k as int) =~= more@);
}

/// Puts the rows of `parts` in a row, with `sep` between any two.
pub fn join(parts: &Vec<Vec<char>>, sep: &Vec<char>) -> (out: Vec<char>)
    ensures
        out@ == joined(rows(parts@), sep@),
{
    let mut out: Vec<char> = Vec::new();
    let ghost all = rows(parts@);
    let mut k: usize = 0;
    assert(all.take(0) =~= Seq::<Seq<char>>::empty());
    while k < parts.len()
        invariant
            k <= parts.len(),
            all == rows(parts@),
            out@ == joined(all.take(k as int), sep@),
        decreases parts.len() - k,
    {
        proof {
            assert(all.take(k + 1).drop_last() =~= all.take(k as int));
            assert(all.take(k + 1).last() == parts@[k as int]@);
            if k == 0 {
                assert(all.take(1)[0] == parts@[0]@);
                assert(Seq::<char>::empty() + parts@[0]@ =~= parts@[0]@);
            }
        }
        if k > 0 {
            extend_chars(&mut out, sep);
        }
        extend_chars(&mut out, &parts[k]);
        k += 1;
    }
    assert(all.take(k as int) =~= all);
    out
}

/// Replaces every occurrence of the non-empty text `pat` in `s` by `to`.
pub fn replace(s: &Vec<char>, pat: &Vec<char>, to: &Vec<char>) -> (out: Vec<char>)
    requires
        pat@.len() > 0,
    ensures
        out@ == replaced(s@, pat@, to@),
{
    let parts = split(s, pat);
    join(&parts, to)
}

/// The strings that the rows of `parts` spell.
pub fn strings_of(parts: &Vec<Vec<char>>) -> (out: Vec<String>)
    ensures
        texts(out@) == rows(parts@),
{
    let mut out: Vec<String> = Vec::new();
    let mut k: usize = 0;
    while k < parts.len()
        invariant
            k <= parts.len(),
            out.len() == k,
            forall|j: int| 0 <= j < k ==> out@[j]@ == parts@[j]@,
        decreases parts.len() - k,
    {
        let s = string_of(&parts[k]);
        out.push(s);
        k += 1;
    }
    assert(texts(out@) =~= rows(parts@));
    out
}

} // verus!
