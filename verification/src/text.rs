//! Helpers on text: comparison, prefixes, and sequences of lines.

use vstd::prelude::*;
use vstd::string::*;

verus! {

/// Whether two string slices hold the same characters.
///
/// Trusted: calls `str`'s `==`, which compares the two slices byte by byte;
/// two valid UTF-8 slices have equal bytes exactly when they have equal
/// characters.
#[verifier::external_body]
pub(crate) fn str_eq(a: &str, b: &str) -> (r: bool)
    ensures
        r == (a@ == b@),
{
    a == b
}

/// Whether `s` begins with `prefix`.
///
/// Trusted: calls `str::starts_with` with a string pattern, which is true
/// exactly when the characters of `prefix` are the first characters of `s`.
#[verifier::external_body]
pub(crate) fn starts_with(s: &str, prefix: &str) -> (r: bool)
    ensures
        r == prefix@.is_prefix_of(s@),
{
    s.starts_with(prefix)
}

/// The characters of each string of a sequence.
pub open spec fn texts(v: Seq<String>) -> Seq<Seq<char>> {
    Seq::new(v.len(), |i: int| v[i]@)
}

/// The characters of an optional string.
pub open spec fn opt_text(v: Option<String>) -> Option<Seq<char>> {
    match v {
        Some(s) => Some(s@),
        None => None,
    }
}

/// The characters of each string of an optional sequence.
pub open spec fn opt_texts(v: Option<Vec<String>>) -> Option<Seq<Seq<char>>> {
    match v {
        Some(s) => Some(texts(s@)),
        None => None,
    }
}

/// A copy of a sequence of strings.
pub fn clone_texts(v: &Vec<String>) -> (r: Vec<String>)
    ensures
        texts(r@) == texts(v@),
{
    let mut r: Vec<String> = Vec::new();
    let mut i: usize = 0;
    while i < v.len()
        invariant
            i <= v.len(),
            r.len() == i,
            forall|k: int| 0 <= k < i ==> r@[k]@ == v@[k]@,
        decreases v.len() - i,
    {
        r.push(v[i].clone());
        i += 1;
    }
    assert(texts(r@) =~= texts(v@));
    r
}

/// The tokens joined into one text, with one space between neighbours.
pub open spec fn spaced(tokens: Seq<Seq<char>>) -> Seq<char>
    decreases tokens.len(),
{
    if tokens.len() == 0 {
        Seq::empty()
    } else if tokens.len() == 1 {
        tokens[0]
    } else {
        spaced(tokens.drop_last()) + seq![' '] + tokens.last()
    }
}

/// Joins the tokens with single spaces.
pub fn join_spaced(tokens: &Vec<String>) -> (r: String)
    ensures
        r@ == spaced(texts(tokens@)),
{
    let mut r = String::new();
    let mut i: usize = 0;
    while i < tokens.len()
        invariant
            i <= tokens.len(),
            r@ == spaced(texts(tokens@).take(i as int)),
        decreases tokens.len() - i,
    {
        proof {
            reveal_strlit(" ");
            let t = texts(tokens@);
            assert(t.take(i + 1).drop_last() =~= t.take(i as int));
            assert(t.take(i + 1).last() == tokens@[i as int]@);
            assert(" "@ =~= seq![' ']);
        }
        if i > 0 {
            r.append(" ");
            r.append(tokens[i].as_str());
        } else {
            r.append(tokens[i].as_str());
            assert(r@ =~= tokens@[0]@);
        }
        i += 1;
    }
    proof {
        let t = texts(tokens@);
        assert(t.take(t.len() as int) =~= t);
    }
    r
}

/// The texts of a sequence with one more string are the texts of the
/// sequence with that string's text added.
pub proof fn lemma_texts_push(v: Seq<String>, s: String)
    ensures
        texts(v.push(s)) == texts(v).push(s@),
{
    assert(texts(v.push(s)) =~= texts(v).push(s@));
}

/// The sequence without repetitions: of each text its first occurrence, in
/// the order of the sequence.
pub open spec fn firsts(s: Seq<Seq<char>>) -> Seq<Seq<char>>
    decreases s.len(),
{
    if s.len() == 0 {
        Seq::empty()
    } else {
        let r = firsts(s.drop_last());
        if r.contains(s.last()) {
            r
        } else {
            r.push(s.last())
        }
    }
}

/// `firsts` holds exactly the texts of the sequence, and none of them twice.
pub proof fn lemma_firsts(s: Seq<Seq<char>>)
    ensures
        firsts(s).no_duplicates(),
        forall|t: Seq<char>| firsts(s).contains(t) <==> s.contains(t),
    decreases s.len(),
{
    if s.len() > 0 {
        let r = firsts(s.drop_last());
        lemma_firsts(s.drop_last());
        let f = firsts(s);
        assert forall|t: Seq<char>| f.contains(t) <==> s.contains(t) by {
            if s.contains(t) {
                let i = choose|i: int| 0 <= i < s.len() && s[i] == t;
                if i < s.len() - 1 {
                    assert(s.drop_last()[i] == t);
                    assert(s.drop_last().contains(t));
                    assert(r.contains(t));
                    let j = choose|j: int| 0 <= j < r.len() && r[j] == t;
                    assert(f[j] == t);
                } else {
                    if r.contains(t) {
                    } else {
                        assert(f[r.len() as int] == t);
                    }
                }
            }
            if f.contains(t) {
                let j = choose|j: int| 0 <= j < f.len() && f[j] == t;
                if j < r.len() {
                    assert(r[j] == t);
                    assert(r.contains(t));
                    assert(s.drop_last().contains(t));
                    let i = choose|i: int| 0 <= i < s.drop_last().len() && s.drop_last()[i] == t;
                    assert(s[i] == t);
                } else {
                    assert(s[s.len() - 1] == t);
                }
            }
        }
    }
}

/// Whether `v` holds a string with the characters of `s`.
pub fn contains_text(v: &Vec<String>, s: &str) -> (r: bool)
    ensures
        r == texts(v@).contains(s@),
{
    let mut i: usize = 0;
    while i < v.len()
        invariant
            i <= v.len(),
            forall|k: int| 0 <= k < i ==> texts(v@)[k] != s@,
        decreases v.len() - i,
    {
        if str_eq(v[i].as_str(), s) {
            assert(texts(v@)[i as int] == s@);
            return true;
        }
        i += 1;
    }
    false
}

/// Drops every string that repeats an earlier one.
pub fn dedup(v: Vec<String>) -> (r: Vec<String>)
    ensures
        texts(r@) == firsts(texts(v@)),
{
    let mut r: Vec<String> = Vec::new();
    let mut i: usize = 0;
    assert(texts(r@) =~= firsts(texts(v@).take(0)));
    while i < v.len()
        invariant
            i <= v.len(),
            texts(r@) == firsts(texts(v@).take(i as int)),
        decreases v.len() - i,
    {
        proof {
            let t = texts(v@);
            assert(t.take(i + 1).drop_last() =~= t.take(i as int));
            assert(t.take(i + 1).last() == v@[i as int]@);
        }
        if !contains_text(&r, v[i].as_str()) {
            proof {
                lemma_texts_push(r@, v@[i as int]);
            }
            r.push(v[i].clone());
        }
        i += 1;
    }
    proof {
        let t = texts(v@);
        assert(t.take(t.len() as int) =~= t);
    }
    r
}

} // verus!
