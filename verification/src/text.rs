//! Character-level helpers on strings: prefixes, occurrences and the
//! lexicographic order in which versions are listed.
//!
//! A string is modelled by its view, the sequence of its characters. The order
//! compares character by character on code points, which is the order Rust
//! gives to `str`.

use vstd::prelude::*;
use vstd::std_specs::iter::IteratorSpec;
use vstd::string::*;

verus! {

/// The characters of each string of a list.
pub open spec fn texts(list: Seq<String>) -> Seq<Seq<char>> {
    Seq::new(list.len(), |i: int| list[i]@)
}

/// `needle` stands in `hay` at index `at`.
pub open spec fn occurs_at(hay: Seq<char>, at: int, needle: Seq<char>) -> bool {
    &&& 0 <= at
    &&& at + needle.len() <= hay.len()
    &&& hay.subrange(at, at + needle.len()) == needle
}

/// `a` comes before `b`, or equals it, in lexicographic order of code points.
/// A proper prefix comes before every string that it starts.
pub open spec fn lex_le(a: Seq<char>, b: Seq<char>) -> bool
    decreases a.len(),
{
    if a.len() == 0 {
        true
    } else if b.len() == 0 {
        false
    } else if a[0] == b[0] {
        lex_le(a.drop_first(), b.drop_first())
    } else {
        (a[0] as int) < (b[0] as int)
    }
}

/// Any two strings are comparable.
pub proof fn lemma_lex_le_total(a: Seq<char>, b: Seq<char>)
    ensures
        lex_le(a, b) || lex_le(b, a),
    decreases a.len(),
{
    if a.len() > 0 && b.len() > 0 {
        if a[0] == b[0] {
            lemma_lex_le_total(a.drop_first(), b.drop_first());
        } else {
            assert((a[0] as int) != (b[0] as int));
        }
    }
}

/// The order is transitive.
pub proof fn lemma_lex_le_transitive(a: Seq<char>, b: Seq<char>, c: Seq<char>)
    requires
        lex_le(a, b),
        lex_le(b, c),
    ensures
        lex_le(a, c),
    decreases a.len(),
{
    if a.len() > 0 && b.len() > 0 && c.len() > 0 && a[0] == b[0] && b[0] == c[0] {
        lemma_lex_le_transitive(a.drop_first(), b.drop_first(), c.drop_first());
    }
}

/// Two strings that come before each other are the same string.
pub proof fn lemma_lex_le_antisymmetric(a: Seq<char>, b: Seq<char>)
    requires
        lex_le(a, b),
        lex_le(b, a),
    ensures
        a == b,
    decreases a.len(),
{
    if a.len() > 0 && b.len() > 0 {
        lemma_lex_le_antisymmetric(a.drop_first(), b.drop_first());
        assert(a =~= seq![a[0]] + a.drop_first());
        assert(b =~= seq![b[0]] + b.drop_first());
    } else {
        assert(a =~= b);
    }
}

/// The characters of `s`, in order.
pub fn chars_of(s: &str) -> (out: Vec<char>)
    ensures
        out@ == s@,
{
    let mut out: Vec<char> = Vec::new();
    for c in it: s.chars()
        invariant
            it.seq() == s@,
            out@ == s@.take(it.index()),
    {
        out.push(c);
    }
    out
}

/// Tests whether `needle` stands in `hay` at index `at`.
pub fn occurs_in(hay: &Vec<char>, at: usize, needle: &Vec<char>) -> (found: bool)
    ensures
        found == occurs_at(hay@, at as int, needle@),
{
    if at > hay.len() || needle.len() > hay.len() - at {
        return false;
    }
    let mut k: usize = 0;
    while k < needle.len()
        invariant
            at + needle.len() <= hay.len(),
            k <= needle.len(),
            forall|j: int| 0 <= j < k ==> hay@[at + j] == needle@[j],
        decreases needle.len() - k,
    {
        if hay[at + k] != needle[k] {
            assert(hay@.subrange(at as int, at + needle.len())[k as int] != needle@[k as int]);
            return false;
        }
        k += 1;
    }
    assert(hay@.subrange(at as int, at + needle.len()) =~= needle@);
    true
}

/// Tests whether `s` begins with `prefix`.
pub fn starts_with(s: &str, prefix: &str) -> (found: bool)
    ensures
        found == prefix@.is_prefix_of(s@),
{
    let mut rest = s.chars();
    let mut want = prefix.chars();
    let ghost mut k: int = 0;
    loop
        invariant
            0 <= k <= s@.len(),
            k <= prefix@.len(),
            rest.remaining() == s@.skip(k),
            want.remaining() == prefix@.skip(k),
            s@.take(k) == prefix@.take(k),
        decreases prefix@.len() - k,
    {
        match want.next() {
            None => {
                assert(prefix@.take(k) =~= prefix@);
                assert(s@.take(k) =~= s@.subrange(0, prefix@.len() as int));
                return true;
            },
            Some(p) => {
                match rest.next() {
                    None => {
                        return false;
                    },
                    Some(c) => {
                        if c != p {
                            assert(prefix@.len() <= s@.len() ==> prefix@[k] != s@.subrange(
                                0,
                                prefix@.len() as int,
                            )[k]);
                            return false;
                        }
                        proof {
                            assert(s@.take(k + 1) =~= s@.take(k).push(c));
                            assert(prefix@.take(k + 1) =~= prefix@.take(k).push(p));
                            assert(s@.skip(k).drop_first() =~= s@.skip(k + 1));
                            assert(prefix@.skip(k).drop_first() =~= prefix@.skip(k + 1));
                            k = k + 1;
                        }
                    },
                }
            },
        }
    }
}

/// Tests whether `a` and `b` hold the same characters.
pub fn same_text(a: &str, b: &str) -> (same: bool)
    ensures
        same == (a@ == b@),
{
    let same = starts_with(a, b) && starts_with(b, a);
    assert(same ==> a@ =~= b@);
    same
}

/// Tests whether `text` is one of the strings of `list`.
pub fn contains_text(list: &Vec<String>, text: &str) -> (found: bool)
    ensures
        found == texts(list@).contains(text@),
{
    for i in 0..list.len()
        invariant
            forall|j: int| 0 <= j < i ==> texts(list@)[j] != text@,
    {
        if same_text(list[i].as_str(), text) {
            assert(texts(list@)[i as int] == text@);
            return true;
        }
    }
    false
}

/// Shifting both strings past a common prefix does not change their order.
proof fn lemma_lex_le_skip(a: Seq<char>, b: Seq<char>, k: int)
    requires
        0 <= k <= a.len(),
        k <= b.len(),
        a.take(k) == b.take(k),
    ensures
        lex_le(a, b) == lex_le(a.skip(k), b.skip(k)),
    decreases k,
{
    if k > 0 {
        assert(a[0] == a.take(k)[0] && b[0] == b.take(k)[0]);
        assert(a.drop_first().take(k - 1) =~= a.take(k).drop_first());
        assert(b.drop_first().take(k - 1) =~= b.take(k).drop_first());
        lemma_lex_le_skip(a.drop_first(), b.drop_first(), k - 1);
        assert(a.drop_first().skip(k - 1) =~= a.skip(k));
        assert(b.drop_first().skip(k - 1) =~= b.skip(k));
    } else {
        assert(a.skip(0) =~= a);
        assert(b.skip(0) =~= b);
    }
}

/// Tests whether `a` comes before `b`, or equals it, in lexicographic order.
pub fn lex_le_str(a: &str, b: &str) -> (le: bool)
    ensures
        le == lex_le(a@, b@),
{
    let mut left = a.chars();
    let mut right = b.chars();
    let ghost mut k: int = 0;
    loop
        invariant
            0 <= k <= a@.len(),
            k <= b@.len(),
            left.remaining() == a@.skip(k),
            right.remaining() == b@.skip(k),
            a@.take(k) == b@.take(k),
        decreases a@.len() - k,
    {
        proof {
            lemma_lex_le_skip(a@, b@, k);
        }
        match left.next() {
            None => {
                return true;
            },
            Some(x) => {
                match right.next() {
                    None => {
                        return false;
                    },
                    Some(y) => {
                        if x != y {
                            return x < y;
                        }
                        proof {
                            assert(a@.take(k + 1) =~= a@.take(k).push(x));
                            assert(b@.take(k + 1) =~= b@.take(k).push(y));
                            assert(a@.skip(k).drop_first() =~= a@.skip(k + 1));
                            assert(b@.skip(k).drop_first() =~= b@.skip(k + 1));
                            k = k + 1;
                        }
                    },
                }
            },
        }
    }
}

} // verus!
