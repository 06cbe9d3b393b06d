//! Character scanning over text: locating the first character that
//! satisfies a predicate, and comparing two strings for equality.

use vstd::prelude::*;

verus! {

/// The predicate satisfied exactly by the character `c`.
pub open spec fn eq_char(c: char) -> spec_fn(char) -> bool {
    |x: char| x == c
}

/// The predicate satisfied by the request-line delimiters: a space or a
/// carriage return.
pub open spec fn is_delim() -> spec_fn(char) -> bool {
    |x: char| x == ' ' || x == '\r'
}

/// `i` is the position of the first character of `s` satisfying `p`.
pub open spec fn found_at(s: Seq<char>, p: spec_fn(char) -> bool, i: int) -> bool {
    &&& 0 <= i < s.len()
    &&& p(s[i])
    &&& forall|j: int| 0 <= j < i ==> !p(s[j])
}

/// The position of the first character of `s` satisfying `p`, if any.
pub open spec fn find_first(s: Seq<char>, p: spec_fn(char) -> bool) -> Option<int>
    decreases s.len(),
{
    if s.len() == 0 {
        None
    } else if p(s[0]) {
        Some(0)
    } else {
        match find_first(s.drop_first(), p) {
            None => None,
            Some(i) => Some(i + 1),
        }
    }
}

/// `find_first` returns the position of the first satisfying character
/// when one exists, and `None` exactly when none does.
pub proof fn lemma_find_first(s: Seq<char>, p: spec_fn(char) -> bool)
    ensures
        match find_first(s, p) {
            Some(i) => found_at(s, p, i),
            None => forall|j: int| 0 <= j < s.len() ==> !p(s[j]),
        },
    decreases s.len(),
{
    if s.len() != 0 && !p(s[0]) {
        let t = s.drop_first();
        lemma_find_first(t, p);
        match find_first(t, p) {
            None => {
                assert forall|j: int| 0 <= j < s.len() implies !p(s[j]) by {
                    if j > 0 {
                        assert(!p(t[j - 1]));
                    }
                }
            },
            Some(i) => {
                assert(p(t[i]));
                assert(find_first(s, p) == Some(i + 1));
                assert forall|j: int| 0 <= j < i + 1 implies !p(s[j]) by {
                    if j > 0 {
                        assert(!p(t[j - 1]));
                    }
                }
            },
        }
    }
}

/// The position of the first occurrence of `c` in `s`, or `None` when
/// `c` does not occur.
pub fn find_char(s: &str, c: char) -> (r: Option<usize>)
    ensures
        match r {
            Some(i) => i < s@.len() && find_first(s@, eq_char(c)) == Some(i as int),
            None => find_first(s@, eq_char(c)) is None,
        },
{
    let n = s.unicode_len();
    let mut i: usize = 0;
    while i < n
        invariant
            n == s@.len(),
            i <= n,
            forall|j: int| 0 <= j < i ==> s@[j] != c,
        decreases n - i,
    {
        if s.get_char(i) == c {
            proof {
                lemma_find_first(s@, eq_char(c));
                assert(found_at(s@, eq_char(c), i as int));
            }
            return Some(i);
        }
        i = i + 1;
    }
    proof {
        lemma_find_first(s@, eq_char(c));
    }
    None
}

/// The position of the first delimiter (space or carriage return) in
/// `s`, or `None` when there is none.
pub fn find_delim(s: &str) -> (r: Option<usize>)
    ensures
        match r {
            Some(i) => i < s@.len() && find_first(s@, is_delim()) == Some(i as int),
            None => find_first(s@, is_delim()) is None,
        },
{
    let n = s.unicode_len();
    let mut i: usize = 0;
    while i < n
        invariant
            n == s@.len(),
            i <= n,
            forall|j: int| 0 <= j < i ==> !(s@[j] == ' ' || s@[j] == '\r'),
        decreases n - i,
    {
        let ch = s.get_char(i);
        if ch == ' ' || ch == '\r' {
            proof {
                lemma_find_first(s@, is_delim());
                assert(found_at(s@, is_delim(), i as int));
            }
            return Some(i);
        }
        i = i + 1;
    }
    proof {
        lemma_find_first(s@, is_delim());
    }
    None
}

/// Character-for-character equality of two strings.
pub fn str_eq(a: &str, b: &str) -> (r: bool)
    ensures
        r == (a@ == b@),
{
    let na = a.unicode_len();
    let nb = b.unicode_len();
    if na != nb {
        return false;
    }
    let mut i: usize = 0;
    while i < na
        invariant
            na == a@.len(),
            nb == b@.len(),
            na == nb,
            i <= na,
            forall|j: int| 0 <= j < i ==> a@[j] == b@[j],
        decreases na - i,
    {
        if a.get_char(i) != b.get_char(i) {
            return false;
        }
        i = i + 1;
    }
    proof {
        assert(a@ =~= b@);
    }
    true
}

} // verus!
