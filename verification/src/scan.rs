//! Character scanning: the spec-level `skip_while` run length and executable
//! scanners that compute it, shared by every field of the line grammar.
use vstd::prelude::*;

use crate::{is_alpha, is_digit, is_space};

verus! {

/// Length of the longest prefix of `s` whose characters all satisfy `p`.
pub open spec fn skip_while(s: Seq<char>, p: spec_fn(char) -> bool) -> int
    decreases s.len(),
{
    if s.len() > 0 && p(s[0]) {
        1 + skip_while(s.drop_first(), p)
    } else {
        0
    }
}

/// The defining properties of `skip_while`: it is a valid index bound, every
/// character before it satisfies `p`, and the character at it (if any) does not.
pub proof fn lemma_skip_while(s: Seq<char>, p: spec_fn(char) -> bool)
    ensures
        0 <= skip_while(s, p) <= s.len(),
        forall|j: int| 0 <= j < skip_while(s, p) ==> p(s[j]),
        skip_while(s, p) < s.len() ==> !p(s[skip_while(s, p)]),
    decreases s.len(),
{
    if s.len() > 0 && p(s[0]) {
        lemma_skip_while(s.drop_first(), p);
        assert forall|j: int| 0 <= j < skip_while(s, p) implies p(s[j]) by {
            if j >= 1 {
                assert(s.drop_first()[j - 1] == s[j]);
            }
        }
        if skip_while(s, p) < s.len() {
            assert(s.drop_first()[skip_while(s.drop_first(), p)] == s[skip_while(s, p)]);
        }
    }
}

/// Any index with the three defining properties equals `skip_while`.
pub proof fn lemma_skip_while_is(s: Seq<char>, p: spec_fn(char) -> bool, k: int)
    requires
        0 <= k <= s.len(),
        forall|j: int| 0 <= j < k ==> p(s[j]),
        k < s.len() ==> !p(s[k]),
    ensures
        skip_while(s, p) == k,
{
    lemma_skip_while(s, p);
    let m = skip_while(s, p);
    if m < k {
        assert(p(s[m]));
    } else if k < m {
        assert(p(s[k]));
    }
}

/// On a concatenation whose left part satisfies `p` throughout and whose right
/// part starts with a character refuting `p`, the run is exactly the left part.
pub proof fn lemma_skip_while_concat(a: Seq<char>, b: Seq<char>, p: spec_fn(char) -> bool)
    requires
        forall|j: int| 0 <= j < a.len() ==> p(a[j]),
        b.len() > 0 ==> !p(b[0]),
    ensures
        skip_while(a + b, p) == a.len(),
{
    let s = a + b;
    assert(forall|j: int| 0 <= j < a.len() ==> s[j] == a[j]);
    if b.len() > 0 {
        assert(s[a.len() as int] == b[0]);
    }
    lemma_skip_while_is(s, p, a.len() as int);
}

/// The character classes the grammar scans over.
#[derive(Clone, Copy, PartialEq, Eq, Structural, Debug)]
pub enum CharClass {
    Space,
    Digit,
    Alpha,
    NonSpace,
    NonParen,
}

/// Membership of a character in a scanning class.
pub open spec fn in_class(cls: CharClass, c: char) -> bool {
    match cls {
        CharClass::Space => is_space(c),
        CharClass::Digit => is_digit(c),
        CharClass::Alpha => is_alpha(c),
        CharClass::NonSpace => !is_space(c),
        CharClass::NonParen => c != '(',
    }
}

/// The spec predicate a class stands for, as a closure for `skip_while`.
pub open spec fn class_pred(cls: CharClass) -> spec_fn(char) -> bool {
    |c: char| in_class(cls, c)
}

/// Decide membership of one character in a scanning class.
pub fn class_check(cls: CharClass, c: char) -> (r: bool)
    ensures
        r == in_class(cls, c),
{
    match cls {
        CharClass::Space => c == ' ' || c == '\t',
        CharClass::Digit => '0' <= c && c <= '9',
        CharClass::Alpha => ('a' <= c && c <= 'z') || ('A' <= c && c <= 'Z'),
        CharClass::NonSpace => !(c == ' ' || c == '\t'),
        CharClass::NonParen => c != '(',
    }
}

/// Length of the longest prefix of `s` inside the class `cls`.
pub fn scan(s: &str, cls: CharClass) -> (k: usize)
    ensures
        k == skip_while(s@, class_pred(cls)),
{
    let n = s.unicode_len();
    let mut i: usize = 0;
    while i < n && class_check(cls, s.get_char(i))
        invariant
            0 <= i <= n,
            n == s@.len(),
            forall|j: int| 0 <= j < i ==> class_pred(cls)(s@[j]),
        decreases n - i,
    {
        i = i + 1;
    }
    proof {
        lemma_skip_while_is(s@, class_pred(cls), i as int);
    }
    i
}

/// The predicate holding of every character other than `c`.
pub open spec fn ne_pred(c: char) -> spec_fn(char) -> bool {
    |x: char| x != c
}

/// Index of the first occurrence of `c` in `s`, or `s.len()` if there is none.
pub open spec fn find_char(s: Seq<char>, c: char) -> int {
    skip_while(s, ne_pred(c))
}

/// Index of the first occurrence of `c` in `s`, or the length if there is none.
pub fn find(s: &str, c: char) -> (k: usize)
    ensures
        k == find_char(s@, c),
        k <= s@.len(),
        k < s@.len() ==> s@[k as int] == c,
        forall|j: int| 0 <= j < k ==> s@[j] != c,
{
    let n = s.unicode_len();
    let mut i: usize = 0;
    while i < n && s.get_char(i) != c
        invariant
            0 <= i <= n,
            n == s@.len(),
            forall|j: int| 0 <= j < i ==> s@[j] != c,
        decreases n - i,
    {
        i = i + 1;
    }
    proof {
        lemma_skip_while_is(s@, ne_pred(c), i as int);
        lemma_skip_while(s@, ne_pred(c));
    }
    i
}

/// Compare two strings for equality of their character sequences.
pub fn str_eq(a: &str, b: &str) -> (r: bool)
    ensures
        r == (a@ == b@),
{
    let na = a.unicode_len();
    let nb = b.unicode_len();
    if na != nb {
        return false;
    }
    let mut i: usize = 0;
    while i < na
        invariant
            0 <= i <= na,
            na == a@.len(),
            na == b@.len(),
            forall|j: int| 0 <= j < i ==> a@[j] == b@[j],
        decreases na - i,
    {
        if a.get_char(i) != b.get_char(i) {
            return false;
        }
        i = i + 1;
    }
    proof {
        assert(a@ =~= b@);
    }
    true
}

} // verus!
