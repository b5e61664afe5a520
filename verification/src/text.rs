//! Text ordering and case folding.
//!
//! City names compare case-insensitively: ASCII letters are folded to lower
//! case and everything else is compared by code point. Dates stored as
//! "YYYY-MM-DD" text compare by plain code points, which on that shape is
//! chronological order.

use vstd::prelude::*;

verus! {

/// The code point of a character.
pub open spec fn code_of(c: char) -> int {
    c as u32 as int
}

/// The code point of a character with ASCII upper-case letters folded to
/// lower case; other characters are left alone.
pub open spec fn folded_code(c: char) -> int {
    if 65 <= code_of(c) && code_of(c) <= 90 {
        code_of(c) + 32
    } else {
        code_of(c)
    }
}

/// A string as its sequence of code points.
pub open spec fn codes(s: Seq<char>) -> Seq<int> {
    s.map_values(|c: char| code_of(c))
}

/// A string as its sequence of case-folded code points.
pub open spec fn folded(s: Seq<char>) -> Seq<int> {
    s.map_values(|c: char| folded_code(c))
}

/// Two strings are the same name when they agree after case folding.
pub open spec fn same_name(a: Seq<char>, b: Seq<char>) -> bool {
    folded(a) == folded(b)
}

/// Lexicographic order on code sequences: the empty sequence comes first,
/// otherwise the first differing position decides.
pub open spec fn lex_le(a: Seq<int>, b: Seq<int>) -> bool
    decreases a.len(),
{
    if a.len() == 0 {
        true
    } else if b.len() == 0 {
        false
    } else if a[0] < b[0] {
        true
    } else if a[0] > b[0] {
        false
    } else {
        lex_le(a.drop_first(), b.drop_first())
    }
}

/// Case-insensitive order on names.
pub open spec fn name_le(a: Seq<char>, b: Seq<char>) -> bool {
    lex_le(folded(a), folded(b))
}

/// Code-point order on strings; chronological on "YYYY-MM-DD" dates.
pub open spec fn text_le(a: Seq<char>, b: Seq<char>) -> bool {
    lex_le(codes(a), codes(b))
}

/// Any two code sequences are ordered one way or the other.
pub proof fn lemma_lex_le_total(a: Seq<int>, b: Seq<int>)
    ensures
        lex_le(a, b) || lex_le(b, a),
    decreases a.len(),
{
    if a.len() != 0 && b.len() != 0 && a[0] == b[0] {
        lemma_lex_le_total(a.drop_first(), b.drop_first());
    }
}

/// Lexicographic order is transitive.
pub proof fn lemma_lex_le_trans(a: Seq<int>, b: Seq<int>, c: Seq<int>)
    requires
        lex_le(a, b),
        lex_le(b, c),
    ensures
        lex_le(a, c),
    decreases a.len(),
{
    if a.len() != 0 && b.len() != 0 && c.len() != 0 && a[0] == b[0] && b[0] == c[0] {
        lemma_lex_le_trans(a.drop_first(), b.drop_first(), c.drop_first());
    }
}

/// When two sequences agree on their first `i` positions, their order is
/// decided by what remains.
pub proof fn lemma_lex_le_skip(a: Seq<int>, b: Seq<int>, i: int)
    requires
        0 <= i <= a.len(),
        i <= b.len(),
        forall|k: int| 0 <= k < i ==> a[k] == b[k],
    ensures
        lex_le(a, b) == lex_le(a.skip(i), b.skip(i)),
    decreases i,
{
    if i > 0 {
        lemma_lex_le_skip(a.drop_first(), b.drop_first(), i - 1);
        assert(a.drop_first().skip(i - 1) =~= a.skip(i));
        assert(b.drop_first().skip(i - 1) =~= b.skip(i));
        assert(a.skip(0) =~= a);
        assert(b.skip(0) =~= b);
    } else {
        assert(a.skip(0) =~= a);
        assert(b.skip(0) =~= b);
    }
}

/// The case-folded code point of a character.
pub fn fold_code(c: char) -> (r: u32)
    ensures
        r as int == folded_code(c),
{
    let x = c as u32;
    if 65 <= x && x <= 90 {
        x + 32
    } else {
        x
    }
}

/// Whether two strings are the same case-insensitive name.
pub fn str_same_name(a: &str, b: &str) -> (r: bool)
    ensures
        r == same_name(a@, b@),
{
    let alen = a.unicode_len();
    let blen = b.unicode_len();
    if alen != blen {
        assert(folded(a@).len() == alen && folded(b@).len() == blen);
        return false;
    }
    let mut i: usize = 0;
    while i < alen
        invariant
            i <= alen,
            alen == a@.len(),
            alen == b@.len(),
            forall|k: int| 0 <= k < i ==> folded(a@)[k] == folded(b@)[k],
        decreases alen - i,
    {
        let va = fold_code(a.get_char(i));
        let vb = fold_code(b.get_char(i));
        if va != vb {
            assert(folded(a@)[i as int] != folded(b@)[i as int]);
            return false;
        }
        i = i + 1;
    }
    proof {
        assert(folded(a@) =~= folded(b@));
    }
    true
}

/// Whether `a` comes no later than `b` in case-insensitive name order.
pub fn str_name_le(a: &str, b: &str) -> (r: bool)
    ensures
        r == name_le(a@, b@),
{
    let alen = a.unicode_len();
    let blen = b.unicode_len();
    let mut i: usize = 0;
    loop
        invariant
            i <= alen,
            i <= blen,
            alen == a@.len(),
            blen == b@.len(),
            forall|k: int| 0 <= k < i ==> folded(a@)[k] == folded(b@)[k],
        decreases alen - i,
    {
        proof {
            lemma_lex_le_skip(folded(a@), folded(b@), i as int);
        }
        if i >= alen || i >= blen {
            return alen <= blen;
        }
        let va = fold_code(a.get_char(i));
        let vb = fold_code(b.get_char(i));
        if va < vb {
            return true;
        }
        if va > vb {
            return false;
        }
        i = i + 1;
    }
}

/// Whether `a` comes no later than `b` in code-point order.
pub fn str_text_le(a: &str, b: &str) -> (r: bool)
    ensures
        r == text_le(a@, b@),
{
    let alen = a.unicode_len();
    let blen = b.unicode_len();
    let mut i: usize = 0;
    loop
        invariant
            i <= alen,
            i <= blen,
            alen == a@.len(),
            blen == b@.len(),
            forall|k: int| 0 <= k < i ==> codes(a@)[k] == codes(b@)[k],
        decreases alen - i,
    {
        proof {
            lemma_lex_le_skip(codes(a@), codes(b@), i as int);
        }
        if i >= alen || i >= blen {
            return alen <= blen;
        }
        let va = a.get_char(i) as u32;
        let vb = b.get_char(i) as u32;
        if va < vb {
            return true;
        }
        if va > vb {
            return false;
        }
        i = i + 1;
    }
}

} // verus!
