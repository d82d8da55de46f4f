//! Verified string utilities: prefix and suffix tests, searching from the
//! end, suffix stripping, path joining and whitespace tests, each specified
//! over the character-sequence view of the string.

use vstd::prelude::*;

verus! {

/// `p` is a prefix of `s`.
pub open spec fn is_prefix_of(p: Seq<char>, s: Seq<char>) -> bool {
    p.len() <= s.len() && s.subrange(0, p.len() as int) == p
}

/// `x` is a suffix of `s`.
pub open spec fn is_suffix_of(x: Seq<char>, s: Seq<char>) -> bool {
    x.len() <= s.len() && s.subrange(s.len() - x.len(), s.len() as int) == x
}

/// The characters after the last occurrence of `c`, or all of `s` when `c`
/// does not occur (the last piece of a split at `c`).
pub open spec fn after_last(s: Seq<char>, c: char) -> Seq<char>
    decreases s.len(),
{
    if s.len() == 0 {
        s
    } else if s[s.len() - 1] == c {
        Seq::empty()
    } else {
        after_last(s.drop_last(), c).push(s.last())
    }
}

/// `s` with every trailing copy of `x` removed, as `str::trim_end_matches`
/// leaves it.
pub open spec fn strip_all_suffix(s: Seq<char>, x: Seq<char>) -> Seq<char>
    decreases s.len(),
{
    if x.len() > 0 && is_suffix_of(x, s) {
        strip_all_suffix(s.subrange(0, s.len() - x.len()), x)
    } else {
        s
    }
}

/// `a` and `b` joined by a single path separator.
pub open spec fn joined(a: Seq<char>, b: Seq<char>) -> Seq<char> {
    a + seq!['/'] + b
}

/// The characters `str::trim` removes: exactly those with the Unicode
/// `White_Space` property.
pub open spec fn is_space_char(c: char) -> bool {
    ||| c == ' '
    ||| c == '\t'
    ||| c == '\n'
    ||| c == '\r'
    ||| c == '\u{b}'
    ||| c == '\u{c}'
    ||| c == '\u{85}'
    ||| c == '\u{a0}'
    ||| c == '\u{1680}'
    ||| c == '\u{2000}'
    ||| c == '\u{2001}'
    ||| c == '\u{2002}'
    ||| c == '\u{2003}'
    ||| c == '\u{2004}'
    ||| c == '\u{2005}'
    ||| c == '\u{2006}'
    ||| c == '\u{2007}'
    ||| c == '\u{2008}'
    ||| c == '\u{2009}'
    ||| c == '\u{200a}'
    ||| c == '\u{2028}'
    ||| c == '\u{2029}'
    ||| c == '\u{202f}'
    ||| c == '\u{205f}'
    ||| c == '\u{3000}'
}

/// Every character of `s` is whitespace, so `s.trim()` is empty.
pub open spec fn all_whitespace(s: Seq<char>) -> bool {
    forall|i: int| 0 <= i < s.len() ==> is_space_char(#[trigger] s[i])
}

/// Joining is injective in the second operand: equal joins under one root
/// carry equal relative parts.
pub proof fn lemma_joined_cancel(a: Seq<char>, x: Seq<char>, y: Seq<char>)
    requires
        joined(a, x) == joined(a, y),
    ensures
        x == y,
{
    assert(x =~= joined(a, x).subrange(a.len() + 1 as int, joined(a, x).len() as int));
    assert(y =~= joined(a, y).subrange(a.len() + 1 as int, joined(a, y).len() as int));
}

/// Joining one more component associates: descending into `b` and then
/// `c` is descending into `b/c`.
pub proof fn lemma_joined_assoc(a: Seq<char>, b: Seq<char>, c: Seq<char>)
    ensures
        joined(joined(a, b), c) == joined(a, b + seq!['/'] + c),
{
    assert(joined(joined(a, b), c) =~= joined(a, b + seq!['/'] + c));
}

/// Equality of two string slices, decided character by character.
pub fn str_eq(a: &str, b: &str) -> (r: bool)
    ensures
        r == (a@ == b@),
{
    let alen = a.unicode_len();
    let blen = b.unicode_len();
    if alen != blen {
        return false;
    }
    let mut i: usize = 0;
    while i < alen
        invariant
            alen == a@.len(),
            blen == b@.len(),
            alen == blen,
            i <= alen,
            forall|j: int| 0 <= j < i ==> a@[j] == b@[j],
        decreases alen - i,
    {
        if a.get_char(i) != b.get_char(i) {
            return false;
        }
        i += 1;
    }
    proof {
        assert(a@ =~= b@);
    }
    true
}

/// Whether `p` is a prefix of `s`.
pub fn starts_with_str(s: &str, p: &str) -> (r: bool)
    ensures
        r == is_prefix_of(p@, s@),
{
    let plen = p.unicode_len();
    let slen = s.unicode_len();
    if plen > slen {
        return false;
    }
    let mut i: usize = 0;
    while i < plen
        invariant
            plen == p@.len(),
            slen == s@.len(),
            plen <= slen,
            i <= plen,
            forall|j: int| 0 <= j < i ==> s@[j] == p@[j],
        decreases plen - i,
    {
        if s.get_char(i) != p.get_char(i) {
            proof {
                assert(s@.subrange(0, plen as int)[i as int] == s@[i as int]);
            }
            return false;
        }
        i += 1;
    }
    proof {
        assert(s@.subrange(0, plen as int) =~= p@);
    }
    true
}

/// Whether `x` is a suffix of `s`.
pub fn ends_with_str(s: &str, x: &str) -> (r: bool)
    ensures
        r == is_suffix_of(x@, s@),
{
    let xlen = x.unicode_len();
    let slen = s.unicode_len();
    if xlen > slen {
        return false;
    }
    let k = slen - xlen;
    let mut i: usize = 0;
    while i < xlen
        invariant
            xlen == x@.len(),
            slen == s@.len(),
            k == slen - xlen,
            i <= xlen,
            forall|j: int| 0 <= j < i ==> s@[k + j] == x@[j],
        decreases xlen - i,
    {
        if s.get_char(k + i) != x.get_char(i) {
            proof {
                assert(s@.subrange(k as int, slen as int)[i as int] == s@[k + i]);
            }
            return false;
        }
        i += 1;
    }
    proof {
        assert(s@.subrange(k as int, slen as int) =~= x@);
    }
    true
}

/// Whether `c` occurs in `s`.
pub fn contains_char(s: &str, c: char) -> (r: bool)
    ensures
        r == s@.contains(c),
{
    let slen = s.unicode_len();
    let mut i: usize = 0;
    while i < slen
        invariant
            slen == s@.len(),
            i <= slen,
            forall|j: int| 0 <= j < i ==> s@[j] != c,
        decreases slen - i,
    {
        if s.get_char(i) == c {
            return true;
        }
        i += 1;
    }
    false
}

/// If `c` occurs nowhere in `s`, the last split piece is `s` itself.
pub proof fn lemma_after_last_absent(s: Seq<char>, c: char)
    requires
        forall|j: int| 0 <= j < s.len() ==> s[j] != c,
    ensures
        after_last(s, c) == s,
    decreases s.len(),
{
    if s.len() == 0 {
    } else {
        lemma_after_last_absent(s.drop_last(), c);
        assert(after_last(s, c) =~= s);
    }
}

/// If the last occurrence of `c` in `s` is at `k`, the last split piece is
/// everything after position `k`.
pub proof fn lemma_after_last_found(s: Seq<char>, c: char, k: int)
    requires
        0 <= k < s.len(),
        s[k] == c,
        forall|j: int| k < j < s.len() ==> s[j] != c,
    ensures
        after_last(s, c) == s.subrange(k + 1, s.len() as int),
    decreases s.len(),
{
    if k == s.len() - 1 {
        assert(after_last(s, c) =~= s.subrange(k + 1, s.len() as int));
    } else {
        lemma_after_last_found(s.drop_last(), c, k);
        assert(s.drop_last().subrange(k + 1, s.len() - 1) =~= s.subrange(k + 1, s.len() - 1));
        assert(after_last(s, c) =~= s.subrange(k + 1, s.len() as int));
    }
}

/// The characters after the last occurrence of `c`, or all of `s` when `c`
/// does not occur.
pub fn after_last_char(s: &str, c: char) -> (r: String)
    ensures
        r@ == after_last(s@, c),
{
    let slen = s.unicode_len();
    let mut i: usize = slen;
    while i > 0
        invariant
            slen == s@.len(),
            i <= slen,
            forall|j: int| i <= j < slen ==> s@[j] != c,
        decreases i,
    {
        if s.get_char(i - 1) == c {
            let rest = s.substring_char(i, slen);
            proof {
                lemma_after_last_found(s@, c, i - 1);
            }
            return rest.to_owned();
        }
        i -= 1;
    }
    proof {
        lemma_after_last_absent(s@, c);
    }
    s.to_owned()
}

/// `s` with every trailing copy of `x` removed.
pub fn strip_all_suffix_str(s: &str, x: &str) -> (r: String)
    ensures
        r@ == strip_all_suffix(s@, x@),
{
    let xlen = x.unicode_len();
    let slen = s.unicode_len();
    if xlen == 0 {
        return s.to_owned();
    }
    let mut end: usize = slen;
    proof {
        assert(s@.subrange(0, slen as int) =~= s@);
    }
    loop
        invariant
            xlen == x@.len(),
            slen == s@.len(),
            xlen > 0,
            end <= slen,
            strip_all_suffix(s@.subrange(0, end as int), x@) == strip_all_suffix(s@, x@),
        decreases end,
    {
        let head = s.substring_char(0, end);
        if end >= xlen && ends_with_str(head, x) {
            proof {
                assert(head@.subrange(0, head@.len() - x@.len()) =~= s@.subrange(
                    0,
                    end - xlen,
                ));
            }
            end = end - xlen;
        } else {
            return head.to_owned();
        }
    }
}

/// `a` and `b` joined by a single path separator.
pub fn path_join(a: &str, b: &str) -> (r: String)
    ensures
        r@ == joined(a@, b@),
{
    let mut r = a.to_owned();
    r.append("/");
    r.append(b);
    proof {
        reveal_strlit("/");
        assert(r@ =~= joined(a@, b@));
    }
    r
}

/// Concatenation of two strings.
pub fn concat_str(a: &str, b: &str) -> (r: String)
    ensures
        r@ == a@ + b@,
{
    let mut r = a.to_owned();
    r.append(b);
    r
}

/// Whether `c` is whitespace in the sense of `str::trim`.
pub fn is_space(c: char) -> (r: bool)
    ensures
        r == is_space_char(c),
{
    c == ' ' || c == '\t' || c == '\n' || c == '\r' || c == '\u{b}' || c == '\u{c}' || c
        == '\u{85}' || c == '\u{a0}' || c == '\u{1680}' || c == '\u{2000}' || c == '\u{2001}' || c
        == '\u{2002}' || c == '\u{2003}' || c == '\u{2004}' || c == '\u{2005}' || c == '\u{2006}'
        || c == '\u{2007}' || c == '\u{2008}' || c == '\u{2009}' || c == '\u{200a}' || c
        == '\u{2028}' || c == '\u{2029}' || c == '\u{202f}' || c == '\u{205f}' || c == '\u{3000}'
}

/// Whether `s` consists of whitespace only, so that trimming it leaves
/// nothing.
pub fn is_blank(s: &str) -> (r: bool)
    ensures
        r == all_whitespace(s@),
{
    let slen = s.unicode_len();
    let mut i: usize = 0;
    while i < slen
        invariant
            slen == s@.len(),
            i <= slen,
            forall|j: int| 0 <= j < i ==> is_space_char(#[trigger] s@[j]),
        decreases slen - i,
    {
        if !is_space(s.get_char(i)) {
            return false;
        }
        i += 1;
    }
    true
}

} // verus!
