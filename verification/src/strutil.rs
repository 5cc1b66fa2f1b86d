//! Character-sequence helpers shared by the parsing and scanning modules.

use vstd::prelude::*;

verus! {

/// The mathematical content of a list of strings, in order.
pub open spec fn strings_view(ss: Seq<String>) -> Seq<Seq<char>> {
    ss.map_values(|s: String| s@)
}

/// Whitespace as the cache-lister grammar uses it: blanks, tabs, and the
/// carriage returns a line may carry before its newline.
pub open spec fn is_space(c: char) -> bool {
    c == ' ' || c == '\t' || c == '\r'
}

/// Index of the first occurrence of `c` at or after `i`, if any.
pub open spec fn find_char_from(s: Seq<char>, i: int, c: char) -> Option<int>
    decreases s.len() - i,
{
    if i < 0 || i >= s.len() {
        None
    } else if s[i] == c {
        Some(i)
    } else {
        find_char_from(s, i + 1, c)
    }
}

/// The first index at or after `i` holding a non-whitespace character, or the
/// length where only whitespace follows.
pub open spec fn skip_spaces_from(s: Seq<char>, i: int) -> int
    decreases s.len() - i,
{
    if i < 0 || i >= s.len() {
        s.len() as int
    } else if is_space(s[i]) {
        skip_spaces_from(s, i + 1)
    } else {
        i
    }
}

/// The first whitespace index at or after `i`, or the length where the token
/// runs to the end.
pub open spec fn token_end_from(s: Seq<char>, i: int) -> int
    decreases s.len() - i,
{
    if i < 0 || i >= s.len() {
        s.len() as int
    } else if is_space(s[i]) {
        i
    } else {
        token_end_from(s, i + 1)
    }
}

/// Length of `s` once trailing whitespace is dropped.
pub open spec fn trim_end_from(s: Seq<char>) -> int
    decreases s.len(),
{
    if s.len() == 0 {
        0
    } else if is_space(s[s.len() - 1]) {
        trim_end_from(s.drop_last())
    } else {
        s.len() as int
    }
}

/// `s` with leading and trailing whitespace removed.
pub open spec fn trim_spec(s: Seq<char>) -> Seq<char> {
    let t = s.subrange(0, trim_end_from(s));
    t.subrange(skip_spaces_from(t, 0), t.len() as int)
}

/// Whether `c` counts as whitespace here.
pub fn is_space_char(c: char) -> (r: bool)
    ensures
        r == is_space(c),
{
    c == ' ' || c == '\t' || c == '\r'
}

/// Index of the first occurrence of `c` in `s` at or after `from`, if any.
pub fn find_char(s: &str, from: usize, c: char) -> (r: Option<usize>)
    requires
        from <= s@.len(),
    ensures
        match r {
            Some(j) => from <= j < s@.len() && find_char_from(s@, from as int, c) == Some(
                j as int,
            ),
            None => find_char_from(s@, from as int, c) is None,
        },
{
    let len = s.unicode_len();
    let mut i: usize = from;
    while i < len
        invariant
            from <= i <= len,
            len == s@.len(),
            find_char_from(s@, from as int, c) == find_char_from(s@, i as int, c),
        decreases len - i,
    {
        if s.get_char(i) == c {
            return Some(i);
        }
        i += 1;
    }
    None
}

/// The first index at or after `from` holding a non-whitespace character.
pub fn skip_spaces(s: &str, from: usize) -> (r: usize)
    requires
        from <= s@.len(),
    ensures
        r == skip_spaces_from(s@, from as int),
        from <= r <= s@.len(),
{
    let len = s.unicode_len();
    let mut i: usize = from;
    while i < len
        invariant
            from <= i <= len,
            len == s@.len(),
            skip_spaces_from(s@, from as int) == skip_spaces_from(s@, i as int),
        decreases len - i,
    {
        if !is_space_char(s.get_char(i)) {
            return i;
        }
        i += 1;
    }
    len
}

/// The first whitespace index at or after `from`, or the length.
pub fn token_end(s: &str, from: usize) -> (r: usize)
    requires
        from <= s@.len(),
    ensures
        r == token_end_from(s@, from as int),
        from <= r <= s@.len(),
{
    let len = s.unicode_len();
    let mut i: usize = from;
    while i < len
        invariant
            from <= i <= len,
            len == s@.len(),
            token_end_from(s@, from as int) == token_end_from(s@, i as int),
        decreases len - i,
    {
        if is_space_char(s.get_char(i)) {
            return i;
        }
        i += 1;
    }
    len
}

/// `s` with leading and trailing whitespace removed.
pub fn trim<'a>(s: &'a str) -> (r: &'a str)
    ensures
        r@ == trim_spec(s@),
{
    let len = s.unicode_len();
    proof {
        assert(s@.subrange(0, len as int) =~= s@);
    }
    let mut e: usize = len;
    loop
        invariant
            e <= len,
            len == s@.len(),
            trim_end_from(s@) == trim_end_from(s@.subrange(0, e as int)),
        ensures
            e <= len,
            trim_end_from(s@) == e,
        decreases e,
    {
        if e == 0 {
            break ;
        }
        if !is_space_char(s.get_char(e - 1)) {
            proof {
                assert(s@.subrange(0, e as int)[e - 1] == s@[e - 1]);
            }
            break ;
        }
        proof {
            assert(s@.subrange(0, e as int).drop_last() =~= s@.subrange(0, e as int - 1));
        }
        e -= 1;
    }
    let ghost t = s@.subrange(0, e as int);
    let mut b: usize = 0;
    loop
        invariant
            b <= e,
            e <= len,
            len == s@.len(),
            t == s@.subrange(0, e as int),
            skip_spaces_from(t, 0) == skip_spaces_from(t, b as int),
        ensures
            b <= e,
            skip_spaces_from(t, 0) == b,
        decreases e - b,
    {
        if b == e {
            break ;
        }
        if !is_space_char(s.get_char(b)) {
            proof {
                assert(t[b as int] == s@[b as int]);
            }
            break ;
        }
        b += 1;
    }
    proof {
        assert(s@.subrange(b as int, e as int) =~= t.subrange(
            skip_spaces_from(t, 0),
            t.len() as int,
        ));
    }
    s.substring_char(b, e)
}

/// Whether two strings hold the same characters.
pub fn str_eq(a: &str, b: &str) -> (r: bool)
    ensures
        r == (a@ == b@),
{
    let alen = a.unicode_len();
    if alen != b.unicode_len() {
        return false;
    }
    let mut i: usize = 0;
    while i < alen
        invariant
            i <= alen,
            alen == a@.len(),
            alen == b@.len(),
            forall|k: int| 0 <= k < i ==> a@[k] == b@[k],
        decreases alen - i,
    {
        if a.get_char(i) != b.get_char(i) {
            return false;
        }
        i += 1;
    }
    proof {
        assert(a@ =~= b@);
    }
    true
}

/// Lexicographic order on character sequences, by code point.
pub open spec fn lex_leq(a: Seq<char>, b: Seq<char>) -> bool
    decreases a.len(),
{
    if a.len() == 0 {
        true
    } else if b.len() == 0 {
        false
    } else if (a[0] as u32) != (b[0] as u32) {
        (a[0] as u32) < (b[0] as u32)
    } else {
        lex_leq(a.drop_first(), b.drop_first())
    }
}

/// Any two character sequences are ordered one way or the other.
pub proof fn lemma_lex_leq_total(a: Seq<char>, b: Seq<char>)
    ensures
        lex_leq(a, b) || lex_leq(b, a),
    decreases a.len(),
{
    if a.len() > 0 && b.len() > 0 && (a[0] as u32) == (b[0] as u32) {
        lemma_lex_leq_total(a.drop_first(), b.drop_first());
    }
}

/// The order is transitive.
pub proof fn lemma_lex_leq_trans(a: Seq<char>, b: Seq<char>, c: Seq<char>)
    requires
        lex_leq(a, b),
        lex_leq(b, c),
    ensures
        lex_leq(a, c),
    decreases a.len(),
{
    if a.len() > 0 && b.len() > 0 && c.len() > 0 && (a[0] as u32) == (b[0] as u32) && (b[0] as u32)
        == (c[0] as u32) {
        lemma_lex_leq_trans(a.drop_first(), b.drop_first(), c.drop_first());
    }
}

/// Whether `a` precedes `b` (or equals it) in lexicographic order.
pub fn str_lex_le(a: &str, b: &str) -> (r: bool)
    ensures
        r == lex_leq(a@, b@),
{
    let alen = a.unicode_len();
    let blen = b.unicode_len();
    proof {
        assert(a@.subrange(0, alen as int) =~= a@);
        assert(b@.subrange(0, blen as int) =~= b@);
    }
    let mut i: usize = 0;
    loop
        invariant
            i <= alen,
            i <= blen,
            alen == a@.len(),
            blen == b@.len(),
            lex_leq(a@, b@) == lex_leq(a@.subrange(i as int, alen as int), b@.subrange(i as int, blen as int)),
        decreases alen - i,
    {
        if i == alen {
            return true;
        }
        if i == blen {
            return false;
        }
        let ca = a.get_char(i) as u32;
        let cb = b.get_char(i) as u32;
        if ca != cb {
            return ca < cb;
        }
        proof {
            assert(a@.subrange(i as int, alen as int).drop_first() =~= a@.subrange(
                i as int + 1,
                alen as int,
            ));
            assert(b@.subrange(i as int, blen as int).drop_first() =~= b@.subrange(
                i as int + 1,
                blen as int,
            ));
        }
        i += 1;
    }
}

} // verus!
