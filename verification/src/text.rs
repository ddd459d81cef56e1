//! Small text operations on character sequences: trimming, searching, equality.

use vstd::prelude::*;
use vstd::string::StrSliceExecFns;

verus! {

/// The Unicode `White_Space` property.
pub open spec fn whitespace(c: char) -> bool {
    ||| '\u{9}' <= c <= '\u{d}'
    ||| c == '\u{20}'
    ||| c == '\u{85}'
    ||| c == '\u{a0}'
    ||| c == '\u{1680}'
    ||| '\u{2000}' <= c <= '\u{200a}'
    ||| c == '\u{2028}'
    ||| c == '\u{2029}'
    ||| c == '\u{202f}'
    ||| c == '\u{205f}'
    ||| c == '\u{3000}'
}

/// `s` without its trailing white space.
pub open spec fn end_trimmed(s: Seq<char>) -> Seq<char>
    decreases s.len(),
{
    if s.len() > 0 && whitespace(s.last()) {
        end_trimmed(s.drop_last())
    } else {
        s
    }
}

/// `s` without its leading white space.
pub open spec fn start_trimmed(s: Seq<char>) -> Seq<char>
    decreases s.len(),
{
    if s.len() > 0 && whitespace(s.first()) {
        start_trimmed(s.drop_first())
    } else {
        s
    }
}

/// `s` without leading and trailing white space.
pub open spec fn trimmed(s: Seq<char>) -> Seq<char> {
    end_trimmed(start_trimmed(s))
}

/// `pat` occurs in `s` at position `i`.
pub open spec fn occurs_at(s: Seq<char>, pat: Seq<char>, i: int) -> bool {
    &&& 0 <= i <= s.len() - pat.len()
    &&& s.subrange(i, i + pat.len()) == pat
}

/// `pat` occurs somewhere in `s`.
pub open spec fn has_substring(s: Seq<char>, pat: Seq<char>) -> bool {
    exists|i: int| occurs_at(s, pat, i)
}

/// Strings as character sequences.
pub open spec fn texts(strings: Seq<String>) -> Seq<Seq<char>> {
    strings.map_values(|s: String| s@)
}

/// Whether `c` is white space in the sense of Unicode.
pub fn is_whitespace(c: char) -> (r: bool)
    ensures
        r == whitespace(c),
{
    ('\u{9}' <= c && c <= '\u{d}') || c == '\u{20}' || c == '\u{85}' || c == '\u{a0}' || c
        == '\u{1680}' || ('\u{2000}' <= c && c <= '\u{200a}') || c == '\u{2028}' || c == '\u{2029}'
        || c == '\u{202f}' || c == '\u{205f}' || c == '\u{3000}'
}

/// Removes trailing white space.
pub fn trim_end(s: &str) -> (r: &str)
    ensures
        r@ == end_trimmed(s@),
{
    let mut n: usize = s.unicode_len();
    assert(s@.take(n as int) == s@);
    while n > 0 && is_whitespace(s.get_char(n - 1))
        invariant
            n <= s@.len(),
            end_trimmed(s@.take(n as int)) == end_trimmed(s@),
        decreases n,
    {
        assert(s@.take(n as int).drop_last() == s@.take(n - 1));
        n = n - 1;
    }
    s.substring_char(0, n)
}

/// Removes leading white space.
pub fn trim_start(s: &str) -> (r: &str)
    ensures
        r@ == start_trimmed(s@),
{
    let len: usize = s.unicode_len();
    let mut n: usize = 0;
    assert(s@.skip(0) == s@);
    while n < len && is_whitespace(s.get_char(n))
        invariant
            n <= len,
            len == s@.len(),
            start_trimmed(s@.skip(n as int)) == start_trimmed(s@),
        decreases len - n,
    {
        assert(s@.skip(n as int).drop_first() == s@.skip(n + 1));
        n = n + 1;
    }
    s.substring_char(n, len)
}

/// Removes leading and trailing white space.
pub fn trim(s: &str) -> (r: &str)
    ensures
        r@ == trimmed(s@),
{
    trim_end(trim_start(s))
}

/// Whether two strings hold the same characters.
pub fn same_text(a: &str, b: &str) -> (r: bool)
    ensures
        r == (a@ == b@),
{
    let n: usize = a.unicode_len();
    if n != b.unicode_len() {
        return false;
    }
    let mut i: usize = 0;
    while i < n
        invariant
            i <= n,
            n == a@.len(),
            n == b@.len(),
            forall|j: int| 0 <= j < i ==> a@[j] == b@[j],
        decreases n - i,
    {
        if a.get_char(i) != b.get_char(i) {
            return false;
        }
        i = i + 1;
    }
    assert(a@ =~= b@);
    true
}

/// Whether `pat` occurs in `s`.
pub fn contains(s: &str, pat: &str) -> (r: bool)
    ensures
        r == has_substring(s@, pat@),
{
    let n: usize = s.unicode_len();
    let m: usize = pat.unicode_len();
    if m > n {
        return false;
    }
    let mut i: usize = 0;
    while i <= n - m
        invariant
            n == s@.len(),
            m == pat@.len(),
            m <= n,
            i <= n - m + 1,
            forall|j: int| 0 <= j < i ==> !occurs_at(s@, pat@, j),
        decreases n - m + 1 - i,
    {
        if same_text(s.substring_char(i, i + m), pat) {
            assert(occurs_at(s@, pat@, i as int));
            return true;
        }
        if i == n - m {
            return false;
        }
        i = i + 1;
    }
    false
}

/// Trimming the end keeps a beginning of the string that does not end with white space, and
/// leaves out nothing but white space.
pub proof fn trimming_the_end(s: Seq<char>)
    ensures
        end_trimmed(s).len() <= s.len(),
        end_trimmed(s) == s.take(end_trimmed(s).len() as int),
        forall|i: int| end_trimmed(s).len() <= i < s.len() ==> whitespace(#[trigger] s[i]),
        end_trimmed(s).len() > 0 ==> !whitespace(end_trimmed(s).last()),
    decreases s.len(),
{
    if s.len() > 0 && whitespace(s.last()) {
        trimming_the_end(s.drop_last());
        let n = end_trimmed(s).len() as int;
        assert(s.drop_last().take(n) =~= s.take(n));
        assert forall|i: int| n <= i < s.len() implies whitespace(#[trigger] s[i]) by {
            if i < s.len() - 1 {
                assert(s.drop_last()[i] == s[i]);
            }
        }
    } else {
        assert(s.take(s.len() as int) =~= s);
    }
}

/// Trimming the start keeps an end of the string that does not begin with white space, and
/// leaves out nothing but white space.
pub proof fn trimming_the_start(s: Seq<char>)
    ensures
        start_trimmed(s).len() <= s.len(),
        start_trimmed(s) == s.skip(s.len() - start_trimmed(s).len()),
        forall|i: int|
            0 <= i < s.len() - start_trimmed(s).len() ==> whitespace(#[trigger] s[i]),
        start_trimmed(s).len() > 0 ==> !whitespace(start_trimmed(s).first()),
    decreases s.len(),
{
    if s.len() > 0 && whitespace(s.first()) {
        let rest = s.drop_first();
        trimming_the_start(rest);
        let n = start_trimmed(s).len() as int;
        assert(rest.skip(rest.len() - n) =~= s.skip(s.len() - n));
        assert forall|i: int| 0 <= i < s.len() - n implies whitespace(#[trigger] s[i]) by {
            if i > 0 {
                assert(rest[i - 1] == s[i]);
            }
        }
    } else {
        assert(s.skip(0) =~= s);
    }
}

/// Trimming keeps a piece of the string that neither begins nor ends with white space, and
/// leaves out nothing but white space.
pub proof fn trimming(s: Seq<char>)
    ensures
        exists|i: int, j: int|
            {
                &&& 0 <= i <= j <= s.len()
                &&& trimmed(s) == #[trigger] s.subrange(i, j)
                &&& forall|k: int| 0 <= k < i || j <= k < s.len() ==> whitespace(#[trigger] s[k])
                &&& i < j ==> !whitespace(s[i]) && !whitespace(s[j - 1])
            },
{
    trimming_the_start(s);
    let rest = start_trimmed(s);
    trimming_the_end(rest);
    let i = s.len() - rest.len();
    let j = i + trimmed(s).len();
    assert(trimmed(s) =~= s.subrange(i, j));
    assert forall|k: int| 0 <= k < i || j <= k < s.len() implies whitespace(#[trigger] s[k]) by {
        if k >= j {
            assert(rest[k - i] == s[k]);
        }
    }
}

/// White space is the tab and the four characters after it, the space, the next-line character
/// and the no-break space; beyond Latin-1 it is seventeen more characters.
pub proof fn white_space(c: char)
    ensures
        (c as int) < 0x80 ==> (whitespace(c) <==> 9 <= c as int <= 13 || c as int == 32),
        0x80 <= c as int && (c as int) < 0x100 ==> (whitespace(c) <==> c as int == 0x85 || c as int
            == 0xa0),
        c as int >= 0x100 ==> (whitespace(c) <==> seq![
            0x1680int,
            0x2000,
            0x2001,
            0x2002,
            0x2003,
            0x2004,
            0x2005,
            0x2006,
            0x2007,
            0x2008,
            0x2009,
            0x200a,
            0x2028,
            0x2029,
            0x202f,
            0x205f,
            0x3000,
        ].contains(c as int)),
{
    let list = seq![
        0x1680int,
        0x2000,
        0x2001,
        0x2002,
        0x2003,
        0x2004,
        0x2005,
        0x2006,
        0x2007,
        0x2008,
        0x2009,
        0x200a,
        0x2028,
        0x2029,
        0x202f,
        0x205f,
        0x3000,
    ];
    let n = c as int;
    if n == 0x1680 {
        assert(list[0] == n);
    }
    if 0x2000 <= n <= 0x200a {
        assert(list[n - 0x2000 + 1] == n);
    }
    if n == 0x2028 {
        assert(list[12] == n);
    }
    if n == 0x2029 {
        assert(list[13] == n);
    }
    if n == 0x202f {
        assert(list[14] == n);
    }
    if n == 0x205f {
        assert(list[15] == n);
    }
    if n == 0x3000 {
        assert(list[16] == n);
    }
}

/// A string has a substring exactly if it is something, the substring, and something.
pub proof fn substrings(s: Seq<char>, pat: Seq<char>)
    ensures
        has_substring(s, pat) <==> exists|a: Seq<char>, b: Seq<char>| s == #[trigger] (a + pat + b),
{
    if has_substring(s, pat) {
        let i = choose|i: int| occurs_at(s, pat, i);
        let a = s.take(i);
        let b = s.skip(i + pat.len());
        assert forall|k: int| 0 <= k < s.len() implies #[trigger] s[k] == (a + pat + b)[k] by {
            if i <= k < i + pat.len() {
                assert(s.subrange(i, i + pat.len())[k - i] == s[k]);
            }
        }
        assert(s =~= a + pat + b);
    }
    if exists|a: Seq<char>, b: Seq<char>| s == #[trigger] (a + pat + b) {
        let (a, b) = choose|a: Seq<char>, b: Seq<char>| s == #[trigger] (a + pat + b);
        assert(s.subrange(a.len() as int, a.len() as int + pat.len()) =~= pat);
        assert(occurs_at(s, pat, a.len() as int));
    }
}

/// Strings are taken over one by one.
pub proof fn texts_in_order(strings: Seq<String>)
    ensures
        texts(strings).len() == strings.len(),
        forall|i: int| 0 <= i < strings.len() ==> #[trigger] texts(strings)[i] == strings[i]@,
{
}

proof fn lemma_end_trimmed(s: Seq<char>)
    ensures
        end_trimmed(s).len() <= s.len(),
        end_trimmed(s) == s.take(end_trimmed(s).len() as int),
        end_trimmed(s).len() > 0 ==> !whitespace(end_trimmed(s).last()),
{
    trimming_the_end(s);
}

proof fn lemma_start_trimmed(s: Seq<char>)
    ensures
        start_trimmed(s).len() > 0 ==> !whitespace(start_trimmed(s).first()),
{
    trimming_the_start(s);
}

/// Trimming twice is trimming once.
pub proof fn trimmed_is_trimmed(s: Seq<char>)
    ensures
        trimmed(trimmed(s)) == trimmed(s),
{
    lemma_start_trimmed(s);
    lemma_end_trimmed(start_trimmed(s));
}

} // verus!
