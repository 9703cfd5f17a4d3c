//! Scanning primitives on string slices.
//!
//! Every function here works on the characters of a `&str` and states its
//! result over the slice's view, a `Seq<char>`. The parsers of this crate are
//! built from these primitives alone.

use vstd::prelude::*;
use vstd::string::StringExecFns;

verus! {

/// A set of characters that a scan accepts.
#[derive(Clone, Copy, Debug)]
pub enum CharClass {
    /// A space or a tab.
    Blank,
    /// A character with the Unicode property `White_Space`.
    Whitespace,
    /// An ASCII letter or an ASCII digit.
    Alphanumeric,
    /// The given character and no other.
    Only(char),
    /// Every character but the two given ones.
    Except(char, char),
}

/// The characters with the Unicode property `White_Space`.
pub open spec fn is_whitespace(c: char) -> bool {
    ||| c == ' '
    ||| '\u{9}' <= c <= '\u{d}'
    ||| c == '\u{85}'
    ||| c == '\u{a0}'
    ||| c == '\u{1680}'
    ||| '\u{2000}' <= c <= '\u{200a}'
    ||| c == '\u{2028}'
    ||| c == '\u{2029}'
    ||| c == '\u{202f}'
    ||| c == '\u{205f}'
    ||| c == '\u{3000}'
}

/// The ASCII letters and digits.
pub open spec fn is_alphanumeric(c: char) -> bool {
    ||| '0' <= c <= '9'
    ||| 'a' <= c <= 'z'
    ||| 'A' <= c <= 'Z'
}

impl CharClass {
    /// Whether `c` belongs to the class.
    pub open spec fn contains(self, c: char) -> bool {
        match self {
            CharClass::Blank => c == ' ' || c == '\t',
            CharClass::Whitespace => is_whitespace(c),
            CharClass::Alphanumeric => is_alphanumeric(c),
            CharClass::Only(a) => c == a,
            CharClass::Except(a, b) => c != a && c != b,
        }
    }

    /// Tests whether `c` belongs to the class.
    pub fn test(self, c: char) -> (r: bool)
        ensures
            r == self.contains(c),
    {
        match self {
            CharClass::Blank => c == ' ' || c == '\t',
            CharClass::Whitespace => {
                c == ' ' || ('\u{9}' <= c && c <= '\u{d}') || c == '\u{85}' || c == '\u{a0}' || c
                    == '\u{1680}' || ('\u{2000}' <= c && c <= '\u{200a}') || c == '\u{2028}' || c
                    == '\u{2029}' || c == '\u{202f}' || c == '\u{205f}' || c == '\u{3000}'
            },
            CharClass::Alphanumeric => {
                ('0' <= c && c <= '9') || ('a' <= c && c <= 'z') || ('A' <= c && c <= 'Z')
            },
            CharClass::Only(a) => c == a,
            CharClass::Except(a, b) => c != a && c != b,
        }
    }
}

/// The length of the longest prefix of `s` whose characters all belong to
/// `class`.
pub open spec fn run_len(s: Seq<char>, class: CharClass) -> nat
    decreases s.len(),
{
    if s.len() > 0 && class.contains(s[0]) {
        1 + run_len(s.drop_first(), class)
    } else {
        0
    }
}

/// The length of the longest suffix of `s` whose characters all belong to
/// `class`.
pub open spec fn trailing_len(s: Seq<char>, class: CharClass) -> nat
    decreases s.len(),
{
    if s.len() > 0 && class.contains(s.last()) {
        1 + trailing_len(s.drop_last(), class)
    } else {
        0
    }
}

/// `s` without its leading white space.
pub open spec fn trim_start(s: Seq<char>) -> Seq<char> {
    s.skip(run_len(s, CharClass::Whitespace) as int)
}

/// `s` without its trailing white space.
pub open spec fn trim_end(s: Seq<char>) -> Seq<char> {
    s.take(s.len() - trailing_len(s, CharClass::Whitespace))
}

/// `s` without its leading and trailing white space.
pub open spec fn trim(s: Seq<char>) -> Seq<char> {
    trim_end(trim_start(s))
}

/// Whether `s` holds nothing but white space.
pub open spec fn is_blank(s: Seq<char>) -> bool {
    run_len(s, CharClass::Whitespace) == s.len()
}

/// A run never exceeds the sequence, every character of it belongs to the
/// class, and the character that follows it does not.
pub proof fn lemma_run_len(s: Seq<char>, class: CharClass)
    ensures
        0 <= run_len(s, class) <= s.len(),
        forall|i: int| 0 <= i < run_len(s, class) ==> class.contains(#[trigger] s[i]),
        run_len(s, class) < s.len() ==> !class.contains(s[run_len(s, class) as int]),
    decreases s.len(),
{
    if s.len() > 0 && class.contains(s[0]) {
        lemma_run_len(s.drop_first(), class);
        let n = run_len(s.drop_first(), class);
        assert forall|i: int| 0 <= i < run_len(s, class) implies class.contains(#[trigger] s[i]) by {
            if i > 0 {
                assert(s[i] == s.drop_first()[i - 1]);
            }
        }
        if run_len(s, class) < s.len() {
            assert(s[n as int + 1] == s.drop_first()[n as int]);
        }
    }
}

/// A prefix of `n` characters of the class, ended by the end of the sequence
/// or by a character outside the class, is the run.
pub proof fn lemma_run_len_is(s: Seq<char>, class: CharClass, n: int)
    requires
        0 <= n <= s.len(),
        forall|i: int| 0 <= i < n ==> class.contains(#[trigger] s[i]),
        n < s.len() ==> !class.contains(s[n]),
    ensures
        run_len(s, class) == n,
    decreases s.len(),
{
    if n > 0 {
        let t = s.drop_first();
        assert forall|i: int| 0 <= i < n - 1 implies class.contains(#[trigger] t[i]) by {
            assert(t[i] == s[i + 1]);
        }
        if n - 1 < t.len() {
            assert(t[n - 1] == s[n]);
        }
        lemma_run_len_is(t, class, n - 1);
    }
}

/// The counterpart of [`lemma_run_len`] for the end of the sequence.
pub proof fn lemma_trailing_len(s: Seq<char>, class: CharClass)
    ensures
        trailing_len(s, class) <= s.len(),
        forall|i: int|
            s.len() - trailing_len(s, class) <= i < s.len() ==> class.contains(#[trigger] s[i]),
        trailing_len(s, class) < s.len() ==> !class.contains(
            s[s.len() - trailing_len(s, class) - 1],
        ),
    decreases s.len(),
{
    if s.len() > 0 && class.contains(s.last()) {
        lemma_trailing_len(s.drop_last(), class);
        let t = s.drop_last();
        assert forall|i: int| s.len() - trailing_len(s, class) <= i < s.len() implies class.contains(
            #[trigger] s[i],
        ) by {
            if i < s.len() - 1 {
                assert(s[i] == t[i]);
            }
        }
        if trailing_len(s, class) < s.len() {
            assert(s[s.len() - trailing_len(s, class) - 1] == t[t.len() - trailing_len(t, class)
                - 1]);
        }
    }
}

/// The counterpart of [`lemma_run_len_is`] for the end of the sequence.
pub proof fn lemma_trailing_len_is(s: Seq<char>, class: CharClass, n: int)
    requires
        0 <= n <= s.len(),
        forall|i: int| s.len() - n <= i < s.len() ==> class.contains(#[trigger] s[i]),
        n < s.len() ==> !class.contains(s[s.len() - n - 1]),
    ensures
        trailing_len(s, class) == n,
    decreases s.len(),
{
    if n > 0 {
        let t = s.drop_last();
        assert forall|i: int| t.len() - (n - 1) <= i < t.len() implies class.contains(
            #[trigger] t[i],
        ) by {
            assert(t[i] == s[i]);
        }
        if n - 1 < t.len() {
            assert(t[t.len() - (n - 1) - 1] == s[s.len() - n - 1]);
        }
        lemma_trailing_len_is(t, class, n - 1);
    }
}

/// The characters of `s`, in order.
pub fn chars_of(s: &str) -> (v: Vec<char>)
    ensures
        v@ == s@,
{
    let mut v: Vec<char> = Vec::new();
    for c in it: s.chars()
        invariant
            v@ == it.seq().take(it.index() as int),
            it.seq() == s@,
    {
        v.push(c);
    }
    v
}

/// Counts the characters of the class at the start of `v`.
pub fn leading(v: &Vec<char>, class: CharClass) -> (n: usize)
    ensures
        n == run_len(v@, class),
{
    let mut n: usize = 0;
    while n < v.len() && class.test(v[n])
        invariant
            n <= v.len(),
            forall|i: int| 0 <= i < n ==> class.contains(#[trigger] v@[i]),
        decreases v.len() - n,
    {
        n += 1;
    }
    proof {
        lemma_run_len_is(v@, class, n as int);
    }
    n
}

/// Counts the characters of the class at the end of `v`.
pub fn trailing(v: &Vec<char>, class: CharClass) -> (n: usize)
    ensures
        n == trailing_len(v@, class),
{
    let mut n: usize = 0;
    while n < v.len() && class.test(v[v.len() - n - 1])
        invariant
            n <= v.len(),
            forall|i: int| v.len() - n <= i < v.len() ==> class.contains(#[trigger] v@[i]),
        decreases v.len() - n,
    {
        n += 1;
    }
    proof {
        lemma_trailing_len_is(v@, class, n as int);
    }
    n
}

/// Splits `s` after its longest prefix of characters of the class: the
/// prefix first, the rest second.
pub fn split_run<'a>(s: &'a str, class: CharClass) -> (r: (&'a str, &'a str))
    ensures
        r.0@ == s@.take(run_len(s@, class) as int),
        r.1@ == s@.skip(run_len(s@, class) as int),
{
    let v = chars_of(s);
    let n = leading(&v, class);
    proof {
        lemma_run_len(s@, class);
    }
    (s.substring_char(0, n), s.substring_char(n, v.len()))
}

/// `s` without its leading white space.
pub fn trim_start_of<'a>(s: &'a str) -> (r: &'a str)
    ensures
        r@ == trim_start(s@),
{
    split_run(s, CharClass::Whitespace).1
}

/// `s` without its trailing white space.
pub fn trim_end_of<'a>(s: &'a str) -> (r: &'a str)
    ensures
        r@ == trim_end(s@),
{
    let v = chars_of(s);
    let n = trailing(&v, CharClass::Whitespace);
    proof {
        lemma_trailing_len(s@, CharClass::Whitespace);
    }
    s.substring_char(0, v.len() - n)
}

/// `s` without its leading and trailing white space.
pub fn trim_of<'a>(s: &'a str) -> (r: &'a str)
    ensures
        r@ == trim(s@),
{
    trim_end_of(trim_start_of(s))
}

/// Whether `s` holds nothing but white space.
pub fn is_blank_str(s: &str) -> (r: bool)
    ensures
        r == is_blank(s@),
{
    let v = chars_of(s);
    leading(&v, CharClass::Whitespace) == v.len()
}

/// What follows `prefix` in `s`, where `s` starts with `prefix`.
pub fn strip_prefix<'a>(s: &'a str, prefix: &str) -> (r: Option<&'a str>)
    ensures
        r is Some <==> prefix@.is_prefix_of(s@),
        r matches Some(rest) ==> rest@ == s@.skip(prefix@.len() as int),
{
    let v = chars_of(s);
    let p = chars_of(prefix);
    if p.len() > v.len() {
        return None;
    }
    let mut i: usize = 0;
    while i < p.len()
        invariant
            i <= p.len() <= v.len(),
            v@ == s@,
            p@ == prefix@,
            forall|j: int| 0 <= j < i ==> v@[j] == p@[j],
        decreases p.len() - i,
    {
        if v[i] != p[i] {
            proof {
                if prefix@.is_prefix_of(s@) {
                    assert(s@.subrange(0, prefix@.len() as int)[i as int] == p@[i as int]);
                }
            }
            return None;
        }
        i += 1;
    }
    assert(p@ =~= v@.subrange(0, p@.len() as int));
    Some(s.substring_char(p.len(), v.len()))
}

/// Whether `s` starts with the character `c`.
pub open spec fn starts_with(s: Seq<char>, c: char) -> bool {
    s.len() > 0 && s[0] == c
}

/// What follows the character `c` in `s`, where `s` starts with `c`.
pub fn strip_char<'a>(s: &'a str, c: char) -> (r: Option<&'a str>)
    ensures
        r is Some <==> starts_with(s@, c),
        r matches Some(rest) ==> rest@ == s@.skip(1),
{
    let v = chars_of(s);
    if v.len() > 0 && v[0] == c {
        Some(s.substring_char(1, v.len()))
    } else {
        None
    }
}

/// Whether the two slices hold the same characters.
pub fn str_eq(a: &str, b: &str) -> (r: bool)
    ensures
        r == (a@ == b@),
{
    let v = chars_of(a);
    let w = chars_of(b);
    if v.len() != w.len() {
        return false;
    }
    let mut i: usize = 0;
    while i < v.len()
        invariant
            i <= v.len(),
            v.len() == w.len(),
            v@ == a@,
            w@ == b@,
            forall|j: int| 0 <= j < i ==> v@[j] == w@[j],
        decreases v.len() - i,
    {
        if v[i] != w[i] {
            return false;
        }
        i += 1;
    }
    assert(v@ =~= w@);
    true
}

/// The index at which `pattern` first occurs in `s`.
pub open spec fn find(s: Seq<char>, pattern: Seq<char>) -> Option<nat>
    decreases s.len(),
{
    if pattern.is_prefix_of(s) {
        Some(0)
    } else if s.len() == 0 {
        None
    } else {
        match find(s.drop_first(), pattern) {
            Some(k) => Some(k + 1),
            None => None,
        }
    }
}

/// Where `pattern` occurs at the index `k` of `s` and at no index before,
/// it first occurs at `k`.
pub proof fn lemma_find_is(s: Seq<char>, pattern: Seq<char>, k: nat)
    requires
        k <= s.len(),
        pattern.is_prefix_of(s.skip(k as int)),
        forall|j: int| 0 <= j < k ==> !pattern.is_prefix_of(#[trigger] s.skip(j)),
    ensures
        find(s, pattern) == Some(k),
    decreases k,
{
    assert(s.skip(0) =~= s);
    if k > 0 {
        let rest = s.drop_first();
        assert(rest.skip(k - 1) =~= s.skip(k as int));
        assert forall|j: int| 0 <= j < k - 1 implies !pattern.is_prefix_of(
            #[trigger] rest.skip(j),
        ) by {
            assert(rest.skip(j) =~= s.skip(j + 1));
        }
        lemma_find_is(rest, pattern, (k - 1) as nat);
    }
}

/// Where `pattern` occurs at no index of `s`, it does not occur in `s`.
pub proof fn lemma_find_none(s: Seq<char>, pattern: Seq<char>)
    requires
        forall|j: int| 0 <= j <= s.len() ==> !pattern.is_prefix_of(#[trigger] s.skip(j)),
    ensures
        find(s, pattern) is None,
    decreases s.len(),
{
    assert(s.skip(0) =~= s);
    if s.len() > 0 {
        let rest = s.drop_first();
        assert forall|j: int| 0 <= j <= rest.len() implies !pattern.is_prefix_of(
            #[trigger] rest.skip(j),
        ) by {
            assert(rest.skip(j) =~= s.skip(j + 1));
        }
        lemma_find_none(rest, pattern);
    }
}

/// Where `pattern` first occurs in `s`, it occurs there, inside `s`, and at
/// no index before.
pub proof fn lemma_find(s: Seq<char>, pattern: Seq<char>)
    ensures
        find(s, pattern) matches Some(k) ==> k + pattern.len() <= s.len() && pattern.is_prefix_of(
            s.skip(k as int),
        ) && forall|j: int| 0 <= j < k ==> !pattern.is_prefix_of(#[trigger] s.skip(j)),
    decreases s.len(),
{
    assert(s.skip(0) =~= s);
    if !pattern.is_prefix_of(s) && s.len() > 0 {
        let rest = s.drop_first();
        lemma_find(rest, pattern);
        match find(rest, pattern) {
            Some(k) => {
                assert(rest.skip(k as int) =~= s.skip(k as int + 1));
                assert forall|j: int| 0 <= j < k + 1 implies !pattern.is_prefix_of(
                    #[trigger] s.skip(j),
                ) by {
                    if j > 0 {
                        assert(rest.skip(j - 1) =~= s.skip(j));
                    }
                }
            },
            None => {},
        }
    }
}

/// Whether `pattern` stands at the index `k` of `v`.
pub fn occurs_at(v: &Vec<char>, k: usize, pattern: &Vec<char>) -> (r: bool)
    requires
        k <= v.len(),
    ensures
        r == pattern@.is_prefix_of(v@.skip(k as int)),
{
    if pattern.len() > v.len() - k {
        return false;
    }
    let mut i: usize = 0;
    while i < pattern.len()
        invariant
            i <= pattern.len() <= v.len() - k,
            forall|j: int| 0 <= j < i ==> v@[k + j] == pattern@[j],
        decreases pattern.len() - i,
    {
        if v[k + i] != pattern[i] {
            proof {
                if pattern@.is_prefix_of(v@.skip(k as int)) {
                    assert(v@.skip(k as int).subrange(0, pattern@.len() as int)[i as int]
                        == pattern@[i as int]);
                }
            }
            return false;
        }
        i += 1;
    }
    assert(pattern@ =~= v@.skip(k as int).subrange(0, pattern@.len() as int));
    true
}

/// Splits `s` at the first occurrence of `pattern`: what stands in front of
/// it first, what stands behind it second. `None` where `pattern` does not
/// occur in `s`.
pub fn split_at_first<'a>(s: &'a str, pattern: &str) -> (r: Option<(&'a str, &'a str)>)
    ensures
        match find(s@, pattern@) {
            Some(k) => r matches Some((front, behind)) && front@ == s@.take(k as int) && behind@
                == s@.skip((k + pattern@.len()) as int),
            None => r is None,
        },
{
    let v = chars_of(s);
    let p = chars_of(pattern);
    let mut k: usize = 0;
    while k < v.len() && !occurs_at(&v, k, &p)
        invariant
            k <= v.len(),
            v@ == s@,
            p@ == pattern@,
            forall|j: int| 0 <= j < k ==> !pattern@.is_prefix_of(#[trigger] s@.skip(j)),
        decreases v.len() - k,
    {
        k += 1;
    }
    if occurs_at(&v, k, &p) {
        proof {
            lemma_find_is(s@, pattern@, k as nat);
            lemma_find(s@, pattern@);
        }
        Some((s.substring_char(0, k), s.substring_char(k + p.len(), v.len())))
    } else {
        proof {
            lemma_find_none(s@, pattern@);
        }
        None
    }
}

/// An owned copy of `s`.
pub fn owned(s: &str) -> (r: String)
    ensures
        r@ == s@,
{
    String::from_str(s)
}

} // verus!
