//! Facts about characters and strings that the rest of the library speaks of.
use vstd::prelude::*;
use vstd::string::*;
use vstd::utf8::*;

verus! {

/// The lower case of an ASCII letter; every other character is its own.
pub open spec fn ascii_lower(c: char) -> char {
    if 'A' <= c <= 'Z' {
        (c as u32 + 32) as char
    } else {
        c
    }
}

/// A string with its ASCII letters in lower case.
pub open spec fn ascii_lowercase(s: Seq<char>) -> Seq<char> {
    s.map_values(|c: char| ascii_lower(c))
}

/// Whether a character is an ASCII letter or digit.
pub open spec fn is_ascii_alphanumeric(c: char) -> bool {
    'a' <= c <= 'z' || 'A' <= c <= 'Z' || '0' <= c <= '9'
}

/// Whether two strings differ at most in the case of their ASCII letters.
pub open spec fn same_uncased(a: Seq<char>, b: Seq<char>) -> bool {
    &&& a.len() == b.len()
    &&& forall|i: int| 0 <= i < a.len() ==> ascii_lower(#[trigger] a[i]) == ascii_lower(b[i])
}

/// The part of `s` before the first `c`, or all of `s` where there is none.
pub open spec fn prefix_before(s: Seq<char>, c: char) -> Seq<char>
    decreases s.len(),
{
    if s.len() == 0 || s[0] == c {
        Seq::empty()
    } else {
        seq![s[0]] + prefix_before(s.drop_first(), c)
    }
}

/// The texts of a list of pairs of strings.
pub open spec fn pair_texts(pairs: Seq<(String, String)>) -> Seq<(Seq<char>, Seq<char>)> {
    pairs.map_values(|pair: (String, String)| (pair.0@, pair.1@))
}

/// The texts of a list of strings.
pub open spec fn texts(strings: Seq<String>) -> Seq<Seq<char>> {
    strings.map_values(|s: String| s@)
}

/// The text of an optional string.
pub open spec fn optional_text(s: Option<String>) -> Option<Seq<char>> {
    match s {
        Some(s) => Some(s@),
        None => None,
    }
}

/// `prefix_before` is the longest prefix without `c`.
pub proof fn lemma_prefix_before(s: Seq<char>, c: char, n: int)
    requires
        0 <= n <= s.len(),
        forall|i: int| 0 <= i < n ==> s[i] != c,
        n == s.len() || s[n] == c,
    ensures
        prefix_before(s, c) == s.take(n),
    decreases s.len(),
{
    if n > 0 {
        assert forall|i: int| 0 <= i < n - 1 implies s.drop_first()[i] != c by {
            assert(s.drop_first()[i] == s[i + 1]);
        }
        lemma_prefix_before(s.drop_first(), c, n - 1);
        assert(seq![s[0]] + s.drop_first().take(n - 1) =~= s.take(n));
    } else {
        assert(s.take(0) =~= Seq::<char>::empty());
    }
}

/// What stands before the first `c` does not depend on what follows it, and a
/// string without `c` stands before it as a whole.
pub proof fn law_cut_at_the_first(head: Seq<char>, c: char, rest: Seq<char>)
    requires
        !head.contains(c),
    ensures
        prefix_before(head, c) == head,
        prefix_before(head + seq![c] + rest, c) == head,
{
    let whole = head + seq![c] + rest;
    let n = head.len() as int;
    assert forall|i: int| 0 <= i < n implies whole[i] != c && head[i] != c by {
        assert(whole[i] == head[i]);
        assert(head.contains(head[i]));
    }
    lemma_prefix_before(head, c, n);
    lemma_prefix_before(whole, c, n);
    assert(head.take(n) =~= head);
    assert(whole.take(n) =~= head);
}

/// The texts of strings are theirs one for one, in their order.
pub proof fn law_texts_are_one_for_one(
    pairs: Seq<(String, String)>,
    strings: Seq<String>,
    s: Option<String>,
)
    ensures
        pair_texts(pairs).len() == pairs.len(),
        forall|i: int|
            0 <= i < pairs.len() ==> (#[trigger] pair_texts(pairs)[i]).0 == pairs[i].0@
                && pair_texts(pairs)[i].1 == pairs[i].1@,
        texts(strings).len() == strings.len(),
        forall|i: int| 0 <= i < strings.len() ==> #[trigger] texts(strings)[i] == strings[i]@,
        optional_text(s) is Some <==> s is Some,
        s matches Some(known) ==> optional_text(s)->0 == known@,
{
}

/// Lowering the case of ASCII letters keeps the length, leaves no upper-case
/// letter, and changes nothing but upper-case letters, each by the same distance.
pub proof fn law_lowercase_of_ascii(s: Seq<char>, i: int)
    requires
        0 <= i < s.len(),
    ensures
        ascii_lowercase(s).len() == s.len(),
        !('A' <= ascii_lowercase(s)[i] <= 'Z'),
        'A' <= s[i] <= 'Z' ==> ascii_lowercase(s)[i] as int - s[i] as int == 'a' as int
            - 'A' as int,
        !('A' <= s[i] <= 'Z') ==> ascii_lowercase(s)[i] == s[i],
{
}

/// Returns the part of `s` before the first `c`, or `s` where there is none.
pub fn before<'a>(s: &'a str, c: char) -> (prefix: &'a str)
    ensures
        prefix@ == prefix_before(s@, c),
        prefix@.len() <= s@.len(),
        prefix@ == s@.take(prefix@.len() as int),
        !prefix@.contains(c),
        prefix@.len() < s@.len() ==> s@[prefix@.len() as int] == c,
{
    let len: usize = s.unicode_len();
    let mut i: usize = 0;
    while i < len && s.get_char(i) != c
        invariant
            i <= len,
            len == s@.len(),
            forall|j: int| 0 <= j < i ==> s@[j] != c,
        decreases len - i,
    {
        i = i + 1;
    }
    proof {
        lemma_prefix_before(s@, c, i as int);
    }
    s.substring_char(0, i)
}

/// Returns whether two strings hold the same text.
pub fn same_text(a: &str, b: &str) -> (same: bool)
    ensures
        same == (a@ == b@),
{
    let x = a.as_bytes();
    let y = b.as_bytes();
    proof {
        encode_utf8_decode_utf8(a@);
        encode_utf8_decode_utf8(b@);
    }
    if x.len() != y.len() {
        return false;
    }
    let mut i: usize = 0;
    while i < x.len()
        invariant
            i <= x@.len(),
            x@.len() == y@.len(),
            x@ == encode_utf8(a@),
            y@ == encode_utf8(b@),
            forall|j: int| 0 <= j < i ==> x@[j] == y@[j],
        decreases x@.len() - i,
    {
        if x[i] != y[i] {
            return false;
        }
        i = i + 1;
    }
    proof {
        assert(x@ =~= y@);
    }
    true
}

/// Returns `before`, `middle` and `after` joined.
pub fn join(before: &str, middle: &str, after: &str) -> (joined: String)
    ensures
        joined@ == before@ + middle@ + after@,
{
    let mut joined = before.to_owned();
    joined.append(middle);
    joined.append(after);
    joined
}

} // verus!
