//! Helpers on strings, stated over their views as sequences of characters.

use vstd::prelude::*;
use vstd::string::*;
use vstd::utf8::encode_utf8;

verus! {

/// The code of `c`, with the ASCII capital letters mapped to their small letters.
pub open spec fn ascii_fold(c: char) -> u32 {
    let code = c as u32;
    if 65 <= code && code <= 90 {
        (code + 32) as u32
    } else {
        code
    }
}

/// Equality of two names that ignores the case of ASCII letters, as HTTP
/// compares the names of header fields.
pub open spec fn eq_ignore_case(a: Seq<char>, b: Seq<char>) -> bool {
    &&& a.len() == b.len()
    &&& forall|i: int| 0 <= i < a.len() ==> ascii_fold(#[trigger] a[i]) == ascii_fold(b[i])
}

/// `needle` is one of `names`, up to the case of ASCII letters.
pub open spec fn names_contain(names: Seq<Seq<char>>, needle: Seq<char>) -> bool {
    exists|i: int| 0 <= i < names.len() && eq_ignore_case(#[trigger] names[i], needle)
}

/// Ignoring case is reflexive.
pub proof fn eq_ignore_case_reflexive(a: Seq<char>)
    ensures
        eq_ignore_case(a, a),
{
}

/// Ignoring case is symmetric.
pub proof fn eq_ignore_case_symmetric(a: Seq<char>, b: Seq<char>)
    ensures
        eq_ignore_case(a, b) == eq_ignore_case(b, a),
{
    if eq_ignore_case(a, b) {
        assert forall|i: int| 0 <= i < b.len() implies ascii_fold(#[trigger] b[i]) == ascii_fold(
            a[i],
        ) by {
            assert(ascii_fold(a[i]) == ascii_fold(b[i]));
        }
    }
    if eq_ignore_case(b, a) {
        assert forall|i: int| 0 <= i < a.len() implies ascii_fold(#[trigger] a[i]) == ascii_fold(
            b[i],
        ) by {
            assert(ascii_fold(b[i]) == ascii_fold(a[i]));
        }
    }
}

/// Ignoring case is transitive.
pub proof fn eq_ignore_case_transitive(a: Seq<char>, b: Seq<char>, c: Seq<char>)
    requires
        eq_ignore_case(a, b),
        eq_ignore_case(b, c),
    ensures
        eq_ignore_case(a, c),
{
    assert forall|i: int| 0 <= i < a.len() implies ascii_fold(#[trigger] a[i]) == ascii_fold(
        c[i],
    ) by {
        assert(ascii_fold(a[i]) == ascii_fold(b[i]));
        assert(ascii_fold(b[i]) == ascii_fold(c[i]));
    }
}

/// The bytes by which a text is written on the wire.
pub open spec fn utf8(s: Seq<char>) -> Seq<u8> {
    encode_utf8(s)
}

/// The bytes of a string.
pub fn bytes_of(s: &str) -> (bytes: Vec<u8>)
    ensures
        bytes@ == utf8(s@),
{
    s.as_bytes_vec()
}

/// Collects the characters of a string, so that they can be indexed in constant time.
pub fn chars_of(s: &str) -> (v: Vec<char>)
    ensures
        v@ == s@,
{
    let mut v: Vec<char> = Vec::new();
    for c in it: s.chars()
        invariant
            it.seq() == s@,
            v@ == s@.take(it.index() as int),
    {
        v.push(c);
    }
    v
}

/// Whether the string `prefix` is a literal prefix of the characters `s`.
pub fn starts_with(s: &Vec<char>, prefix: &str) -> (b: bool)
    ensures
        b == prefix@.is_prefix_of(s@),
{
    let mut n: usize = 0;
    for c in it: prefix.chars()
        invariant
            it.seq() == prefix@,
            n == it.index(),
            n <= s.len(),
            s@.take(n as int) == prefix@.take(n as int),
    {
        if n >= s.len() {
            return false;
        }
        if s[n] != c {
            proof {
                if prefix@.is_prefix_of(s@) {
                    assert(s@.subrange(0, prefix@.len() as int)[n as int] == s@[n as int]);
                }
            }
            return false;
        }
        assert(s@.take(n + 1) =~= s@.take(n as int).push(s@[n as int]));
        assert(prefix@.take(n + 1) =~= prefix@.take(n as int).push(prefix@[n as int]));
        n += 1;
    }
    assert(prefix@.take(n as int) =~= prefix@);
    true
}

/// Whether two strings hold the same characters.
pub fn str_eq(a: &str, b: &str) -> (r: bool)
    ensures
        r == (a@ == b@),
{
    let av = chars_of(a);
    if !starts_with(&av, b) {
        return false;
    }
    let same_len = b.unicode_len() == av.len();
    proof {
        if same_len {
            assert(a@.subrange(0, b@.len() as int) =~= a@);
        }
    }
    same_len
}

fn fold(c: char) -> (r: u32)
    ensures
        r == ascii_fold(c),
{
    let code = c as u32;
    if 65 <= code && code <= 90 {
        code + 32
    } else {
        code
    }
}

/// Whether the characters `a` and the string `b` are the same name, up to the
/// case of ASCII letters.
pub fn matches_name(a: &Vec<char>, b: &str) -> (r: bool)
    ensures
        r == eq_ignore_case(a@, b@),
{
    let mut n: usize = 0;
    for c in it: b.chars()
        invariant
            it.seq() == b@,
            n == it.index(),
            n <= a.len(),
            forall|i: int| 0 <= i < n ==> ascii_fold(#[trigger] a@[i]) == ascii_fold(b@[i]),
    {
        if n >= a.len() {
            return false;
        }
        if fold(a[n]) != fold(c) {
            return false;
        }
        n += 1;
    }
    n == a.len()
}

/// Whether the characters `needle` name one of `names`, up to the case of ASCII letters.
pub fn contains_name(names: &Vec<String>, needle: &Vec<char>) -> (r: bool)
    ensures
        r == names_contain(names.deep_view(), needle@),
{
    let mut i: usize = 0;
    while i < names.len()
        invariant
            i <= names.len(),
            forall|j: int| 0 <= j < i ==> !eq_ignore_case(#[trigger] names.deep_view()[j], needle@),
        decreases names.len() - i,
    {
        if matches_name(needle, names[i].as_str()) {
            proof {
                eq_ignore_case_symmetric(needle@, names.deep_view()[i as int]);
            }
            return true;
        }
        proof {
            eq_ignore_case_symmetric(needle@, names.deep_view()[i as int]);
        }
        i += 1;
    }
    false
}

} // verus!
