use vstd::prelude::*;

use vstd::string::{StrSliceExecFns, StringSliceAdditionalSpecFns};

verus! {

/// `needle` occurs in `hay` at byte offset `i`.
pub open spec fn occurs_at(hay: Seq<u8>, needle: Seq<u8>, i: int) -> bool {
    0 <= i && i + needle.len() <= hay.len() && hay.subrange(i, i + needle.len()) == needle
}

/// `needle` occurs somewhere in `hay`.
pub open spec fn bytes_contain(hay: Seq<u8>, needle: Seq<u8>) -> bool {
    exists|i: int| occurs_at(hay, needle, i)
}

/// Whether two strings hold the same text.
pub fn str_eq(a: &str, b: &str) -> (res: bool)
    ensures
        res == (a@ == b@),
{
    let x = a.as_bytes();
    let y = b.as_bytes();
    if x.len() != y.len() {
        return false;
    }
    let mut i: usize = 0;
    while i < x.len()
        invariant
            x@ == a.spec_bytes(),
            y@ == b.spec_bytes(),
            x@.len() == y@.len(),
            i <= x@.len(),
            forall|j: int| 0 <= j < i ==> x@[j] == y@[j],
        decreases x@.len() - i,
    {
        if x[i] != y[i] {
            return false;
        }
        i += 1;
    }
    assert(x@ =~= y@);
    proof {
        vstd::utf8::encode_utf8_decode_utf8(a@);
        vstd::utf8::encode_utf8_decode_utf8(b@);
    }
    true
}

/// Whether `needle` occurs in `hay` at byte offset `i`.
fn bytes_match_at(hay: &[u8], needle: &[u8], i: usize) -> (res: bool)
    requires
        i + needle@.len() <= hay@.len(),
    ensures
        res == occurs_at(hay@, needle@, i as int),
{
    let hay_len = hay.len();
    let mut k: usize = 0;
    while k < needle.len()
        invariant
            hay_len == hay@.len(),
            i + needle@.len() <= hay@.len(),
            k <= needle@.len(),
            forall|j: int| 0 <= j < k ==> hay@[i + j] == needle@[j],
        decreases needle@.len() - k,
    {
        if hay[i + k] != needle[k] {
            assert(hay@.subrange(i as int, i + needle@.len())[k as int] != needle@[k as int]);
            return false;
        }
        k += 1;
    }
    assert(hay@.subrange(i as int, i + needle@.len()) =~= needle@);
    true
}

/// Whether the text of `needle` occurs in the text of `hay` (compared on their
/// UTF-8 bytes, which for text is the same as comparing characters).
pub fn str_contains(hay: &str, needle: &str) -> (res: bool)
    ensures
        res == bytes_contain(hay.spec_bytes(), needle.spec_bytes()),
{
    let h = hay.as_bytes();
    let n = needle.as_bytes();
    if n.len() > h.len() {
        assert forall|i: int| !occurs_at(h@, n@, i) by {}
        return false;
    }
    let mut i: usize = 0;
    let last = h.len() - n.len();
    loop
        invariant
            last == h@.len() - n@.len(),
            h@ == hay.spec_bytes(),
            n@ == needle.spec_bytes(),
            n@.len() <= h@.len(),
            i <= last,
            forall|j: int| 0 <= j < i ==> !occurs_at(h@, n@, j),
        decreases last - i,
    {
        if bytes_match_at(h, n, i) {
            return true;
        }
        if i == last {
            assert forall|j: int| !occurs_at(h@, n@, j) by {
                if 0 <= j <= i {
                }
            }
            return false;
        }
        i += 1;
    }
}

/// Whether the text of `s` begins with the text of `prefix`.
pub fn str_starts_with(s: &str, prefix: &str) -> (res: bool)
    ensures
        res == occurs_at(s.spec_bytes(), prefix.spec_bytes(), 0),
{
    let h = s.as_bytes();
    let n = prefix.as_bytes();
    if n.len() > h.len() {
        return false;
    }
    bytes_match_at(h, n, 0)
}


/// The text `s` begins with the text `prefix`.
pub open spec fn has_prefix(s: Seq<char>, prefix: Seq<char>) -> bool {
    prefix.len() <= s.len() && s.take(prefix.len() as int) == prefix
}

/// The rest of `s` behind `prefix`, if `s` begins with it.
pub fn strip_prefix<'a>(s: &'a str, prefix: &str) -> (res: Option<&'a str>)
    ensures
        has_prefix(s@, prefix@) ==> (res matches Some(r) && r@ == s@.skip(prefix@.len() as int)),
        !has_prefix(s@, prefix@) ==> res is None,
{
    let n = s.unicode_len();
    let m = prefix.unicode_len();
    if m > n {
        return None;
    }
    let mut i: usize = 0;
    while i < m
        invariant
            n == s@.len(),
            m == prefix@.len(),
            m <= n,
            i <= m,
            forall|j: int| 0 <= j < i ==> s@[j] == prefix@[j],
        decreases m - i,
    {
        if s.get_char(i) != prefix.get_char(i) {
            assert(s@.take(m as int)[i as int] != prefix@[i as int]);
            return None;
        }
        i += 1;
    }
    assert(s@.take(m as int) =~= prefix@);
    Some(s.substring_char(m, n))
}

/// No '.' among the first `k` characters of `s`.
pub open spec fn dot_free(s: Seq<char>, k: int) -> bool {
    forall|j: int| 0 <= j < k ==> s[j] != '.'
}

/// The character index of the first '.' in `s`, if there is one.
pub fn find_first_dot(s: &str) -> (res: Option<usize>)
    ensures
        res matches Some(k) ==> k < s@.len() && s@[k as int] == '.' && dot_free(s@, k as int),
        res is None ==> dot_free(s@, s@.len() as int),
{
    let n = s.unicode_len();
    let mut i: usize = 0;
    while i < n
        invariant
            n == s@.len(),
            i <= n,
            dot_free(s@, i as int),
        decreases n - i,
    {
        if s.get_char(i) == '.' {
            return Some(i);
        }
        i += 1;
    }
    None
}

/// The text of `s` before its first '.', or all of it when it has none.
pub open spec fn first_segment(s: Seq<char>) -> Seq<char> {
    if exists|k: int| 0 <= k < s.len() && s[k] == '.' && dot_free(s, k) {
        let k = choose|k: int| 0 <= k < s.len() && s[k] == '.' && dot_free(s, k);
        s.take(k)
    } else {
        s
    }
}

/// The text of `s` behind its first '.', or nothing when it has none.
pub open spec fn after_first_dot(s: Seq<char>) -> Seq<char> {
    if exists|k: int| 0 <= k < s.len() && s[k] == '.' && dot_free(s, k) {
        let k = choose|k: int| 0 <= k < s.len() && s[k] == '.' && dot_free(s, k);
        s.skip(k + 1)
    } else {
        Seq::empty()
    }
}

/// The first '.' of a text is unique.
pub proof fn lemma_first_dot_unique(s: Seq<char>, k: int)
    requires
        0 <= k < s.len(),
        s[k] == '.',
        dot_free(s, k),
    ensures
        first_segment(s) == s.take(k),
        after_first_dot(s) == s.skip(k + 1),
{
    let k2 = choose|k2: int| 0 <= k2 < s.len() && s[k2] == '.' && dot_free(s, k2);
    assert(0 <= k2 < s.len() && s[k2] == '.' && dot_free(s, k2));
    if k2 < k {
        assert(s[k2] != '.');
    }
    if k < k2 {
        assert(s[k] != '.');
    }
}

/// The text of `s` before its first '.', and the text behind it (empty
/// when `s` has no '.').
pub fn split_at_first_dot<'a>(s: &'a str) -> (res: (&'a str, &'a str))
    ensures
        res.0@ == first_segment(s@),
        res.1@ == after_first_dot(s@),
{
    let n = s.unicode_len();
    match find_first_dot(s) {
        Some(k) => {
            proof {
                lemma_first_dot_unique(s@, k as int);
            }
            (s.substring_char(0, k), s.substring_char(k + 1, n))
        },
        None => {
            assert(s@.subrange(0, n as int) =~= s@);
            assert(s@.subrange(n as int, n as int) =~= Seq::<char>::empty());
            (s.substring_char(0, n), s.substring_char(n, n))
        },
    }
}

/// The decimal character of digit `d` (0 to 9).
pub open spec fn digit_char(d: nat) -> char {
    (48 + d) as char
}

/// The decimal digits of `n`, most significant first, without leading zeros.
pub open spec fn nat_decimal(n: nat) -> Seq<char>
    decreases n,
{
    if n < 10 {
        seq![digit_char(n)]
    } else {
        nat_decimal(n / 10).push(digit_char(n % 10))
    }
}

/// The decimal text of `i`, with a leading minus sign when it is negative.
pub open spec fn int_decimal(i: int) -> Seq<char> {
    if i < 0 {
        seq!['-'] + nat_decimal((-i) as nat)
    } else {
        nat_decimal(i as nat)
    }
}

// ---------------------------------------------------------------------------
// Characters.

/// The characters of a text.
pub(crate) fn chars_of(text: &str) -> (v: Vec<char>)
    ensures
        v@ == text@,
{
    broadcast use vstd::string::axiom_spec_iter;

    let mut v: Vec<char> = Vec::new();
    for c in it: text.chars()
        invariant
            v@ == it.seq().take(it.index() as int),
    {
        v.push(c);
    }
    v
}

/// `String::push`: appends `c` to `s`.
#[verifier::external_body]
pub(crate) fn push_char(s: &mut String, c: char)
    ensures
        final(s)@ == old(s)@.push(c),
{
    s.push(c)
}

/// A string holding the characters `v`.
pub(crate) fn string_of(v: &Vec<char>) -> (s: String)
    ensures
        s@ == v@,
{
    let mut s = String::new();
    let mut i: usize = 0;
    while i < v.len()
        invariant
            i <= v@.len(),
            s@ == v@.take(i as int),
        decreases v@.len() - i,
    {
        push_char(&mut s, v[i]);
        assert(v@.take(i + 1) =~= v@.take(i as int).push(v@[i as int]));
        i += 1;
    }
    assert(v@.take(v@.len() as int) =~= v@);
    s
}

} // verus!
