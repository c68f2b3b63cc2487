use vstd::prelude::*;

use crate::strings::{chars_of, push_char, str_eq, string_of};

verus! {

/// A value of a key-values text file (the format of the game's translation
/// and item files): a string, or an object of named values.
#[derive(Debug)]
pub enum JsonValue {
    Str(String),
    /// The entries of an object; no key occurs twice.
    Object(Vec<(String, JsonValue)>),
}

/// The content of a key-values value, as text.
pub enum Kv {
    Str(Seq<char>),
    Object(Seq<(Seq<char>, Kv)>),
}

pub open spec fn kv_of(j: JsonValue) -> Kv
    decreases j, 1nat,
{
    match j {
        JsonValue::Str(s) => Kv::Str(s@),
        JsonValue::Object(v) => Kv::Object(kv_entries(v@)),
    }
}

pub open spec fn kv_entries(v: Seq<(String, JsonValue)>) -> Seq<(Seq<char>, Kv)>
    decreases v, 0nat,
{
    if v.len() == 0 {
        Seq::empty()
    } else {
        kv_entries(v.subrange(0, v.len() - 1)).push((v[v.len() - 1].0@, kv_of(v[v.len() - 1].1)))
    }
}

// ---------------------------------------------------------------------------
// The grammar, over the characters of the text.

pub open spec fn is_space(c: char) -> bool {
    c == ' ' || c == '\t' || c == '\r' || c == '\n'
}

/// The position behind the white space at `i`.
pub open spec fn skip_ws(s: Seq<char>, i: int) -> int
    decreases s.len() - i,
{
    if 0 <= i < s.len() && is_space(s[i]) {
        skip_ws(s, i + 1)
    } else {
        i
    }
}

/// The position of the end of the line at `i` (its '\n' or '\r', or the end
/// of the text).
pub open spec fn skip_line(s: Seq<char>, i: int) -> int
    decreases s.len() - i,
{
    if 0 <= i < s.len() && s[i] != '\n' && s[i] != '\r' {
        skip_line(s, i + 1)
    } else {
        i
    }
}

pub proof fn lemma_skip_ws_bounds(s: Seq<char>, i: int)
    requires
        0 <= i,
    ensures
        i <= skip_ws(s, i),
        i <= s.len() ==> skip_ws(s, i) <= s.len(),
    decreases s.len() - i,
{
    if 0 <= i < s.len() && is_space(s[i]) {
        lemma_skip_ws_bounds(s, i + 1);
    }
}

pub proof fn lemma_skip_line_bounds(s: Seq<char>, i: int)
    requires
        0 <= i,
    ensures
        i <= skip_line(s, i),
        i <= s.len() ==> skip_line(s, i) <= s.len(),
    decreases s.len() - i,
{
    if 0 <= i < s.len() && s[i] != '\n' && s[i] != '\r' {
        lemma_skip_line_bounds(s, i + 1);
    }
}

/// The position behind the white space and `//` comments at `i`.
pub open spec fn skip_ws_comments(s: Seq<char>, i: int) -> int
    decreases s.len() - i,
{
    let j = skip_ws(s, i);
    if 0 <= i && j + 1 < s.len() && s[j] == '/' && s[j + 1] == '/' {
        proof {
            lemma_skip_ws_bounds(s, i);
            lemma_skip_line_bounds(s, j + 2);
        }
        skip_ws_comments(s, skip_line(s, j + 2))
    } else {
        j
    }
}

pub open spec fn hex_value(c: char) -> Option<u32> {
    if '0' <= c <= '9' {
        Some((c as u32 - '0' as u32) as u32)
    } else if 'a' <= c <= 'f' {
        Some((c as u32 - 'a' as u32 + 10) as u32)
    } else if 'A' <= c <= 'F' {
        Some((c as u32 - 'A' as u32 + 10) as u32)
    } else {
        None
    }
}

/// The hexadecimal number of the digits `s[i..i + n]`.
pub open spec fn hex_digits(s: Seq<char>, i: int, n: nat) -> Option<u32>
    decreases n,
{
    if n == 0 {
        Some(0)
    } else {
        match (hex_digits(s, i, (n - 1) as nat), hex_value(s[i + n - 1])) {
            (Some(hi), Some(d)) => Some((hi * 16 + d) as u32),
            _ => None,
        }
    }
}

/// Four characters read as a hexadecimal 16-bit number (a leading '+' is
/// allowed, as for `u16::from_str_radix`).
pub open spec fn spec_u16_hex(s: Seq<char>, i: int) -> Option<u32> {
    if 0 <= i && i + 4 <= s.len() {
        if s[i] == '+' {
            hex_digits(s, i + 1, 3)
        } else {
            hex_digits(s, i, 4)
        }
    } else {
        None
    }
}

pub open spec fn is_surrogate(cp: u32) -> bool {
    0xD800 <= cp < 0xE000
}

/// A character given by four hex digits, or by a pair of surrogates written
/// as `XXXX\uXXXX`: the character and the position behind it.
pub open spec fn spec_unicode_escape(s: Seq<char>, i: int) -> Option<(char, int)> {
    match spec_u16_hex(s, i) {
        None => None,
        Some(cp) => if !is_surrogate(cp) {
            Some((cp as char, i + 4))
        } else if i + 6 <= s.len() && s[i + 4] == '\\' && s[i + 5] == 'u' {
            match spec_u16_hex(s, i + 6) {
                Some(low) => if 0xD800 <= cp < 0xDC00 && 0xDC00 <= low < 0xE000 {
                    Some((((cp - 0xD800) * 1024 + (low - 0xDC00) + 0x10000) as char, i + 10))
                } else {
                    None
                },
                None => None,
            }
        } else {
            None
        },
    }
}

/// The character that the escape sequence after a backslash at `i - 1`
/// stands for, and the position behind it.
pub open spec fn spec_escape(s: Seq<char>, i: int) -> Option<(char, int)> {
    if 0 <= i < s.len() {
        let c = s[i];
        if c == '"' || c == '\'' || c == '\\' || c == '/' {
            Some((c, i + 1))
        } else if c == 'b' {
            Some(('\x08', i + 1))
        } else if c == 'f' {
            Some(('\x0C', i + 1))
        } else if c == 'n' {
            Some(('\n', i + 1))
        } else if c == 'r' {
            Some(('\r', i + 1))
        } else if c == 't' {
            Some(('\t', i + 1))
        } else if c == 'u' || c == 'x' {
            spec_unicode_escape(s, i + 1)
        } else {
            None
        }
    } else {
        None
    }
}

/// The characters of a string body from `i` on, after `acc`: up to the
/// closing quote, with escapes resolved; the text and the position behind
/// the quote. `None` when the text ends first or an escape is invalid.
pub open spec fn string_body(s: Seq<char>, i: int, acc: Seq<char>) -> Option<(Seq<char>, int)>
    decreases s.len() - i,
{
    if i < 0 || i >= s.len() {
        None
    } else if s[i] == '"' {
        Some((acc, i + 1))
    } else if s[i] == '\\' {
        match spec_escape(s, i + 1) {
            None => None,
            Some((c, j)) => string_body(s, j, acc.push(c)),
        }
    } else {
        string_body(s, i + 1, acc.push(s[i]))
    }
}

/// A quoted string at `i`.
pub open spec fn spec_string(s: Seq<char>, i: int) -> Option<(Seq<char>, int)> {
    if 0 <= i < s.len() && s[i] == '"' {
        string_body(s, i + 1, Seq::empty())
    } else {
        None
    }
}

pub open spec fn ascii_lower(c: char) -> char {
    if 'A' <= c <= 'Z' {
        ((c as u32) + 32) as char
    } else {
        c
    }
}

pub open spec fn lowercase(t: Seq<char>) -> Seq<char> {
    Seq::new(t.len(), |i: int| ascii_lower(t[i]))
}

/// The first index of an entry with key `k`, from `i` on.
pub open spec fn find_key(m: Seq<(Seq<char>, Kv)>, k: Seq<char>, i: int) -> Option<int>
    decreases m.len() - i,
{
    if i < 0 || i >= m.len() {
        None
    } else if m[i].0 == k {
        Some(i)
    } else {
        find_key(m, k, i + 1)
    }
}

/// `m` with key `k` set to `v`: replaced where it is, added at the end
/// otherwise.
pub open spec fn kv_set(m: Seq<(Seq<char>, Kv)>, k: Seq<char>, v: Kv) -> Seq<(Seq<char>, Kv)> {
    match find_key(m, k, 0) {
        Some(i) => m.update(i, (k, v)),
        None => m.push((k, v)),
    }
}

/// `m` with every entry of `other` set in turn (entries of `other` win).
pub open spec fn kv_extend(m: Seq<(Seq<char>, Kv)>, other: Seq<(Seq<char>, Kv)>) -> Seq<(Seq<char>, Kv)>
    decreases other.len(),
{
    if other.len() == 0 {
        m
    } else {
        kv_set(kv_extend(m, other.drop_last()), other.last().0, other.last().1)
    }
}

/// What merging `other` into `v` gives: two objects merge their entries, any
/// other value stays as it is.
pub open spec fn kv_merge(v: Kv, other: Kv) -> Kv {
    match (v, other) {
        (Kv::Object(a), Kv::Object(b)) => Kv::Object(kv_extend(a, b)),
        _ => v,
    }
}

/// Adding an entry to an object being read: a key met again merges its
/// value into the earlier one; a new key is added at the end.
pub open spec fn kv_add(m: Seq<(Seq<char>, Kv)>, k: Seq<char>, v: Kv) -> Seq<(Seq<char>, Kv)> {
    match find_key(m, k, 0) {
        Some(i) => m.update(i, (k, kv_merge(m[i].1, v))),
        None => m.push((k, v)),
    }
}

/// A value at `i`: a quoted string or an object.
pub open spec fn spec_value(s: Seq<char>, i: int) -> Option<(Kv, int)>
    decreases s.len() - i, 3nat,
{
    if 0 <= i < s.len() && s[i] == '"' {
        match spec_string(s, i) {
            Some((t, j)) => Some((Kv::Str(t), j)),
            None => None,
        }
    } else if 0 <= i < s.len() && s[i] == '{' {
        spec_members(s, i + 1, Seq::empty())
    } else {
        None
    }
}

/// The entries of an object from `p` on, after those in `acc`: key-value
/// pairs separated by white space and comments, up to the closing brace.
pub open spec fn spec_members(s: Seq<char>, p: int, acc: Seq<(Seq<char>, Kv)>) -> Option<(Kv, int)>
    decreases s.len() - p, 1nat,
{
    let q = skip_ws_comments(s, p);
    if p <= q < s.len() && s[q] == '"' {
        match spec_key_value(s, q) {
            None => None,
            Some((kv, r)) => if q < r <= s.len() {
                spec_members(s, r, kv_add(acc, kv.0, kv.1))
            } else {
                None
            },
        }
    } else if p <= q < s.len() && s[q] == '}' {
        Some((Kv::Object(acc), q + 1))
    } else {
        None
    }
}

/// A key (a quoted string, read in lower case), white space, and a value.
pub open spec fn spec_key_value(s: Seq<char>, q: int) -> Option<((Seq<char>, Kv), int)>
    decreases s.len() - q, 0nat,
{
    match spec_string(s, q) {
        None => None,
        Some((key, j)) => {
            let k = skip_ws(s, j);
            if q < k <= s.len() {
                match spec_value(s, k) {
                    Some((v, r)) => Some(((lowercase(key), v), r)),
                    None => None,
                }
            } else {
                None
            }
        },
    }
}

/// A key-values text: white space, then one key-value pair, read as an
/// object of that one entry; what follows it is not read.
pub open spec fn spec_json_like(s: Seq<char>) -> Option<Kv> {
    match spec_key_value(s, skip_ws(s, 0)) {
        Some((kv, _)) => Some(Kv::Object(seq![kv])),
        None => None,
    }
}

// ---------------------------------------------------------------------------
// Reading.

/// `char::from_u32`: the character with code point `cp`, where there is one
/// (not a surrogate, at most 0x10FFFF).
#[verifier::external_body]
fn char_from_u32(cp: u32) -> (c: Option<char>)
    ensures
        c == (if cp < 0xD800 || 0xE000 <= cp <= 0x10FFFF {
            Some(cp as char)
        } else {
            None
        }),
{
    char::from_u32(cp)
}

/// A string holding the characters `v`, ASCII letters in lower case.
fn lowercase_string(v: &Vec<char>) -> (s: String)
    ensures
        s@ == lowercase(v@),
{
    let mut s = String::new();
    let mut i: usize = 0;
    while i < v.len()
        invariant
            i <= v@.len(),
            s@ == lowercase(v@).take(i as int),
        decreases v@.len() - i,
    {
        let c = v[i];
        let lower = if 'A' <= c && c <= 'Z' {
            match char_from_u32((c as u32) + 32) {
                Some(l) => l,
                None => c,
            }
        } else {
            c
        };
        push_char(&mut s, lower);
        assert(lowercase(v@).take(i + 1) =~= lowercase(v@).take(i as int).push(ascii_lower(v@[i as int])));
        i += 1;
    }
    assert(lowercase(v@).take(v@.len() as int) =~= lowercase(v@));
    s
}

fn multispace0(s: &Vec<char>, i: usize) -> (j: usize)
    requires
        i <= s@.len(),
    ensures
        j == skip_ws(s@, i as int),
        i <= j <= s@.len(),
{
    let mut j = i;
    while j < s.len() && (s[j] == ' ' || s[j] == '\t' || s[j] == '\r' || s[j] == '\n')
        invariant
            i <= j <= s@.len(),
            skip_ws(s@, i as int) == skip_ws(s@, j as int),
        decreases s@.len() - j,
    {
        j += 1;
    }
    j
}

fn take_till_line_end(s: &Vec<char>, i: usize) -> (j: usize)
    requires
        i <= s@.len(),
    ensures
        j == skip_line(s@, i as int),
        i <= j <= s@.len(),
{
    let mut j = i;
    while j < s.len() && s[j] != '\n' && s[j] != '\r'
        invariant
            i <= j <= s@.len(),
            skip_line(s@, i as int) == skip_line(s@, j as int),
        decreases s@.len() - j,
    {
        j += 1;
    }
    j
}

/// White space, then any number of `//` comments, each followed by white
/// space.
fn multispace_with_opt_comment(s: &Vec<char>, i: usize) -> (j: usize)
    requires
        i <= s@.len(),
    ensures
        j == skip_ws_comments(s@, i as int),
        i <= j <= s@.len(),
{
    let n = s.len();
    let mut p = i;
    loop
        invariant
            n == s@.len(),
            i <= p <= s@.len(),
            skip_ws_comments(s@, i as int) == skip_ws_comments(s@, p as int),
        decreases s@.len() - p,
    {
        let j = multispace0(s, p);
        if j < n && n - j > 1 && s[j] == '/' && s[j + 1] == '/' {
            p = take_till_line_end(s, j + 2);
        } else {
            return j;
        }
    }
}

fn hex_digit(c: char) -> (r: Option<u32>)
    ensures
        r == hex_value(c),
{
    if '0' <= c && c <= '9' {
        Some(c as u32 - '0' as u32)
    } else if 'a' <= c && c <= 'f' {
        Some(c as u32 - 'a' as u32 + 10)
    } else if 'A' <= c && c <= 'F' {
        Some(c as u32 - 'A' as u32 + 10)
    } else {
        None
    }
}

/// Four characters read as a hexadecimal 16-bit number.
fn u16_hex(s: &Vec<char>, i: usize) -> (r: Option<u32>)
    ensures
        r == spec_u16_hex(s@, i as int),
        r matches Some(v) ==> v < 0x10000 && i + 4 <= s@.len(),
{
    let len = s.len();
    if i > len || len - i < 4 {
        return None;
    }
    let (start, n): (usize, usize) = if s[i] == '+' { (i + 1, 3) } else { (i, 4) };
    let mut acc: u32 = 0;
    let mut k: usize = 0;
    while k < n
        invariant
            len == s@.len(),
            i + 4 <= len,
            s@[i as int] == '+' ==> start == i + 1 && n == 3,
            s@[i as int] != '+' ==> start == i && n == 4,
            k <= n,
            n <= 4,
            start + n <= len,
            hex_digits(s@, start as int, k as nat) == Some(acc),
            acc < pow16(k as nat),
        decreases n - k,
    {
        let digit = hex_digit(s[start + k]);
        assert(hex_digits(s@, start as int, (k + 1) as nat) == match (hex_digits(s@, start as int, k as nat), hex_value(s@[start + k])) {
            (Some(hi), Some(d)) => Some((hi * 16 + d) as u32),
            _ => None,
        });
        match digit {
            Some(d) => {
                proof {
                    lemma_pow16_step(k as nat);
                }
                acc = acc * 16 + d;
            },
            None => {
                proof {
                    lemma_hex_digits_fail(s@, start as int, (k + 1) as nat, n as nat);
                }
                return None;
            },
        }
        k += 1;
    }
    proof {
        lemma_pow16_step(3);
    }
    Some(acc)
}

pub open spec fn pow16(n: nat) -> nat
    decreases n,
{
    if n == 0 {
        1
    } else {
        16 * pow16((n - 1) as nat)
    }
}

proof fn lemma_pow16_step(k: nat)
    requires
        k <= 3,
    ensures
        pow16(k) <= 4096,
        pow16(k + 1) == 16 * pow16(k),
        pow16(4) == 65536,
{
    reveal_with_fuel(pow16, 5);
}

/// Once a digit fails, so do all longer runs of digits.
proof fn lemma_hex_digits_fail(s: Seq<char>, i: int, k: nat, n: nat)
    requires
        1 <= k <= n,
        hex_digits(s, i, k) is None,
    ensures
        hex_digits(s, i, n) is None,
    decreases n - k,
{
    if k < n {
        lemma_hex_digits_fail(s, i, k + 1, n);
    }
}

/// A character given by hex digits after `\u` or `\x`.
fn unicode_escape(s: &Vec<char>, i: usize) -> (r: Option<(char, usize)>)
    requires
        i <= s@.len(),
    ensures
        match r {
            Some((c, j)) => spec_unicode_escape(s@, i as int) == Some((c, j as int)) && j <= s@.len(),
            None => spec_unicode_escape(s@, i as int) is None,
        },
{
    let len = s.len();
    let cp = u16_hex(s, i)?;
    if !(0xD800 <= cp && cp < 0xE000) {
        let c = char_from_u32(cp)?;
        return Some((c, i + 4));
    }
    if len - i >= 6 && s[i + 4] == '\\' && s[i + 5] == 'u' {
        let low = u16_hex(s, i + 6)?;
        if 0xD800 <= cp && cp < 0xDC00 && 0xDC00 <= low && low < 0xE000 {
            let c = char_from_u32((cp - 0xD800) * 1024 + (low - 0xDC00) + 0x10000)?;
            return Some((c, i + 10));
        }
    }
    None
}

/// One character of a string body at `i` (not the closing quote): itself, or
/// what its escape sequence stands for.
fn character(s: &Vec<char>, i: usize) -> (r: Option<(char, usize)>)
    requires
        i < s@.len(),
        s@[i as int] != '"',
    ensures
        s@[i as int] == '\\' ==> match r {
            Some((c, j)) => spec_escape(s@, i + 1) == Some((c, j as int)) && j <= s@.len(),
            None => spec_escape(s@, i + 1) is None,
        },
        s@[i as int] != '\\' ==> r == Some((s@[i as int], (i + 1) as usize)),
{
    let n = s.len();
    let c = s[i];
    if c != '\\' {
        return Some((c, i + 1));
    }
    if i + 1 >= n {
        return None;
    }
    let e = s[i + 1];
    if e == '"' || e == '\'' || e == '\\' || e == '/' {
        Some((e, i + 2))
    } else if e == 'b' {
        Some(('\x08', i + 2))
    } else if e == 'f' {
        Some(('\x0C', i + 2))
    } else if e == 'n' {
        Some(('\n', i + 2))
    } else if e == 'r' {
        Some(('\r', i + 2))
    } else if e == 't' {
        Some(('\t', i + 2))
    } else if e == 'u' || e == 'x' {
        unicode_escape(s, i + 2)
    } else {
        None
    }
}

/// A quoted string at `i`: its characters and the position behind it.
fn string(s: &Vec<char>, i: usize) -> (r: Option<(Vec<char>, usize)>)
    requires
        i <= s@.len(),
    ensures
        match r {
            Some((t, j)) => spec_string(s@, i as int) == Some((t@, j as int)) && i < j <= s@.len(),
            None => spec_string(s@, i as int) is None,
        },
{
    if i >= s.len() || s[i] != '"' {
        return None;
    }
    let mut acc: Vec<char> = Vec::new();
    let mut p = i + 1;
    loop
        invariant
            i < p <= s@.len(),
            spec_string(s@, i as int) == string_body(s@, p as int, acc@),
        decreases s@.len() - p,
    {
        if p >= s.len() {
            return None;
        }
        if s[p] == '"' {
            return Some((acc, p + 1));
        }
        let (c, next) = character(s, p)?;
        acc.push(c);
        p = next;
    }
}

// ---------------------------------------------------------------------------
// Objects.

/// The entries' contents, entry by entry.
pub proof fn lemma_kv_entries(v: Seq<(String, JsonValue)>)
    ensures
        kv_entries(v).len() == v.len(),
        forall|i: int| 0 <= i < v.len() ==> #[trigger] kv_entries(v)[i] == (v[i].0@, kv_of(v[i].1)),
    decreases v.len(),
{
    if v.len() > 0 {
        lemma_kv_entries(v.subrange(0, v.len() - 1));
    }
}

proof fn lemma_kv_entries_ext(a: Seq<(String, JsonValue)>, b: Seq<(Seq<char>, Kv)>)
    requires
        a.len() == b.len(),
        forall|i: int| 0 <= i < a.len() ==> #[trigger] b[i] == (a[i].0@, kv_of(a[i].1)),
    ensures
        kv_entries(a) == b,
{
    lemma_kv_entries(a);
    assert(kv_entries(a) =~= b);
}

/// What the search for a key finds has that key, and lies in range.
pub proof fn lemma_find_key(m: Seq<(Seq<char>, Kv)>, k: Seq<char>, i: int)
    requires
        0 <= i,
    ensures
        find_key(m, k, i) matches Some(j) ==> i <= j < m.len() && m[j].0 == k,
        find_key(m, k, i) is None ==> forall|j: int| i <= j < m.len() ==> m[j].0 != k,
    decreases m.len() - i,
{
    if i < m.len() && m[i].0 != k {
        lemma_find_key(m, k, i + 1);
    }
}

/// The index of the first entry with key `k`.
fn find_entry(m: &Vec<(String, JsonValue)>, k: &str) -> (r: Option<usize>)
    ensures
        r matches Some(i) ==> find_key(kv_entries(m@), k@, 0) == Some(i as int),
        r is None ==> find_key(kv_entries(m@), k@, 0) is None,
{
    proof {
        lemma_kv_entries(m@);
    }
    let mut i: usize = 0;
    while i < m.len()
        invariant
            i <= m@.len(),
            kv_entries(m@).len() == m@.len(),
            forall|j: int| 0 <= j < m@.len() ==> #[trigger] kv_entries(m@)[j] == (m@[j].0@, kv_of(m@[j].1)),
            find_key(kv_entries(m@), k@, 0) == find_key(kv_entries(m@), k@, i as int),
        decreases m@.len() - i,
    {
        if str_eq(m[i].0.as_str(), k) {
            return Some(i);
        }
        i += 1;
    }
    None
}

/// Sets key `k` to `v`: replaced where it is, added at the end otherwise.
fn set_entry(m: &mut Vec<(String, JsonValue)>, k: String, v: JsonValue)
    ensures
        kv_entries(final(m)@) == kv_set(kv_entries(old(m)@), k@, kv_of(v)),
{
    proof {
        lemma_kv_entries(m@);
    }
    let ghost kv = kv_of(v);
    let ghost ks = k@;
    proof {
        lemma_find_key(kv_entries(m@), ks, 0);
    }
    match find_entry(m, k.as_str()) {
        Some(i) => {
            m.set(i, (k, v));
            proof {
                lemma_kv_entries_ext(m@, kv_entries(old(m)@).update(i as int, (ks, kv)));
            }
        },
        None => {
            m.push((k, v));
            proof {
                lemma_kv_entries_ext(m@, kv_entries(old(m)@).push((ks, kv)));
            }
        },
    }
}

/// `a` with `b` merged in: two objects merge their entries (those of `b`
/// win); any other value stays as it is.
fn merged(a: JsonValue, b: JsonValue) -> (r: JsonValue)
    ensures
        kv_of(r) == kv_merge(kv_of(a), kv_of(b)),
{
    match a {
        JsonValue::Object(am) => match b {
            JsonValue::Object(bm) => {
                let ghost base = kv_entries(am@);
                let ghost others = kv_entries(bm@);
                proof {
                    lemma_kv_entries(bm@);
                }
                let mut m = am;
                // Moved over back to front, so that popping gives the entries in order.
                let mut rest = bm;
                let mut stack: Vec<(String, JsonValue)> = Vec::new();
                let ghost all = rest@;
                while rest.len() > 0
                    invariant
                        rest@ + stack@.reverse() == all,
                    decreases rest@.len(),
                {
                    let ghost before = stack@;
                    let e = rest.pop().unwrap();
                    stack.push(e);
                    proof {
                        assert(stack@.reverse() =~= seq![e] + before.reverse());
                    }
                }
                while stack.len() > 0
                    invariant
                        stack@.len() <= all.len(),
                        stack@.reverse() == all.subrange(all.len() - stack@.len(), all.len() as int),
                        others == kv_entries(all),
                        kv_entries(all).len() == all.len(),
                        forall|j: int| 0 <= j < all.len() ==> #[trigger] kv_entries(all)[j] == (all[j].0@, kv_of(all[j].1)),
                        kv_entries(m@) == kv_extend(base, others.take(all.len() - stack@.len())),
                    decreases stack@.len(),
                {
                    let ghost k = all.len() - stack@.len();
                    let ghost before = stack@;
                    let (key, value) = stack.pop().unwrap();
                    proof {
                        assert(before.reverse()[0] == (key, value));
                        assert(all[k] == (key, value));
                        assert(stack@.reverse() =~= before.reverse().drop_first());
                        assert(others.take(k + 1).drop_last() =~= others.take(k));
                        assert(others.take(k + 1).last() == others[k]);
                    }
                    set_entry(&mut m, key, value);
                }
                proof {
                    assert(others.take(all.len() as int) =~= others);
                }
                JsonValue::Object(m)
            },
            _ => JsonValue::Object(am),
        },
        JsonValue::Str(t) => JsonValue::Str(t),
    }
}

impl JsonValue {
    /// Merges `other` into this value: two objects merge their entries (those
    /// of `other` win); otherwise nothing changes.
    pub fn extend_from(&mut self, other: JsonValue)
        ensures
            kv_of(*final(self)) == kv_merge(kv_of(*old(self)), kv_of(other)),
    {
        let mut current = JsonValue::Str(String::new());
        std::mem::swap(self, &mut current);
        *self = merged(current, other);
    }
}

/// Adds an entry read in an object: a key met again merges its value into
/// the earlier one.
fn add_entry(m: &mut Vec<(String, JsonValue)>, k: String, v: JsonValue)
    ensures
        kv_entries(final(m)@) == kv_add(kv_entries(old(m)@), k@, kv_of(v)),
{
    proof {
        lemma_kv_entries(m@);
    }
    let ghost kv = kv_of(v);
    let ghost ks = k@;
    proof {
        lemma_find_key(kv_entries(m@), ks, 0);
    }
    match find_entry(m, k.as_str()) {
        Some(i) => {
            let (key, old_value) = m.remove(i);
            let ghost old_kv = kv_of(old_value);
            let ghost key_view = key@;
            let value = merged(old_value, v);
            m.insert(i, (key, value));
            proof {
                assert(kv_entries(old(m)@)[i as int] == (old(m)@[i as int].0@, kv_of(old(m)@[i as int].1)));
                assert(key_view == ks);
                assert(old_kv == kv_entries(old(m)@)[i as int].1);
                lemma_kv_entries_ext(m@, kv_entries(old(m)@).update(i as int, (ks, kv_merge(old_kv, kv))));
            }
        },
        None => {
            m.push((k, v));
            proof {
                lemma_kv_entries_ext(m@, kv_entries(old(m)@).push((ks, kv)));
            }
        },
    }
}

// ---------------------------------------------------------------------------
// Values.

/// A value at `i`: a quoted string or an object.
fn json_value(s: &Vec<char>, i: usize) -> (r: Option<(JsonValue, usize)>)
    requires
        i <= s@.len(),
    ensures
        match r {
            Some((v, j)) => spec_value(s@, i as int) == Some((kv_of(v), j as int)) && j <= s@.len(),
            None => spec_value(s@, i as int) is None,
        },
    decreases s@.len() - i, 3nat,
{
    let len = s.len();
    if i < len && s[i] == '"' {
        let (t, j) = string(s, i)?;
        let value = JsonValue::Str(string_of(&t));
        Some((value, j))
    } else if i < len && s[i] == '{' {
        let (entries, j) = object(s, i + 1)?;
        Some((JsonValue::Object(entries), j))
    } else {
        None
    }
}

/// The entries of an object from `i` on (behind its opening brace), up to
/// and including the closing brace.
fn object(s: &Vec<char>, i: usize) -> (r: Option<(Vec<(String, JsonValue)>, usize)>)
    requires
        i <= s@.len(),
    ensures
        match r {
            Some((m, j)) => spec_members(s@, i as int, Seq::empty()) == Some((Kv::Object(kv_entries(m@)), j as int))
                && j <= s@.len(),
            None => spec_members(s@, i as int, Seq::empty()) is None,
        },
    decreases s@.len() - i, 1nat,
{
    let len = s.len();
    let mut m: Vec<(String, JsonValue)> = Vec::new();
    let mut p = i;
    proof {
        assert(kv_entries(m@) =~= Seq::<(Seq<char>, Kv)>::empty());
    }
    loop
        invariant
            len == s@.len(),
            i <= p <= len,
            spec_members(s@, i as int, Seq::empty()) == spec_members(s@, p as int, kv_entries(m@)),
        decreases len - p,
    {
        let q = multispace_with_opt_comment(s, p);
        if q < len && s[q] == '"' {
            let ((key, value), r) = key_value(s, q)?;
            add_entry(&mut m, key, value);
            p = r;
        } else if q < len && s[q] == '}' {
            return Some((m, q + 1));
        } else {
            return None;
        }
    }
}

/// A key (read in lower case), white space, and a value.
fn key_value(s: &Vec<char>, q: usize) -> (r: Option<((String, JsonValue), usize)>)
    requires
        q <= s@.len(),
    ensures
        match r {
            Some((kv, j)) => spec_key_value(s@, q as int) == Some(((kv.0@, kv_of(kv.1)), j as int)) && q < j
                <= s@.len(),
            None => spec_key_value(s@, q as int) is None,
        },
    decreases s@.len() - q, 0nat,
{
    let (key, j) = string(s, q)?;
    let k = multispace0(s, j);
    let (value, r) = json_value(s, k)?;
    proof {
        lemma_value_advances(s@, k as int);
    }
    Some(((lowercase_string(&key), value), r))
}

/// A read value ends behind where it starts.
proof fn lemma_value_advances(s: Seq<char>, i: int)
    requires
        0 <= i,
    ensures
        spec_value(s, i) matches Some((_, j)) ==> i < j,
{
    if 0 <= i < s.len() && s[i] == '"' {
        lemma_string_advances(s, i + 1, Seq::empty());
    } else if 0 <= i < s.len() && s[i] == '{' {
        lemma_members_advance(s, i + 1, Seq::empty());
    }
}

proof fn lemma_string_advances(s: Seq<char>, i: int, acc: Seq<char>)
    requires
        0 <= i,
    ensures
        string_body(s, i, acc) matches Some((_, j)) ==> i < j,
    decreases s.len() - i,
{
    if 0 <= i < s.len() && s[i] != '"' {
        if s[i] == '\\' {
            match spec_escape(s, i + 1) {
                Some((c, j)) => lemma_string_advances(s, j, acc.push(c)),
                None => {},
            }
        } else {
            lemma_string_advances(s, i + 1, acc.push(s[i]));
        }
    }
}

proof fn lemma_members_advance(s: Seq<char>, p: int, acc: Seq<(Seq<char>, Kv)>)
    requires
        0 <= p,
    ensures
        spec_members(s, p, acc) matches Some((_, j)) ==> p < j,
    decreases s.len() - p,
{
    let q = skip_ws_comments(s, p);
    if p <= q < s.len() && s[q] == '"' {
        match spec_key_value(s, q) {
            Some((kv, r)) => if q < r <= s.len() {
                lemma_members_advance(s, r, kv_add(acc, kv.0, kv.1));
            },
            None => {},
        }
    }
}

/// Reads a key-values text: white space, then one key-value pair, which
/// becomes an object of that one entry; what follows is not read. `None`
/// where the text does not start with a well-formed pair.
pub fn json_like(text: &str) -> (r: Option<JsonValue>)
    ensures
        match r {
            Some(v) => spec_json_like(text@) == Some(kv_of(v)),
            None => spec_json_like(text@) is None,
        },
{
    let s = chars_of(text);
    let i = multispace0(&s, 0);
    let (pair, _) = key_value(&s, i)?;
    let ghost kv = (pair.0@, kv_of(pair.1));
    let mut m: Vec<(String, JsonValue)> = Vec::new();
    m.push(pair);
    proof {
        lemma_kv_entries_ext(m@, seq![kv]);
    }
    Some(JsonValue::Object(m))
}

// ---------------------------------------------------------------------------
// Files.

/// A text without the byte-order marks at its start.
pub open spec fn strip_bom(s: Seq<char>) -> Seq<char>
    decreases s.len(),
{
    if s.len() > 0 && s[0] == '\u{FEFF}' {
        strip_bom(s.drop_first())
    } else {
        s
    }
}

/// A text with every ` n\` (left to right, not overlapping) written as the
/// escape `\n`.
pub open spec fn fix_newline_escapes(s: Seq<char>) -> Seq<char>
    decreases s.len(),
{
    if s.len() == 0 {
        s
    } else if s.len() >= 3 && s[0] == ' ' && s[1] == 'n' && s[2] == '\\' {
        seq!['\\', 'n'] + fix_newline_escapes(s.skip(3))
    } else {
        seq![s[0]] + fix_newline_escapes(s.skip(1))
    }
}

/// The text of a key-values file as it is read: byte-order marks at the
/// start dropped, and ` n\` written as the escape `\n`.
pub fn prepare_text(raw: &str) -> (text: String)
    ensures
        text@ == fix_newline_escapes(strip_bom(raw@)),
{
    let s = chars_of(raw);
    let mut i: usize = 0;
    assert(s@.skip(0) =~= s@);
    while i < s.len() && s[i] == '\u{FEFF}'
        invariant
            i <= s@.len(),
            strip_bom(s@) == strip_bom(s@.skip(i as int)),
        decreases s@.len() - i,
    {
        proof {
            assert(s@.skip(i as int).drop_first() =~= s@.skip(i + 1));
        }
        i += 1;
    }
    let mut out: Vec<char> = Vec::new();
    let ghost start = i as int;
    while i < s.len()
        invariant
            start <= i <= s@.len(),
            strip_bom(s@) == s@.skip(start),
            fix_newline_escapes(s@.skip(start)) == out@ + fix_newline_escapes(s@.skip(i as int)),
        decreases s@.len() - i,
    {
        let ghost rest = s@.skip(i as int);
        if s.len() - i >= 3 && s[i] == ' ' && s[i + 1] == 'n' && s[i + 2] == '\\' {
            out.push('\\');
            out.push('n');
            proof {
                assert(rest.skip(3) =~= s@.skip(i + 3));
                assert(out@ =~= out@.drop_last().drop_last() + seq!['\\', 'n']);
            }
            i += 3;
        } else {
            out.push(s[i]);
            proof {
                assert(rest.skip(1) =~= s@.skip(i + 1));
            }
            i += 1;
        }
    }
    proof {
        assert(s@.skip(s@.len() as int) =~= Seq::<char>::empty());
        assert(out@ + Seq::<char>::empty() =~= out@);
    }
    string_of(&out)
}

/// The entries of the object `v` under key `k`, where `v` is an object
/// holding an object under that key.
pub open spec fn sub_object(v: Kv, k: Seq<char>) -> Option<Seq<(Seq<char>, Kv)>> {
    match v {
        Kv::Object(m) => match find_key(m, k, 0) {
            Some(i) => match m[i].1 {
                Kv::Object(inner) => Some(inner),
                _ => None,
            },
            None => None,
        },
        _ => None,
    }
}

/// Takes the value under key `k` out of the entries `m`.
fn take_entry(m: &mut Vec<(String, JsonValue)>, k: &str) -> (r: Option<JsonValue>)
    ensures
        match find_key(kv_entries(old(m)@), k@, 0) {
            Some(i) => r matches Some(v) && kv_of(v) == kv_entries(old(m)@)[i].1,
            None => r is None,
        },
{
    proof {
        lemma_kv_entries(m@);
        lemma_find_key(kv_entries(m@), k@, 0);
    }
    match find_entry(m, k) {
        Some(i) => {
            let (_, v) = m.remove(i);
            Some(v)
        },
        None => None,
    }
}

/// The entries of the object under key `k` of the object `v`.
fn into_sub_object(v: JsonValue, k: &str) -> (r: Option<Vec<(String, JsonValue)>>)
    ensures
        match sub_object(kv_of(v), k@) {
            Some(inner) => r matches Some(m) && kv_entries(m@) == inner,
            None => r is None,
        },
{
    match v {
        JsonValue::Object(mut m) => match take_entry(&mut m, k) {
            Some(JsonValue::Object(inner)) => Some(inner),
            _ => None,
        },
        _ => None,
    }
}

/// `key` without the '#' characters at its start.
pub open spec fn strip_hashes(key: Seq<char>) -> Seq<char>
    decreases key.len(),
{
    if key.len() > 0 && key[0] == '#' {
        strip_hashes(key.drop_first())
    } else {
        key
    }
}

/// The tokens of a translation file: texts by lower-case name.
pub struct Translation {
    hashmap: Vec<(String, JsonValue)>,
}

impl Translation {
    pub closed spec fn tokens(self) -> Seq<(Seq<char>, Kv)> {
        kv_entries(self.hashmap@)
    }

    /// The translation held by a read translation file: the object `tokens`
    /// of the object `lang`.
    pub fn from_json(value: JsonValue) -> (r: Option<Translation>)
        ensures
            match sub_object(kv_of(value), seq!['l', 'a', 'n', 'g']) {
                Some(lang) => match sub_object(Kv::Object(lang), seq!['t', 'o', 'k', 'e', 'n', 's']) {
                    Some(tokens) => r matches Some(t) && t.tokens() == tokens,
                    None => r is None,
                },
                None => r is None,
            },
    {
        proof {
            reveal_strlit("lang");
            reveal_strlit("tokens");
            assert("lang"@ =~= seq!['l', 'a', 'n', 'g']);
            assert("tokens"@ =~= seq!['t', 'o', 'k', 'e', 'n', 's']);
        }
        let lang = into_sub_object(value, "lang")?;
        let tokens = into_sub_object(JsonValue::Object(lang), "tokens")?;
        Some(Translation { hashmap: tokens })
    }

    /// The text of token `key` (leading '#' dropped, looked up in lower
    /// case), where the token is a text.
    pub fn get(&self, key: &str) -> (r: Option<String>)
        ensures
            match find_key(self.tokens(), lowercase(strip_hashes(key@)), 0) {
                Some(i) => match self.tokens()[i].1 {
                    Kv::Str(t) => r matches Some(v) && v@ == t,
                    _ => r is None,
                },
                None => r is None,
            },
    {
        let s = chars_of(key);
        let mut i: usize = 0;
        assert(s@.skip(0) =~= s@);
        while i < s.len() && s[i] == '#'
            invariant
                i <= s@.len(),
                strip_hashes(s@) == strip_hashes(s@.skip(i as int)),
            decreases s@.len() - i,
        {
            proof {
                assert(s@.skip(i as int).drop_first() =~= s@.skip(i + 1));
            }
            i += 1;
        }
        let mut rest: Vec<char> = Vec::new();
        let ghost start = i as int;
        while i < s.len()
            invariant
                0 <= start <= i <= s@.len(),
                strip_hashes(s@) == s@.skip(start),
                rest@ == s@.subrange(start, i as int),
            decreases s@.len() - i,
        {
            let ghost before = rest@;
            rest.push(s[i]);
            proof {
                assert(s@.subrange(start, i + 1) =~= before.push(s@[i as int]));
            }
            i += 1;
        }
        proof {
            assert(rest@ =~= s@.skip(start));
        }
        let name = lowercase_string(&rest);
        proof {
            lemma_kv_entries(self.hashmap@);
            lemma_find_key(self.tokens(), name@, 0);
        }
        match find_entry(&self.hashmap, name.as_str()) {
            Some(idx) => {
                proof {
                    assert(self.tokens()[idx as int] == (self.hashmap@[idx as int].0@, kv_of(self.hashmap@[idx as int].1)));
                }
                match &self.hashmap[idx].1 {
                    JsonValue::Str(v) => Some(v.clone()),
                    _ => None,
                }
            },
            None => None,
        }
    }
}

/// The item definitions of a game items file: objects by name.
pub struct GameItems {
    hashmap: Vec<(String, JsonValue)>,
}

impl GameItems {
    pub closed spec fn items(self) -> Seq<(Seq<char>, Kv)> {
        kv_entries(self.hashmap@)
    }

    /// The item definitions held by a read items file: the object
    /// `items_game`.
    pub fn from_json(value: JsonValue) -> (r: Option<GameItems>)
        ensures
            match sub_object(kv_of(value), seq!['i', 't', 'e', 'm', 's', '_', 'g', 'a', 'm', 'e']) {
                Some(items) => r matches Some(g) && g.items() == items,
                None => r is None,
            },
    {
        proof {
            reveal_strlit("items_game");
            assert("items_game"@ =~= seq!['i', 't', 'e', 'm', 's', '_', 'g', 'a', 'm', 'e']);
        }
        let items = into_sub_object(value, "items_game")?;
        Some(GameItems { hashmap: items })
    }

    /// The entries of the object named `key`, where it is an object.
    pub fn get(&self, key: &str) -> (r: Option<&Vec<(String, JsonValue)>>)
        ensures
            match find_key(self.items(), key@, 0) {
                Some(i) => match self.items()[i].1 {
                    Kv::Object(m) => r matches Some(v) && kv_entries(v@) == m,
                    _ => r is None,
                },
                None => r is None,
            },
    {
        proof {
            lemma_kv_entries(self.hashmap@);
            lemma_find_key(self.items(), key@, 0);
        }
        match find_entry(&self.hashmap, key) {
            Some(idx) => {
                proof {
                    assert(self.items()[idx as int] == (self.hashmap@[idx as int].0@, kv_of(self.hashmap@[idx as int].1)));
                }
                match &self.hashmap[idx].1 {
                    JsonValue::Object(v) => Some(v),
                    _ => None,
                }
            },
            None => None,
        }
    }
}

// ---------------------------------------------------------------------------
// Every object read holds each key at most once.

pub open spec fn keys_distinct(m: Seq<(Seq<char>, Kv)>) -> bool {
    forall|i: int, j: int| 0 <= i < j < m.len() ==> m[i].0 != m[j].0
}

/// Every object in `v`, at every depth, holds each key at most once.
pub open spec fn kv_wf(v: Kv) -> bool
    decreases v,
{
    match v {
        Kv::Str(_) => true,
        Kv::Object(m) => keys_distinct(m) && forall|i: int| 0 <= i < m.len() ==> kv_wf(#[trigger] m[i].1),
    }
}

pub open spec fn entries_wf(m: Seq<(Seq<char>, Kv)>) -> bool {
    keys_distinct(m) && forall|i: int| 0 <= i < m.len() ==> kv_wf(#[trigger] m[i].1)
}

proof fn lemma_set_wf(m: Seq<(Seq<char>, Kv)>, k: Seq<char>, v: Kv)
    requires
        entries_wf(m),
        kv_wf(v),
    ensures
        entries_wf(kv_set(m, k, v)),
{
    lemma_find_key(m, k, 0);
    let r = kv_set(m, k, v);
    assert forall|i: int| 0 <= i < r.len() implies kv_wf(#[trigger] r[i].1) by {
        if i < m.len() {
            assert(r[i].1 == m[i].1 || r[i].1 == v);
        }
    }
}

proof fn lemma_extend_wf(m: Seq<(Seq<char>, Kv)>, other: Seq<(Seq<char>, Kv)>)
    requires
        entries_wf(m),
        forall|i: int| 0 <= i < other.len() ==> kv_wf(#[trigger] other[i].1),
    ensures
        entries_wf(kv_extend(m, other)),
    decreases other.len(),
{
    if other.len() > 0 {
        let rest = other.drop_last();
        assert forall|i: int| 0 <= i < rest.len() implies kv_wf(#[trigger] rest[i].1) by {
            assert(rest[i] == other[i]);
        }
        lemma_extend_wf(m, rest);
        assert(kv_wf(other[other.len() - 1].1));
        lemma_set_wf(kv_extend(m, rest), other.last().0, other.last().1);
    }
}

proof fn lemma_merge_wf(a: Kv, b: Kv)
    requires
        kv_wf(a),
        kv_wf(b),
    ensures
        kv_wf(kv_merge(a, b)),
{
    match (a, b) {
        (Kv::Object(x), Kv::Object(y)) => {
            lemma_extend_wf(x, y);
        },
        _ => {},
    }
}

proof fn lemma_add_wf(m: Seq<(Seq<char>, Kv)>, k: Seq<char>, v: Kv)
    requires
        entries_wf(m),
        kv_wf(v),
    ensures
        entries_wf(kv_add(m, k, v)),
{
    lemma_find_key(m, k, 0);
    match find_key(m, k, 0) {
        Some(i) => {
            lemma_merge_wf(m[i].1, v);
            let r = kv_add(m, k, v);
            assert forall|j: int| 0 <= j < r.len() implies kv_wf(#[trigger] r[j].1) by {
                if j != i {
                    assert(r[j] == m[j]);
                }
            }
        },
        None => {
            let r = kv_add(m, k, v);
            assert forall|j: int| 0 <= j < r.len() implies kv_wf(#[trigger] r[j].1) by {
                if j < m.len() {
                    assert(r[j] == m[j]);
                }
            }
        },
    }
}

proof fn lemma_value_wf(s: Seq<char>, i: int)
    ensures
        spec_value(s, i) matches Some((v, _)) ==> kv_wf(v),
    decreases s.len() - i, 3nat,
{
    if 0 <= i < s.len() && s[i] == '{' {
        lemma_members_wf(s, i + 1, Seq::empty());
    }
}

proof fn lemma_members_wf(s: Seq<char>, p: int, acc: Seq<(Seq<char>, Kv)>)
    requires
        entries_wf(acc),
    ensures
        spec_members(s, p, acc) matches Some((v, _)) ==> kv_wf(v),
    decreases s.len() - p, 1nat,
{
    let q = skip_ws_comments(s, p);
    if p <= q < s.len() && s[q] == '"' {
        lemma_key_value_wf(s, q);
        match spec_key_value(s, q) {
            Some((kv, r)) => if q < r <= s.len() {
                lemma_add_wf(acc, kv.0, kv.1);
                lemma_members_wf(s, r, kv_add(acc, kv.0, kv.1));
            },
            None => {},
        }
    }
}

proof fn lemma_key_value_wf(s: Seq<char>, q: int)
    ensures
        spec_key_value(s, q) matches Some((kv, _)) ==> kv_wf(kv.1),
    decreases s.len() - q, 0nat,
{
    match spec_string(s, q) {
        Some((key, j)) => {
            let k = skip_ws(s, j);
            if q < k <= s.len() {
                lemma_value_wf(s, k);
            }
        },
        None => {},
    }
}

/// A key-values text reads as objects that hold each key at most once, at
/// every depth: a key met again is merged into its first entry.
pub proof fn lemma_json_like_keys_distinct(s: Seq<char>)
    ensures
        spec_json_like(s) matches Some(v) ==> kv_wf(v),
{
    lemma_key_value_wf(s, skip_ws(s, 0));
}

/// A run of plain characters (neither quote nor backslash) inside a quoted
/// string is taken over as it is.
pub proof fn lemma_plain_run(s: Seq<char>, i: int, acc: Seq<char>, k: nat)
    requires
        0 <= i,
        i + k <= s.len(),
        forall|j: int| i <= j < i + k ==> s[j] != '"' && s[j] != '\\',
    ensures
        string_body(s, i, acc) == string_body(s, i + k, acc + s.subrange(i, i + k)),
    decreases k,
{
    if k == 0 {
        assert(acc + s.subrange(i, i) =~= acc);
    } else {
        lemma_plain_run(s, i + 1, acc.push(s[i]), (k - 1) as nat);
        assert(acc.push(s[i]) + s.subrange(i + 1, i + k) =~= acc + s.subrange(i, i + k));
    }
}

/// Inside a quoted string the escapes `\b`, `\f`, `\n`, `\r` and `\t` stand
/// for backspace, form feed, line feed (U+000A), carriage return and tab,
/// and an escaped quote, apostrophe, backslash or slash for itself:
/// the string `"a\eb"`, with plain runs `a` and `b` around the escape, reads
/// as `a`, the character the escape stands for, then `b`, whatever follows the closing
/// quote.
pub proof fn law_string_escapes(a: Seq<char>, e: char, b: Seq<char>, rest: Seq<char>)
    requires
        e == 'b' || e == 'f' || e == 'n' || e == 'r' || e == 't' || e == '"' || e == '\'' || e == '\\' || e == '/',
        forall|j: int| 0 <= j < a.len() ==> a[j] != '"' && a[j] != '\\',
        forall|j: int| 0 <= j < b.len() ==> b[j] != '"' && b[j] != '\\',
    ensures
        ({
            let ctl = if e == 'b' {
                '\u{8}'
            } else if e == 'f' {
                '\u{c}'
            } else if e == 'n' {
                '\u{a}'
            } else if e == 'r' {
                '\u{d}'
            } else if e == 't' {
                '\u{9}'
            } else {
                e
            };
            spec_string(seq!['"'] + a + seq!['\\', e] + b + seq!['"'] + rest, 0) == Some(
                (a + seq![ctl] + b, (a.len() + b.len() + 4) as int),
            )
        }),
{
    let s = seq!['"'] + a + seq!['\\', e] + b + seq!['"'] + rest;
    let n = a.len() as int;
    assert(s.subrange(1, 1 + n) =~= a);
    assert(spec_string(s, 0) == string_body(s, 1, Seq::empty()));
    lemma_plain_run(s, 1, Seq::empty(), a.len());
    assert(Seq::<char>::empty() + a =~= a);
    assert(s[1 + n] == '\\');
    assert(s[2 + n] == e);
    let ctl = if e == 'b' {
        '\u{8}'
    } else if e == 'f' {
        '\u{c}'
    } else if e == 'n' {
        '\u{a}'
    } else if e == 'r' {
        '\u{d}'
    } else if e == 't' {
        '\u{9}'
    } else {
        e
    };
    assert(spec_escape(s, 2 + n) == Some((ctl, 3 + n)));
    let acc = a.push(ctl);
    assert(string_body(s, 1 + n, a) == string_body(s, 3 + n, acc));
    assert(s.subrange(3 + n, 3 + n + b.len()) =~= b);
    lemma_plain_run(s, 3 + n, acc, b.len());
    assert(s[3 + n + b.len()] == '"');
    assert(string_body(s, 3 + n + b.len(), acc + b) == Some((acc + b, 4 + n + b.len())));
    assert(acc + b =~= a + seq![ctl] + b);
}

/// `m` has an entry with key `k` and value `x`.
pub open spec fn has_entry(m: Seq<(Seq<char>, Kv)>, k: Seq<char>, x: Kv) -> bool {
    exists|i: int| 0 <= i < m.len() && #[trigger] m[i] == (k, x)
}

/// `m` has an entry with key `k`.
pub open spec fn has_key(m: Seq<(Seq<char>, Kv)>, k: Seq<char>) -> bool {
    exists|i: int| 0 <= i < m.len() && #[trigger] m[i].0 == k
}

proof fn lemma_set_entries(m: Seq<(Seq<char>, Kv)>, k: Seq<char>, v: Kv)
    requires
        keys_distinct(m),
    ensures
        keys_distinct(kv_set(m, k, v)),
        forall|k2: Seq<char>, x: Kv|
            has_entry(kv_set(m, k, v), k2, x) <==> (if k2 == k { x == v } else { has_entry(m, k2, x) }),
        forall|k2: Seq<char>| has_key(kv_set(m, k, v), k2) <==> (k2 == k || has_key(m, k2)),
{
    lemma_find_key(m, k, 0);
    let r = kv_set(m, k, v);
    match find_key(m, k, 0) {
        Some(i) => {
            assert forall|k2: Seq<char>, x: Kv| has_entry(r, k2, x) <==> (if k2 == k { x == v } else { has_entry(m, k2, x) }) by {
                if has_entry(r, k2, x) {
                    let j = choose|j: int| 0 <= j < r.len() && #[trigger] r[j] == (k2, x);
                    if j != i {
                        assert(m[j] == (k2, x));
                        if k2 == k {
                            assert(m[j].0 == m[i].0);
                        }
                    }
                }
                if k2 == k && x == v {
                    assert(r[i] == (k2, x));
                }
                if k2 != k && has_entry(m, k2, x) {
                    let j = choose|j: int| 0 <= j < m.len() && #[trigger] m[j] == (k2, x);
                    assert(j != i);
                    assert(r[j] == (k2, x));
                }
            }
            assert forall|k2: Seq<char>| has_key(r, k2) <==> (k2 == k || has_key(m, k2)) by {
                if has_key(r, k2) {
                    let j = choose|j: int| 0 <= j < r.len() && #[trigger] r[j].0 == k2;
                    if j != i {
                        assert(m[j].0 == k2);
                    }
                }
                if k2 == k {
                    assert(r[i].0 == k2);
                }
                if has_key(m, k2) {
                    let j = choose|j: int| 0 <= j < m.len() && #[trigger] m[j].0 == k2;
                    assert(r[j].0 == k2);
                }
            }
        },
        None => {
            assert forall|k2: Seq<char>, x: Kv| has_entry(r, k2, x) <==> (if k2 == k { x == v } else { has_entry(m, k2, x) }) by {
                if has_entry(r, k2, x) {
                    let j = choose|j: int| 0 <= j < r.len() && #[trigger] r[j] == (k2, x);
                    if j < m.len() {
                        assert(m[j] == (k2, x));
                    }
                }
                if k2 == k && x == v {
                    assert(r[m.len() as int] == (k2, x));
                }
                if k2 != k && has_entry(m, k2, x) {
                    let j = choose|j: int| 0 <= j < m.len() && #[trigger] m[j] == (k2, x);
                    assert(r[j] == (k2, x));
                }
            }
            assert forall|k2: Seq<char>| has_key(r, k2) <==> (k2 == k || has_key(m, k2)) by {
                if has_key(r, k2) {
                    let j = choose|j: int| 0 <= j < r.len() && #[trigger] r[j].0 == k2;
                    if j < m.len() {
                        assert(m[j].0 == k2);
                    }
                }
                if k2 == k {
                    assert(r[m.len() as int].0 == k2);
                }
                if has_key(m, k2) {
                    let j = choose|j: int| 0 <= j < m.len() && #[trigger] m[j].0 == k2;
                    assert(r[j].0 == k2);
                }
            }
        },
    }
}

proof fn lemma_extend_entries(a: Seq<(Seq<char>, Kv)>, b: Seq<(Seq<char>, Kv)>)
    requires
        keys_distinct(a),
        keys_distinct(b),
    ensures
        keys_distinct(kv_extend(a, b)),
        forall|k: Seq<char>, x: Kv|
            has_entry(kv_extend(a, b), k, x) <==> (has_entry(b, k, x) || (has_entry(a, k, x) && !has_key(b, k))),
        forall|k: Seq<char>| has_key(kv_extend(a, b), k) <==> (has_key(b, k) || has_key(a, k)),
    decreases b.len(),
{
    if b.len() > 0 {
        let b0 = b.drop_last();
        let l = b.last();
        assert(keys_distinct(b0));
        lemma_extend_entries(a, b0);
        lemma_set_entries(kv_extend(a, b0), l.0, l.1);
        assert(b[b.len() - 1] == l);
        assert forall|k: Seq<char>, x: Kv| has_entry(b, k, x) <==> (has_entry(b0, k, x) || (k == l.0 && x == l.1)) by {
            if has_entry(b, k, x) {
                let j = choose|j: int| 0 <= j < b.len() && #[trigger] b[j] == (k, x);
                if j < b0.len() {
                    assert(b0[j] == (k, x));
                }
            }
            if has_entry(b0, k, x) {
                let j = choose|j: int| 0 <= j < b0.len() && #[trigger] b0[j] == (k, x);
                assert(b[j] == (k, x));
            }
        }
        assert forall|k: Seq<char>| has_key(b, k) <==> (has_key(b0, k) || k == l.0) by {
            if has_key(b, k) {
                let j = choose|j: int| 0 <= j < b.len() && #[trigger] b[j].0 == k;
                if j < b0.len() {
                    assert(b0[j].0 == k);
                }
            }
            if has_key(b0, k) {
                let j = choose|j: int| 0 <= j < b0.len() && #[trigger] b0[j].0 == k;
                assert(b[j].0 == k);
            }
        }
        assert(!has_key(b0, l.0)) by {
            if has_key(b0, l.0) {
                let j = choose|j: int| 0 <= j < b0.len() && #[trigger] b0[j].0 == l.0;
                assert(b[j].0 == b[b.len() - 1].0);
            }
        }
        assert forall|k: Seq<char>, x: Kv| has_entry(b0, k, x) implies has_key(b0, k) by {
            let j = choose|j: int| 0 <= j < b0.len() && #[trigger] b0[j] == (k, x);
            assert(b0[j].0 == k);
        }
    } else {
        assert forall|k: Seq<char>, x: Kv| !has_entry(b, k, x) by {}
        assert forall|k: Seq<char>| !has_key(b, k) by {}
    }
}

/// A key met again in an object being read merges into its first entry:
/// where both values are objects, the merged object holds the entries of
/// the later one and those of the earlier one whose keys the later one lacks;
/// where either is a text, the earlier value stays. A key not met before is
/// added with its value, and the entries of all other keys stay as they were.
pub proof fn law_repeated_key_merges(m: Seq<(Seq<char>, Kv)>, k: Seq<char>, v: Kv)
    requires
        keys_distinct(m),
        v matches Kv::Object(b) ==> keys_distinct(b),
        forall|i: int| 0 <= i < m.len() ==> (#[trigger] m[i].1 matches Kv::Object(a) ==> keys_distinct(a)),
    ensures
        ({
            let r = kv_add(m, k, v);
            &&& keys_distinct(r)
            &&& forall|k2: Seq<char>, x: Kv| k2 != k ==> (has_entry(r, k2, x) <==> has_entry(m, k2, x))
            &&& !has_key(m, k) ==> has_entry(r, k, v)
            &&& forall|w: Kv|
                has_entry(m, k, w) ==> match (w, v) {
                    (Kv::Object(a), Kv::Object(b)) => exists|c: Seq<(Seq<char>, Kv)>|
                        has_entry(r, k, Kv::Object(c)) && keys_distinct(c) && (forall|k3: Seq<char>, x: Kv|
                            has_entry(c, k3, x) <==> (has_entry(b, k3, x) || (has_entry(a, k3, x) && !has_key(
                                b,
                                k3,
                            )))),
                    _ => has_entry(r, k, w),
                }
        }),
{
    lemma_find_key(m, k, 0);
    let r = kv_add(m, k, v);
    match find_key(m, k, 0) {
        Some(i) => {
            let w0 = m[i].1;
            let nv = kv_merge(w0, v);
            assert(r == m.update(i, (k, nv)));
            assert(kv_set(m, k, nv) == r);
            lemma_set_entries(m, k, nv);
            assert forall|w: Kv| has_entry(m, k, w) implies w == w0 by {
                let j = choose|j: int| 0 <= j < m.len() && #[trigger] m[j] == (k, w);
                assert(m[j].0 == m[i].0);
            }
            assert(has_entry(r, k, nv)) by {
                assert(r[i] == (k, nv));
            }
            match (w0, v) {
                (Kv::Object(a), Kv::Object(b)) => {
                    assert(m[i].1 matches Kv::Object(a0) ==> keys_distinct(a0));
                    lemma_extend_entries(a, b);
                    let c = kv_extend(a, b);
                    assert(has_entry(r, k, Kv::Object(c)));
                },
                _ => {},
            }
        },
        None => {
            assert(kv_set(m, k, v) == r);
            lemma_set_entries(m, k, v);
            assert forall|w: Kv| !has_entry(m, k, w) by {
                if has_entry(m, k, w) {
                    let j = choose|j: int| 0 <= j < m.len() && #[trigger] m[j] == (k, w);
                    assert(m[j].0 == k);
                }
            }
        },
    }
}

/// Skipping white space stops at a character that is not white space, or
/// at the end of the text, and never moves back.
pub proof fn law_skip_ws_stops_at_content(s: Seq<char>, i: int)
    requires
        0 <= i <= s.len(),
    ensures
        i <= skip_ws(s, i) <= s.len(),
        skip_ws(s, i) == s.len() || !is_space(s[skip_ws(s, i)]),
        forall|j: int| i <= j < skip_ws(s, i) ==> is_space(#[trigger] s[j]),
    decreases s.len() - i,
{
    if i < s.len() && is_space(s[i]) {
        law_skip_ws_stops_at_content(s, i + 1);
    }
}

/// Skipping white space and `//` comments between entries stops at a
/// character that is neither white space nor the start of a comment (or at
/// the end of the text), and never moves back.
pub proof fn law_skip_comments_stops_at_content(s: Seq<char>, i: int)
    requires
        0 <= i <= s.len(),
    ensures
        ({
            let q = skip_ws_comments(s, i);
            &&& i <= q <= s.len()
            &&& q == s.len() || (!is_space(s[q]) && !(q + 1 < s.len() && s[q] == '/' && s[q + 1] == '/'))
        }),
    decreases s.len() - i,
{
    law_skip_ws_stops_at_content(s, i);
    let j = skip_ws(s, i);
    if j + 1 < s.len() && s[j] == '/' && s[j + 1] == '/' {
        lemma_skip_line_bounds(s, j + 2);
        law_skip_comments_stops_at_content(s, skip_line(s, j + 2));
    }
}

} // verus!
