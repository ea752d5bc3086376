//! Character-level text primitives shared by the command-line and shell logic.

use vstd::prelude::*;
use vstd::string::StrSliceExecFns;

verus! {

/// The characters of `s`, in order.
pub fn chars_of(s: &str) -> (v: Vec<char>)
    ensures
        v@ == s@,
{
    let n = s.unicode_len();
    let mut v: Vec<char> = Vec::new();
    let mut i: usize = 0;
    while i < n
        invariant
            n == s@.len(),
            i <= n,
            v@ == s@.take(i as int),
        decreases n - i,
    {
        let c = s.get_char(i);
        v.push(c);
        i = i + 1;
        assert(v@ =~= s@.take(i as int));
    }
    assert(v@ =~= s@);
    v
}

/// Appends one character to a string.
///
/// Trusted: calls `String::push`, which the standard library documents as
/// appending the given `char` to the end of the string.
#[verifier::external_body]
fn push_char(s: &mut String, c: char)
    ensures
        final(s)@ == old(s)@.push(c),
{
    s.push(c);
}

/// A string made of the characters of `v`.
pub fn string_of(v: &Vec<char>) -> (s: String)
    ensures
        s@ == v@,
{
    let mut s = String::new();
    let mut i: usize = 0;
    while i < v.len()
        invariant
            i <= v.len(),
            s@ == v@.take(i as int),
        decreases v.len() - i,
    {
        push_char(&mut s, v[i]);
        i = i + 1;
        assert(s@ =~= v@.take(i as int));
    }
    assert(v@.take(v.len() as int) =~= v@);
    s
}


/// Unicode `White_Space`, the property that `char::is_whitespace` tests.
pub open spec fn is_ws(c: char) -> bool {
    ||| ('\u{9}' <= c && c <= '\u{d}')
    ||| c == ' '
    ||| c == '\u{85}'
    ||| c == '\u{a0}'
    ||| c == '\u{1680}'
    ||| ('\u{2000}' <= c && c <= '\u{200a}')
    ||| c == '\u{2028}'
    ||| c == '\u{2029}'
    ||| c == '\u{202f}'
    ||| c == '\u{205f}'
    ||| c == '\u{3000}'
}

/// Whether `c` is a whitespace character.
pub fn is_whitespace(c: char) -> (b: bool)
    ensures
        b == is_ws(c),
{
    ('\u{9}' <= c && c <= '\u{d}') || c == ' ' || c == '\u{85}' || c == '\u{a0}' || c
        == '\u{1680}' || ('\u{2000}' <= c && c <= '\u{200a}') || c == '\u{2028}' || c
        == '\u{2029}' || c == '\u{202f}' || c == '\u{205f}' || c == '\u{3000}'
}

/// The first index at or after `i` that holds a non-whitespace character,
/// or the length of `s` when there is none.
pub open spec fn skip_ws(s: Seq<char>, i: int) -> int
    decreases s.len() - i,
{
    if i < 0 || i >= s.len() {
        if i < 0 { 0 } else { i }
    } else if is_ws(s[i]) {
        skip_ws(s, i + 1)
    } else {
        i
    }
}

/// The end of the whitespace-free prefix of `s.take(j)`, read from the right:
/// the largest `k <= j` such that `s[k - 1]` is not whitespace, or 0.
pub open spec fn trail_end(s: Seq<char>, j: int) -> int
    decreases j,
{
    if j <= 0 {
        0
    } else if is_ws(s[j - 1]) {
        trail_end(s, j - 1)
    } else {
        j
    }
}

/// `s` without leading and trailing whitespace (what `str::trim` returns).
pub open spec fn trim_spec(s: Seq<char>) -> Seq<char> {
    let a = skip_ws(s, 0);
    let b = trail_end(s, s.len() as int);
    if a < b {
        s.subrange(a, b)
    } else {
        Seq::empty()
    }
}

pub proof fn lemma_skip_ws_bounds(s: Seq<char>, i: int)
    requires
        0 <= i <= s.len(),
    ensures
        i <= skip_ws(s, i) <= s.len(),
        forall|k: int| i <= k < skip_ws(s, i) ==> is_ws(#[trigger] s[k]),
        skip_ws(s, i) < s.len() ==> !is_ws(s[skip_ws(s, i)]),
    decreases s.len() - i,
{
    if i < s.len() && is_ws(s[i]) {
        lemma_skip_ws_bounds(s, i + 1);
    }
}

pub proof fn lemma_trail_end_bounds(s: Seq<char>, j: int)
    requires
        0 <= j <= s.len(),
    ensures
        0 <= trail_end(s, j) <= j,
        forall|k: int| trail_end(s, j) <= k < j ==> is_ws(#[trigger] s[k]),
        trail_end(s, j) > 0 ==> !is_ws(s[trail_end(s, j) - 1]),
    decreases j,
{
    if j > 0 && is_ws(s[j - 1]) {
        lemma_trail_end_bounds(s, j - 1);
    }
}

/// `s` without leading and trailing whitespace.
pub fn trim(s: &Vec<char>) -> (t: Vec<char>)
    ensures
        t@ == trim_spec(s@),
{
    let n = s.len();
    let mut a: usize = 0;
    while a < n && is_whitespace(s[a])
        invariant
            a <= n == s@.len(),
            skip_ws(s@, a as int) == skip_ws(s@, 0),
        decreases n - a,
    {
        a = a + 1;
    }
    let mut b: usize = n;
    while b > a && is_whitespace(s[b - 1])
        invariant
            a <= b <= n == s@.len(),
            trail_end(s@, b as int) == trail_end(s@, n as int),
        decreases b,
    {
        b = b - 1;
    }
    proof {
        lemma_skip_ws_bounds(s@, 0);
        lemma_trail_end_bounds(s@, n as int);
        lemma_trail_end_bounds(s@, b as int);
    }
    let t = slice_vec(s, a, b);
    proof {
        if a == n {
            lemma_trail_end_bounds(s@, n as int);
            assert(trim_spec(s@) =~= Seq::<char>::empty());
        }
        if b == a && a < n {
            assert(!is_ws(s@[a as int]));
        }
    }
    t
}

/// The characters of `s` from `a` up to (not including) `b`.
pub fn slice_vec(s: &Vec<char>, a: usize, b: usize) -> (t: Vec<char>)
    requires
        a <= b <= s.len(),
    ensures
        t@ == s@.subrange(a as int, b as int),
{
    let mut t: Vec<char> = Vec::new();
    let mut i: usize = a;
    while i < b
        invariant
            a <= i <= b <= s.len(),
            t@ == s@.subrange(a as int, i as int),
        decreases b - i,
    {
        t.push(s[i]);
        i = i + 1;
        assert(t@ =~= s@.subrange(a as int, i as int));
    }
    t
}


/// Reading `s` left to right: the words already closed, and the word being read.
pub open spec fn split_state(s: Seq<char>) -> (Seq<Seq<char>>, Seq<char>)
    decreases s.len(),
{
    if s.len() == 0 {
        (Seq::empty(), Seq::empty())
    } else {
        let (done, cur) = split_state(s.drop_last());
        let c = s.last();
        if is_ws(c) {
            if cur.len() == 0 {
                (done, cur)
            } else {
                (done.push(cur), Seq::empty())
            }
        } else {
            (done, cur.push(c))
        }
    }
}

/// The maximal runs of non-whitespace characters of `s`, in order
/// (what `str::split_whitespace` yields).
pub open spec fn words(s: Seq<char>) -> Seq<Seq<char>> {
    let (done, cur) = split_state(s);
    if cur.len() == 0 {
        done
    } else {
        done.push(cur)
    }
}

/// The character sequences held by a list of character vectors.
pub open spec fn views(v: Seq<Vec<char>>) -> Seq<Seq<char>> {
    v.map_values(|x: Vec<char>| x@)
}

/// The whitespace-separated words of `s`.
pub fn split_whitespace(s: &Vec<char>) -> (ws: Vec<Vec<char>>)
    ensures
        views(ws@) == words(s@),
{
    let mut done: Vec<Vec<char>> = Vec::new();
    let mut cur: Vec<char> = Vec::new();
    let mut i: usize = 0;
    while i < s.len()
        invariant
            i <= s.len(),
            (views(done@), cur@) == split_state(s@.take(i as int)),
        decreases s.len() - i,
    {
        let c = s[i];
        proof {
            assert(s@.take(i + 1).drop_last() =~= s@.take(i as int));
        }
        if is_whitespace(c) {
            if cur.len() > 0 {
                let ghost before = views(done@);
                let w = cur;
                done.push(w);
                cur = Vec::new();
                assert(views(done@) =~= before.push(w@));
            }
        } else {
            cur.push(c);
        }
        i = i + 1;
    }
    assert(s@.take(s.len() as int) =~= s@);
    if cur.len() > 0 {
        let ghost before = views(done@);
        let ghost last = cur@;
        done.push(cur);
        assert(views(done@) =~= before.push(last));
    }
    done
}

/// Whether two character sequences are equal.
pub fn chars_eq(a: &Vec<char>, b: &Vec<char>) -> (r: bool)
    ensures
        r == (a@ == b@),
{
    if a.len() != b.len() {
        return false;
    }
    let mut i: usize = 0;
    while i < a.len()
        invariant
            i <= a.len() == b.len(),
            a@.take(i as int) == b@.take(i as int),
        decreases a.len() - i,
    {
        if a[i] != b[i] {
            assert(a@[i as int] != b@[i as int]);
            return false;
        }
        i = i + 1;
        assert(a@.take(i as int) =~= b@.take(i as int));
    }
    assert(a@.take(a.len() as int) =~= a@);
    assert(b@.take(b.len() as int) =~= b@);
    true
}

/// Whether the characters of `a` spell the string `b`.
pub fn chars_eq_str(a: &Vec<char>, b: &str) -> (r: bool)
    ensures
        r == (a@ == b@),
{
    let bv = chars_of(b);
    chars_eq(a, &bv)
}

/// Whether `p` is a prefix of `s`.
pub open spec fn is_prefix(p: Seq<char>, s: Seq<char>) -> bool {
    p.len() <= s.len() && s.take(p.len() as int) == p
}

/// Whether `s` starts with `p`.
pub fn starts_with(s: &Vec<char>, p: &Vec<char>) -> (r: bool)
    ensures
        r == is_prefix(p@, s@),
{
    if p.len() > s.len() {
        return false;
    }
    let mut i: usize = 0;
    while i < p.len()
        invariant
            i <= p.len() <= s.len(),
            s@.take(i as int) == p@.take(i as int),
        decreases p.len() - i,
    {
        if s[i] != p[i] {
            assert(s@.take(p.len() as int)[i as int] != p@[i as int]);
            return false;
        }
        i = i + 1;
        assert(s@.take(i as int) =~= p@.take(i as int));
    }
    assert(p@.take(p.len() as int) =~= p@);
    true
}

/// ASCII lower-casing of one character (what `char::to_ascii_lowercase` does).
pub open spec fn lower_char(c: char) -> char {
    if 'A' <= c && c <= 'Z' {
        ((c as u32) + 32) as char
    } else {
        c
    }
}

/// ASCII lower-casing of a sequence (what `str::to_ascii_lowercase` does).
pub open spec fn lower(s: Seq<char>) -> Seq<char> {
    s.map_values(|c: char| lower_char(c))
}

/// ASCII lower-casing of one character.
pub fn to_ascii_lower_char(c: char) -> (r: char)
    ensures
        r == lower_char(c),
{
    if 'A' <= c && c <= 'Z' {
        let code: u32 = c as u32;
        let low: u32 = code + 32;
        char_from_ascii(low)
    } else {
        c
    }
}

/// The character with the given code, for codes below 128.
fn char_from_ascii(code: u32) -> (c: char)
    requires
        code < 128,
    ensures
        c as u32 == code,
        c == code as char,
{
    let b: u8 = code as u8;
    b as char
}

/// ASCII lower-casing of a character sequence.
pub fn to_ascii_lower(s: &Vec<char>) -> (r: Vec<char>)
    ensures
        r@ == lower(s@),
{
    let mut r: Vec<char> = Vec::new();
    let mut i: usize = 0;
    while i < s.len()
        invariant
            i <= s.len(),
            r@ == lower(s@.take(i as int)),
        decreases s.len() - i,
    {
        r.push(to_ascii_lower_char(s[i]));
        i = i + 1;
        assert(r@ =~= lower(s@.take(i as int)));
    }
    assert(s@.take(s.len() as int) =~= s@);
    r
}

/// The first index of `c` in `s`, if any.
pub fn find_char(s: &Vec<char>, c: char) -> (r: Option<usize>)
    ensures
        match r {
            Some(i) => i < s.len() && s@[i as int] == c && forall|j: int|
                0 <= j < i ==> s@[j] != c,
            None => forall|j: int| 0 <= j < s.len() ==> s@[j] != c,
        },
{
    let mut i: usize = 0;
    while i < s.len()
        invariant
            i <= s.len(),
            forall|j: int| 0 <= j < i ==> s@[j] != c,
        decreases s.len() - i,
    {
        if s[i] == c {
            return Some(i);
        }
        i = i + 1;
    }
    None
}


/// Whether `c` is an ASCII decimal digit.
pub open spec fn is_digit(c: char) -> bool {
    '0' <= c && c <= '9'
}

/// The numeric value of a digit character.
pub open spec fn digit_value(c: char) -> int {
    (c as int) - ('0' as int)
}

/// The value of a sequence of decimal digits (most significant first).
pub open spec fn decimal_value(s: Seq<char>) -> int
    decreases s.len(),
{
    if s.len() == 0 {
        0
    } else {
        decimal_value(s.drop_last()) * 10 + digit_value(s.last())
    }
}

pub open spec fn all_digits(s: Seq<char>) -> bool {
    forall|i: int| 0 <= i < s.len() ==> is_digit(#[trigger] s[i])
}

/// What `str::parse::<u64>` accepts: an optional `+`, then at least one
/// decimal digit and nothing else, with a value that fits in a `u64`.
pub open spec fn parse_u64_spec(s: Seq<char>) -> Option<u64> {
    let d = if s.len() > 0 && s[0] == '+' {
        s.drop_first()
    } else {
        s
    };
    if d.len() > 0 && all_digits(d) && decimal_value(d) <= u64::MAX {
        Some(decimal_value(d) as u64)
    } else {
        None
    }
}

proof fn lemma_decimal_value_prefix(s: Seq<char>, k: int)
    requires
        all_digits(s),
        0 <= k <= s.len(),
    ensures
        0 <= decimal_value(s.take(k)) <= decimal_value(s),
    decreases s.len(),
{
    if k < s.len() {
        let t = s.drop_last();
        assert(all_digits(t)) by {
            assert forall|i: int| 0 <= i < t.len() implies is_digit(#[trigger] t[i]) by {
                assert(t[i] == s[i]);
            }
        }
        lemma_decimal_value_prefix(t, k);
        assert(t.take(k) =~= s.take(k));
        assert(is_digit(s[s.len() - 1]));
        lemma_decimal_value_prefix(t, t.len() as int);
        assert(t.take(t.len() as int) =~= t);
    } else {
        assert(s.take(k) =~= s);
        if s.len() > 0 {
            let t = s.drop_last();
            assert(all_digits(t)) by {
                assert forall|i: int| 0 <= i < t.len() implies is_digit(#[trigger] t[i]) by {
                    assert(t[i] == s[i]);
                }
            }
            lemma_decimal_value_prefix(t, t.len() as int);
            assert(t.take(t.len() as int) =~= t);
            assert(is_digit(s[s.len() - 1]));
        }
    }
}

/// Parses a decimal `u64` the way `str::parse::<u64>` does.
pub fn parse_u64(s: &Vec<char>) -> (r: Option<u64>)
    ensures
        r == parse_u64_spec(s@),
{
    let ghost d = if s@.len() > 0 && s@[0] == '+' {
        s@.drop_first()
    } else {
        s@
    };
    let start: usize = if s.len() > 0 && s[0] == '+' {
        1
    } else {
        0
    };
    assert(d =~= s@.subrange(start as int, s@.len() as int));
    if start >= s.len() {
        return None;
    }
    let mut value: u64 = 0;
    let mut i: usize = start;
    while i < s.len()
        invariant
            start <= i <= s.len(),
            d == s@.subrange(start as int, s@.len() as int),
            d == (if s@.len() > 0 && s@[0] == '+' {
                s@.drop_first()
            } else {
                s@
            }),
            d.len() > 0,
            all_digits(d.take(i - start)),
            value == decimal_value(d.take(i - start)),
        decreases s.len() - i,
    {
        let c = s[i];
        let k: usize = i - start;
        assert(d[k as int] == c);
        if !('0' <= c && c <= '9') {
            assert(!all_digits(d));
            return None;
        }
        let digit: u64 = ((c as u32) - ('0' as u32)) as u64;
        assert(d.take(k + 1).drop_last() =~= d.take(k as int));
        if value > (u64::MAX - digit) / 10 {
            proof {
                assert(decimal_value(d.take(k + 1)) > u64::MAX) by (nonlinear_arith)
                    requires
                        value > (u64::MAX - digit) / 10,
                        decimal_value(d.take(k + 1)) == value * 10 + digit,
                        digit <= 9,
                ;
                // the rest of the digits can only make the value larger
                let rest_ok = all_digits(d);
                if rest_ok {
                    lemma_decimal_value_prefix(d, k + 1);
                }
            }
            return None;
        }
        value = value * 10 + digit;
        i = i + 1;
        assert(all_digits(d.take(i - start))) by {
            assert forall|j: int| 0 <= j < d.take(i - start).len() implies is_digit(
                #[trigger] d.take(i - start)[j],
            ) by {
                if j < k {
                    assert(d.take(i - start)[j] == d.take(k as int)[j]);
                }
            }
        }
    }
    assert(d.take(d.len() as int) =~= d);
    Some(value)
}

/// The character of a digit value below ten.
pub open spec fn digit_char(d: int) -> char {
    (d + 48) as char
}

/// The decimal representation of `n`, without leading zeros.
pub open spec fn decimal(n: nat) -> Seq<char>
    decreases n,
{
    if n < 10 {
        seq![digit_char(n as int)]
    } else {
        decimal(n / 10).push(digit_char((n % 10) as int))
    }
}

/// The decimal representation of `n` (what `n.to_string()` gives).
pub fn decimal_chars(n: u64) -> (r: Vec<char>)
    ensures
        r@ == decimal(n as nat),
    decreases n,
{
    let low: u32 = (n % 10) as u32;
    let c = char_from_ascii(low + 48);
    if n < 10 {
        let mut v: Vec<char> = Vec::new();
        v.push(c);
        assert(v@ =~= seq![c]);
        v
    } else {
        let mut v = decimal_chars(n / 10);
        v.push(c);
        v
    }
}


/// Appends the characters of `s` to `v`.
pub fn push_str(v: &mut Vec<char>, s: &str)
    ensures
        final(v)@ == old(v)@ + s@,
{
    let add = chars_of(s);
    push_chars(v, &add);
}

/// Appends the characters of `add` to `v`.
pub fn push_chars(v: &mut Vec<char>, add: &Vec<char>)
    ensures
        final(v)@ == old(v)@ + add@,
{
    let ghost start = v@;
    let mut i: usize = 0;
    while i < add.len()
        invariant
            i <= add.len(),
            v@ == start + add@.take(i as int),
        decreases add.len() - i,
    {
        v.push(add[i]);
        i = i + 1;
        assert(v@ =~= start + add@.take(i as int));
    }
    assert(add@.take(add.len() as int) =~= add@);
}

/// A string made of the characters of `a` followed by those of `b`.
pub fn concat_str(a: &str, b: &str) -> (s: String)
    ensures
        s@ == a@ + b@,
{
    let mut v = chars_of(a);
    push_str(&mut v, b);
    string_of(&v)
}

/// Whether `c` occurs in `s`.
pub fn contains_char(s: &Vec<char>, c: char) -> (r: bool)
    ensures
        r == s@.contains(c),
{
    match find_char(s, c) {
        Some(i) => {
            assert(s@[i as int] == c);
            true
        },
        None => false,
    }
}

/// `s` split around the first occurrence of `c` (what `str::split_once` gives).
pub open spec fn split_once_spec(s: Seq<char>, c: char) -> Option<(Seq<char>, Seq<char>)> {
    if s.contains(c) {
        let i = choose|i: int| 0 <= i < s.len() && s[i] == c && forall|j: int| 0 <= j < i ==> s[j] != c;
        Some((s.take(i), s.skip(i + 1)))
    } else {
        None
    }
}

/// `s` split around the first occurrence of `c`, if `c` occurs in it.
pub fn split_once(s: &Vec<char>, c: char) -> (r: Option<(Vec<char>, Vec<char>)>)
    ensures
        match split_once_spec(s@, c) {
            Some((a, b)) => r matches Some(p) && p.0@ == a && p.1@ == b,
            None => r is None,
        },
{
    match find_char(s, c) {
        Some(i) => {
            let a = slice_vec(s, 0, i);
            let b = slice_vec(s, i + 1, s.len());
            proof {
                assert(s@.contains(c)) by {
                    assert(s@[i as int] == c);
                }
                let w = choose|w: int|
                    0 <= w < s@.len() && s@[w] == c && forall|j: int| 0 <= j < w ==> s@[j] != c;
                if w < i {
                    assert(s@[w] != c);
                } else if w > i {
                    assert(s@[i as int] != c);
                }
                assert(a@ =~= s@.take(i as int));
                assert(b@ =~= s@.skip(i + 1));
            }
            Some((a, b))
        },
        None => {
            assert(!s@.contains(c));
            None
        },
    }
}


/// The items joined by `sep` (what `slice::join` gives).
pub open spec fn join_spec(items: Seq<Seq<char>>, sep: Seq<char>) -> Seq<char>
    decreases items.len(),
{
    if items.len() == 0 {
        Seq::empty()
    } else if items.len() == 1 {
        items[0]
    } else {
        join_spec(items.drop_last(), sep) + sep + items.last()
    }
}

/// The string literals of `items` joined by `sep`.
pub fn join_strs(items: &Vec<&'static str>, sep: &str) -> (r: Vec<char>)
    ensures
        r@ == join_spec(items@.map_values(|x: &'static str| x@), sep@),
{
    let ghost all = items@.map_values(|x: &'static str| x@);
    let mut r: Vec<char> = Vec::new();
    let mut i: usize = 0;
    while i < items.len()
        invariant
            i <= items.len(),
            all == items@.map_values(|x: &'static str| x@),
            r@ == join_spec(all.take(i as int), sep@),
        decreases items.len() - i,
    {
        assert(all.take(i + 1).drop_last() =~= all.take(i as int));
        if i > 0 {
            push_str(&mut r, sep);
        }
        push_str(&mut r, items[i]);
        i = i + 1;
        if i == 1 {
            assert(r@ =~= all.take(1)[0]);
        }
    }
    assert(all.take(i as int) =~= all);
    r
}


/// The number of bytes of the UTF-8 encoding of `c`.
pub open spec fn utf8_width(c: char) -> nat {
    if (c as u32) < 0x80 {
        1
    } else if (c as u32) < 0x800 {
        2
    } else if (c as u32) < 0x10000 {
        3
    } else {
        4
    }
}

/// The number of bytes of the UTF-8 encoding of `s` (what `str::len` gives).
pub open spec fn byte_len(s: Seq<char>) -> nat
    decreases s.len(),
{
    if s.len() == 0 {
        0
    } else {
        byte_len(s.drop_last()) + utf8_width(s.last())
    }
}

/// Whether the byte offset `b` of the encoding of `s` falls between two
/// characters (or at either end).
pub open spec fn is_boundary(s: Seq<char>, b: int) -> bool {
    exists|k: int| 0 <= k <= s.len() && byte_len(#[trigger] s.take(k)) == b
}

/// The index of the character that starts at byte offset `b`
/// (the length of `s` for the end of the encoding).
pub open spec fn char_index(s: Seq<char>, b: int) -> int {
    choose|k: int| 0 <= k <= s.len() && byte_len(#[trigger] s.take(k)) == b
}

/// The characters between the byte offsets `a` and `b` (what `&s[a..b]` gives).
pub open spec fn byte_slice(s: Seq<char>, a: int, b: int) -> Seq<char> {
    s.subrange(char_index(s, a), char_index(s, b))
}

pub proof fn lemma_byte_len_step(s: Seq<char>, k: int)
    requires
        0 <= k < s.len(),
    ensures
        byte_len(s.take(k + 1)) == byte_len(s.take(k)) + utf8_width(s[k]),
{
    assert(s.take(k + 1).drop_last() =~= s.take(k));
}

/// Byte offsets grow strictly with character indices.
pub proof fn lemma_byte_len_monotone(s: Seq<char>, j: int, k: int)
    requires
        0 <= j <= k <= s.len(),
    ensures
        byte_len(s.take(j)) <= byte_len(s.take(k)),
        j < k ==> byte_len(s.take(j)) < byte_len(s.take(k)),
        byte_len(s.take(k)) - byte_len(s.take(j)) <= 4 * (k - j),
    decreases k - j,
{
    if j < k {
        lemma_byte_len_monotone(s, j, k - 1);
        lemma_byte_len_step(s, k - 1);
    }
}

/// The character index of a byte offset is unique.
pub proof fn lemma_char_index_unique(s: Seq<char>, b: int, k: int)
    requires
        0 <= k <= s.len(),
        byte_len(s.take(k)) == b,
    ensures
        is_boundary(s, b),
        char_index(s, b) == k,
{
    assert(is_boundary(s, b));
    let c = char_index(s, b);
    if c < k {
        lemma_byte_len_monotone(s, c, k);
    } else if c > k {
        lemma_byte_len_monotone(s, k, c);
    }
}

/// The number of bytes of the UTF-8 encoding of `c`.
pub fn utf8_width_of(c: char) -> (w: usize)
    ensures
        w == utf8_width(c),
{
    let code: u32 = c as u32;
    if code < 0x80 {
        1
    } else if code < 0x800 {
        2
    } else if code < 0x10000 {
        3
    } else {
        4
    }
}

/// The index of the character that starts at byte offset `b`, if `b` falls
/// between two characters of `s` or at either end.
pub fn char_index_of_byte(s: &Vec<char>, b: usize) -> (r: Option<usize>)
    ensures
        match r {
            Some(k) => k <= s.len() && byte_len(s@.take(k as int)) == b && is_boundary(s@, b as int)
                && char_index(s@, b as int) == k,
            None => !is_boundary(s@, b as int),
        },
{
    let mut k: usize = 0;
    let mut acc: usize = 0;
    assert(s@.take(0) =~= Seq::<char>::empty());
    while k < s.len() && acc < b
        invariant
            k <= s.len(),
            acc == byte_len(s@.take(k as int)),
            acc <= b,
        decreases s.len() - k,
    {
        let w = utf8_width_of(s[k]);
        proof {
            lemma_byte_len_step(s@, k as int);
        }
        if w > b - acc {
            proof {
                assert forall|j: int| 0 <= j <= s@.len() implies byte_len(#[trigger] s@.take(j))
                    != b by {
                    if j <= k {
                        lemma_byte_len_monotone(s@, j, k as int);
                    } else {
                        lemma_byte_len_monotone(s@, k + 1, j);
                    }
                }
            }
            return None;
        }
        acc = acc + w;
        k = k + 1;
    }
    if acc == b {
        proof {
            lemma_char_index_unique(s@, b as int, k as int);
        }
        Some(k)
    } else {
        proof {
            assert forall|j: int| 0 <= j <= s@.len() implies byte_len(#[trigger] s@.take(j)) != b by {
                lemma_byte_len_monotone(s@, j, k as int);
            }
        }
        None
    }
}

/// The byte offset of character index `k` of `s`, for an offset that fits in `usize`.
pub fn byte_offset(s: &Vec<char>, k: usize) -> (b: usize)
    requires
        k <= s.len(),
        byte_len(s@.take(k as int)) <= usize::MAX,
    ensures
        b == byte_len(s@.take(k as int)),
{
    let mut i: usize = 0;
    let mut acc: usize = 0;
    assert(s@.take(0) =~= Seq::<char>::empty());
    while i < k
        invariant
            i <= k <= s.len(),
            acc == byte_len(s@.take(i as int)),
            byte_len(s@.take(k as int)) <= usize::MAX,
        decreases k - i,
    {
        proof {
            lemma_byte_len_step(s@, i as int);
            lemma_byte_len_monotone(s@, i + 1, k as int);
        }
        acc = acc + utf8_width_of(s[i]);
        i = i + 1;
    }
    acc
}

/// The index of the last whitespace character of `s`, if any.
pub open spec fn last_ws(s: Seq<char>) -> Option<int> {
    if exists|j: int| 0 <= j < s.len() && is_ws(s[j]) {
        Some(choose|j: int| 0 <= j < s.len() && is_ws(s[j]) && forall|m: int| j < m < s.len() ==> !is_ws(s[m]))
    } else {
        None
    }
}

/// The index of the last whitespace character of `s`, if any.
pub fn rfind_whitespace(s: &Vec<char>) -> (r: Option<usize>)
    ensures
        match r {
            Some(j) => j < s.len() && is_ws(s@[j as int]) && (forall|m: int|
                j < m < s.len() ==> !is_ws(s@[m])) && last_ws(s@) == Some(j as int),
            None => last_ws(s@) is None,
        },
{
    let mut i: usize = s.len();
    while i > 0
        invariant
            i <= s.len(),
            forall|m: int| i <= m < s.len() ==> !is_ws(s@[m]),
        decreases i,
    {
        if is_whitespace(s[i - 1]) {
            proof {
                let j = (i - 1) as int;
                assert(is_ws(s@[j]));
                let c = choose|c: int| 0 <= c < s@.len() && is_ws(s@[c]) && forall|m: int| c < m < s@.len() ==> !is_ws(s@[m]);
                if c < j {
                    assert(!is_ws(s@[j]));
                } else if c > j {
                    assert(!is_ws(s@[c]));
                }
            }
            return Some(i - 1);
        }
        i = i - 1;
    }
    None
}

/// The pieces of `s` between newlines.
pub open spec fn newline_pieces(s: Seq<char>) -> Seq<Seq<char>>
    decreases s.len(),
{
    if s.len() == 0 {
        seq![Seq::empty()]
    } else {
        let rest = newline_pieces(s.drop_last());
        if s.last() == '\n' {
            rest.push(Seq::empty())
        } else {
            rest.update(rest.len() - 1, rest.last().push(s.last()))
        }
    }
}

pub proof fn lemma_newline_pieces_nonempty(s: Seq<char>)
    ensures
        newline_pieces(s).len() >= 1,
    decreases s.len(),
{
    if s.len() > 0 {
        lemma_newline_pieces_nonempty(s.drop_last());
    }
}

/// `s` without one trailing carriage return.
pub open spec fn strip_cr(s: Seq<char>) -> Seq<char> {
    if s.len() > 0 && s.last() == '\r' {
        s.drop_last()
    } else {
        s
    }
}

/// The lines of `s` (what `str::lines` yields): the pieces between
/// newlines, without a final empty piece after a trailing newline, each
/// without a trailing carriage return.
pub open spec fn lines_spec(s: Seq<char>) -> Seq<Seq<char>> {
    let p = newline_pieces(s);
    let kept = if s.len() == 0 {
        Seq::empty()
    } else if s.last() == '\n' {
        p.drop_last()
    } else {
        p
    };
    kept.map_values(|x: Seq<char>| strip_cr(x))
}

/// The pieces of `s` between newlines.
pub fn split_newlines(s: &Vec<char>) -> (r: Vec<Vec<char>>)
    ensures
        views(r@) == newline_pieces(s@),
{
    let mut out: Vec<Vec<char>> = Vec::new();
    let mut piece: Vec<char> = Vec::new();
    let mut i: usize = 0;
    assert(s@.take(0) =~= Seq::<char>::empty());
    assert(newline_pieces(Seq::<char>::empty()).drop_last() =~= Seq::<Seq<char>>::empty());
    assert(views(out@) =~= Seq::<Seq<char>>::empty());
    while i < s.len()
        invariant
            i <= s.len(),
            newline_pieces(s@.take(i as int)).len() >= 1,
            piece@ == newline_pieces(s@.take(i as int)).last(),
            views(out@) == newline_pieces(s@.take(i as int)).drop_last(),
        decreases s.len() - i,
    {
        let c = s[i];
        proof {
            assert(s@.take(i + 1).drop_last() =~= s@.take(i as int));
            lemma_newline_pieces_nonempty(s@.take(i as int));
        }
        let ghost pieces = newline_pieces(s@.take(i as int));
        if c == '\n' {
            let ghost before = views(out@);
            let done = piece;
            out.push(done);
            piece = Vec::new();
            proof {
                let np = newline_pieces(s@.take(i + 1));
                assert(np == pieces.push(Seq::empty()));
                assert(views(out@) =~= before.push(pieces.last()));
                assert(pieces =~= pieces.drop_last().push(pieces.last()));
                assert(np.drop_last() =~= pieces);
                assert(piece@ =~= np.last());
            }
        } else {
            piece.push(c);
            proof {
                let np = newline_pieces(s@.take(i + 1));
                assert(np.drop_last() =~= pieces.drop_last());
            }
        }
        i = i + 1;
    }
    assert(s@.take(i as int) =~= s@);
    let ghost before = views(out@);
    let ghost last = piece@;
    out.push(piece);
    proof {
        lemma_newline_pieces_nonempty(s@);
        let pieces = newline_pieces(s@);
        assert(views(out@) =~= before.push(last));
        assert(pieces =~= pieces.drop_last().push(pieces.last()));
    }
    out
}

/// The lines of `s` (see [`lines_spec`]).
pub fn lines_of(s: &Vec<char>) -> (r: Vec<Vec<char>>)
    ensures
        views(r@) == lines_spec(s@),
{
    let pieces = split_newlines(s);
    proof {
        lemma_newline_pieces_nonempty(s@);
    }
    let keep: usize = if s.len() == 0 {
        0
    } else if s[s.len() - 1] == '\n' {
        pieces.len() - 1
    } else {
        pieces.len()
    };
    let ghost kept = if s@.len() == 0 {
        Seq::<Seq<char>>::empty()
    } else if s@.last() == '\n' {
        newline_pieces(s@).drop_last()
    } else {
        newline_pieces(s@)
    };
    assert(views(pieces@).take(keep as int) =~= kept);
    let mut out: Vec<Vec<char>> = Vec::new();
    let mut i: usize = 0;
    assert(views(out@) =~= Seq::<Seq<char>>::empty());
    while i < keep
        invariant
            i <= keep <= pieces@.len(),
            views(pieces@).take(keep as int) == kept,
            views(out@) == kept.take(i as int).map_values(|x: Seq<char>| strip_cr(x)),
        decreases keep - i,
    {
        let p = &pieces[i];
        let line = if p.len() > 0 && p[p.len() - 1] == '\r' {
            slice_vec(p, 0, p.len() - 1)
        } else {
            slice_vec(p, 0, p.len())
        };
        assert(kept[i as int] == p@);
        assert(line@ =~= strip_cr(p@));
        let ghost before = views(out@);
        let ghost lv = line@;
        out.push(line);
        i = i + 1;
        assert(views(out@) =~= before.push(lv));
        assert(kept.take(i as int).map_values(|x: Seq<char>| strip_cr(x)) =~= kept.take(i - 1).map_values(
            |x: Seq<char>| strip_cr(x),
        ).push(lv));
    }
    assert(kept.take(keep as int) =~= kept);
    out
}


proof fn lemma_decimal_digits(n: nat)
    ensures
        decimal(n).len() > 0,
        all_digits(decimal(n)),
        decimal(n)[0] != '+',
        decimal_value(decimal(n)) == n,
    decreases n,
{
    if n >= 10 {
        lemma_decimal_digits(n / 10);
        let d = decimal(n / 10);
        let s = d.push(digit_char((n % 10) as int));
        assert(s.drop_last() =~= d);
        assert(digit_value(s.last()) == n % 10);
        assert(n == (n / 10) * 10 + n % 10) by (nonlinear_arith);
        assert forall|i: int| 0 <= i < s.len() implies is_digit(#[trigger] s[i]) by {
            if i < d.len() {
                assert(s[i] == d[i]);
            }
        }
        assert(s[0] == d[0]);
    } else {
        let s = decimal(n);
        assert(s.drop_last() =~= Seq::<char>::empty());
        assert(digit_value(s.last()) == n);
        assert(decimal_value(s.drop_last()) == 0);
        assert(decimal_value(s) == decimal_value(s.drop_last()) * 10 + digit_value(s.last()));
    }
}

/// Reading back the decimal text of a number gives the number.
pub proof fn law_decimal_round_trip(n: u64)
    ensures
        parse_u64_spec(decimal(n as nat)) == Some(n),
{
    lemma_decimal_digits(n as nat);
}


/// Whether byte offset `b` of `s` falls between two characters or at either end.
pub fn is_char_boundary(s: &str, b: usize) -> (r: bool)
    ensures
        r == is_boundary(s@, b as int),
{
    char_index_of_byte(&chars_of(s), b).is_some()
}


/// Whether `s` holds no whitespace character.
pub open spec fn no_ws(s: Seq<char>) -> bool {
    forall|i: int| 0 <= i < s.len() ==> !is_ws(#[trigger] s[i])
}

/// Reading a space closes the word being read.
pub proof fn lemma_split_state_space(s: Seq<char>)
    ensures
        split_state(s.push(' ')) == (words(s), Seq::<char>::empty()),
{
    assert(s.push(' ').drop_last() =~= s);
    assert(is_ws(' '));
}

/// Reading characters that are not whitespace extends the word being read.
pub proof fn lemma_split_state_word(s: Seq<char>, w: Seq<char>)
    requires
        no_ws(w),
    ensures
        split_state(s + w).0 == split_state(s).0,
        split_state(s + w).1 == split_state(s).1 + w,
    decreases w.len(),
{
    if w.len() == 0 {
        assert(s + w =~= s);
        assert(split_state(s).1 + w =~= split_state(s).1);
    } else {
        let w0 = w.drop_last();
        assert(no_ws(w0)) by {
            assert forall|i: int| 0 <= i < w0.len() implies !is_ws(#[trigger] w0[i]) by {
                assert(w0[i] == w[i]);
            }
        }
        lemma_split_state_word(s, w0);
        assert((s + w).drop_last() =~= s + w0);
        assert((s + w).last() == w.last());
        assert(!is_ws(w[w.len() - 1]));
        assert(split_state(s).1 + w0 + seq![w.last()] =~= split_state(s).1 + w);
        assert((split_state(s).1 + w0).push(w.last()) =~= split_state(s).1 + w);
    }
}

/// The words of words joined by single spaces are those words.
pub proof fn lemma_words_of_spaced(parts: Seq<Seq<char>>)
    requires
        parts.len() > 0,
        forall|k: int| 0 <= k < parts.len() ==> #[trigger] parts[k].len() > 0 && no_ws(parts[k]),
    ensures
        words(join_spec(parts, " "@)) == parts,
        trim_spec(join_spec(parts, " "@)) == join_spec(parts, " "@),
    decreases parts.len(),
{
    reveal_strlit(" ");
    let j = join_spec(parts, " "@);
    if parts.len() == 1 {
        lemma_split_state_word(Seq::empty(), parts[0]);
        assert(Seq::<char>::empty() + parts[0] =~= parts[0]);
        assert(split_state(Seq::<char>::empty()) == (Seq::<Seq<char>>::empty(), Seq::<char>::empty()));
        assert(Seq::<char>::empty() + parts[0] =~= parts[0]);
        assert(words(j) =~= parts);
    } else {
        let init = parts.drop_last();
        assert forall|k: int| 0 <= k < init.len() implies #[trigger] init[k].len() > 0 && no_ws(init[k]) by {
            assert(init[k] == parts[k]);
        }
        lemma_words_of_spaced(init);
        let ji = join_spec(init, " "@);
        assert(j == ji + " "@ + parts.last());
        assert(ji + " "@ =~= ji.push(' '));
        lemma_split_state_space(ji);
        assert(parts.last() == parts[parts.len() - 1]);
        lemma_split_state_word(ji.push(' '), parts.last());
        assert(Seq::<char>::empty() + parts.last() =~= parts.last());
        assert(words(j) =~= init.push(parts.last()));
        assert(init.push(parts.last()) =~= parts);
    }
    lemma_join_ends(parts);
    lemma_skip_ws_bounds(j, 0);
    lemma_trail_end_bounds(j, j.len() as int);
    assert(j.subrange(0, j.len() as int) =~= j);
}

/// Words joined by spaces start and end with a character that is not whitespace.
proof fn lemma_join_ends(parts: Seq<Seq<char>>)
    requires
        parts.len() > 0,
        forall|k: int| 0 <= k < parts.len() ==> #[trigger] parts[k].len() > 0 && no_ws(parts[k]),
    ensures
        join_spec(parts, " "@).len() > 0,
        !is_ws(join_spec(parts, " "@)[0]),
        !is_ws(join_spec(parts, " "@).last()),
        skip_ws(join_spec(parts, " "@), 0) == 0,
        trail_end(join_spec(parts, " "@), join_spec(parts, " "@).len() as int) == join_spec(parts, " "@).len(),
    decreases parts.len(),
{
    let j = join_spec(parts, " "@);
    assert(!is_ws(parts.last()[parts.last().len() - 1])) by {
        assert(parts.last() == parts[parts.len() - 1]);
    }
    if parts.len() == 1 {
        assert(!is_ws(parts[0][0]));
    } else {
        let init = parts.drop_last();
        assert forall|k: int| 0 <= k < init.len() implies #[trigger] init[k].len() > 0 && no_ws(init[k]) by {
            assert(init[k] == parts[k]);
        }
        lemma_join_ends(init);
        let ji = join_spec(init, " "@);
        assert(j == ji + " "@ + parts.last());
        assert(j[0] == ji[0]);
        assert(j.last() == parts.last().last());
    }
}

} // verus!
