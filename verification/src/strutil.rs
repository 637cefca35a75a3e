//! Small string and sequence helpers shared by the parsing modules:
//! first-occurrence search, string equality, and decimal formatting/parsing.

use vstd::prelude::*;

verus! {

/// Index of the first occurrence of `c` in `s`, if any.
pub open spec fn find_char(s: Seq<char>, c: char) -> Option<int>
    decreases s.len(),
{
    if s.len() == 0 {
        None
    } else if s[0] == c {
        Some(0)
    } else {
        match find_char(s.drop_first(), c) {
            Some(i) => Some(i + 1),
            None => None,
        }
    }
}

/// `find_char` returns the first occurrence: the found index holds `c` and
/// nothing before it does; `None` means `c` does not occur at all.
pub proof fn lemma_find_char(s: Seq<char>, c: char)
    ensures
        match find_char(s, c) {
            Some(i) => 0 <= i < s.len() && s[i] == c && (forall|j: int| 0 <= j < i ==> s[j] != c),
            None => forall|j: int| 0 <= j < s.len() ==> s[j] != c,
        },
    decreases s.len(),
{
    if s.len() > 0 && s[0] != c {
        let t = s.drop_first();
        lemma_find_char(t, c);
        match find_char(s, c) {
            Some(i) => {
                assert forall|j: int| 0 <= j < i implies s[j] != c by {
                    if j >= 1 {
                        assert(s[j] == t[j - 1]);
                        assert(t[j - 1] != c);
                    }
                }
            },
            None => {
                assert forall|j: int| 0 <= j < s.len() implies s[j] != c by {
                    if j >= 1 {
                        assert(s[j] == t[j - 1]);
                        assert(t[j - 1] != c);
                    }
                }
            },
        }
    }
}

/// The characterization is exact: any index with the first-occurrence
/// properties is the one `find_char` returns.
pub proof fn lemma_find_char_is(s: Seq<char>, c: char, i: int)
    requires
        0 <= i < s.len(),
        s[i] == c,
        forall|j: int| 0 <= j < i ==> s[j] != c,
    ensures
        find_char(s, c) == Some(i),
{
    lemma_find_char(s, c);
    match find_char(s, c) {
        Some(k) => {
            if k < i {
                assert(s[k] == c);
            } else if i < k {
                assert(s[i] == c);
            }
        },
        None => {
            assert(s[i] == c);
        },
    }
}

/// A character that occurs nowhere is never found.
pub proof fn lemma_find_char_none(s: Seq<char>, c: char)
    requires
        forall|j: int| 0 <= j < s.len() ==> s[j] != c,
    ensures
        find_char(s, c) is None,
{
    lemma_find_char(s, c);
    if let Some(i) = find_char(s, c) {
        assert(s[i] == c);
    }
}

/// First occurrence of `c` in the string `s`.
pub fn str_find_char(s: &str, c: char) -> (r: Option<usize>)
    ensures
        match find_char(s@, c) {
            Some(i) => r == Some(i as usize),
            None => r is None,
        },
{
    let n = s.unicode_len();
    let mut k: usize = 0;
    while k < n
        invariant
            0 <= k <= n,
            n == s@.len(),
            forall|j: int| 0 <= j < k ==> s@[j] != c,
        decreases n - k,
    {
        if s.get_char(k) == c {
            proof {
                lemma_find_char_is(s@, c, k as int);
            }
            return Some(k);
        }
        k += 1;
    }
    proof {
        lemma_find_char_none(s@, c);
    }
    None
}

/// The views of a sequence of values.
pub open spec fn views_of<T: View>(s: Seq<T>) -> Seq<T::V> {
    s.map(|i: int, x: T| x@)
}

/// Relies on `core::mem::replace`: moves the vector out, leaving an empty
/// one behind, without any possibility of panicking.
#[verifier::external_body]
pub fn take_vec<T>(v: &mut Vec<T>) -> (r: Vec<T>)
    ensures
        r@ == old(v)@,
        final(v)@ == Seq::<T>::empty(),
    no_unwind
{
    core::mem::replace(v, Vec::new())
}

/// Copy a byte vector.
pub fn clone_bytes(v: &Vec<u8>) -> (r: Vec<u8>)
    ensures
        r@ == v@,
{
    vstd::slice::slice_to_vec(v.as_slice())
}

/// Element-wise byte-vector equality.
pub fn bytes_eq(a: &Vec<u8>, b: &Vec<u8>) -> (r: bool)
    ensures
        r == (a@ == b@),
{
    let na = a.len();
    if na != b.len() {
        assert(a@ != b@) by {
            assert(a@.len() != b@.len());
        }
        return false;
    }
    let mut k: usize = 0;
    while k < na
        invariant
            0 <= k <= na,
            na == a@.len(),
            na == b@.len(),
            forall|j: int| 0 <= j < k ==> a@[j] == b@[j],
        decreases na - k,
    {
        if a[k] != b[k] {
            assert(a@ != b@);
            return false;
        }
        k += 1;
    }
    proof {
        assert(a@ =~= b@);
    }
    true
}

/// Relies on `core::str::from_utf8`: it succeeds exactly on well-formed
/// UTF-8 and returns the string made of those very bytes.
#[verifier::external_body]
pub fn utf8_to_string(b: &[u8]) -> (r: Option<String>)
    ensures
        r matches Some(s) ==> vstd::utf8::valid_utf8(b@) && vstd::utf8::encode_utf8(s@) == b@,
        r is None ==> !vstd::utf8::valid_utf8(b@),
{
    match core::str::from_utf8(b) {
        Ok(s) => Some(s.to_string()),
        Err(_) => None,
    }
}

/// Character-wise string equality, usable against literals.
pub fn str_eq(a: &str, b: &str) -> (r: bool)
    ensures
        r == (a@ == b@),
{
    let na = a.unicode_len();
    let nb = b.unicode_len();
    if na != nb {
        assert(a@ != b@) by {
            assert(a@.len() != b@.len());
        }
        return false;
    }
    let mut k: usize = 0;
    while k < na
        invariant
            0 <= k <= na,
            na == a@.len(),
            na == b@.len(),
            forall|j: int| 0 <= j < k ==> a@[j] == b@[j],
        decreases na - k,
    {
        if a.get_char(k) != b.get_char(k) {
            assert(a@ != b@);
            return false;
        }
        k += 1;
    }
    proof {
        assert(a@ =~= b@);
    }
    true
}

/// The decimal digit character for a value below ten.
pub open spec fn digit_char(d: int) -> char {
    if d == 0 {
        '0'
    } else if d == 1 {
        '1'
    } else if d == 2 {
        '2'
    } else if d == 3 {
        '3'
    } else if d == 4 {
        '4'
    } else if d == 5 {
        '5'
    } else if d == 6 {
        '6'
    } else if d == 7 {
        '7'
    } else if d == 8 {
        '8'
    } else {
        '9'
    }
}

/// The value of a decimal digit character, if it is one.
pub open spec fn digit_of(c: char) -> Option<int> {
    if c == '0' {
        Some(0)
    } else if c == '1' {
        Some(1)
    } else if c == '2' {
        Some(2)
    } else if c == '3' {
        Some(3)
    } else if c == '4' {
        Some(4)
    } else if c == '5' {
        Some(5)
    } else if c == '6' {
        Some(6)
    } else if c == '7' {
        Some(7)
    } else if c == '8' {
        Some(8)
    } else if c == '9' {
        Some(9)
    } else {
        None
    }
}

/// The decimal rendering of a non-negative integer, most significant
/// digit first.
pub open spec fn dec_of(n: int) -> Seq<char>
    decreases n,
{
    if n < 10 {
        seq![digit_char(n)]
    } else {
        dec_of(n / 10) + seq![digit_char(n % 10)]
    }
}

/// The decimal rendering of a possibly negative integer.
pub open spec fn dec_of_i64(n: int) -> Seq<char> {
    if n < 0 {
        seq!['-'] + dec_of(-n)
    } else {
        dec_of(n)
    }
}

/// Reading a digit string left to right into an accumulator; `None` on a
/// non-digit or when the value leaves the unsigned 64-bit range.
pub open spec fn parse_dec_rec(s: Seq<char>, acc: u64) -> Option<u64>
    decreases s.len(),
{
    if s.len() == 0 {
        Some(acc)
    } else {
        match digit_of(s[0]) {
            Some(d) => if acc * 10 + d <= u64::MAX {
                parse_dec_rec(s.drop_first(), (acc * 10 + d) as u64)
            } else {
                None
            },
            None => None,
        }
    }
}

/// The unsigned decimal number a string denotes, if any: at least one
/// digit, digits only, value within the unsigned 64-bit range.
pub open spec fn parse_dec(s: Seq<char>) -> Option<u64> {
    if s.len() == 0 {
        None
    } else {
        parse_dec_rec(s, 0)
    }
}

/// The signed decimal number a string denotes: an optional leading minus
/// sign before the digits, value within the signed 64-bit range.
pub open spec fn parse_dec_i64(s: Seq<char>) -> Option<i64> {
    if s.len() >= 1 && s[0] == '-' {
        match parse_dec(s.drop_first()) {
            Some(v) => if v <= 0x8000000000000000u64 {
                Some((-(v as int)) as i64)
            } else {
                None
            },
            None => None,
        }
    } else {
        match parse_dec(s) {
            Some(v) => if v <= i64::MAX as u64 {
                Some(v as i64)
            } else {
                None
            },
            None => None,
        }
    }
}

/// Strict lexicographic order on character sequences, by code point, a
/// shorter prefix first.
pub open spec fn lex_lt(a: Seq<char>, b: Seq<char>) -> bool
    decreases a.len(),
{
    if b.len() == 0 {
        false
    } else if a.len() == 0 {
        true
    } else if a[0] != b[0] {
        a[0] < b[0]
    } else {
        lex_lt(a.drop_first(), b.drop_first())
    }
}

/// The order is a strict total order: exactly one of `a < b`, `a == b`,
/// `b < a` holds.
pub proof fn lemma_lex_lt_trichotomy(a: Seq<char>, b: Seq<char>)
    ensures
        lex_lt(a, b) || lex_lt(b, a) || a == b,
        lex_lt(a, b) ==> !lex_lt(b, a) && a != b,
        lex_lt(b, a) ==> !lex_lt(a, b) && a != b,
    decreases a.len(),
{
    if a.len() > 0 && b.len() > 0 && a[0] == b[0] {
        lemma_lex_lt_trichotomy(a.drop_first(), b.drop_first());
        if a.drop_first() == b.drop_first() {
            assert(a.len() == b.len());
            assert forall|i: int| 0 <= i < a.len() implies a[i] == b[i] by {
                if i >= 1 {
                    assert(a[i] == a.drop_first()[i - 1]);
                    assert(b[i] == b.drop_first()[i - 1]);
                }
            }
            assert(a =~= b);
        }
        if a == b {
            assert(a.drop_first() =~= b.drop_first());
        }
    } else {
        if a == b && a.len() > 0 {
            assert(a[0] == b[0]);
        }
    }
}

/// The order is transitive.
pub proof fn lemma_lex_lt_trans(a: Seq<char>, b: Seq<char>, c: Seq<char>)
    requires
        lex_lt(a, b),
        lex_lt(b, c),
    ensures
        lex_lt(a, c),
    decreases a.len(),
{
    if a.len() > 0 && b.len() > 0 && c.len() > 0 && a[0] == b[0] && b[0] == c[0] {
        lemma_lex_lt_trans(a.drop_first(), b.drop_first(), c.drop_first());
    }
}

/// Compare two strings in the lexicographic order.
pub fn str_lt(a: &str, b: &str) -> (r: bool)
    ensures
        r == lex_lt(a@, b@),
{
    let na = a.unicode_len();
    let nb = b.unicode_len();
    let mut k: usize = 0;
    proof {
        assert(a@.skip(0) =~= a@);
        assert(b@.skip(0) =~= b@);
    }
    while k < na && k < nb
        invariant
            0 <= k <= na,
            0 <= k <= nb,
            na == a@.len(),
            nb == b@.len(),
            lex_lt(a@, b@) == lex_lt(a@.skip(k as int), b@.skip(k as int)),
        decreases na - k,
    {
        proof {
            assert(a@.skip(k as int)[0] == a@[k as int]);
            assert(b@.skip(k as int)[0] == b@[k as int]);
            assert(a@.skip(k as int).drop_first() =~= a@.skip(k as int + 1));
            assert(b@.skip(k as int).drop_first() =~= b@.skip(k as int + 1));
        }
        let ca = a.get_char(k);
        let cb = b.get_char(k);
        if ca != cb {
            return ca < cb;
        }
        k += 1;
    }
    proof {
        if k == na {
            assert(a@.skip(k as int).len() == 0);
        } else {
            assert(b@.skip(k as int).len() == 0);
        }
    }
    na < nb
}

/// Index of the first `::` in `s`, if any.
pub open spec fn find_sep(s: Seq<char>) -> Option<int>
    decreases s.len(),
{
    if s.len() < 2 {
        None
    } else if s[0] == ':' && s[1] == ':' {
        Some(0)
    } else {
        match find_sep(s.drop_first()) {
            Some(i) => Some(i + 1),
            None => None,
        }
    }
}

/// Find the first `::` at or after `k`.
fn find_sep_from(s: &str, k: usize) -> (r: Option<usize>)
    requires
        k <= s@.len(),
    ensures
        match find_sep(s@.skip(k as int)) {
            Some(i) => 0 <= i && r == Some((k + i) as usize) && k + i + 2 <= s@.len(),
            None => r is None,
        },
    decreases s@.len() - k,
{
    let ghost tail = s@.skip(k as int);
    let n = s.unicode_len();
    if n < 2 || k > n - 2 {
        return None;
    }
    proof {
        assert(tail[0] == s@[k as int]);
        assert(tail[1] == s@[k as int + 1]);
    }
    if s.get_char(k) == ':' && s.get_char(k + 1) == ':' {
        return Some(k);
    }
    proof {
        assert(s@.skip(k as int + 1) =~= tail.drop_first());
    }
    find_sep_from(s, k + 1)
}

/// Find the first `::` in a string.
pub fn str_find_sep(s: &str) -> (r: Option<usize>)
    ensures
        match find_sep(s@) {
            Some(i) => 0 <= i && r == Some(i as usize) && i + 2 <= s@.len(),
            None => r is None,
        },
{
    proof {
        assert(s@.skip(0) =~= s@);
    }
    find_sep_from(s, 0)
}

/// The lowercase base32 alphabet, by digit value.
pub open spec fn b32_char(d: int) -> char {
    if d == 0 {
        'a'
    } else if d == 1 {
        'b'
    } else if d == 2 {
        'c'
    } else if d == 3 {
        'd'
    } else if d == 4 {
        'e'
    } else if d == 5 {
        'f'
    } else if d == 6 {
        'g'
    } else if d == 7 {
        'h'
    } else if d == 8 {
        'i'
    } else if d == 9 {
        'j'
    } else if d == 10 {
        'k'
    } else if d == 11 {
        'l'
    } else if d == 12 {
        'm'
    } else if d == 13 {
        'n'
    } else if d == 14 {
        'o'
    } else if d == 15 {
        'p'
    } else if d == 16 {
        'q'
    } else if d == 17 {
        'r'
    } else if d == 18 {
        's'
    } else if d == 19 {
        't'
    } else if d == 20 {
        'u'
    } else if d == 21 {
        'v'
    } else if d == 22 {
        'w'
    } else if d == 23 {
        'x'
    } else if d == 24 {
        'y'
    } else if d == 25 {
        'z'
    } else if d == 26 {
        '2'
    } else if d == 27 {
        '3'
    } else if d == 28 {
        '4'
    } else if d == 29 {
        '5'
    } else if d == 30 {
        '6'
    } else {
        '7'
    }
}

/// The power of two that shifts the five wanted bits to the bottom, for a
/// group starting at bit offset `r` of its first byte.
pub open spec fn b32_div(r: int) -> int {
    if r == 0 {
        2048
    } else if r == 1 {
        1024
    } else if r == 2 {
        512
    } else if r == 3 {
        256
    } else if r == 4 {
        128
    } else if r == 5 {
        64
    } else if r == 6 {
        32
    } else {
        16
    }
}

/// The `i`-th five-bit group of a byte string, bits taken most significant
/// first, zero-padded at the end.
pub open spec fn b32_group(bytes: Seq<u8>, i: int) -> int {
    let bit = 5 * i;
    let hi = bytes[bit / 8] as int;
    let lo = if bit / 8 + 1 < bytes.len() {
        bytes[bit / 8 + 1] as int
    } else {
        0
    };
    ((hi * 256 + lo) / b32_div(bit % 8)) % 32
}

/// How many base32 digits a byte string of this length yields.
pub open spec fn b32_len(len: int) -> int {
    (8 * len + 4) / 5
}

/// The multibase rendering of a byte string in lowercase base32 without
/// padding: the `b` marker, then the five-bit groups.
pub open spec fn base32_multibase(bytes: Seq<u8>) -> Seq<char> {
    seq!['b'] + Seq::new(b32_len(bytes.len() as int) as nat, |i: int| b32_char(b32_group(bytes, i)))
}

/// Render a byte string in multibase lowercase base32.
pub fn bytes_to_base32(bytes: &Vec<u8>) -> (r: String)
    requires
        bytes@.len() <= 0x100000,
    ensures
        r@ == base32_multibase(bytes@),
{
    let alphabet = "abcdefghijklmnopqrstuvwxyz234567";
    proof {
        reveal_strlit("abcdefghijklmnopqrstuvwxyz234567");
        reveal_strlit("b");
        assert(forall|d: int| 0 <= d < 32 ==> alphabet@[d] == b32_char(d));
    }
    let mut out = String::from_str("b");
    let n = bytes.len();
    let total: usize = (8 * n + 4) / 5;
    let mut i: usize = 0;
    proof {
        assert(out@ =~= seq!['b'] + Seq::new(0, |k: int| b32_char(b32_group(bytes@, k))));
    }
    while i < total
        invariant
            0 <= i <= total,
            n == bytes@.len(),
            n <= 0x100000,
            total == b32_len(n as int),
            alphabet@.len() == 32,
            forall|d: int| 0 <= d < 32 ==> alphabet@[d] == b32_char(d),
            out@ == seq!['b'] + Seq::new(i as nat, |k: int| b32_char(b32_group(bytes@, k))),
        decreases total - i,
    {
        let bit = 5 * i;
        let bytepos = bit / 8;
        assert(bytepos < n) by {
            assert(5 * (i as int) <= 5 * (total as int) - 5);
            assert(5 * b32_len(n as int) <= 8 * n + 4);
        }
        let hi = bytes[bytepos] as u32;
        let lo = if bytepos + 1 < n {
            bytes[bytepos + 1] as u32
        } else {
            0
        };
        let combined = hi * 256 + lo;
        let divisor: u32 = match bit % 8 {
            0 => 2048,
            1 => 1024,
            2 => 512,
            3 => 256,
            4 => 128,
            5 => 64,
            6 => 32,
            _ => 16,
        };
        let g = ((combined / divisor) % 32) as usize;
        assert(g as int == b32_group(bytes@, i as int));
        let ghost prev = out@;
        out.append(alphabet.substring_char(g, g + 1));
        proof {
            assert(alphabet@.subrange(g as int, g as int + 1) =~= seq![b32_char(g as int)]);
            assert(out@ =~= seq!['b'] + Seq::new(
                (i + 1) as nat,
                |k: int| b32_char(b32_group(bytes@, k)),
            ));
        }
        i += 1;
    }
    proof {
        assert(out@ =~= base32_multibase(bytes@));
    }
    out
}

/// A decimal rendering is nonempty and made of digit characters only.
pub proof fn lemma_dec_chars(n: int)
    requires
        n >= 0,
    ensures
        dec_of(n).len() >= 1,
        forall|j: int| 0 <= j < dec_of(n).len() ==> digit_of(#[trigger] dec_of(n)[j]) is Some,
    decreases n,
{
    if n >= 10 {
        lemma_dec_chars(n / 10);
        let a = dec_of(n / 10);
        let s = dec_of(n);
        assert(forall|j: int| 0 <= j < a.len() ==> #[trigger] s[j] == a[j]);
        assert(s[s.len() - 1] == digit_char(n % 10));
    }
}

/// Reading a concatenation reads the first part, then the second from the
/// accumulated value.
pub proof fn lemma_parse_dec_concat(a: Seq<char>, b: Seq<char>, acc: u64)
    ensures
        parse_dec_rec(a + b, acc) == (match parse_dec_rec(a, acc) {
            Some(m) => parse_dec_rec(b, m),
            None => None,
        }),
    decreases a.len(),
{
    if a.len() == 0 {
        assert(a + b =~= b);
    } else {
        assert((a + b)[0] == a[0]);
        match digit_of(a[0]) {
            Some(d) => {
                if acc * 10 + d <= u64::MAX {
                    lemma_parse_dec_concat(a.drop_first(), b, (acc * 10 + d) as u64);
                    assert((a + b).drop_first() =~= a.drop_first() + b);
                }
            },
            None => {},
        }
    }
}

/// The decimal rendering of an unsigned number reads back as that number.
pub proof fn lemma_dec_round_trip(n: u64)
    ensures
        parse_dec(dec_of(n as int)) == Some(n),
    decreases n,
{
    reveal_with_fuel(parse_dec_rec, 3);
    lemma_dec_chars(n as int);
    if n < 10 {
        let s = dec_of(n as int);
        assert(s == seq![digit_char(n as int)]);
        assert(s[0] == digit_char(n as int));
        assert(digit_of(s[0]) == Some(n as int)) by {
            if n == 0 {
            } else if n == 1 {
            } else if n == 2 {
            } else if n == 3 {
            } else if n == 4 {
            } else if n == 5 {
            } else if n == 6 {
            } else if n == 7 {
            } else if n == 8 {
            } else {
            }
        }
        assert(s.drop_first() =~= Seq::<char>::empty());
        assert(parse_dec_rec(s, 0) == Some(n));
    } else {
        lemma_dec_round_trip(n / 10);
        let a = dec_of(n as int / 10);
        let b = seq![digit_char(n as int % 10)];
        assert(dec_of(n as int) == a + b);
        lemma_parse_dec_concat(a, b, 0);
        lemma_dec_chars(n as int / 10);
        assert(parse_dec_rec(a, 0) == Some(n / 10));
        assert(b.drop_first() =~= Seq::<char>::empty());
        let d = n as int % 10;
        assert(b[0] == digit_char(d));
        assert(digit_of(b[0]) == Some(d)) by {
            if d == 0 {
            } else if d == 1 {
            } else if d == 2 {
            } else if d == 3 {
            } else if d == 4 {
            } else if d == 5 {
            } else if d == 6 {
            } else if d == 7 {
            } else if d == 8 {
            } else {
            }
        }
        assert((n / 10) * 10 + (n % 10) == n);
        assert(parse_dec_rec(b, n / 10) == Some(n));
        assert(parse_dec_rec(a + b, 0) == Some(n));
    }
}

/// The decimal rendering of a signed number reads back as that number.
pub proof fn lemma_dec_i64_round_trip(n: i64)
    ensures
        parse_dec_i64(dec_of_i64(n as int)) == Some(n),
{
    if n >= 0 {
        lemma_dec_round_trip(n as u64);
        lemma_dec_chars(n as int);
        let s = dec_of_i64(n as int);
        assert(digit_of(s[0]) is Some);
        assert(s[0] != '-');
    } else {
        let mag: u64 = (-(n as int)) as u64;
        lemma_dec_round_trip(mag);
        let s = dec_of_i64(n as int);
        assert(s[0] == '-');
        assert(s.drop_first() =~= dec_of(mag as int));
        assert(mag <= 0x8000000000000000u64);
    }
}

/// `find_sep` is the first occurrence: an index holding `::` with no colon
/// before it is the one found.
pub proof fn lemma_find_sep_at(s: Seq<char>, i: int)
    requires
        0 <= i,
        i + 2 <= s.len(),
        s[i] == ':',
        s[i + 1] == ':',
        forall|j: int| 0 <= j < i ==> s[j] != ':',
    ensures
        find_sep(s) == Some(i),
    decreases i,
{
    if i == 0 {
    } else {
        let t = s.drop_first();
        assert(forall|j: int| 0 <= j < t.len() ==> t[j] == s[j + 1]);
        lemma_find_sep_at(t, i - 1);
        assert(s[0] != ':');
    }
}

/// One decimal digit as a string.
fn digit_str(d: u64) -> (r: &'static str)
    requires
        d < 10,
    ensures
        r@ == seq![digit_char(d as int)],
{
    proof {
        reveal_strlit("0");
        reveal_strlit("1");
        reveal_strlit("2");
        reveal_strlit("3");
        reveal_strlit("4");
        reveal_strlit("5");
        reveal_strlit("6");
        reveal_strlit("7");
        reveal_strlit("8");
        reveal_strlit("9");
    }
    if d == 0 {
        "0"
    } else if d == 1 {
        "1"
    } else if d == 2 {
        "2"
    } else if d == 3 {
        "3"
    } else if d == 4 {
        "4"
    } else if d == 5 {
        "5"
    } else if d == 6 {
        "6"
    } else if d == 7 {
        "7"
    } else if d == 8 {
        "8"
    } else {
        "9"
    }
}

/// Render an unsigned number in decimal.
pub fn u64_to_dec(n: u64) -> (r: String)
    ensures
        r@ == dec_of(n as int),
    decreases n,
{
    if n < 10 {
        String::from_str(digit_str(n))
    } else {
        let mut out = u64_to_dec(n / 10);
        out.append(digit_str(n % 10));
        out
    }
}

/// Render a signed number in decimal.
pub fn i64_to_dec(n: i64) -> (r: String)
    ensures
        r@ == dec_of_i64(n as int),
{
    if n < 0 {
        let mut out = String::from_str("-");
        proof {
            reveal_strlit("-");
        }
        let mag: u64 = if n == i64::MIN {
            0x8000000000000000u64
        } else {
            (-n) as u64
        };
        out.append(u64_to_dec(mag).as_str());
        proof {
            assert(out@ =~= dec_of_i64(n as int));
        }
        out
    } else {
        u64_to_dec(n as u64)
    }
}

/// Read an unsigned decimal string.
pub fn str_parse_u64(s: &str) -> (r: Option<u64>)
    ensures
        r == parse_dec(s@),
{
    let n = s.unicode_len();
    if n == 0 {
        return None;
    }
    let mut acc: u64 = 0;
    let mut i: usize = 0;
    proof {
        assert(s@.skip(0) =~= s@);
    }
    while i < n
        invariant
            0 <= i <= n,
            n == s@.len(),
            parse_dec_rec(s@, 0) == parse_dec_rec(s@.skip(i as int), acc),
        decreases n - i,
    {
        proof {
            assert(s@.skip(i as int)[0] == s@[i as int]);
            assert(s@.skip(i as int).drop_first() =~= s@.skip(i as int + 1));
        }
        let c = s.get_char(i);
        let d: u64 = match c {
            '0' => 0,
            '1' => 1,
            '2' => 2,
            '3' => 3,
            '4' => 4,
            '5' => 5,
            '6' => 6,
            '7' => 7,
            '8' => 8,
            '9' => 9,
            _ => {
                return None;
            },
        };
        if acc > (u64::MAX - d) / 10 {
            return None;
        }
        acc = acc * 10 + d;
        i += 1;
    }
    proof {
        assert(s@.skip(n as int) =~= Seq::<char>::empty());
    }
    Some(acc)
}

/// Read a signed decimal string.
pub fn str_parse_i64(s: &str) -> (r: Option<i64>)
    ensures
        r == parse_dec_i64(s@),
{
    let n = s.unicode_len();
    if n >= 1 && s.get_char(0) == '-' {
        let rest = s.substring_char(1, n);
        proof {
            assert(rest@ =~= s@.drop_first());
        }
        match str_parse_u64(rest) {
            Some(v) => {
                if v <= 0x8000000000000000u64 {
                    if v == 0x8000000000000000u64 {
                        Some(i64::MIN)
                    } else {
                        Some(-(v as i64))
                    }
                } else {
                    None
                }
            },
            None => None,
        }
    } else {
        match str_parse_u64(s) {
            Some(v) => {
                if v <= i64::MAX as u64 {
                    Some(v as i64)
                } else {
                    None
                }
            },
            None => None,
        }
    }
}

} // verus!
