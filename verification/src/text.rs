//! Verified text utilities: character-sequence equality and lexicographic
//! order on strings, decimal rendering of integers, and decimal parsing.
//! Generated artifacts and the parity protocol both depend on these being
//! deterministic, so each carries an exact contract.

use vstd::prelude::*;

verus! {

/// Lexicographic strict order on character sequences, by code point.
pub open spec fn lex_lt(a: Seq<char>, b: Seq<char>) -> bool
    decreases a.len(),
{
    if b.len() == 0 {
        false
    } else if a.len() == 0 {
        true
    } else if a[0] != b[0] {
        (a[0] as u32) < (b[0] as u32)
    } else {
        lex_lt(a.skip(1), b.skip(1))
    }
}

/// Lexicographic order is irreflexive.
pub proof fn lemma_lex_lt_irreflexive(a: Seq<char>)
    ensures
        !lex_lt(a, a),
    decreases a.len(),
{
    if a.len() > 0 {
        lemma_lex_lt_irreflexive(a.skip(1));
    }
}


/// Characters with the same code point are the same character.
proof fn lemma_char_code_injective(x: char, y: char)
    requires
        x as u32 == y as u32,
    ensures
        x == y,
{
}

/// Lexicographic order is total: distinct sequences compare one way or the
/// other.
pub proof fn lemma_lex_lt_total(a: Seq<char>, b: Seq<char>)
    requires
        a != b,
    ensures
        lex_lt(a, b) || lex_lt(b, a),
    decreases a.len(),
{
    if a.len() == 0 {
        if b.len() == 0 {
            assert(a =~= b);
        }
    } else if b.len() == 0 {
    } else if a[0] != b[0] {
        if a[0] as u32 == b[0] as u32 {
            lemma_char_code_injective(a[0], b[0]);
        }
        assert((a[0] as u32) != (b[0] as u32));
    } else {
        if a.skip(1) == b.skip(1) {
            assert(a.skip(1).len() == a.len() - 1);
            assert(b.skip(1).len() == b.len() - 1);
            assert(a.len() == b.len());
            assert forall|i: int| 0 <= i < a.len() implies a[i] == b[i] by {
                if i > 0 {
                    assert(a.skip(1)[i - 1] == a[i]);
                    assert(b.skip(1)[i - 1] == b[i]);
                }
            }
            assert(a =~= b);
        }
        lemma_lex_lt_total(a.skip(1), b.skip(1));
    }
}

/// Lexicographic order is transitive.
pub proof fn lemma_lex_lt_transitive(a: Seq<char>, b: Seq<char>, c: Seq<char>)
    requires
        lex_lt(a, b),
        lex_lt(b, c),
    ensures
        lex_lt(a, c),
    decreases b.len(),
{
    if a.len() > 0 && b.len() > 0 && c.len() > 0 {
        if a[0] == b[0] && b[0] == c[0] {
            lemma_lex_lt_transitive(a.skip(1), b.skip(1), c.skip(1));
        }
    }
}

/// Equality test on string slices, decided character by character.
pub fn str_eq(a: &str, b: &str) -> (r: bool)
    ensures
        r == (a@ == b@),
{
    let alen = a.unicode_len();
    let blen = b.unicode_len();
    if alen != blen {
        proof {
            assert(a@ != b@) by {
                if a@ == b@ {
                    assert(a@.len() == b@.len());
                }
            }
        }
        return false;
    }
    let mut i: usize = 0;
    while i < alen
        invariant
            alen == a@.len(),
            alen == b@.len(),
            i <= alen,
            forall|j: int| 0 <= j < i ==> a@[j] == b@[j],
        decreases alen - i,
    {
        if a.get_char(i) != b.get_char(i) {
            return false;
        }
        i += 1;
    }
    proof {
        assert(a@ =~= b@);
    }
    true
}

/// Strict lexicographic comparison of string slices.
pub fn str_lt(a: &str, b: &str) -> (r: bool)
    ensures
        r == lex_lt(a@, b@),
    decreases a@.len(),
{
    let alen = a.unicode_len();
    let blen = b.unicode_len();
    if blen == 0 {
        false
    } else if alen == 0 {
        true
    } else {
        let ca = a.get_char(0);
        let cb = b.get_char(0);
        if ca != cb {
            (ca as u32) < (cb as u32)
        } else {
            let ar = a.substring_char(1, alen);
            let br = b.substring_char(1, blen);
            proof {
                assert(ar@ =~= a@.skip(1));
                assert(br@ =~= b@.skip(1));
            }
            str_lt(ar, br)
        }
    }
}

/// The decimal digit character for a value below ten.
pub open spec fn digit_char(d: int) -> char {
    if d == 0 {
        '0'
    } else if d == 1 {
        '1'
    } else if d == 2 {
        '2'
    } else if d == 3 {
        '3'
    } else if d == 4 {
        '4'
    } else if d == 5 {
        '5'
    } else if d == 6 {
        '6'
    } else if d == 7 {
        '7'
    } else if d == 8 {
        '8'
    } else {
        '9'
    }
}

/// Decimal rendering of a non-negative integer, most significant digit first.
pub open spec fn dec_digits(n: int) -> Seq<char>
    decreases n,
{
    if n < 10 {
        seq![digit_char(n)]
    } else {
        dec_digits(n / 10) + seq![digit_char(n % 10)]
    }
}

/// Decimal rendering of a possibly negative integer.
pub open spec fn dec_int(n: int) -> Seq<char> {
    if n < 0 {
        seq!['-'] + dec_digits(-n)
    } else {
        dec_digits(n)
    }
}

fn digit_to_string(d: u64) -> (s: String)
    requires
        d < 10,
    ensures
        s@ =~= seq![digit_char(d as int)],
{
    let s = if d == 0 {
        String::from_str("0")
    } else if d == 1 {
        String::from_str("1")
    } else if d == 2 {
        String::from_str("2")
    } else if d == 3 {
        String::from_str("3")
    } else if d == 4 {
        String::from_str("4")
    } else if d == 5 {
        String::from_str("5")
    } else if d == 6 {
        String::from_str("6")
    } else if d == 7 {
        String::from_str("7")
    } else if d == 8 {
        String::from_str("8")
    } else {
        String::from_str("9")
    };
    proof {
        reveal_strlit("0");
        reveal_strlit("1");
        reveal_strlit("2");
        reveal_strlit("3");
        reveal_strlit("4");
        reveal_strlit("5");
        reveal_strlit("6");
        reveal_strlit("7");
        reveal_strlit("8");
        reveal_strlit("9");
    }
    s
}

/// Render an unsigned integer in decimal.
pub fn u64_to_string(n: u64) -> (s: String)
    ensures
        s@ == dec_digits(n as int),
    decreases n,
{
    if n < 10 {
        digit_to_string(n)
    } else {
        let high = u64_to_string(n / 10);
        let low = digit_to_string(n % 10);
        let s = high.concat(low.as_str());
        proof {
            assert(s@ =~= dec_digits(n as int));
        }
        s
    }
}

/// Render a signed integer in decimal, with a leading minus sign if negative.
pub fn i64_to_string(n: i64) -> (s: String)
    ensures
        s@ == dec_int(n as int),
{
    if n >= 0 {
        u64_to_string(n as u64)
    } else {
        // Two's-complement-safe magnitude: -(n + 1) fits in i64 for all n < 0.
        let mag: u64 = ((-(n + 1)) as u64) + 1;
        let digits = u64_to_string(mag);
        let s = String::from_str("-").concat(digits.as_str());
        proof {
            reveal_strlit("-");
            assert(("-")@ =~= seq!['-']);
            assert(s@ =~= dec_int(n as int));
        }
        s
    }
}

/// Render an `i32` in decimal.
pub fn i32_to_string(n: i32) -> (s: String)
    ensures
        s@ == dec_int(n as int),
{
    i64_to_string(n as i64)
}

/// Render a `usize` in decimal.
pub fn usize_to_string(n: usize) -> (s: String)
    ensures
        s@ == dec_digits(n as int),
{
    u64_to_string(n as u64)
}

/// Whether a character is a decimal digit.
pub open spec fn is_digit(c: char) -> bool {
    '0' <= c && c <= '9'
}

/// The numeric value of a digit character.
pub open spec fn digit_value(c: char) -> int {
    c as int - '0' as int
}

/// Whether every character of a sequence is a decimal digit.
pub open spec fn all_digits(s: Seq<char>) -> bool {
    forall|i: int| 0 <= i < s.len() ==> is_digit(#[trigger] s[i])
}

/// The value of a digit sequence read in decimal, most significant first.
pub open spec fn dec_value(s: Seq<char>) -> int
    decreases s.len(),
{
    if s.len() == 0 {
        0
    } else {
        dec_value(s.drop_last()) * 10 + digit_value(s.last())
    }
}


/// A digit character reads back as its digit.
proof fn lemma_digit_roundtrip(d: int)
    requires
        0 <= d < 10,
    ensures
        digit_value(digit_char(d)) == d,
        is_digit(digit_char(d)),
{
}

/// Reading back a rendered number yields the number: decimal rendering and
/// decimal value are inverses on non-negative integers.
pub proof fn lemma_dec_digits_value(n: int)
    requires
        n >= 0,
    ensures
        all_digits(dec_digits(n)),
        dec_value(dec_digits(n)) == n,
        dec_digits(n).len() >= 1,
    decreases n,
{
    if n < 10 {
        lemma_digit_roundtrip(n);
        let s = dec_digits(n);
        assert(s =~= seq![digit_char(n)]);
        assert(s.drop_last() =~= Seq::<char>::empty());
        assert(dec_value(Seq::<char>::empty()) == 0);
        assert(s.last() == digit_char(n));
        assert(dec_value(s) == dec_value(s.drop_last()) * 10 + digit_value(s.last()));
        assert(dec_value(s) == n);
    } else {
        lemma_dec_digits_value(n / 10);
        lemma_digit_roundtrip(n % 10);
        vstd::arithmetic::div_mod::lemma_fundamental_div_mod(n, 10);
        let s = dec_digits(n);
        assert(s.drop_last() =~= dec_digits(n / 10));
        assert(s.last() == digit_char(n % 10));
        assert(dec_value(s) == dec_value(dec_digits(n / 10)) * 10 + digit_value(
            digit_char(n % 10),
        ));
        assert(all_digits(s)) by {
            assert(forall|i: int|
                0 <= i < s.len() - 1 ==> s[i] == dec_digits(n / 10)[i]);
        }
    }
}

/// Distinct non-negative integers render to distinct digit strings.
pub proof fn lemma_dec_digits_injective(m: int, n: int)
    requires
        m >= 0,
        n >= 0,
        m != n,
    ensures
        dec_digits(m) != dec_digits(n),
{
    lemma_dec_digits_value(m);
    lemma_dec_digits_value(n);
    if dec_digits(m) == dec_digits(n) {
        assert(dec_value(dec_digits(m)) == dec_value(dec_digits(n)));
    }
}

/// Parse a sequence of digit characters as a `u64`.
/// Returns `None` when the slice is empty, contains a non-digit, or the value
/// does not fit in a `u64`.
pub fn parse_u64(chars: &Vec<char>, from: usize, to: usize) -> (r: Option<u64>)
    requires
        from <= to <= chars@.len(),
    ensures
        match r {
            Some(v) => {
                &&& from < to
                &&& all_digits(chars@.subrange(from as int, to as int))
                &&& v as int == dec_value(chars@.subrange(from as int, to as int))
            },
            None => from >= to || !all_digits(chars@.subrange(from as int, to as int))
                || dec_value(chars@.subrange(from as int, to as int)) > u64::MAX,
        },
{
    if from >= to {
        return None;
    }
    let mut acc: u64 = 0;
    let mut i: usize = from;
    while i < to
        invariant
            from <= i <= to <= chars@.len(),
            all_digits(chars@.subrange(from as int, i as int)),
            acc as int == dec_value(chars@.subrange(from as int, i as int)),
        decreases to - i,
    {
        let c = chars[i];
        if c < '0' || c > '9' {
            proof {
                assert(chars@.subrange(from as int, to as int)[i - from] == c);
                assert(!is_digit(c));
            }
            return None;
        }
        let d: u64 = (c as u32 as u64) - 48;
        if acc > (u64::MAX - d) / 10 {
            proof {
                let sub = chars@.subrange(from as int, to as int);
                if all_digits(sub) {
                    assert(chars@.subrange(from as int, i + 1 as int) =~= sub.subrange(
                        0,
                        i + 1 - from,
                    ));
                    assert(chars@.subrange(from as int, i as int) =~= chars@.subrange(
                        from as int,
                        i + 1 as int,
                    ).drop_last());
                    assert(chars@.subrange(from as int, i + 1 as int).last() == c);
                    assert((u64::MAX - d) / 10 * 10 + 9 >= u64::MAX - d);
                    assert(dec_value(chars@.subrange(from as int, i + 1 as int)) > u64::MAX);
                    lemma_dec_value_monotonic(sub, i + 1 - from);
                }
            }
            return None;
        }
        proof {
            assert(chars@.subrange(from as int, i as int) =~= chars@.subrange(
                from as int,
                i + 1 as int,
            ).drop_last());
            assert(chars@.subrange(from as int, i + 1 as int).last() == c);
        }
        acc = acc * 10 + d;
        i += 1;
    }
    proof {
        assert(chars@.subrange(from as int, i as int) =~= chars@.subrange(from as int, to as int));
    }
    Some(acc)
}

/// A digit sequence's value never decreases when digits are appended:
/// the value of any prefix is at most the value of the whole, provided
/// every character is a digit.
proof fn lemma_dec_value_monotonic(s: Seq<char>, k: int)
    requires
        0 <= k <= s.len(),
        all_digits(s),
    ensures
        dec_value(s.subrange(0, k)) <= dec_value(s),
    decreases s.len() - k,
{
    if k < s.len() {
        assert(s.subrange(0, k) =~= s.subrange(0, k + 1).drop_last());
        assert(is_digit(s.subrange(0, k + 1).last()));
        assert(all_digits(s.subrange(0, k)));
        lemma_dec_value_nonneg(s.subrange(0, k));
        lemma_dec_value_monotonic(s, k + 1);
    } else {
        assert(s.subrange(0, k) =~= s);
    }
}

/// The value of an all-digit sequence is non-negative.
pub proof fn lemma_dec_value_nonneg(s: Seq<char>)
    requires
        all_digits(s),
    ensures
        dec_value(s) >= 0,
    decreases s.len(),
{
    if s.len() > 0 {
        assert(all_digits(s.drop_last())) by {
            assert(forall|i: int| 0 <= i < s.len() - 1 ==> s.drop_last()[i] == s[i]);
        }
        lemma_dec_value_nonneg(s.drop_last());
        assert(is_digit(s.last()));
    }
}

/// Convert a string slice to the vector of its characters.
pub fn str_to_chars(s: &str) -> (v: Vec<char>)
    ensures
        v@ == s@,
{
    let len = s.unicode_len();
    let mut v: Vec<char> = Vec::new();
    let mut i: usize = 0;
    while i < len
        invariant
            len == s@.len(),
            i <= len,
            v@ =~= s@.subrange(0, i as int),
        decreases len - i,
    {
        v.push(s.get_char(i));
        i += 1;
    }
    proof {
        assert(v@ =~= s@);
    }
    v
}

} // verus!
